use digital_bloom::color::{parse_hex_color, Rgb};

#[test]
fn test_hex_color_parsing() {
    assert_eq!(parse_hex_color("#ff00ff"), (255, 0, 255));
    assert_eq!(parse_hex_color("#00ffff"), (0, 255, 255));
    assert_eq!(parse_hex_color("ff0000"), (255, 0, 0));
}

#[test]
fn colour_without_hash_is_read() {
    assert_eq!(parse_hex_color("00ffff"), (0, 255, 255));
}

#[test]
fn invalid_digits_fall_back_to_white() {
    assert_eq!(parse_hex_color("#zz0000"), (255, 255, 255));
    assert_eq!(parse_hex_color("#+f+f+f"), (255, 255, 255));
}

#[test]
fn wrong_length_falls_back_to_white() {
    assert_eq!(parse_hex_color(""), (255, 255, 255));
    assert_eq!(parse_hex_color("#"), (255, 255, 255));
    assert_eq!(parse_hex_color("#fff"), (255, 255, 255));
    assert_eq!(parse_hex_color("#ff00ff0"), (255, 255, 255));
    assert_eq!(parse_hex_color("aé1234"), (255, 255, 255));
}

#[test]
fn mixed_case_digits() {
    assert_eq!(parse_hex_color("#AdFf2F"), (0xad, 0xff, 0x2f));
}

#[test]
fn only_one_hash_is_stripped() {
    assert_eq!(parse_hex_color("##d8bfd8"), (255, 255, 255));
    assert_eq!(parse_hex_color("##ff00ff"), (255, 255, 255));
    assert_eq!(parse_hex_color("#ff00f#"), (255, 255, 255));
}

#[test]
fn rgb_from_hex_matches_parse() {
    assert_eq!(Rgb::from_hex("#ff8c00"), Rgb { r: 255, g: 140, b: 0 });
    assert_eq!(Rgb::from_hex("nonsense"), Rgb { r: 255, g: 255, b: 255 });
}
