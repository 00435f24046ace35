//! Palette colours written as `#rrggbb` and their resolution to bytes.
use vstd::prelude::*;

verus! {

/// An opaque 24-bit colour.
#[derive(Clone, Copy, Debug, PartialEq, Eq, Structural)]
pub struct Rgb {
    pub r: u8,
    pub g: u8,
    pub b: u8,
}

/// The colour used when a palette entry cannot be read.
pub open spec fn white() -> (u8, u8, u8) {
    (255u8, 255u8, 255u8)
}

/// The value of one hexadecimal digit, either case.
pub open spec fn hex_digit_value(c: char) -> Option<nat> {
    if '0' <= c && c <= '9' {
        Some((c as nat - '0' as nat) as nat)
    } else if 'a' <= c && c <= 'f' {
        Some((c as nat - 'a' as nat + 10) as nat)
    } else if 'A' <= c && c <= 'F' {
        Some((c as nat - 'A' as nat + 10) as nat)
    } else {
        None
    }
}

/// The text without its leading `#`, if it has one.
pub open spec fn strip_hash(s: Seq<char>) -> Seq<char> {
    if s.len() > 0 && s[0] == '#' {
        s.drop_first()
    } else {
        s
    }
}

/// The byte written by the two digits at `i` and `i + 1`.
pub open spec fn byte_at(t: Seq<char>, i: int) -> u8 {
    (hex_digit_value(t[i]).unwrap() * 16 + hex_digit_value(t[i + 1]).unwrap()) as u8
}

/// Exactly six hexadecimal digits.
pub open spec fn is_six_hex_digits(t: Seq<char>) -> bool {
    t.len() == 6 && forall|i: int| 0 <= i < 6 ==> (#[trigger] hex_digit_value(t[i])) is Some
}

/// What a colour string resolves to: its three bytes when, after an
/// optional leading `#`, it holds exactly six hexadecimal digits; opaque
/// white otherwise.
pub open spec fn hex_color(s: Seq<char>) -> (u8, u8, u8) {
    let t = strip_hash(s);
    if is_six_hex_digits(t) {
        (byte_at(t, 0), byte_at(t, 2), byte_at(t, 4))
    } else {
        white()
    }
}

fn digit_value(c: char) -> (r: Option<u8>)
    ensures
        r matches Some(v) ==> hex_digit_value(c) == Some(v as nat) && v < 16,
        r is None ==> hex_digit_value(c) is None,
{
    if '0' <= c && c <= '9' {
        Some(((c as u32) - ('0' as u32)) as u8)
    } else if 'a' <= c && c <= 'f' {
        Some(((c as u32) - ('a' as u32) + 10) as u8)
    } else if 'A' <= c && c <= 'F' {
        Some(((c as u32) - ('A' as u32) + 10) as u8)
    } else {
        None
    }
}

/// Resolves a colour string such as `"#ff00ff"` to its red, green and blue
/// bytes, falling back to white when it is not six hexadecimal digits after
/// an optional `#`.
pub fn parse_hex_color(hex: &str) -> (r: (u8, u8, u8))
    ensures
        r == hex_color(hex@),
{
    let n = hex.unicode_len();
    let k: usize = if n > 0 && hex.get_char(0) == '#' {
        1
    } else {
        0
    };
    let ghost t = hex@.subrange(k as int, n as int);
    assert(strip_hash(hex@) =~= t);
    if n - k != 6 {
        return (255, 255, 255);
    }
    let mut digits: Vec<u8> = Vec::new();
    let mut i: usize = 0;
    while i < 6
        invariant
            n == hex@.len(),
            k + 6 == n,
            t == hex@.subrange(k as int, n as int),
            strip_hash(hex@) == t,
            i <= 6,
            digits@.len() == i,
            forall|j: int| 0 <= j < i ==> hex_digit_value(#[trigger] t[j]) == Some(digits@[j] as nat),
            forall|j: int| 0 <= j < i ==> digits@[j] < 16,
        decreases 6 - i,
    {
        let c = hex.get_char(k + i);
        assert(c == t[i as int]);
        match digit_value(c) {
            Some(v) => {
                digits.push(v);
            },
            None => {
                assert(hex_digit_value(t[i as int]) is None);
                assert(!is_six_hex_digits(t));
                return (255, 255, 255);
            },
        }
        i = i + 1;
    }
    assert(is_six_hex_digits(t));
    let r = digits[0] * 16 + digits[1];
    let g = digits[2] * 16 + digits[3];
    let b = digits[4] * 16 + digits[5];
    (r, g, b)
}

impl Rgb {
    /// The colour that a palette string resolves to.
    pub fn from_hex(hex: &str) -> (c: Rgb)
        ensures
            c == rgb_of(hex@),
    {
        let (r, g, b) = parse_hex_color(hex);
        Rgb { r, g, b }
    }
}

/// The colour that a palette entry resolves to.
pub open spec fn rgb_of(s: Seq<char>) -> Rgb {
    Rgb { r: hex_color(s).0, g: hex_color(s).1, b: hex_color(s).2 }
}

} // verus!
