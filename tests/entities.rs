use digital_bloom::color::Rgb;
use digital_bloom::lightning::{plan_bolt, Lightning, BOLT_DECAY, SEGMENT_POINTS};
use digital_bloom::particle::{Particle, ParticleMode, FULL_LIFE};
use digital_bloom::random::{Lcg, DRAW_RANGE};
use digital_bloom::vine::Vine;

const PINK: Rgb = Rgb { r: 255, g: 105, b: 180 };

#[test]
fn particle_decay_per_mode() {
    assert_eq!(ParticleMode::Gravity.decay(), 5);
    assert_eq!(ParticleMode::Bounce.decay(), 5);
    assert_eq!(ParticleMode::Burst.decay(), 5);
    assert_eq!(ParticleMode::Constellation.decay(), 2);
    assert_eq!(ParticleMode::Vortex.decay(), 3);
}

#[test]
fn particle_life_falls_each_tick_until_spent() {
    let mut p = Particle::new(0u32, ParticleMode::Gravity, PINK);
    assert_eq!(p.life(), FULL_LIFE);
    let mut ticks = 0;
    let mut last = p.life();
    while p.update(ticks, true) {
        ticks += 1;
        assert!(p.life() < last);
        assert!(p.life() > 0);
        last = p.life();
    }
    assert_eq!(ticks, 199);
    assert_eq!(p.life(), 0);
    assert_eq!(p.kin, 199);
}

#[test]
fn particle_out_of_view_dies() {
    let mut p = Particle::new(0u32, ParticleMode::Vortex, PINK);
    assert!(!p.update(1, false));
    assert_eq!(p.life(), 997);
    assert_eq!(p.color(), PINK);
}

#[test]
fn vine_grows_to_budget_plus_one() {
    let mut v = Vine::new(0u32, (0i32, 0i32), 3, PINK);
    assert!(v.update(1, Some((1, 1))));
    assert!(v.update(2, Some((2, 2))));
    assert!(!v.update(3, Some((3, 3))));
    assert!(v.is_grown());
    assert_eq!(v.points().len(), 4);
    assert!(!v.update(4, Some((4, 4))));
    assert_eq!(v.points().len(), 4);
    assert_eq!(v.walker, 3);
}

#[test]
fn vine_leaving_canvas_stops_without_point() {
    let mut v = Vine::new(0u32, (0i32, 0i32), 50, PINK);
    assert!(v.update(1, Some((1, 1))));
    assert!(!v.update(2, None));
    assert!(v.is_grown());
    assert_eq!(v.points(), &vec![(0, 0), (1, 1)]);
}

#[test]
fn vine_fades_from_oldest_point() {
    let mut v = Vine::new(0u32, (0i32, 0i32), 50, PINK);
    v.update(1, Some((1, 1)));
    v.update(2, Some((2, 2)));
    assert!(v.fade());
    assert_eq!(v.points(), &vec![(1, 1), (2, 2)]);
    assert!(!v.fade());
    assert_eq!(v.points(), &vec![(2, 2)]);
    assert!(!v.fade());
    assert!(!v.fade());
    assert!(v.points().is_empty());
}

#[test]
fn bolt_plans_have_bolt_shape() {
    let mut g = Lcg::new(3);
    let palette = vec!["#ff69b4", "#00ffff", "#7fff00"];
    for _ in 0..200 {
        let p = plan_bolt(&mut g, &palette);
        assert_eq!(p.offsets.len(), 16);
        assert!(p.branches.len() >= 2 && p.branches.len() <= 4);
        for b in &p.branches {
            assert!(b.offsets.len() + 1 >= 6 && b.offsets.len() + 1 <= 10);
            assert!(b.root >= 1 && b.root <= 12);
            assert!((b.angle as u64) < DRAW_RANGE);
        }
        assert!(palette.iter().any(|c| Rgb::from_hex(c) == p.color));
    }
}

#[test]
fn bolt_shape_is_checked() {
    let seg: Vec<(i32, i32)> = (0..SEGMENT_POINTS as i32).map(|i| (i, i)).collect();
    let branch: Vec<(i32, i32)> = (0..6).map(|i| (i, -i)).collect();
    assert!(Lightning::new(seg.clone(), vec![branch.clone(), branch.clone()], PINK, 0).is_some());
    assert!(Lightning::new(seg.clone(), vec![branch.clone()], PINK, 0).is_none());
    assert!(Lightning::new(seg[1..].to_vec(), vec![branch.clone(), branch.clone()], PINK, 0).is_none());
    let short: Vec<(i32, i32)> = (0..5).map(|i| (i, i)).collect();
    assert!(Lightning::new(seg, vec![branch, short], PINK, 0).is_none());
}

#[test]
fn bolt_lives_fifty_ticks() {
    let seg: Vec<(i32, i32)> = (0..16).map(|i| (i, i)).collect();
    let branch: Vec<(i32, i32)> = (0..7).map(|i| (i, i)).collect();
    let mut l = Lightning::new(seg, vec![branch.clone(), branch.clone(), branch], PINK, 9).unwrap();
    let mut ticks = 0;
    while l.update() {
        ticks += 1;
    }
    assert_eq!(ticks, 1000 / BOLT_DECAY - 1);
    assert_eq!(l.life, 0);
    assert_eq!(l.segments.len(), 16);
}
