use digital_bloom::bloom::{
    DigitalBloom, DigitalBloomError, SpawnMode, MAX_LENGTH, MAX_PARTICLES, MIN_LENGTH,
};
use digital_bloom::capacity::evict_oldest;
use digital_bloom::color::Rgb;
use digital_bloom::lightning::Lightning;
use digital_bloom::particle::ParticleMode;

type Bloom = DigitalBloom<u32, u32, (i32, i32)>;

fn bolt() -> Lightning<(i32, i32)> {
    let seg: Vec<(i32, i32)> = (0..16).map(|i| (i, i)).collect();
    let branch: Vec<(i32, i32)> = (0..6).map(|i| (i, i)).collect();
    Lightning::new(seg, vec![branch.clone(), branch], Rgb { r: 255, g: 255, b: 255 }, 0).unwrap()
}

#[test]
fn spawn_tags() {
    assert_eq!(SpawnMode::from_tag(0), Ok(SpawnMode::Vine));
    assert_eq!(SpawnMode::from_tag(1), Ok(SpawnMode::Gravity));
    assert_eq!(SpawnMode::from_tag(4), Ok(SpawnMode::Lightning));
    assert_eq!(SpawnMode::from_tag(6), Ok(SpawnMode::Vortex));
    assert_eq!(SpawnMode::from_tag(7), Err(DigitalBloomError::InvalidMode));
    assert_eq!(SpawnMode::from_tag(255), Err(DigitalBloomError::InvalidMode));
    assert_eq!(SpawnMode::Burst.particle_mode(), Some(ParticleMode::Burst));
    assert_eq!(SpawnMode::Vine.particle_mode(), None);
}

#[test]
fn batch_draws_match_mode() {
    let mut b: Bloom = DigitalBloom::new();
    let batch = b.draw_particles(ParticleMode::Constellation, 5);
    assert_eq!(batch.draws.len(), 5);
    assert!(batch.draws.iter().all(|d| d.len() == 4));
    let batch = b.draw_particles(ParticleMode::Burst, 3);
    assert!(batch.draws.iter().all(|d| d.len() == 1));
}

#[test]
fn capacity_evicts_oldest_first() {
    let mut b: Bloom = DigitalBloom::new();
    let pink = Rgb { r: 255, g: 105, b: 180 };
    b.add_particles(ParticleMode::Gravity, pink, (0..500).collect());
    assert_eq!(b.particles_len(), MAX_PARTICLES);
    b.add_particles(ParticleMode::Burst, pink, (500..505).collect());
    assert_eq!(b.particles_len(), 500);
    let kins: Vec<u32> = b.particles_slice().iter().map(|p| p.kin).collect();
    assert_eq!(kins, (5..505).collect::<Vec<u32>>());
}

#[test]
fn capacity_ignores_remaining_life() {
    let mut b: Bloom = DigitalBloom::new();
    let pink = Rgb { r: 255, g: 105, b: 180 };
    b.add_particles(ParticleMode::Constellation, pink, vec![0]);
    b.add_particles(ParticleMode::Gravity, pink, (1..500).collect());
    let moved: Vec<(u32, bool)> = b.particles_slice().iter().map(|p| (p.kin, true)).collect();
    b.advance_particles(moved);
    b.add_particles(ParticleMode::Burst, pink, vec![900]);
    assert_eq!(b.particles_slice()[0].kin, 1);
    assert_eq!(b.particles_slice()[499].kin, 900);
}

#[test]
fn evict_oldest_keeps_short_collections() {
    let mut v = vec![1, 2, 3];
    evict_oldest(&mut v, 5);
    assert_eq!(v, vec![1, 2, 3]);
    evict_oldest(&mut v, 2);
    assert_eq!(v, vec![2, 3]);
    evict_oldest(&mut v, 0);
    assert!(v.is_empty());
}

#[test]
fn particle_tick_drops_out_of_view_and_spent() {
    let mut b: Bloom = DigitalBloom::new();
    let pink = Rgb { r: 255, g: 105, b: 180 };
    b.add_particles(ParticleMode::Gravity, pink, vec![1, 2, 3]);
    b.advance_particles(vec![(10, true), (20, false), (30, true)]);
    let ps = b.particles_slice();
    assert_eq!(ps.len(), 2);
    assert_eq!((ps[0].kin, ps[0].life), (10, 995));
    assert_eq!((ps[1].kin, ps[1].life), (30, 995));
    for _ in 0..198 {
        let moved: Vec<(u32, bool)> = b.particles_slice().iter().map(|p| (p.kin, true)).collect();
        b.advance_particles(moved);
    }
    assert_eq!(b.particles_slice()[0].life, 5);
    b.advance_particles(vec![(0, true), (0, true)]);
    assert_eq!(b.particles_len(), 0);
}

#[test]
fn vine_budget_from_draw() {
    let mut b: Bloom = DigitalBloom::new();
    for _ in 0..50 {
        let d = b.draw_vine();
        assert!(d.max_points >= MIN_LENGTH as usize);
        assert!(d.max_points < (MIN_LENGTH + MAX_LENGTH) as usize);
    }
}

#[test]
fn vines_stop_and_go_without_fading() {
    let mut b: Bloom = DigitalBloom::new();
    b.add_vine(0, (0, 0), Rgb { r: 1, g: 2, b: 3 }, 50);
    b.add_vine(0, (5, 5), Rgb { r: 1, g: 2, b: 3 }, 50);
    b.advance_vines(vec![(1, Some((1, 1))), (1, None)]);
    assert_eq!(b.vines_slice().len(), 1);
    assert_eq!(b.vines_slice()[0].points(), &vec![(0, 0), (1, 1)]);
    assert!(b.grown_vines_slice().is_empty());
}

#[test]
fn grown_vines_fade_when_configured() {
    let mut b: Bloom = DigitalBloom::with_options(9, true, Some(20), false);
    b.add_vine(0, (0, 0), Rgb { r: 1, g: 2, b: 3 }, 2);
    b.advance_vines(vec![(1, Some((1, 1)))]);
    assert_eq!(b.vines_slice().len(), 1);
    b.advance_vines(vec![(2, Some((2, 2)))]);
    assert!(b.vines_slice().is_empty());
    assert_eq!(b.grown_vines_slice().len(), 1);
    assert_eq!(b.grown_vines_slice()[0].points(), &vec![(1, 1), (2, 2)]);
    b.advance_vines(vec![]);
    assert!(b.grown_vines_slice().is_empty());
}

#[test]
fn lightning_cap_evicts_oldest() {
    let mut b: Bloom = DigitalBloom::with_options(1, true, Some(20), false);
    for i in 0..25u32 {
        let mut l = bolt();
        l.width = i;
        b.add_lightning(l);
    }
    assert_eq!(b.lightnings_slice().len(), 20);
    assert_eq!(b.lightnings_slice()[0].width, 5);
    let mut u: Bloom = DigitalBloom::new();
    for _ in 0..25 {
        u.add_lightning(bolt());
    }
    assert_eq!(u.lightnings_slice().len(), 25);
}

#[test]
fn bolts_fade_out() {
    let mut b: Bloom = DigitalBloom::new();
    b.add_lightning(bolt());
    for _ in 0..49 {
        b.advance_lightnings();
    }
    assert_eq!(b.lightnings_slice().len(), 1);
    assert_eq!(b.lightnings_slice()[0].life, 20);
    b.advance_lightnings();
    assert!(b.lightnings_slice().is_empty());
}

#[test]
fn clear_empties_everything() {
    let mut b: Bloom = DigitalBloom::with_options(5, true, Some(20), false);
    let pink = Rgb { r: 255, g: 105, b: 180 };
    b.add_particles(ParticleMode::Bounce, pink, (0..300).collect());
    b.add_vine(0, (0, 0), pink, 2);
    b.add_vine(0, (0, 0), pink, 2);
    b.advance_vines(vec![(1, Some((1, 1))), (1, Some((1, 1)))]);
    b.advance_vines(vec![(1, Some((1, 1))), (1, None)]);
    b.add_lightning(bolt());
    b.clear();
    assert_eq!(b.particles_len(), 0);
    assert!(b.vines_slice().is_empty());
    assert!(b.grown_vines_slice().is_empty());
    assert!(b.lightnings_slice().is_empty());
    b.clear();
    assert_eq!(b.particles_len(), 0);
}

#[test]
fn same_seed_same_spawns() {
    let mut a: Bloom = DigitalBloom::with_options(77, false, None, false);
    let mut c: Bloom = DigitalBloom::with_options(77, false, None, false);
    for mode in [ParticleMode::Gravity, ParticleMode::Vortex, ParticleMode::Constellation] {
        let x = a.draw_particles(mode, 4);
        let y = c.draw_particles(mode, 4);
        assert_eq!(x.color, y.color);
        assert_eq!(x.draws, y.draws);
    }
    let p = a.draw_lightning();
    let q = c.draw_lightning();
    assert_eq!(p.offsets, q.offsets);
    assert_eq!(p.branches.len(), q.branches.len());
    assert_eq!(a.draw_vine().max_points, c.draw_vine().max_points);
}

#[test]
fn palette_colours_resolve() {
    let mut b: Bloom = DigitalBloom::new();
    let palette = [
        Rgb { r: 0xff, g: 0x69, b: 0xb4 },
        Rgb { r: 0x00, g: 0xff, b: 0xff },
        Rgb { r: 0x7f, g: 0xff, b: 0x00 },
        Rgb { r: 0xff, g: 0x00, b: 0xff },
        Rgb { r: 0xff, g: 0x8c, b: 0x00 },
        Rgb { r: 0xad, g: 0xff, b: 0x2f },
        Rgb { r: 0xd8, g: 0xbf, b: 0xd8 },
    ];
    for _ in 0..100 {
        let batch = b.draw_particles(ParticleMode::Bounce, 0);
        assert!(palette.contains(&batch.color));
    }
}

#[test]
fn update_steps_everything_once() {
    let mut b: Bloom = DigitalBloom::with_options(3, true, None, false);
    let pink = Rgb { r: 255, g: 105, b: 180 };
    b.add_particles(ParticleMode::Gravity, pink, vec![1, 2, 3]);
    b.add_vine(0, (0, 0), pink, 50);
    b.add_vine(5, (9, 9), pink, 50);
    b.add_lightning(bolt());
    let step_vine = |w: &u32| -> (u32, Option<(i32, i32)>) {
        if *w < 2 {
            (w + 1, Some((*w as i32 + 1, *w as i32 + 1)))
        } else {
            (w + 1, None)
        }
    };
    b.update(&step_vine, &|k: &u32, _m: ParticleMode| (k * 10, *k != 2));
    let kins: Vec<(u32, u32)> = b.particles_slice().iter().map(|p| (p.kin, p.life)).collect();
    assert_eq!(kins, vec![(10, 995), (30, 995)]);
    assert_eq!(b.vines_slice().len(), 1);
    assert_eq!(b.vines_slice()[0].points(), &vec![(0, 0), (1, 1)]);
    assert!(b.grown_vines_slice().is_empty());
    assert_eq!(b.lightnings_slice()[0].life, 980);
    b.update(&step_vine, &|k: &u32, _m: ParticleMode| (*k, true));
    assert_eq!(b.vines_slice()[0].points(), &vec![(0, 0), (1, 1), (2, 2)]);
    b.update(&step_vine, &|k: &u32, _m: ParticleMode| (*k, true));
    assert!(b.vines_slice().is_empty());
    assert_eq!(b.grown_vines_slice().len(), 1);
    assert_eq!(b.grown_vines_slice()[0].points(), &vec![(1, 1), (2, 2)]);
    b.update(&step_vine, &|k: &u32, _m: ParticleMode| (*k, true));
    assert!(b.grown_vines_slice().is_empty());
    assert_eq!(b.particles_len(), 2);
    assert_eq!(b.lightnings_slice()[0].life, 920);
}

#[test]
fn batch_draws_follow_generator() {
    let mut b: Bloom = DigitalBloom::with_options(11, false, None, false);
    let mut g = digital_bloom::random::Lcg::new(11);
    let batch = b.draw_particles(ParticleMode::Gravity, 3);
    let all = g.draws(7);
    let idx = ((all[0] as u64 * 7) >> 31) as usize;
    let palette = ["#ff69b4", "#00ffff", "#7fff00", "#ff00ff", "#ff8c00", "#adff2f", "#d8bfd8"];
    assert_eq!(batch.color, Rgb::from_hex(palette[idx]));
    assert_eq!(batch.draws, vec![all[1..3].to_vec(), all[3..5].to_vec(), all[5..7].to_vec()]);
    assert_eq!(b.rng, g);
}

#[test]
fn vine_budget_formula() {
    let mut b: Bloom = DigitalBloom::with_options(2, false, None, false);
    let mut g = digital_bloom::random::Lcg::new(2);
    let d = b.draw_vine();
    let all = g.draws(6);
    assert_eq!([d.angle, d.speed, d.turn, d.length, d.width], [all[1], all[2], all[3], all[4], all[5]]);
    assert_eq!(d.max_points as u64, 50 + ((all[4] as u64 * 200) >> 31));
}

#[test]
fn bolt_plan_follows_generator() {
    let mut b: Bloom = DigitalBloom::with_options(5, false, None, false);
    let mut g = digital_bloom::random::Lcg::new(5);
    let p = b.draw_lightning();
    let head = g.draws(20);
    assert_eq!([p.end_x, p.end_y, p.color_draw], [head[0], head[1], head[2]]);
    assert_eq!(p.offsets, head[3..19].to_vec());
    assert_eq!(p.count_draw, head[19]);
    assert_eq!(p.branches.len() as u64, 2 + ((head[19] as u64 * 3) >> 31));
    for br in &p.branches {
        let d = g.draws(3);
        assert_eq!(br.root as u64, 1 + (d[0] as u64 * 112) / (10u64 << 31));
        assert_eq!(br.offsets.len() as u64, 5 + ((d[1] as u64 * 5) >> 31));
        assert_eq!(br.angle, d[2]);
        assert_eq!(br.offsets, g.draws(br.offsets.len()));
    }
    assert_eq!(p.width, g.next_draw());
    assert_eq!(b.rng, g);
    let palette = ["#ff69b4", "#00ffff", "#7fff00", "#ff00ff", "#ff8c00", "#adff2f", "#d8bfd8"];
    let idx = ((head[2] as u64 * 7) >> 31) as usize;
    assert_eq!(p.color, Rgb::from_hex(palette[idx]));
}

#[test]
fn random_sizes_add_a_draw() {
    let mut b: Bloom = DigitalBloom::with_options(4, true, Some(20), true);
    let burst = b.draw_particles(ParticleMode::Burst, 3);
    assert!(burst.draws.iter().all(|d| d.len() == 2));
    let stars = b.draw_particles(ParticleMode::Constellation, 3);
    assert!(stars.draws.iter().all(|d| d.len() == 5));
    let gravity = b.draw_particles(ParticleMode::Gravity, 3);
    assert!(gravity.draws.iter().all(|d| d.len() == 2));
}
