//! Particles: their kinematic mode, colour and decaying life. Positions and
//! velocities are the host's `K`; the life counter and its rules are here.
use vstd::prelude::*;
use crate::color::Rgb;

verus! {

/// Life is counted in thousandths: a new particle has `FULL_LIFE`.
pub const FULL_LIFE: u32 = 1000;

#[derive(Clone, Copy, Debug, PartialEq, Eq, Structural)]
pub enum ParticleMode {
    Gravity,
    Bounce,
    Burst,
    Constellation,
    Vortex,
}

/// Life lost per tick, in thousandths.
pub open spec fn decay_of(m: ParticleMode) -> u32 {
    match m {
        ParticleMode::Constellation => 2,
        ParticleMode::Vortex => 3,
        _ => 5,
    }
}

/// Random draws that one particle of a mode needs when spawned: gravity and
/// bounce draw a velocity, burst a speed, constellation an offset and a
/// velocity, vortex an angular jitter and a radius. With `random_sizes`,
/// burst and constellation particles also draw their size, last.
pub open spec fn draws_of(m: ParticleMode, random_sizes: bool) -> nat {
    match m {
        ParticleMode::Gravity => 2,
        ParticleMode::Bounce => 2,
        ParticleMode::Burst => if random_sizes { 2 } else { 1 },
        ParticleMode::Constellation => if random_sizes { 5 } else { 4 },
        ParticleMode::Vortex => 2,
    }
}

impl ParticleMode {
    pub fn decay(&self) -> (d: u32)
        ensures
            d == decay_of(*self),
            d > 0,
    {
        match self {
            ParticleMode::Constellation => 2,
            ParticleMode::Vortex => 3,
            _ => 5,
        }
    }

    pub fn draws_per_particle(&self, random_sizes: bool) -> (n: usize)
        ensures
            n == draws_of(*self, random_sizes),
    {
        match self {
            ParticleMode::Gravity => 2,
            ParticleMode::Bounce => 2,
            ParticleMode::Burst => if random_sizes {
                2
            } else {
                1
            },
            ParticleMode::Constellation => if random_sizes {
                5
            } else {
                4
            },
            ParticleMode::Vortex => 2,
        }
    }
}

pub struct Particle<K> {
    pub kin: K,
    pub mode: ParticleMode,
    pub color: Rgb,
    pub life: u32,
}

/// A particle's life after one tick (never below zero).
pub open spec fn aged_life(life: u32, m: ParticleMode) -> u32 {
    if life > decay_of(m) {
        (life - decay_of(m)) as u32
    } else {
        0
    }
}

/// Whether a particle survives a tick: life is left and it is still within
/// the extended viewport.
pub open spec fn survives<K>(p: Particle<K>, in_view: bool) -> bool {
    p.life > decay_of(p.mode) && in_view
}

/// The particle after a tick that moved it to `kin`.
pub open spec fn stepped<K>(p: Particle<K>, kin: K) -> Particle<K> {
    Particle { kin, mode: p.mode, color: p.color, life: aged_life(p.life, p.mode) }
}

/// What remains of `ps` after a tick in which particle `i` moved to
/// `moved[i].0` and `moved[i].1` tells whether it is in view, in order.
pub open spec fn survivors<K>(ps: Seq<Particle<K>>, moved: Seq<(K, bool)>) -> Seq<Particle<K>>
    decreases ps.len(),
{
    if ps.len() == 0 {
        Seq::empty()
    } else {
        let n = ps.len() - 1;
        let prev = survivors(ps.drop_last(), moved);
        if survives(ps[n], moved[n].1) {
            prev.push(stepped(ps[n], moved[n].0))
        } else {
            prev
        }
    }
}

impl<K> Particle<K> {
    pub fn new(kin: K, mode: ParticleMode, color: Rgb) -> (p: Particle<K>)
        ensures
            p == (Particle { kin, mode, color, life: FULL_LIFE }),
    {
        Particle { kin, mode, color, life: FULL_LIFE }
    }

    /// One tick: the host has moved the particle to `kin`; its life drops by
    /// its mode's decay. Returns whether it lives on.
    pub fn update(&mut self, kin: K, in_view: bool) -> (alive: bool)
        ensures
            *final(self) == stepped(*old(self), kin),
            alive == survives(*old(self), in_view),
    {
        let d = self.mode.decay();
        let alive = self.life > d && in_view;
        self.life = if self.life > d {
            self.life - d
        } else {
            0
        };
        self.kin = kin;
        alive
    }

    pub fn life(&self) -> (l: u32)
        ensures
            l == self.life,
    {
        self.life
    }

    pub fn color(&self) -> (c: Rgb)
        ensures
            c == self.color,
    {
        self.color
    }
}

/// A particle's life only ever falls while it lives, and one whose life is
/// spent is not among the survivors of the tick.
pub proof fn law_life_decreases<K>(ps: Seq<Particle<K>>, moved: Seq<(K, bool)>)
    requires
        moved.len() >= ps.len(),
    ensures
        survivors(ps, moved).len() <= ps.len(),
        forall|i: int|
            0 <= i < survivors(ps, moved).len() ==> #[trigger] survivors(ps, moved)[i].life > 0
                && exists|j: int|
                0 <= j < ps.len() && survivors(ps, moved)[i].life < ps[j].life
                    && survivors(ps, moved)[i] == stepped(ps[j], moved[j].0),
    decreases ps.len(),
{
    if ps.len() > 0 {
        let n = ps.len() - 1;
        law_life_decreases(ps.drop_last(), moved);
        let prev = survivors(ps.drop_last(), moved);
        assert forall|i: int| 0 <= i < survivors(ps, moved).len() implies #[trigger] survivors(
            ps,
            moved,
        )[i].life > 0 && exists|j: int|
            0 <= j < ps.len() && survivors(ps, moved)[i].life < ps[j].life && survivors(
                ps,
                moved,
            )[i] == stepped(ps[j], moved[j].0) by {
            if i < prev.len() {
                let j = choose|j: int|
                    0 <= j < ps.drop_last().len() && prev[i].life < ps.drop_last()[j].life
                        && prev[i] == stepped(ps.drop_last()[j], moved[j].0);
                assert(ps.drop_last()[j] == ps[j]);
            } else {
                assert(survivors(ps, moved)[i] == stepped(ps[n], moved[n].0));
            }
        }
    }
}

} // verus!
