//! The simulation: it owns every particle, vine and bolt, spawns them from
//! its seeded generator, advances them one tick at a time and keeps the
//! particle and bolt collections within their capacities, oldest out first.
use vstd::prelude::*;
use crate::capacity::{evict_oldest, keep_newest, reversed};
use crate::color::Rgb;
use crate::lightning::{BoltPlan, Lightning, bolt_draws, palette_pick, plan_bolt};
use crate::particle::{FULL_LIFE, Particle, ParticleMode, draws_of, survivors};
use crate::random::{Lcg, draw_seq, lcg_next, lcg_nth, lcg_output, lemma_nth_add, scaled, scaled_spec};
use crate::vine::{Vine, VineView};

verus! {

/// Outcome codes of the host-facing operations.
#[derive(Clone, Copy, Debug, PartialEq, Eq, Structural)]
pub enum DigitalBloomError {
    Success,
    NullPointer,
    InvalidMode,
    OutOfMemory,
}

/// The handle type that hosts hold in place of a simulation.
pub struct OpaqueDigitalBloom {
    _private: [u8; 0],
}

/// What a spawn request asks for.
#[derive(Clone, Copy, Debug, PartialEq, Eq, Structural)]
pub enum SpawnMode {
    Vine,
    Gravity,
    Bounce,
    Burst,
    Lightning,
    Constellation,
    Vortex,
}

/// The spawn mode that a host's numeric tag names.
pub open spec fn spawn_mode_of(tag: u8) -> Option<SpawnMode> {
    if tag == 0 {
        Some(SpawnMode::Vine)
    } else if tag == 1 {
        Some(SpawnMode::Gravity)
    } else if tag == 2 {
        Some(SpawnMode::Bounce)
    } else if tag == 3 {
        Some(SpawnMode::Burst)
    } else if tag == 4 {
        Some(SpawnMode::Lightning)
    } else if tag == 5 {
        Some(SpawnMode::Constellation)
    } else if tag == 6 {
        Some(SpawnMode::Vortex)
    } else {
        None
    }
}

impl SpawnMode {
    /// Reads a host's tag; an unknown one is `InvalidMode`.
    pub fn from_tag(tag: u8) -> (r: Result<SpawnMode, DigitalBloomError>)
        ensures
            r == (match spawn_mode_of(tag) {
                Some(m) => Ok(m),
                None => Err(DigitalBloomError::InvalidMode),
            }),
    {
        match tag {
            0 => Ok(SpawnMode::Vine),
            1 => Ok(SpawnMode::Gravity),
            2 => Ok(SpawnMode::Bounce),
            3 => Ok(SpawnMode::Burst),
            4 => Ok(SpawnMode::Lightning),
            5 => Ok(SpawnMode::Constellation),
            6 => Ok(SpawnMode::Vortex),
            _ => Err(DigitalBloomError::InvalidMode),
        }
    }

    /// The particle mode that a spawn of this kind creates, if it creates particles.
    pub fn particle_mode(&self) -> (m: Option<ParticleMode>)
        ensures
            m == (match *self {
                SpawnMode::Gravity => Some(ParticleMode::Gravity),
                SpawnMode::Bounce => Some(ParticleMode::Bounce),
                SpawnMode::Burst => Some(ParticleMode::Burst),
                SpawnMode::Constellation => Some(ParticleMode::Constellation),
                SpawnMode::Vortex => Some(ParticleMode::Vortex),
                _ => None,
            }),
    {
        match self {
            SpawnMode::Gravity => Some(ParticleMode::Gravity),
            SpawnMode::Bounce => Some(ParticleMode::Bounce),
            SpawnMode::Burst => Some(ParticleMode::Burst),
            SpawnMode::Constellation => Some(ParticleMode::Constellation),
            SpawnMode::Vortex => Some(ParticleMode::Vortex),
            _ => None,
        }
    }
}

pub const MAX_PARTICLES: usize = 500;

pub const MAX_LIGHTNINGS: usize = 20;

/// Vine length budgets are drawn from `MIN_LENGTH .. MIN_LENGTH + MAX_LENGTH`.
pub const MAX_LENGTH: u64 = 200;

pub const MIN_LENGTH: u64 = 50;

/// The seed of a simulation made by `new`.
pub const DEFAULT_SEED: u64 = 1;

/// The draws for a batch of particles: one colour for the batch and, for
/// each particle, the draws its mode needs.
pub struct ParticleBatch {
    pub mode: ParticleMode,
    pub color: Rgb,
    pub draws: Vec<Vec<u32>>,
}

/// The draws for one vine.
pub struct VineDraws {
    pub color: Rgb,
    pub angle: u32,
    pub speed: u32,
    pub turn: u32,
    pub length: u32,
    /// The growth budget drawn for it.
    pub max_points: usize,
    pub width: u32,
}

pub struct DigitalBloom<K, W, Pt> {
    pub particles: Vec<Particle<K>>,
    pub vines: Vec<Vine<W, Pt>>,
    /// Vines that stopped growing and are fading out.
    pub grown_vines: Vec<Vine<W, Pt>>,
    pub lightnings: Vec<Lightning<Pt>>,
    pub colors: Vec<&'static str>,
    pub rng: Lcg,
    pub max_particles: usize,
    /// `None`: bolts are not capped.
    pub max_lightnings: Option<usize>,
    /// Whether a vine that stops growing fades out, or goes at once.
    pub fade_grown_vines: bool,
    /// Whether burst and constellation particles draw their size.
    pub random_sizes: bool,
}

/// The palette of every new simulation, in order.
pub open spec fn default_palette() -> Seq<Seq<char>> {
    seq![
        "#ff69b4"@,
        "#00ffff"@,
        "#7fff00"@,
        "#ff00ff"@,
        "#ff8c00"@,
        "#adff2f"@,
        "#d8bfd8"@,
    ]
}

/// The text of each palette entry.
pub open spec fn palette_text(colors: Seq<&'static str>) -> Seq<Seq<char>> {
    colors.map_values(|c: &'static str| c@)
}

/// The bolt collection after a tick: each bolt fades and those with no life left go.
pub open spec fn bolts_after<Pt>(ls: Seq<Lightning<Pt>>) -> Seq<Lightning<Pt>>
    decreases ls.len(),
{
    if ls.len() == 0 {
        Seq::empty()
    } else {
        let l = ls.last();
        let prev = bolts_after(ls.drop_last());
        if l.life > crate::lightning::BOLT_DECAY {
            prev.push(Lightning { life: (l.life - crate::lightning::BOLT_DECAY) as u32, ..l })
        } else {
            prev
        }
    }
}

/// The views of a sequence of vines.
pub open spec fn views<W, Pt>(s: Seq<Vine<W, Pt>>) -> Seq<VineView<W, Pt>> {
    s.map_values(|v: Vine<W, Pt>| v@)
}

/// The vines still growing after a tick in which vine `i` took head step `moved[i]`.
pub open spec fn growing_after<W, Pt>(vs: Seq<VineView<W, Pt>>, ms: Seq<(W, Option<Pt>)>) -> Seq<
    VineView<W, Pt>,
>
    decreases vs.len(),
{
    if vs.len() == 0 {
        Seq::empty()
    } else {
        let n = vs.len() - 1;
        let v = vs[n].stepped(ms[n].0, ms[n].1);
        let prev = growing_after(vs.drop_last(), ms);
        if !v.is_grown {
            prev.push(v)
        } else {
            prev
        }
    }
}

/// The vines that stopped growing in that tick, as they then are.
pub open spec fn stopped_after<W, Pt>(vs: Seq<VineView<W, Pt>>, ms: Seq<(W, Option<Pt>)>) -> Seq<
    VineView<W, Pt>,
>
    decreases vs.len(),
{
    if vs.len() == 0 {
        Seq::empty()
    } else {
        let n = vs.len() - 1;
        let v = vs[n].stepped(ms[n].0, ms[n].1);
        let prev = stopped_after(vs.drop_last(), ms);
        if v.is_grown {
            prev.push(v)
        } else {
            prev
        }
    }
}

/// Fading vines after one fade step: each loses its oldest point, and those
/// left with one point or none go.
pub open spec fn fading_after<W, Pt>(vs: Seq<VineView<W, Pt>>) -> Seq<VineView<W, Pt>>
    decreases vs.len(),
{
    if vs.len() == 0 {
        Seq::empty()
    } else {
        let v = vs.last();
        let prev = fading_after(vs.drop_last());
        if v.points.len() > 2 {
            prev.push(v.faded())
        } else {
            prev
        }
    }
}

/// The bolt collection after one bolt is added and the cap, if any, applies.
pub open spec fn bolts_with<Pt>(ls: Seq<Lightning<Pt>>, l: Lightning<Pt>, cap: Option<usize>) -> Seq<
    Lightning<Pt>,
> {
    match cap {
        Some(c) => keep_newest(ls.push(l), c as nat),
        None => ls.push(l),
    }
}

/// `t` is `s` after one tick in which the vines' heads took steps `mv` and
/// the particles moved as `mp` says.
pub open spec fn ticked<K, W, Pt>(
    s: DigitalBloom<K, W, Pt>,
    mv: Seq<(W, Option<Pt>)>,
    mp: Seq<(K, bool)>,
    t: DigitalBloom<K, W, Pt>,
) -> bool {
    &&& mv.len() == s.vines@.len()
    &&& mp.len() == s.particles@.len()
    &&& views(t.vines@) == growing_after(views(s.vines@), mv)
    &&& s.fade_grown_vines ==> views(t.grown_vines@) == fading_after(
        views(s.grown_vines@) + stopped_after(views(s.vines@), mv),
    )
    &&& !s.fade_grown_vines ==> t.grown_vines == s.grown_vines
    &&& t.particles@ == survivors(s.particles@, mp)
    &&& t.lightnings@ == bolts_after(s.lightnings@)
    &&& t.colors == s.colors
    &&& t.rng == s.rng
    &&& t.max_particles == s.max_particles
    &&& t.max_lightnings == s.max_lightnings
    &&& t.fade_grown_vines == s.fade_grown_vines
    &&& t.random_sizes == s.random_sizes
}

/// Two simulations that hold the same entities, palette, generator state and
/// settings.
pub open spec fn same_contents<K, W, Pt>(a: DigitalBloom<K, W, Pt>, b: DigitalBloom<K, W, Pt>) -> bool {
    &&& a.particles@ == b.particles@
    &&& views(a.vines@) == views(b.vines@)
    &&& views(a.grown_vines@) == views(b.grown_vines@)
    &&& a.lightnings@ == b.lightnings@
    &&& a.colors == b.colors
    &&& a.rng == b.rng
    &&& a.max_particles == b.max_particles
    &&& a.max_lightnings == b.max_lightnings
    &&& a.fade_grown_vines == b.fade_grown_vines
    &&& a.random_sizes == b.random_sizes
}

/// A tick draws nothing from the generator and its outcome is fixed by the
/// simulation and the host's steps: two simulations with the same contents,
/// ticked with the same steps, again have the same contents.
pub proof fn law_tick_determined<K, W, Pt>(
    s1: DigitalBloom<K, W, Pt>,
    s2: DigitalBloom<K, W, Pt>,
    mv: Seq<(W, Option<Pt>)>,
    mp: Seq<(K, bool)>,
    t1: DigitalBloom<K, W, Pt>,
    t2: DigitalBloom<K, W, Pt>,
)
    requires
        same_contents(s1, s2),
        ticked(s1, mv, mp, t1),
        ticked(s2, mv, mp, t2),
    ensures
        same_contents(t1, t2),
        t1.rng == s1.rng,
{
}

/// Fading never grows a vine: every vine left after a fade step is still
/// grown, holds more than one point, and is a vine that was fading with its
/// oldest point removed.
pub proof fn law_fading_shrinks<W, Pt>(vs: Seq<VineView<W, Pt>>)
    requires
        forall|i: int| 0 <= i < vs.len() ==> (#[trigger] vs[i]).is_grown,
    ensures
        forall|i: int|
            0 <= i < fading_after(vs).len() ==> {
                &&& (#[trigger] fading_after(vs)[i]).is_grown
                &&& fading_after(vs)[i].points.len() > 1
                &&& exists|j: int|
                    0 <= j < vs.len() && fading_after(vs)[i].points == vs[j].points.drop_first()
                        && fading_after(vs)[i] == vs[j].faded()
            },
    decreases vs.len(),
{
    if vs.len() > 0 {
        let prev = fading_after(vs.drop_last());
        law_fading_shrinks(vs.drop_last());
        assert forall|i: int| 0 <= i < fading_after(vs).len() implies {
            &&& (#[trigger] fading_after(vs)[i]).is_grown
            &&& fading_after(vs)[i].points.len() > 1
            &&& exists|j: int|
                0 <= j < vs.len() && fading_after(vs)[i].points == vs[j].points.drop_first()
                    && fading_after(vs)[i] == vs[j].faded()
        } by {
            if i < prev.len() {
                let j = choose|j: int|
                    0 <= j < vs.drop_last().len() && prev[i].points
                        == vs.drop_last()[j].points.drop_first() && prev[i]
                        == vs.drop_last()[j].faded();
                assert(vs.drop_last()[j] == vs[j]);
            } else {
                let j = vs.len() - 1;
                assert(fading_after(vs)[i] == vs[j].faded());
            }
        }
    }
}

/// Fresh particles at full life, one for each kinematic state, in order.
pub open spec fn fresh_particles<K>(kins: Seq<K>, mode: ParticleMode, color: Rgb) -> Seq<Particle<K>> {
    kins.map_values(|k: K| Particle { kin: k, mode, color, life: FULL_LIFE })
}

impl<K, W, Pt> DigitalBloom<K, W, Pt> {
    pub open spec fn wf(&self) -> bool {
        &&& 0 < self.colors@.len() <= 0x1_0000_0000
        &&& forall|i: int| 0 <= i < self.vines@.len() ==> (#[trigger] self.vines@[i]).wf()
        &&& forall|i: int| 0 <= i < self.grown_vines@.len() ==> (#[trigger] self.grown_vines@[i]).wf()
        &&& forall|i: int| 0 <= i < self.grown_vines@.len() ==> (#[trigger] self.grown_vines@[i]).is_grown
        &&& forall|i: int| 0 <= i < self.lightnings@.len() ==> (#[trigger] self.lightnings@[i]).wf()
    }

    /// The palette colour that a draw picks.
    pub open spec fn pick(&self, d: u32) -> Rgb {
        palette_pick(self.colors@, d)
    }

    /// An empty simulation with the default palette and limits, seed
    /// `DEFAULT_SEED`, no cap on bolts, no fading of grown vines and fixed
    /// particle sizes.
    pub fn new() -> (b: DigitalBloom<K, W, Pt>)
        ensures
            b.wf(),
            b.particles@.len() == 0 && b.vines@.len() == 0 && b.grown_vines@.len() == 0
                && b.lightnings@.len() == 0,
            palette_text(b.colors@) == default_palette(),
            b.rng.state == DEFAULT_SEED,
            b.max_particles == MAX_PARTICLES,
            b.max_lightnings is None,
            !b.fade_grown_vines,
            !b.random_sizes,
    {
        DigitalBloom::with_options(DEFAULT_SEED, false, None, false)
    }

    /// An empty simulation with the default palette and particle limit.
    pub fn with_options(
        seed: u64,
        fade_grown_vines: bool,
        max_lightnings: Option<usize>,
        random_sizes: bool,
    ) -> (b: DigitalBloom<K, W, Pt>)
        ensures
            b.wf(),
            b.particles@.len() == 0 && b.vines@.len() == 0 && b.grown_vines@.len() == 0
                && b.lightnings@.len() == 0,
            palette_text(b.colors@) == default_palette(),
            b.rng.state == seed,
            b.max_particles == MAX_PARTICLES,
            b.max_lightnings == max_lightnings,
            b.fade_grown_vines == fade_grown_vines,
            b.random_sizes == random_sizes,
    {
        let colors: Vec<&'static str> = vec![
            "#ff69b4",
            "#00ffff",
            "#7fff00",
            "#ff00ff",
            "#ff8c00",
            "#adff2f",
            "#d8bfd8",
        ];
        assert(palette_text(colors@) =~= default_palette());
        DigitalBloom {
            particles: Vec::new(),
            vines: Vec::new(),
            grown_vines: Vec::new(),
            lightnings: Vec::new(),
            colors,
            rng: Lcg::new(seed),
            max_particles: MAX_PARTICLES,
            max_lightnings,
            fade_grown_vines,
            random_sizes,
        }
    }

    /// Draws a palette colour.
    fn pick_color(&mut self) -> (c: Rgb)
        requires
            old(self).wf(),
        ensures
            final(self).rng.state == lcg_next(old(self).rng.state),
            c == old(self).pick(lcg_output(lcg_next(old(self).rng.state))),
            final(self).particles == old(self).particles,
            final(self).vines == old(self).vines,
            final(self).grown_vines == old(self).grown_vines,
            final(self).lightnings == old(self).lightnings,
            final(self).colors == old(self).colors,
            final(self).max_particles == old(self).max_particles,
            final(self).max_lightnings == old(self).max_lightnings,
            final(self).fade_grown_vines == old(self).fade_grown_vines,
            final(self).random_sizes == old(self).random_sizes,
    {
        let d = self.rng.next_draw();
        let i = scaled(d, self.colors.len() as u64) as usize;
        Rgb::from_hex(self.colors[i])
    }

    /// Draws one colour and, for each of `count` particles of `mode`, the
    /// draws its mode needs, in that order.
    pub fn draw_particles(&mut self, mode: ParticleMode, count: usize) -> (b: ParticleBatch)
        requires
            old(self).wf(),
        ensures
            final(self).wf(),
            b.mode == mode,
            b.color == old(self).pick(lcg_output(lcg_next(old(self).rng.state))),
            b.draws@.len() == count,
            forall|i: int|
                0 <= i < count ==> (#[trigger] b.draws@[i])@ == draw_seq(
                    lcg_nth(old(self).rng.state, (1 + i * draws_of(mode, old(self).random_sizes)) as nat),
                    draws_of(mode, old(self).random_sizes),
                ),
            final(self).rng.state == lcg_nth(old(self).rng.state, (1 + count * draws_of(mode, old(self).random_sizes)) as nat),
            final(self).particles == old(self).particles,
            final(self).vines == old(self).vines,
            final(self).grown_vines == old(self).grown_vines,
            final(self).lightnings == old(self).lightnings,
            final(self).colors == old(self).colors,
            final(self).max_particles == old(self).max_particles,
            final(self).max_lightnings == old(self).max_lightnings,
            final(self).fade_grown_vines == old(self).fade_grown_vines,
            final(self).random_sizes == old(self).random_sizes,
    {
        let ghost s0 = self.rng.state;
        let color = self.pick_color();
        assert(lcg_nth(s0, 0) == s0);
        assert(lcg_nth(s0, 1) == lcg_next(s0));
        let per = mode.draws_per_particle(self.random_sizes);
        let mut draws: Vec<Vec<u32>> = Vec::new();
        let mut i: usize = 0;
        while i < count
            invariant
                old(self).wf(),
                self.wf(),
                i <= count,
                per == draws_of(mode, old(self).random_sizes),
                draws@.len() == i,
                forall|j: int|
                    0 <= j < i ==> (#[trigger] draws@[j])@ == draw_seq(
                        lcg_nth(s0, (1 + j * per) as nat),
                        per as nat,
                    ),
                self.rng.state == lcg_nth(s0, (1 + i * per) as nat),
                self.particles == old(self).particles,
                self.vines == old(self).vines,
                self.grown_vines == old(self).grown_vines,
                self.lightnings == old(self).lightnings,
                self.colors == old(self).colors,
                self.max_particles == old(self).max_particles,
                self.max_lightnings == old(self).max_lightnings,
                self.fade_grown_vines == old(self).fade_grown_vines,
                self.random_sizes == old(self).random_sizes,
            decreases count - i,
        {
            let d = self.rng.draws(per);
            proof {
                lemma_nth_add(s0, (1 + i * per) as nat, per as nat);
                assert((1 + i * per) + per == 1 + (i + 1) * per) by (nonlinear_arith);
            }
            draws.push(d);
            i = i + 1;
        }
        ParticleBatch { mode, color, draws }
    }

    /// Adds a particle at full life for each kinematic state, in order, then
    /// drops the oldest particles beyond the capacity.
    pub fn add_particles(&mut self, mode: ParticleMode, color: Rgb, kins: Vec<K>)
        requires
            old(self).wf(),
        ensures
            final(self).wf(),
            final(self).particles@ == keep_newest(
                old(self).particles@ + fresh_particles(kins@, mode, color),
                old(self).max_particles as nat,
            ),
            final(self).vines == old(self).vines,
            final(self).grown_vines == old(self).grown_vines,
            final(self).lightnings == old(self).lightnings,
            final(self).colors == old(self).colors,
            final(self).rng == old(self).rng,
            final(self).max_particles == old(self).max_particles,
            final(self).max_lightnings == old(self).max_lightnings,
            final(self).fade_grown_vines == old(self).fade_grown_vines,
            final(self).random_sizes == old(self).random_sizes,
    {
        let ghost ks = kins@;
        let ghost before = self.particles@;
        let n = kins.len();
        let mut rest = reversed(kins);
        let mut i: usize = 0;
        while i < n
            invariant
                old(self).wf(),
                self.wf(),
                i <= n,
                n == ks.len(),
                rest@.len() == n - i,
                forall|j: int| 0 <= j < rest@.len() ==> #[trigger] rest@[j] == ks[n - 1 - j],
                self.particles@ == before + fresh_particles(ks.subrange(0, i as int), mode, color),
                before == old(self).particles@,
                self.vines == old(self).vines,
                self.grown_vines == old(self).grown_vines,
                self.lightnings == old(self).lightnings,
                self.colors == old(self).colors,
                self.rng == old(self).rng,
                self.max_particles == old(self).max_particles,
                self.max_lightnings == old(self).max_lightnings,
                self.fade_grown_vines == old(self).fade_grown_vines,
                self.random_sizes == old(self).random_sizes,
            decreases n - i,
        {
            let ghost r0 = rest@;
            match rest.pop() {
                Some(k) => {
                    assert(k == ks[i as int]);
                    self.particles.push(Particle::new(k, mode, color));
                    assert(fresh_particles(ks.subrange(0, i + 1), mode, color) =~= fresh_particles(
                        ks.subrange(0, i as int),
                        mode,
                        color,
                    ).push(Particle { kin: k, mode, color, life: FULL_LIFE }));
                },
                None => {},
            }
            assert(forall|j: int| 0 <= j < rest@.len() ==> #[trigger] rest@[j] == r0[j]);
            i = i + 1;
        }
        assert(ks.subrange(0, n as int) =~= ks);
        let cap = self.max_particles;
        evict_oldest(&mut self.particles, cap);
    }

    /// The particle part of a tick. The host has moved particle `i` to
    /// `moved[i].0` and found it in or out of view (`moved[i].1`); each
    /// particle loses its decay, and those out of life or out of view go.
    pub fn advance_particles(&mut self, moved: Vec<(K, bool)>)
        requires
            old(self).wf(),
            moved@.len() == old(self).particles@.len(),
        ensures
            final(self).wf(),
            final(self).particles@ == survivors(old(self).particles@, moved@),
            final(self).vines == old(self).vines,
            final(self).grown_vines == old(self).grown_vines,
            final(self).lightnings == old(self).lightnings,
            final(self).colors == old(self).colors,
            final(self).rng == old(self).rng,
            final(self).max_particles == old(self).max_particles,
            final(self).max_lightnings == old(self).max_lightnings,
            final(self).fade_grown_vines == old(self).fade_grown_vines,
            final(self).random_sizes == old(self).random_sizes,
    {
        let ghost ms = moved@;
        let ghost ps = self.particles@;
        let n = moved.len();
        let mut rest = reversed(moved);
        let mut out: Vec<Particle<K>> = Vec::new();
        let mut i: usize = 0;
        while i < n
            invariant
                i <= n,
                n == ms.len(),
                n == ps.len(),
                ps == self.particles@,
                rest@.len() == n - i,
                forall|j: int| 0 <= j < rest@.len() ==> #[trigger] rest@[j] == ms[n - 1 - j],
                out@ == survivors(ps.subrange(0, i as int), ms),
            decreases n - i,
        {
            let ghost r0 = rest@;
            assert(ps.subrange(0, i + 1).drop_last() =~= ps.subrange(0, i as int));
            match rest.pop() {
                Some(m) => {
                    assert(m == ms[i as int]);
                    let (kin, in_view) = m;
                    let mode = self.particles[i].mode;
                    let life = self.particles[i].life;
                    let color = self.particles[i].color;
                    let d = mode.decay();
                    if life > d && in_view {
                        out.push(Particle { kin, mode, color, life: life - d });
                    }
                },
                None => {},
            }
            assert(forall|j: int| 0 <= j < rest@.len() ==> #[trigger] rest@[j] == r0[j]);
            i = i + 1;
        }
        assert(ps.subrange(0, n as int) =~= ps);
        self.particles = out;
    }

    /// Draws one colour and then, for a vine, its heading, speed, turn,
    /// length budget and stroke width.
    pub fn draw_vine(&mut self) -> (d: VineDraws)
        requires
            old(self).wf(),
        ensures
            final(self).wf(),
            d.color == old(self).pick(lcg_output(lcg_next(old(self).rng.state))),
            seq![d.angle, d.speed, d.turn, d.length, d.width] == draw_seq(
                lcg_next(old(self).rng.state),
                5,
            ),
            d.max_points == MIN_LENGTH + scaled_spec(d.length, MAX_LENGTH),
            final(self).rng.state == lcg_nth(lcg_next(old(self).rng.state), 5),
            final(self).particles == old(self).particles,
            final(self).vines == old(self).vines,
            final(self).grown_vines == old(self).grown_vines,
            final(self).lightnings == old(self).lightnings,
            final(self).colors == old(self).colors,
            final(self).max_particles == old(self).max_particles,
            final(self).max_lightnings == old(self).max_lightnings,
            final(self).fade_grown_vines == old(self).fade_grown_vines,
            final(self).random_sizes == old(self).random_sizes,
    {
        let color = self.pick_color();
        let r = self.rng.draws(5);
        assert(r@ =~= seq![r@[0], r@[1], r@[2], r@[3], r@[4]]);
        let length = r[3];
        let max_points = (MIN_LENGTH + scaled(length, MAX_LENGTH)) as usize;
        VineDraws {
            color,
            angle: r[0],
            speed: r[1],
            turn: r[2],
            length,
            max_points,
            width: r[4],
        }
    }

    /// Adds a growing vine that starts at `start`.
    pub fn add_vine(&mut self, walker: W, start: Pt, color: Rgb, max_points: usize)
        requires
            old(self).wf(),
            max_points >= 1,
        ensures
            final(self).wf(),
            final(self).vines@.len() == old(self).vines@.len() + 1,
            final(self).vines@.drop_last() == old(self).vines@,
            final(self).vines@.last()@ == (VineView {
                walker,
                points: seq![start],
                max_points,
                is_grown: false,
                color,
            }),
            final(self).particles == old(self).particles,
            final(self).grown_vines == old(self).grown_vines,
            final(self).lightnings == old(self).lightnings,
            final(self).colors == old(self).colors,
            final(self).rng == old(self).rng,
            final(self).max_particles == old(self).max_particles,
            final(self).max_lightnings == old(self).max_lightnings,
            final(self).fade_grown_vines == old(self).fade_grown_vines,
            final(self).random_sizes == old(self).random_sizes,
    {
        let v = Vine::new(walker, start, max_points, color);
        self.vines.push(v);
        assert(self.vines@.drop_last() =~= old(self).vines@);
    }

    /// The vine part of a tick. The host has advanced vine `i`'s head to
    /// `moved[i].0` and found its new point `moved[i].1` (`None`: it left the
    /// canvas). Vines that stop growing go, or join the fading vines when
    /// grown vines fade; every fading vine then loses its oldest point.
    pub fn advance_vines(&mut self, moved: Vec<(W, Option<Pt>)>)
        requires
            old(self).wf(),
            moved@.len() == old(self).vines@.len(),
        ensures
            final(self).wf(),
            views(final(self).vines@) == growing_after(views(old(self).vines@), moved@),
            old(self).fade_grown_vines ==> views(final(self).grown_vines@) == fading_after(
                views(old(self).grown_vines@) + stopped_after(views(old(self).vines@), moved@),
            ),
            !old(self).fade_grown_vines ==> final(self).grown_vines == old(self).grown_vines,
            final(self).particles == old(self).particles,
            final(self).lightnings == old(self).lightnings,
            final(self).colors == old(self).colors,
            final(self).rng == old(self).rng,
            final(self).max_particles == old(self).max_particles,
            final(self).max_lightnings == old(self).max_lightnings,
            final(self).fade_grown_vines == old(self).fade_grown_vines,
            final(self).random_sizes == old(self).random_sizes,
    {
        let ghost ms = moved@;
        let ghost vs = views(self.vines@);
        let ghost vs_raw = self.vines@;
        let n = moved.len();
        let mut rest_m = reversed(moved);
        let all = self.vines.split_off(0);
        assert(all@ =~= vs_raw);
        let mut rest_v = reversed(all);
        let mut growing: Vec<Vine<W, Pt>> = Vec::new();
        let mut stopped: Vec<Vine<W, Pt>> = Vec::new();
        let mut i: usize = 0;
        while i < n
            invariant
                i <= n,
                n == ms.len(),
                n == vs_raw.len(),
                vs == views(vs_raw),
                forall|j: int| 0 <= j < vs_raw.len() ==> (#[trigger] vs_raw[j]).wf(),
                rest_m@.len() == n - i,
                rest_v@.len() == n - i,
                forall|j: int| 0 <= j < rest_m@.len() ==> #[trigger] rest_m@[j] == ms[n - 1 - j],
                forall|j: int| 0 <= j < rest_v@.len() ==> #[trigger] rest_v@[j] == vs_raw[n - 1 - j],
                views(growing@) == growing_after(vs.subrange(0, i as int), ms),
                views(stopped@) == stopped_after(vs.subrange(0, i as int), ms),
                forall|j: int| 0 <= j < growing@.len() ==> (#[trigger] growing@[j]).wf(),
                forall|j: int| 0 <= j < stopped@.len() ==> (#[trigger] stopped@[j]).wf(),
                forall|j: int| 0 <= j < stopped@.len() ==> (#[trigger] stopped@[j]).is_grown,
            decreases n - i,
        {
            let ghost rm = rest_m@;
            let ghost rv = rest_v@;
            assert(vs.subrange(0, i + 1).drop_last() =~= vs.subrange(0, i as int));
            match (rest_m.pop(), rest_v.pop()) {
                (Some(m), Some(v)) => {
                    assert(m == ms[i as int]);
                    assert(v == vs_raw[i as int]);
                    let mut v = v;
                    let (w, head) = m;
                    let g = v.update(w, head);
                    if g {
                        let ghost before = growing@;
                        growing.push(v);
                        assert(views(growing@) =~= views(before).push(v@));
                    } else {
                        let ghost before = stopped@;
                        stopped.push(v);
                        assert(views(stopped@) =~= views(before).push(v@));
                    }
                },
                _ => {},
            }
            assert(forall|j: int| 0 <= j < rest_m@.len() ==> #[trigger] rest_m@[j] == rm[j]);
            assert(forall|j: int| 0 <= j < rest_v@.len() ==> #[trigger] rest_v@[j] == rv[j]);
            i = i + 1;
        }
        assert(vs.subrange(0, n as int) =~= vs);
        self.vines = growing;
        if self.fade_grown_vines {
            let mut fading = self.grown_vines.split_off(0);
            let ghost f0 = fading@;
            let ghost st = stopped@;
            assert(f0 =~= old(self).grown_vines@);
            fading.append(&mut stopped);
            assert(views(fading@) =~= views(f0) + views(st));
            let ghost fs = views(fading@);
            let ghost fs_raw = fading@;
            let m = fading.len();
            let mut rest = reversed(fading);
            let mut kept: Vec<Vine<W, Pt>> = Vec::new();
            let mut k: usize = 0;
            while k < m
                invariant
                    k <= m,
                    m == fs_raw.len(),
                    fs == views(fs_raw),
                    forall|j: int| 0 <= j < fs_raw.len() ==> (#[trigger] fs_raw[j]).wf(),
                    forall|j: int| 0 <= j < fs_raw.len() ==> (#[trigger] fs_raw[j]).is_grown,
                    rest@.len() == m - k,
                    forall|j: int| 0 <= j < rest@.len() ==> #[trigger] rest@[j] == fs_raw[m - 1 - j],
                    views(kept@) == fading_after(fs.subrange(0, k as int)),
                    forall|j: int| 0 <= j < kept@.len() ==> (#[trigger] kept@[j]).wf(),
                    forall|j: int| 0 <= j < kept@.len() ==> (#[trigger] kept@[j]).is_grown,
                decreases m - k,
            {
                let ghost r0 = rest@;
                assert(fs.subrange(0, k + 1).drop_last() =~= fs.subrange(0, k as int));
                match rest.pop() {
                    Some(v) => {
                        assert(v == fs_raw[k as int]);
                        let mut v = v;
                        let visible = v.fade();
                        if visible {
                            let ghost before = kept@;
                            kept.push(v);
                            assert(views(kept@) =~= views(before).push(v@));
                        }
                    },
                    None => {},
                }
                assert(forall|j: int| 0 <= j < rest@.len() ==> #[trigger] rest@[j] == r0[j]);
                k = k + 1;
            }
            assert(fs.subrange(0, m as int) =~= fs);
            self.grown_vines = kept;
        }
    }

    /// One tick: every vine, then every particle, then every bolt advances
    /// once. `step_vine` moves a vine's head and gives its new point (`None`
    /// once it left the canvas); `step_particle` moves a particle and says
    /// whether it is still in view.
    pub fn update<FV, FP>(&mut self, step_vine: &FV, step_particle: &FP)
        where
            FV: Fn(&W) -> (W, Option<Pt>),
            FP: Fn(&K, ParticleMode) -> (K, bool),
        requires
            old(self).wf(),
            forall|w: &W| #[trigger] step_vine.requires((w,)),
            forall|k: &K, m: ParticleMode| #[trigger] step_particle.requires((k, m)),
        ensures
            final(self).wf(),
            exists|mv: Seq<(W, Option<Pt>)>, mp: Seq<(K, bool)>|
                {
                    &&& forall|i: int|
                        0 <= i < mv.len() ==> step_vine.ensures(
                            (&old(self).vines@[i].walker,),
                            #[trigger] mv[i],
                        )
                    &&& forall|i: int|
                        0 <= i < mp.len() ==> step_particle.ensures(
                            (&old(self).particles@[i].kin, old(self).particles@[i].mode),
                            #[trigger] mp[i],
                        )
                    &&& ticked(*old(self), mv, mp, *final(self))
                },
    {
        let mut mv: Vec<(W, Option<Pt>)> = Vec::new();
        let mut i: usize = 0;
        while i < self.vines.len()
            invariant
                i <= self.vines@.len(),
                mv@.len() == i,
                forall|w: &W| #[trigger] step_vine.requires((w,)),
                forall|j: int|
                    0 <= j < i ==> step_vine.ensures((&self.vines@[j].walker,), #[trigger] mv@[j]),
            decreases self.vines@.len() - i,
        {
            let r = step_vine(&self.vines[i].walker);
            mv.push(r);
            i = i + 1;
        }
        let mut mp: Vec<(K, bool)> = Vec::new();
        let mut i: usize = 0;
        while i < self.particles.len()
            invariant
                i <= self.particles@.len(),
                mp@.len() == i,
                forall|k: &K, m: ParticleMode| #[trigger] step_particle.requires((k, m)),
                forall|j: int|
                    0 <= j < i ==> step_particle.ensures(
                        (&self.particles@[j].kin, self.particles@[j].mode),
                        #[trigger] mp@[j],
                    ),
            decreases self.particles@.len() - i,
        {
            let p = &self.particles[i];
            let r = step_particle(&p.kin, p.mode);
            mp.push(r);
            i = i + 1;
        }
        let ghost gv = mv@;
        let ghost gp = mp@;
        let ghost s0 = *self;
        self.advance_vines(mv);
        self.advance_particles(mp);
        self.advance_lightnings();
        assert(ticked(s0, gv, gp, *self));
        assert(gv.len() == s0.vines@.len());
        assert(forall|i: int|
            0 <= i < gv.len() ==> step_vine.ensures((&s0.vines@[i].walker,), #[trigger] gv[i]));
        assert(forall|i: int|
            0 <= i < gp.len() ==> step_particle.ensures(
                (&s0.particles@[i].kin, s0.particles@[i].mode),
                #[trigger] gp[i],
            ));
    }

    /// Lays out the draws for a bolt.
    pub fn draw_lightning(&mut self) -> (p: BoltPlan)
        requires
            old(self).wf(),
        ensures
            final(self).wf(),
            p.wf(),
            p.color == old(self).pick(p.color_draw),
            bolt_draws(p) == draw_seq(old(self).rng.state, bolt_draws(p).len()),
            final(self).rng.state == lcg_nth(old(self).rng.state, bolt_draws(p).len()),
            final(self).particles == old(self).particles,
            final(self).vines == old(self).vines,
            final(self).grown_vines == old(self).grown_vines,
            final(self).lightnings == old(self).lightnings,
            final(self).colors == old(self).colors,
            final(self).max_particles == old(self).max_particles,
            final(self).max_lightnings == old(self).max_lightnings,
            final(self).fade_grown_vines == old(self).fade_grown_vines,
            final(self).random_sizes == old(self).random_sizes,
    {
        plan_bolt(&mut self.rng, &self.colors)
    }

    /// Adds a bolt, then drops the oldest bolts beyond the cap, if there is one.
    pub fn add_lightning(&mut self, bolt: Lightning<Pt>)
        requires
            old(self).wf(),
            bolt.wf(),
        ensures
            final(self).wf(),
            final(self).lightnings@ == bolts_with(old(self).lightnings@, bolt, old(self).max_lightnings),
            final(self).particles == old(self).particles,
            final(self).vines == old(self).vines,
            final(self).grown_vines == old(self).grown_vines,
            final(self).colors == old(self).colors,
            final(self).rng == old(self).rng,
            final(self).max_particles == old(self).max_particles,
            final(self).max_lightnings == old(self).max_lightnings,
            final(self).fade_grown_vines == old(self).fade_grown_vines,
            final(self).random_sizes == old(self).random_sizes,
    {
        self.lightnings.push(bolt);
        match self.max_lightnings {
            Some(cap) => {
                evict_oldest(&mut self.lightnings, cap);
            },
            None => {},
        }
    }

    /// The bolt part of a tick: every bolt fades, and those out of life go.
    pub fn advance_lightnings(&mut self)
        requires
            old(self).wf(),
        ensures
            final(self).wf(),
            final(self).lightnings@ == bolts_after(old(self).lightnings@),
            final(self).particles == old(self).particles,
            final(self).vines == old(self).vines,
            final(self).grown_vines == old(self).grown_vines,
            final(self).colors == old(self).colors,
            final(self).rng == old(self).rng,
            final(self).max_particles == old(self).max_particles,
            final(self).max_lightnings == old(self).max_lightnings,
            final(self).fade_grown_vines == old(self).fade_grown_vines,
            final(self).random_sizes == old(self).random_sizes,
    {
        let all = self.lightnings.split_off(0);
        let ghost ls = all@;
        assert(ls =~= old(self).lightnings@);
        let n = all.len();
        let mut rest = reversed(all);
        let mut kept: Vec<Lightning<Pt>> = Vec::new();
        let mut i: usize = 0;
        while i < n
            invariant
                i <= n,
                n == ls.len(),
                forall|j: int| 0 <= j < ls.len() ==> (#[trigger] ls[j]).wf(),
                rest@.len() == n - i,
                forall|j: int| 0 <= j < rest@.len() ==> #[trigger] rest@[j] == ls[n - 1 - j],
                kept@ == bolts_after(ls.subrange(0, i as int)),
                forall|j: int| 0 <= j < kept@.len() ==> (#[trigger] kept@[j]).wf(),
            decreases n - i,
        {
            let ghost r0 = rest@;
            assert(ls.subrange(0, i + 1).drop_last() =~= ls.subrange(0, i as int));
            match rest.pop() {
                Some(l) => {
                    assert(l == ls[i as int]);
                    let mut l = l;
                    let ghost l0 = l;
                    let alive = l.update();
                    assert(alive ==> l == Lightning {
                        life: (l0.life - crate::lightning::BOLT_DECAY) as u32,
                        ..l0
                    });
                    if alive {
                        kept.push(l);
                    }
                },
                None => {},
            }
            assert(forall|j: int| 0 <= j < rest@.len() ==> #[trigger] rest@[j] == r0[j]);
            i = i + 1;
        }
        assert(ls.subrange(0, n as int) =~= ls);
        self.lightnings = kept;
    }

    /// Empties every collection.
    pub fn clear(&mut self)
        requires
            old(self).wf(),
        ensures
            final(self).wf(),
            final(self).particles@.len() == 0,
            final(self).vines@.len() == 0,
            final(self).grown_vines@.len() == 0,
            final(self).lightnings@.len() == 0,
            final(self).colors == old(self).colors,
            final(self).rng == old(self).rng,
            final(self).max_particles == old(self).max_particles,
            final(self).max_lightnings == old(self).max_lightnings,
            final(self).fade_grown_vines == old(self).fade_grown_vines,
            final(self).random_sizes == old(self).random_sizes,
    {
        self.particles.clear();
        self.vines.clear();
        self.grown_vines.clear();
        self.lightnings.clear();
    }

    pub fn particles_len(&self) -> (n: usize)
        ensures
            n == self.particles@.len(),
    {
        self.particles.len()
    }

    pub fn particles_slice(&self) -> (s: &[Particle<K>])
        ensures
            s@ == self.particles@,
    {
        self.particles.as_slice()
    }

    pub fn vines_slice(&self) -> (s: &[Vine<W, Pt>])
        ensures
            s@ == self.vines@,
    {
        self.vines.as_slice()
    }

    pub fn grown_vines_slice(&self) -> (s: &[Vine<W, Pt>])
        ensures
            s@ == self.grown_vines@,
    {
        self.grown_vines.as_slice()
    }

    pub fn lightnings_slice(&self) -> (s: &[Lightning<Pt>])
        ensures
            s@ == self.lightnings@,
    {
        self.lightnings.as_slice()
    }
}

} // verus!
