//! The seeded source of randomness: a 64-bit linear congruential generator
//! whose draws are 31-bit integers, read as fractions of `2^31`.
use vstd::prelude::*;

verus! {

/// Draws lie in `0 .. DRAW_RANGE`; a draw `d` stands for the fraction `d / DRAW_RANGE`.
pub const DRAW_RANGE: u64 = 0x8000_0000;

pub const LCG_MULTIPLIER: u64 = 6364136223846793005;

/// One step of the generator's state.
#[verifier::opaque]
pub open spec fn lcg_next(s: u64) -> u64 {
    (((s as nat) * (LCG_MULTIPLIER as nat) % 0x1_0000_0000_0000_0000nat + 1)
        % 0x1_0000_0000_0000_0000nat) as u64
}

/// The draw that a freshly stepped state yields: its top 31 bits.
#[verifier::opaque]
pub open spec fn lcg_output(s: u64) -> u32 {
    (s as nat / 0x2_0000_0000nat) as u32
}

/// The state after `n` steps.
pub open spec fn lcg_nth(s: u64, n: nat) -> u64
    decreases n,
{
    if n == 0 {
        s
    } else {
        lcg_next(lcg_nth(s, (n - 1) as nat))
    }
}

/// The first `n` draws from state `s`.
pub open spec fn draw_seq(s: u64, n: nat) -> Seq<u32>
    decreases n,
{
    if n == 0 {
        Seq::empty()
    } else {
        draw_seq(s, (n - 1) as nat).push(lcg_output(lcg_nth(s, n)))
    }
}

/// `floor(d / DRAW_RANGE * n)`: the bucket that a draw falls in when the
/// unit interval is cut into `n` equal parts.
pub open spec fn scaled_spec(d: u32, n: u64) -> u64 {
    (d as nat * n as nat / DRAW_RANGE as nat) as u64
}

/// Steps taken in two runs compose.
pub proof fn lemma_nth_add(s: u64, a: nat, b: nat)
    ensures
        lcg_nth(lcg_nth(s, a), b) == lcg_nth(s, a + b),
    decreases b,
{
    if b > 0 {
        lemma_nth_add(s, a, (b - 1) as nat);
    }
}

/// A seeded generator's draws depend on its seed alone: a run split in two
/// gives the draws of one unbroken run from the same seed.
pub proof fn lemma_draws_add(s: u64, a: nat, b: nat)
    ensures
        draw_seq(s, a) + draw_seq(lcg_nth(s, a), b) == draw_seq(s, a + b),
    decreases b,
{
    if b == 0 {
        assert(draw_seq(s, a) + Seq::<u32>::empty() == draw_seq(s, a));
    } else {
        lemma_draws_add(s, a, (b - 1) as nat);
        lemma_nth_add(s, a, b);
        assert(draw_seq(s, a) + draw_seq(lcg_nth(s, a), (b - 1) as nat).push(
            lcg_output(lcg_nth(lcg_nth(s, a), b)),
        ) == (draw_seq(s, a) + draw_seq(lcg_nth(s, a), (b - 1) as nat)).push(
            lcg_output(lcg_nth(lcg_nth(s, a), b)),
        ));
    }
}

/// Every draw is below `DRAW_RANGE`.
pub proof fn lemma_output_range(s: u64)
    ensures
        (lcg_output(s) as u64) < DRAW_RANGE,
{
    reveal(lcg_output);
    assert(s as nat / 0x2_0000_0000nat < 0x8000_0000nat) by (nonlinear_arith)
        requires
            s < 0x1_0000_0000_0000_0000nat,
    ;
}

/// A reproducible generator: the same seed gives the same draws.
#[derive(Clone, Copy, Debug, PartialEq, Eq, Structural)]
pub struct Lcg {
    pub state: u64,
}

impl Lcg {
    pub fn new(seed: u64) -> (g: Lcg)
        ensures
            g.state == seed,
    {
        Lcg { state: seed }
    }

    /// Steps the state and returns the next draw.
    pub fn next_draw(&mut self) -> (d: u32)
        ensures
            final(self).state == lcg_next(old(self).state),
            d == lcg_output(final(self).state),
            (d as u64) < DRAW_RANGE,
    {
        let m = self.state.wrapping_mul(LCG_MULTIPLIER);
        assert(m as nat == (self.state as nat) * (LCG_MULTIPLIER as nat) % 0x1_0000_0000_0000_0000nat);
        self.state = m.wrapping_add(1);
        proof {
            reveal(lcg_next);
            reveal(lcg_output);
            lemma_output_range(self.state);
        }
        (self.state / 0x2_0000_0000) as u32
    }

    /// The next `n` draws.
    pub fn draws(&mut self, n: usize) -> (r: Vec<u32>)
        ensures
            r@ == draw_seq(old(self).state, n as nat),
            r@.len() == n,
            final(self).state == lcg_nth(old(self).state, n as nat),
            forall|i: int| 0 <= i < n ==> (#[trigger] r@[i] as u64) < DRAW_RANGE,
    {
        let ghost s0 = self.state;
        let mut r: Vec<u32> = Vec::new();
        let mut i: usize = 0;
        while i < n
            invariant
                i <= n,
                self.state == lcg_nth(s0, i as nat),
                r@ == draw_seq(s0, i as nat),
                r@.len() == i,
                forall|j: int| 0 <= j < i ==> (#[trigger] r@[j] as u64) < DRAW_RANGE,
            decreases n - i,
        {
            let d = self.next_draw();
            r.push(d);
            i = i + 1;
        }
        r
    }
}

/// The bucket of `d` among `n` equal parts of the unit interval.
pub fn scaled(d: u32, n: u64) -> (r: u64)
    requires
        (d as u64) < DRAW_RANGE,
        n <= 0x1_0000_0000,
    ensures
        r == scaled_spec(d, n),
        n > 0 ==> r < n,
{
    assert((d as nat) * (n as nat) < 0x8000_0000_0000_0000nat) by (nonlinear_arith)
        requires
            d < DRAW_RANGE,
            n <= 0x1_0000_0000,
    ;
    let p: u64 = (d as u64) * n;
    proof {
        assert(n == 0 || (d as nat) * (n as nat) / (DRAW_RANGE as nat) < (n as nat)) by (nonlinear_arith)
            requires
                d < DRAW_RANGE,
        ;
    }
    p / DRAW_RANGE
}

} // verus!
