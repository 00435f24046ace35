//! Lightning bolts: a jagged main channel with a few short branches, laid out
//! once from random draws and then only fading. The points are the host's
//! `Pt`; the shape, the draws and the life counter are here.
use vstd::prelude::*;
use crate::color::{Rgb, rgb_of};
use crate::random::{DRAW_RANGE, Lcg, draw_seq, lcg_nth, lemma_draws_add, lemma_nth_add, scaled, scaled_spec};

verus! {

/// Points on the main channel, both ends included.
pub const SEGMENT_POINTS: usize = 16;

/// Life lost per tick, in thousandths of a full life.
pub const BOLT_DECAY: u32 = 20;

pub const BOLT_FULL_LIFE: u32 = 1000;

/// Where a branch roots: an index in the first 70% of the channel, past the start.
pub open spec fn branch_root_of(d: u32) -> nat {
    1 + (d as nat) * 112 / (10 * DRAW_RANGE as nat)
}

/// The draws that lay out one branch.
pub struct BranchPlan {
    /// Index of the channel point that the branch starts from.
    pub root: usize,
    pub root_draw: u32,
    pub length_draw: u32,
    /// The direction the branch grows in.
    pub angle: u32,
    /// One jitter per generated point; the branch also holds its root.
    pub offsets: Vec<u32>,
}

/// The draws that lay out one bolt, in the order they are made.
pub struct BoltPlan {
    pub end_x: u32,
    pub end_y: u32,
    pub color_draw: u32,
    pub color: Rgb,
    /// One perpendicular jitter per channel point.
    pub offsets: Vec<u32>,
    pub count_draw: u32,
    pub branches: Vec<BranchPlan>,
    /// The stroke width.
    pub width: u32,
}

/// The draws behind a branch, in the order they are made.
pub open spec fn branch_draws(b: BranchPlan) -> Seq<u32> {
    seq![b.root_draw, b.length_draw, b.angle] + b.offsets@
}

pub open spec fn branches_draws(bs: Seq<BranchPlan>) -> Seq<u32>
    decreases bs.len(),
{
    if bs.len() == 0 {
        Seq::empty()
    } else {
        branches_draws(bs.drop_last()) + branch_draws(bs.last())
    }
}

/// The draws behind a bolt, in the order they are made.
pub open spec fn bolt_draws(p: BoltPlan) -> Seq<u32> {
    seq![p.end_x, p.end_y, p.color_draw] + p.offsets@ + seq![p.count_draw] + branches_draws(
        p.branches@,
    ) + seq![p.width]
}

/// One more draw extends the run by the draw made from the current state.
proof fn lemma_one_more(s: u64, n: nat)
    ensures
        draw_seq(s, n + 1) == draw_seq(s, n).push(crate::random::lcg_output(crate::random::lcg_next(lcg_nth(s, n)))),
        lcg_nth(s, n + 1) == crate::random::lcg_next(lcg_nth(s, n)),
{
}

pub open spec fn all_draws(s: Seq<u32>) -> bool {
    forall|i: int| 0 <= i < s.len() ==> (#[trigger] s[i] as u64) < DRAW_RANGE
}

impl BranchPlan {
    pub open spec fn wf(&self) -> bool {
        &&& (self.root_draw as u64) < DRAW_RANGE
        &&& (self.length_draw as u64) < DRAW_RANGE
        &&& (self.angle as u64) < DRAW_RANGE
        &&& self.root == branch_root_of(self.root_draw)
        &&& 1 <= self.root < SEGMENT_POINTS
        &&& self.offsets@.len() == 5 + scaled_spec(self.length_draw, 5)
        &&& 5 <= self.offsets@.len() <= 9
        &&& all_draws(self.offsets@)
    }
}

impl BoltPlan {
    pub open spec fn wf(&self) -> bool {
        &&& (self.end_x as u64) < DRAW_RANGE
        &&& (self.end_y as u64) < DRAW_RANGE
        &&& (self.color_draw as u64) < DRAW_RANGE
        &&& (self.count_draw as u64) < DRAW_RANGE
        &&& (self.width as u64) < DRAW_RANGE
        &&& self.offsets@.len() == SEGMENT_POINTS
        &&& all_draws(self.offsets@)
        &&& self.branches@.len() == 2 + scaled_spec(self.count_draw, 3)
        &&& 2 <= self.branches@.len() <= 4
        &&& forall|b: int| 0 <= b < self.branches@.len() ==> (#[trigger] self.branches@[b]).wf()
    }
}

fn plan_branch(rng: &mut Lcg) -> (b: BranchPlan)
    ensures
        b.wf(),
        branch_draws(b) == draw_seq(old(rng).state, branch_draws(b).len()),
        final(rng).state == lcg_nth(old(rng).state, branch_draws(b).len()),
{
    let ghost s0 = rng.state;
    proof {
        lemma_one_more(s0, 0);
        lemma_one_more(s0, 1);
        lemma_one_more(s0, 2);
    }
    let root_draw = rng.next_draw();
    assert((root_draw as nat) * 112 / (10 * DRAW_RANGE as nat) <= 11) by (nonlinear_arith)
        requires
            (root_draw as nat) < DRAW_RANGE,
    ;
    let root = 1 + ((root_draw as u64) * 112 / (10 * DRAW_RANGE)) as usize;
    let length_draw = rng.next_draw();
    let n = 5 + scaled(length_draw, 5) as usize;
    let angle = rng.next_draw();
    let offsets = rng.draws(n);
    proof {
        lemma_draws_add(s0, 3, n as nat);
        lemma_nth_add(s0, 3, n as nat);
        assert(draw_seq(s0, 0) == Seq::<u32>::empty());
        assert(draw_seq(s0, 3) =~= seq![root_draw, length_draw, angle]);
    }
    BranchPlan { root, root_draw, length_draw, angle, offsets }
}

/// The palette colour that a draw picks.
pub open spec fn palette_pick(colors: Seq<&'static str>, d: u32) -> Rgb {
    rgb_of(colors[scaled_spec(d, colors.len() as u64) as int]@)
}

/// Makes the draws for one bolt: its end point, its colour from the
/// palette, a jitter for each of the channel's points, two to four
/// branches, and its stroke width.
pub fn plan_bolt(rng: &mut Lcg, colors: &Vec<&'static str>) -> (p: BoltPlan)
    requires
        0 < colors@.len() <= 0x1_0000_0000,
    ensures
        p.wf(),
        p.color == palette_pick(colors@, p.color_draw),
        bolt_draws(p) == draw_seq(old(rng).state, bolt_draws(p).len()),
        final(rng).state == lcg_nth(old(rng).state, bolt_draws(p).len()),
{
    let ghost s0 = rng.state;
    proof {
        lemma_one_more(s0, 0);
        lemma_one_more(s0, 1);
        lemma_one_more(s0, 2);
    }
    let end_x = rng.next_draw();
    let end_y = rng.next_draw();
    let color_draw = rng.next_draw();
    assert(draw_seq(s0, 0) == Seq::<u32>::empty());
    assert(draw_seq(s0, 3) =~= seq![end_x, end_y, color_draw]);
    let color = Rgb::from_hex(colors[scaled(color_draw, colors.len() as u64) as usize]);
    let offsets = rng.draws(SEGMENT_POINTS);
    proof {
        lemma_draws_add(s0, 3, 16);
        lemma_nth_add(s0, 3, 16);
        lemma_one_more(s0, 19);
    }
    let count_draw = rng.next_draw();
    let ghost head = seq![end_x, end_y, color_draw] + offsets@ + seq![count_draw];
    assert(head =~= (seq![end_x, end_y, color_draw] + offsets@).push(count_draw));
    assert(head.len() == 20);
    let count = 2 + scaled(count_draw, 3) as usize;
    let mut branches: Vec<BranchPlan> = Vec::new();
    let mut i: usize = 0;
    while i < count
        invariant
            i <= count,
            branches@.len() == i,
            forall|b: int| 0 <= b < i ==> (#[trigger] branches@[b]).wf(),
            head.len() == 20,
            head + branches_draws(branches@) == draw_seq(s0, 20 + branches_draws(branches@).len()),
            rng.state == lcg_nth(s0, 20 + branches_draws(branches@).len()),
        decreases count - i,
    {
        let ghost used = 20 + branches_draws(branches@).len();
        let ghost st = rng.state;
        let b = plan_branch(rng);
        proof {
            lemma_draws_add(s0, used, branch_draws(b).len());
            lemma_nth_add(s0, used, branch_draws(b).len());
            assert(branches@.push(b).drop_last() =~= branches@);
        }
        let ghost before = branches@;
        branches.push(b);
        assert(branches_draws(branches@) == branches_draws(before) + branch_draws(b));
        assert(head + branches_draws(branches@) =~= head + branches_draws(before) + branch_draws(b));
        i = i + 1;
    }
    let ghost used = 20 + branches_draws(branches@).len();
    proof {
        lemma_one_more(s0, used);
    }
    let width = rng.next_draw();
    assert(seq![end_x, end_y, color_draw] + offsets@ + seq![count_draw] + branches_draws(branches@)
        + seq![width] =~= (head + branches_draws(branches@)).push(width));
    BoltPlan { end_x, end_y, color_draw, color, offsets, count_draw, branches, width }
}

pub struct Lightning<Pt> {
    pub segments: Vec<Pt>,
    pub branches: Vec<Vec<Pt>>,
    pub color: Rgb,
    /// The draw that sets the stroke width.
    pub width: u32,
    /// In thousandths of a full life.
    pub life: u32,
}

/// The shape of every bolt: a channel of `SEGMENT_POINTS` points and two to
/// four branches of six to ten points each, the root included.
pub open spec fn bolt_shape<Pt>(segments: Seq<Pt>, branches: Seq<Vec<Pt>>) -> bool {
    &&& segments.len() == SEGMENT_POINTS
    &&& 2 <= branches.len() <= 4
    &&& forall|b: int| 0 <= b < branches.len() ==> 6 <= (#[trigger] branches[b])@.len() <= 10
}

impl<Pt> Lightning<Pt> {
    pub open spec fn wf(&self) -> bool {
        bolt_shape(self.segments@, self.branches@)
    }

    /// A bolt at full life from its laid-out points; `None` when they do not
    /// have a bolt's shape.
    pub fn new(segments: Vec<Pt>, branches: Vec<Vec<Pt>>, color: Rgb, width: u32) -> (r: Option<
        Lightning<Pt>,
    >)
        ensures
            r is Some <==> bolt_shape(segments@, branches@),
            r matches Some(l) ==> l.wf() && l.segments@ == segments@ && l.branches@
                == branches@ && l.color == color && l.width == width && l.life
                == BOLT_FULL_LIFE,
    {
        if segments.len() != SEGMENT_POINTS || branches.len() < 2 || branches.len() > 4 {
            return None;
        }
        let mut b: usize = 0;
        while b < branches.len()
            invariant
                b <= branches@.len(),
                forall|j: int| 0 <= j < b ==> 6 <= (#[trigger] branches@[j])@.len() <= 10,
            decreases branches@.len() - b,
        {
            let n = branches[b].len();
            if n < 6 || n > 10 {
                return None;
            }
            b = b + 1;
        }
        Some(Lightning { segments, branches, color, width, life: BOLT_FULL_LIFE })
    }

    /// One tick: the bolt fades. Returns whether life is left.
    pub fn update(&mut self) -> (alive: bool)
        ensures
            final(self).life == (if old(self).life > BOLT_DECAY {
                old(self).life - BOLT_DECAY
            } else {
                0
            }),
            alive == (old(self).life > BOLT_DECAY),
            final(self).segments == old(self).segments,
            final(self).branches == old(self).branches,
            final(self).color == old(self).color,
            final(self).width == old(self).width,
    {
        let alive = self.life > BOLT_DECAY;
        self.life = if alive {
            self.life - BOLT_DECAY
        } else {
            0
        };
        alive
    }
}

/// Every laid-out bolt has a channel of sixteen points and two to four
/// branches whose points, root included, number six to ten.
pub proof fn law_bolt_shape(p: BoltPlan)
    requires
        p.wf(),
    ensures
        p.offsets@.len() == 16,
        2 <= p.branches@.len() <= 4,
        forall|b: int|
            0 <= b < p.branches@.len() ==> 6 <= (#[trigger] p.branches@[b]).offsets@.len() + 1 <= 10,
{
    assert forall|b: int| 0 <= b < p.branches@.len() implies 6 <= (
    #[trigger] p.branches@[b]).offsets@.len() + 1 <= 10 by {
        assert(p.branches@[b].wf());
    }
}

} // verus!
