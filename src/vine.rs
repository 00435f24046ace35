//! Vines: trails that grow one point per tick until they leave the canvas or
//! reach their length budget, and may then fade from the oldest point on.
//! The heading and step (`W`) and the points (`Pt`) are the host's.
use vstd::prelude::*;
use crate::color::Rgb;

verus! {

pub struct Vine<W, Pt> {
    pub walker: W,
    pub points: Vec<Pt>,
    /// The growth budget: the whole part of the vine's maximum length.
    pub max_points: usize,
    pub is_grown: bool,
    pub color: Rgb,
}

/// A vine as a value: its points as a sequence.
pub struct VineView<W, Pt> {
    pub walker: W,
    pub points: Seq<Pt>,
    pub max_points: usize,
    pub is_grown: bool,
    pub color: Rgb,
}

impl<W, Pt> View for Vine<W, Pt> {
    type V = VineView<W, Pt>;

    open spec fn view(&self) -> VineView<W, Pt> {
        VineView {
            walker: self.walker,
            points: self.points@,
            max_points: self.max_points,
            is_grown: self.is_grown,
            color: self.color,
        }
    }
}

impl<W, Pt> VineView<W, Pt> {
    /// The vine after a tick whose head step is `head`.
    pub open spec fn stepped(self, walker: W, head: Option<Pt>) -> VineView<W, Pt> {
        if self.is_grown {
            self
        } else {
            match head {
                None => VineView { walker, is_grown: true, ..self },
                Some(p) => VineView {
                    walker,
                    points: self.points.push(p),
                    is_grown: self.points.len() + 1 > self.max_points,
                    ..self
                },
            }
        }
    }

    /// The vine after one fade step.
    pub open spec fn faded(self) -> VineView<W, Pt> {
        if self.points.len() == 0 {
            self
        } else {
            VineView { points: self.points.drop_first(), ..self }
        }
    }

    /// A growing vine is within its budget; a grown one holds at most one
    /// point more.
    pub open spec fn wf(self) -> bool {
        &&& self.points.len() <= self.max_points + 1
        &&& !self.is_grown ==> self.points.len() <= self.max_points
    }
}

impl<W, Pt> Vine<W, Pt> {
    pub open spec fn wf(&self) -> bool {
        self@.wf()
    }

    /// Whether a tick whose head step is `head` keeps the vine growing.
    pub open spec fn grows_on(&self, head: Option<Pt>) -> bool {
        !self.is_grown && head is Some && self.points@.len() + 1 <= self.max_points
    }

    /// Whether more than one point is left after a fade step.
    pub open spec fn fade_keeps(&self) -> bool {
        self.points@.len() > 2
    }

    pub fn new(walker: W, start: Pt, max_points: usize, color: Rgb) -> (v: Vine<W, Pt>)
        requires
            max_points >= 1,
        ensures
            v.wf(),
            v.walker == walker,
            v.points@ == seq![start],
            v.max_points == max_points,
            !v.is_grown,
            v.color == color,
    {
        let mut points: Vec<Pt> = Vec::new();
        points.push(start);
        Vine { walker, points, max_points, is_grown: false, color }
    }

    /// One tick of growth. The host has turned and advanced the head to
    /// `walker`; `head` is the new head point, or `None` where it left the
    /// canvas. Returns whether the vine is still growing.
    pub fn update(&mut self, walker: W, head: Option<Pt>) -> (growing: bool)
        requires
            old(self).wf(),
        ensures
            final(self).wf(),
            final(self)@ == old(self)@.stepped(walker, head),
            growing == old(self).grows_on(head),
            final(self).is_grown == !growing,
    {
        if self.is_grown {
            return false;
        }
        self.walker = walker;
        match head {
            None => {
                self.is_grown = true;
                false
            },
            Some(p) => {
                self.points.push(p);
                if self.points.len() > self.max_points {
                    self.is_grown = true;
                    false
                } else {
                    true
                }
            },
        }
    }

    /// Drops the oldest point. Returns whether more than one point is left.
    pub fn fade(&mut self) -> (visible: bool)
        requires
            old(self).wf(),
        ensures
            final(self).wf(),
            final(self)@ == old(self)@.faded(),
            visible == old(self).fade_keeps(),
    {
        if self.points.len() == 0 {
            return false;
        }
        self.points.remove(0);
        self.points.len() > 1
    }

    pub fn is_grown(&self) -> (g: bool)
        ensures
            g == self.is_grown,
    {
        self.is_grown
    }

    pub fn color(&self) -> (c: Rgb)
        ensures
            c == self.color,
    {
        self.color
    }

    pub fn points(&self) -> (p: &Vec<Pt>)
        ensures
            p@ == self.points@,
    {
        &self.points
    }
}

/// A vine never holds more than its budget plus one point, whatever the head
/// steps; once grown, a tick leaves its points as they are, and fading only
/// ever shortens it.
pub proof fn law_vine_length<W, Pt>(v: VineView<W, Pt>, walker: W, head: Option<Pt>)
    requires
        v.wf(),
    ensures
        v.stepped(walker, head).wf(),
        v.stepped(walker, head).points.len() <= v.max_points + 1,
        v.is_grown ==> v.stepped(walker, head).points == v.points,
        v.faded().wf(),
        v.faded().points.len() <= v.points.len(),
{
}

} // verus!
