//! Axis-aligned rectangles with exact rational corners.

use vstd::prelude::*;

use crate::affine::{Pt2, Pt2M};
use crate::rational::{Rat, RatM, rm_lt, rm_wf};

verus! {

/// Mathematical model of an axis-aligned rectangle.
pub ghost struct RectM {
    pub min: Pt2M,
    pub max: Pt2M,
}

/// A well-formed rectangle has positive width and height.
pub open spec fn rect_wf(r: RectM) -> bool {
    rm_wf(r.min.x) && rm_wf(r.min.y) && rm_wf(r.max.x) && rm_wf(r.max.y) && rm_lt(r.min.x, r.max.x)
        && rm_lt(r.min.y, r.max.y)
}

/// The four corners in the fixed winding used to build triangles:
/// bottom-left, bottom-right, top-right, top-left.
pub open spec fn rect_corners(r: RectM) -> Seq<Pt2M> {
    seq![
        Pt2M { x: r.min.x, y: r.min.y },
        Pt2M { x: r.max.x, y: r.min.y },
        Pt2M { x: r.max.x, y: r.max.y },
        Pt2M { x: r.min.x, y: r.max.y },
    ]
}

/// An executable axis-aligned rectangle.
#[derive(Clone, Copy, PartialEq, Eq, Structural, Debug)]
pub struct Rect {
    pub min: Pt2,
    pub max: Pt2,
}

impl View for Rect {
    type V = RectM;

    open spec fn view(&self) -> RectM {
        RectM { min: self.min@, max: self.max@ }
    }
}

impl Rect {
    pub open spec fn wf(self) -> bool {
        rect_wf(self@)
    }

    pub fn new(min: Pt2, max: Pt2) -> (r: Rect)
        requires
            min.wf(),
            max.wf(),
            rm_lt(min@.x, max@.x),
            rm_lt(min@.y, max@.y),
        ensures
            r.wf(),
            r@ == (RectM { min: min@, max: max@ }),
    {
        Rect { min, max }
    }

    /// The four corners in the fixed winding: bottom-left, bottom-right,
    /// top-right, top-left.
    pub fn corners(&self) -> (c: Vec<Pt2>)
        requires
            self.wf(),
        ensures
            c@.len() == 4,
            forall|i: int| 0 <= i < 4 ==> c@[i].wf() && #[trigger] c@[i]@ == rect_corners(self@)[i],
    {
        let mut c: Vec<Pt2> = Vec::new();
        c.push(Pt2 { x: self.min.x, y: self.min.y });
        c.push(Pt2 { x: self.max.x, y: self.min.y });
        c.push(Pt2 { x: self.max.x, y: self.max.y });
        c.push(Pt2 { x: self.min.x, y: self.max.y });
        c
    }

    /// The unit texture rectangle `[0, 1]²`.
    pub fn unit() -> (r: Rect)
        ensures
            r.wf(),
            r@ == (RectM {
                min: Pt2M { x: RatM { n: 0, d: 1 }, y: RatM { n: 0, d: 1 } },
                max: Pt2M { x: RatM { n: 1, d: 1 }, y: RatM { n: 1, d: 1 } },
            }),
    {
        Rect {
            min: Pt2 { x: Rat::zero(), y: Rat::zero() },
            max: Pt2 { x: Rat::one(), y: Rat::one() },
        }
    }

    /// The normalized device rectangle `[-1, 1]²`.
    pub fn ndc() -> (r: Rect)
        ensures
            r.wf(),
            r@ == (RectM {
                min: Pt2M { x: RatM { n: -1, d: 1 }, y: RatM { n: -1, d: 1 } },
                max: Pt2M { x: RatM { n: 1, d: 1 }, y: RatM { n: 1, d: 1 } },
            }),
    {
        Rect {
            min: Pt2 { x: Rat::from_int(-1), y: Rat::from_int(-1) },
            max: Pt2 { x: Rat::one(), y: Rat::one() },
        }
    }
}

} // verus!
