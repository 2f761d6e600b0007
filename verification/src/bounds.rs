//! Axis-aligned bounds, recomputed fresh from a point set.

use vstd::prelude::*;

verus! {

use crate::point::Point2d;
use crate::rat::{Rat, rat_le, lemma_rat_le_trans};

/// Axis-aligned minimum and maximum of both coordinates of a point set;
/// never mutated in place.
#[derive(Clone, Copy, Debug)]
pub struct Bounds {
    pub min_x: Rat,
    pub max_x: Rat,
    pub min_y: Rat,
    pub max_y: Rat,
}

/// The smaller of two coordinates by value; the second on ties.
pub open spec fn rat_min(a: Rat, b: Rat) -> Rat {
    if rat_le(b, a) {
        b
    } else {
        a
    }
}

/// The larger of two coordinates by value; the first on ties.
pub open spec fn rat_max(a: Rat, b: Rat) -> Rat {
    if rat_le(b, a) {
        a
    } else {
        b
    }
}

/// Exact evaluation of `rat_min`.
pub fn rat_min_exec(a: &Rat, b: &Rat) -> (r: Rat)
    ensures
        r == rat_min(*a, *b),
{
    if b.le(a) {
        *b
    } else {
        *a
    }
}

/// Exact evaluation of `rat_max`.
pub fn rat_max_exec(a: &Rat, b: &Rat) -> (r: Rat)
    ensures
        r == rat_max(*a, *b),
{
    if b.le(a) {
        *a
    } else {
        *b
    }
}

/// The bounds of a nonempty point sequence, folded front to back.
pub open spec fn bounds_of(points: Seq<Point2d>) -> Bounds
    recommends
        points.len() >= 1,
    decreases points.len(),
{
    if points.len() <= 1 {
        Bounds { min_x: points[0].x, max_x: points[0].x, min_y: points[0].y, max_y: points[0].y }
    } else {
        let prev = bounds_of(points.drop_last());
        let p = points.last();
        Bounds {
            min_x: rat_min(prev.min_x, p.x),
            max_x: rat_max(prev.max_x, p.x),
            min_y: rat_min(prev.min_y, p.y),
            max_y: rat_max(prev.max_y, p.y),
        }
    }
}

impl Bounds {
    /// All four extremes are well-formed coordinates.
    pub open spec fn wf(self) -> bool {
        self.min_x.wf() && self.max_x.wf() && self.min_y.wf() && self.max_y.wf()
    }

    /// The bounds of a nonempty point slice: each coordinate's exact minimum
    /// and maximum.
    pub fn from_points(points: &[Point2d]) -> (r: Bounds)
        requires
            points@.len() >= 1,
            forall|i: int| 0 <= i < points@.len() ==> points@[i].wf(),
        ensures
            r == bounds_of(points@),
            r.wf(),
            forall|i: int|
                0 <= i < points@.len() ==> rat_le(r.min_x, points@[i].x) && rat_le(
                    points@[i].x,
                    r.max_x,
                ) && rat_le(r.min_y, points@[i].y) && rat_le(points@[i].y, r.max_y),
    {
        let first = points[0];
        let mut r = Bounds { min_x: first.x, max_x: first.x, min_y: first.y, max_y: first.y };
        let mut i: usize = 1;
        proof {
            assert(points@.take(1).len() == 1);
            assert(points@.take(1)[0] == points@[0]);
        }
        while i < points.len()
            invariant
                1 <= i <= points@.len(),
                forall|j: int| 0 <= j < points@.len() ==> points@[j].wf(),
                r == bounds_of(points@.take(i as int)),
                r.wf(),
                forall|j: int|
                    0 <= j < i ==> rat_le(r.min_x, points@[j].x) && rat_le(points@[j].x, r.max_x)
                        && rat_le(r.min_y, points@[j].y) && rat_le(points@[j].y, r.max_y),
            decreases points@.len() - i,
        {
            let p = points[i];
            let next = Bounds {
                min_x: rat_min_exec(&r.min_x, &p.x),
                max_x: rat_max_exec(&r.max_x, &p.x),
                min_y: rat_min_exec(&r.min_y, &p.y),
                max_y: rat_max_exec(&r.max_y, &p.y),
            };
            proof {
                assert(points@.take(i + 1).drop_last() =~= points@.take(i as int));
                assert(points@.take(i + 1).last() == points@[i as int]);
                assert forall|j: int| 0 <= j < i implies rat_le(next.min_x, points@[j].x) && rat_le(
                    points@[j].x,
                    next.max_x,
                ) && rat_le(next.min_y, points@[j].y) && rat_le(points@[j].y, next.max_y) by {
                    lemma_rat_le_trans(next.min_x, r.min_x, points@[j].x);
                    lemma_rat_le_trans(points@[j].x, r.max_x, next.max_x);
                    lemma_rat_le_trans(next.min_y, r.min_y, points@[j].y);
                    lemma_rat_le_trans(points@[j].y, r.max_y, next.max_y);
                }
            }
            r = next;
            i = i + 1;
        }
        proof {
            assert(points@.take(points@.len() as int) =~= points@);
        }
        r
    }
}

} // verus!
