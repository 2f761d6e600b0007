//! Directed edges and the exact predicates used to clip them.

use vstd::prelude::*;

verus! {

use crate::bounds::{Bounds, rat_min, rat_max, rat_min_exec, rat_max_exec};
use crate::point::{
    Point2d, pt_eq, pt_eq_exec, collinear, orient, cross_dirs, cross_dirs_num, dot_dirs_num,
    inside_or_touches_spec, sub_n, sub_d,
};
use crate::rat::{
    Rat, rat_le, rat_sub, rat_mul, rat_add, rat_div, lemma_frac_mul, lemma_frac_sub,
    lemma_frac_nonzero, lemma_mul_pos,
};
use crate::ClipError;

/// A directed edge `start -> end`, owning copies of both endpoints and the
/// axis-aligned bounds computed once at construction. A segment whose two
/// endpoints coincide is a degenerate "point" and is dropped downstream.
#[derive(Clone, Copy, Debug)]
pub struct Segment {
    pub start: Point2d,
    pub end: Point2d,
    pub bounds: Bounds,
}

/// The segment that `Segment::new` builds from two endpoints.
pub open spec fn segment_new_spec(start: Point2d, end: Point2d) -> Segment {
    Segment {
        start,
        end,
        bounds: Bounds {
            min_x: rat_min(start.x, end.x),
            max_x: rat_max(start.x, end.x),
            min_y: rat_min(start.y, end.y),
            max_y: rat_max(start.y, end.y),
        },
    }
}

/// Every segment of the sequence is well-formed.
pub open spec fn segs_wf(s: Seq<Segment>) -> bool {
    forall|i: int| 0 <= i < s.len() ==> s[i].wf()
}

/// The two segments have equal slope (their direction vectors are parallel).
pub open spec fn parallel(a: Segment, b: Segment) -> bool {
    cross_dirs_num(a.start, a.end, b.start, b.end) == 0
}

/// The two segments point in strictly opposing directions.
pub open spec fn opposing(a: Segment, b: Segment) -> bool {
    dot_dirs_num(a.start, a.end, b.start, b.end) < 0
}

/// `p` lies on the segment `s`: on its supporting line and within its bounds.
pub open spec fn on_segment(p: Point2d, s: Segment) -> bool {
    collinear(s.start, s.end, p) && s.boxes_spec(p)
}

/// The exact cross product `(ax, ay) x (bx, by)` of two coordinate vectors,
/// or `None` when an intermediate value leaves the coordinate range.
pub open spec fn rat_cross_spec(ax: Rat, ay: Rat, bx: Rat, by: Rat) -> Option<Rat> {
    match rat_mul(ax, by) {
        None => None,
        Some(m1) => match rat_mul(ay, bx) {
            None => None,
            Some(m2) => rat_sub(m1, m2),
        },
    }
}

/// The meeting point of the two supporting lines, computed exactly; `None`
/// when an intermediate value leaves the coordinate range (and in the
/// parallel case, which callers rule out beforehand).
pub open spec fn line_meet_spec(a: Segment, b: Segment) -> Option<Point2d> {
    match rat_sub(a.end.x, a.start.x) {
        None => None,
        Some(d1x) => match rat_sub(a.end.y, a.start.y) {
            None => None,
            Some(d1y) => match rat_sub(b.end.x, b.start.x) {
                None => None,
                Some(d2x) => match rat_sub(b.end.y, b.start.y) {
                    None => None,
                    Some(d2y) => match rat_sub(b.start.x, a.start.x) {
                        None => None,
                        Some(ex) => match rat_sub(b.start.y, a.start.y) {
                            None => None,
                            Some(ey) => match rat_cross_spec(d1x, d1y, d2x, d2y) {
                                None => None,
                                Some(den) => if den.num == 0 {
                                    None
                                } else {
                                    match rat_cross_spec(ex, ey, d2x, d2y) {
                                        None => None,
                                        Some(numer) => match rat_div(numer, den) {
                                            None => None,
                                            Some(t) => match rat_mul(t, d1x) {
                                                None => None,
                                                Some(mx) => match rat_add(a.start.x, mx) {
                                                    None => None,
                                                    Some(px) => match rat_mul(t, d1y) {
                                                        None => None,
                                                        Some(my) => match rat_add(a.start.y, my) {
                                                            None => None,
                                                            Some(py) => Some(
                                                                Point2d { x: px, y: py },
                                                            ),
                                                        },
                                                    },
                                                },
                                            },
                                        },
                                    }
                                },
                            },
                        },
                    },
                },
            },
        },
    }
}

/// One candidate intersection point, kept when the flag holds.
pub open spec fn maybe_pt(keep: bool, p: Point2d) -> Seq<Point2d> {
    if keep {
        seq![p]
    } else {
        Seq::empty()
    }
}

/// The exact intersections of two segments: `None` only when a coordinate
/// left the representable range.
pub open spec fn intersections_spec(a: Segment, b: Segment) -> Option<Seq<Point2d>> {
    if parallel(a, b) {
        if collinear(a.start, a.end, b.start) && collinear(a.start, a.end, b.end) {
            Some(
                maybe_pt(a.boxes_spec(b.start), b.start) + maybe_pt(a.boxes_spec(b.end), b.end),
            )
        } else {
            Some(Seq::empty())
        }
    } else {
        match line_meet_spec(a, b) {
            None => None,
            Some(p) => Some(maybe_pt(a.boxes_spec(p) && b.boxes_spec(p), p)),
        }
    }
}

impl Segment {
    /// Well-formed: both endpoints are, and the bounds are the ones computed
    /// at construction.
    pub open spec fn wf(self) -> bool {
        self.start.wf() && self.end.wf() && self == segment_new_spec(self.start, self.end)
    }

    /// `p` falls within the segment's horizontal extent.
    pub open spec fn within_x(self, p: Point2d) -> bool {
        rat_le(self.bounds.min_x, p.x) && rat_le(p.x, self.bounds.max_x)
    }

    /// `p` falls within the segment's vertical extent.
    pub open spec fn within_y(self, p: Point2d) -> bool {
        rat_le(self.bounds.min_y, p.y) && rat_le(p.y, self.bounds.max_y)
    }

    /// `p` falls within the segment's axis-aligned bounds.
    pub open spec fn boxes_spec(self, p: Point2d) -> bool {
        self.within_x(p) && self.within_y(p)
    }

    /// A directed edge from `start` to `end`, with its bounds.
    pub fn new(start: Point2d, end: Point2d) -> (r: Segment)
        ensures
            r == segment_new_spec(start, end),
            start.wf() && end.wf() ==> r.wf(),
    {
        let bounds = Bounds {
            min_x: rat_min_exec(&start.x, &end.x),
            max_x: rat_max_exec(&start.x, &end.x),
            min_y: rat_min_exec(&start.y, &end.y),
            max_y: rat_max_exec(&start.y, &end.y),
        };
        Segment { start, end, bounds }
    }

    /// Exact test of `within_x`.
    pub fn contains_point_within_x(&self, point: &Point2d) -> (r: bool)
        ensures
            r == self.within_x(*point),
    {
        self.bounds.min_x.le(&point.x) && point.x.le(&self.bounds.max_x)
    }

    /// Exact test of `within_y`.
    pub fn contains_point_within_y(&self, point: &Point2d) -> (r: bool)
        ensures
            r == self.within_y(*point),
    {
        self.bounds.min_y.le(&point.y) && point.y.le(&self.bounds.max_y)
    }

    /// Exact test of `boxes_spec`.
    pub fn boxes(&self, point: &Point2d) -> (r: bool)
        ensures
            r == self.boxes_spec(*point),
    {
        self.contains_point_within_x(point) && self.contains_point_within_y(point)
    }

    /// The segment is degenerate: both endpoints denote the same location.
    pub fn is_point(&self) -> (r: bool)
        ensures
            r == pt_eq(self.start, self.end),
    {
        pt_eq_exec(&self.start, &self.end)
    }

    /// Equal-slope test with `mould_segment` (parallel direction vectors);
    /// vertical pairs compare equal as well.
    pub fn is_collinear_with(&self, mould_segment: &Segment) -> (r: bool)
        requires
            self.wf(),
            mould_segment.wf(),
        ensures
            r == parallel(*self, *mould_segment),
    {
        cross_dirs(&self.start, &self.end, &mould_segment.start, &mould_segment.end) == 0
    }

    /// `point` lies on this segment: within its bounds and on its supporting
    /// line (an exact endpoint match included).
    pub fn contains(&self, point: &Point2d) -> (r: bool)
        requires
            self.wf(),
            point.wf(),
        ensures
            r == on_segment(*point, *self),
    {
        self.boxes(point) && orient(&self.start, &self.end, point) == 0
    }

    /// Orientation test under the clockwise winding convention: this
    /// segment's direction is consistent with pointing into the interior of
    /// the boundary that `mould_segment` belongs to, that is, it does not
    /// turn to the counterclockwise side of the mould edge.
    pub fn points_inwards_of(&self, mould_segment: &Segment) -> (r: bool)
        requires
            self.wf(),
            mould_segment.wf(),
        ensures
            r == (cross_dirs_num(
                mould_segment.start,
                mould_segment.end,
                self.start,
                self.end,
            ) <= 0),
    {
        cross_dirs(&mould_segment.start, &mould_segment.end, &self.start, &self.end) <= 0
    }

    /// The meeting point of the supporting lines of two non-parallel
    /// segments, computed exactly. The fraction-congruence lemmas show that
    /// the denominator cross product cannot vanish for non-parallel inputs,
    /// so the only error left is a value past the coordinate range.
    fn line_meet(a: &Segment, b: &Segment) -> (r: Result<Point2d, ClipError>)
        requires
            a.wf(),
            b.wf(),
            !parallel(*a, *b),
        ensures
            line_meet_spec(*a, *b) matches Some(p) ==> r matches Ok(q) && q == p && q.wf(),
            line_meet_spec(*a, *b) is None ==> (r matches Err(e) && e
                == ClipError::CoordinateOverflow),
    {
        let d1x = match a.end.x.sub(&a.start.x) {
            None => { return Err(ClipError::CoordinateOverflow) },
            Some(v) => v,
        };
        let d1y = match a.end.y.sub(&a.start.y) {
            None => { return Err(ClipError::CoordinateOverflow) },
            Some(v) => v,
        };
        let d2x = match b.end.x.sub(&b.start.x) {
            None => { return Err(ClipError::CoordinateOverflow) },
            Some(v) => v,
        };
        let d2y = match b.end.y.sub(&b.start.y) {
            None => { return Err(ClipError::CoordinateOverflow) },
            Some(v) => v,
        };
        let ex = match b.start.x.sub(&a.start.x) {
            None => { return Err(ClipError::CoordinateOverflow) },
            Some(v) => v,
        };
        let ey = match b.start.y.sub(&a.start.y) {
            None => { return Err(ClipError::CoordinateOverflow) },
            Some(v) => v,
        };
        let m1 = match d1x.mul(&d2y) {
            None => { return Err(ClipError::CoordinateOverflow) },
            Some(v) => v,
        };
        let m2 = match d1y.mul(&d2x) {
            None => { return Err(ClipError::CoordinateOverflow) },
            Some(v) => v,
        };
        let den = match m1.sub(&m2) {
            None => { return Err(ClipError::CoordinateOverflow) },
            Some(v) => v,
        };
        proof {
            let n1x = sub_n(a.end.x, a.start.x);
            let dd1x = sub_d(a.end.x, a.start.x);
            let n1y = sub_n(a.end.y, a.start.y);
            let dd1y = sub_d(a.end.y, a.start.y);
            let n2x = sub_n(b.end.x, b.start.x);
            let dd2x = sub_d(b.end.x, b.start.x);
            let n2y = sub_n(b.end.y, b.start.y);
            let dd2y = sub_d(b.end.y, b.start.y);
            lemma_mul_pos(a.end.x.den as int, a.start.x.den as int);
            lemma_mul_pos(a.end.y.den as int, a.start.y.den as int);
            lemma_mul_pos(b.end.x.den as int, b.start.x.den as int);
            lemma_mul_pos(b.end.y.den as int, b.start.y.den as int);
            lemma_frac_mul(d1x, n1x, dd1x, d2y, n2y, dd2y, m1);
            lemma_frac_mul(d1y, n1y, dd1y, d2x, n2x, dd2x, m2);
            lemma_mul_pos(dd1x, dd2y);
            lemma_mul_pos(dd1y, dd2x);
            lemma_frac_sub(m1, n1x * n2y, dd1x * dd2y, m2, n1y * n2x, dd1y * dd2x, den);
            lemma_mul_pos(dd1x * dd2y, dd1y * dd2x);
            assert((n1x * n2y) * (dd1y * dd2x) - (n1y * n2x) * (dd1x * dd2y) == cross_dirs_num(
                a.start,
                a.end,
                b.start,
                b.end,
            ));
            lemma_frac_nonzero(
                den,
                (n1x * n2y) * (dd1y * dd2x) - (n1y * n2x) * (dd1x * dd2y),
                (dd1x * dd2y) * (dd1y * dd2x),
            );
        }
        let e1 = match ex.mul(&d2y) {
            None => { return Err(ClipError::CoordinateOverflow) },
            Some(v) => v,
        };
        let e2 = match ey.mul(&d2x) {
            None => { return Err(ClipError::CoordinateOverflow) },
            Some(v) => v,
        };
        let numer = match e1.sub(&e2) {
            None => { return Err(ClipError::CoordinateOverflow) },
            Some(v) => v,
        };
        let t = match numer.div(&den) {
            None => { return Err(ClipError::CoordinateOverflow) },
            Some(v) => v,
        };
        let mx = match t.mul(&d1x) {
            None => { return Err(ClipError::CoordinateOverflow) },
            Some(v) => v,
        };
        let px = match a.start.x.add(&mx) {
            None => { return Err(ClipError::CoordinateOverflow) },
            Some(v) => v,
        };
        let my = match t.mul(&d1y) {
            None => { return Err(ClipError::CoordinateOverflow) },
            Some(v) => v,
        };
        let py = match a.start.y.add(&my) {
            None => { return Err(ClipError::CoordinateOverflow) },
            Some(v) => v,
        };
        Ok(Point2d { x: px, y: py })
    }

    /// Every intersection of this segment with `other`, restricted to both
    /// segments' extents: at most two points, never a synthesized midpoint.
    /// Parallel non-collinear pairs share nothing; collinear overlapping
    /// pairs contribute whichever of `other`'s endpoints fall within this
    /// segment's extent; otherwise the single supporting-line meeting point
    /// is kept exactly when both boxes contain it.
    pub fn intersections_with(&self, other: &Segment) -> (r: Result<Vec<Point2d>, ClipError>)
        requires
            self.wf(),
            other.wf(),
        ensures
            match intersections_spec(*self, *other) {
                Some(s) => r matches Ok(v) && v@ == s,
                None => r matches Err(e) && e == ClipError::CoordinateOverflow,
            },
            r matches Ok(v) ==> v@.len() <= 2 && (forall|i: int|
                0 <= i < v@.len() ==> #[trigger] v@[i].wf()),
    {
        let mut out: Vec<Point2d> = Vec::new();
        if self.is_collinear_with(other) {
            if orient(&self.start, &self.end, &other.start) == 0 && orient(
                &self.start,
                &self.end,
                &other.end,
            ) == 0 {
                if self.boxes(&other.start) {
                    out.push(other.start);
                }
                if self.boxes(&other.end) {
                    out.push(other.end);
                }
            }
            proof {
                let s = intersections_spec(*self, *other)->Some_0;
                assert(out@ =~= s);
            }
            Ok(out)
        } else {
            match Self::line_meet(self, other) {
                Err(e) => Err(e),
                Ok(p) => {
                    if self.boxes(&p) && other.boxes(&p) {
                        out.push(p);
                    }
                    proof {
                        let s = intersections_spec(*self, *other)->Some_0;
                        assert(out@ =~= s);
                    }
                    Ok(out)
                },
            }
        }
    }

    /// Both endpoints of this segment lie inside, or on, the boundary
    /// `mould_segments`.
    pub fn is_inside_of_or_touches(&self, mould_segments: &[Segment]) -> (r: bool)
        requires
            self.wf(),
            segs_wf(mould_segments@),
        ensures
            r == (inside_or_touches_spec(self.start, mould_segments@) && inside_or_touches_spec(
                self.end,
                mould_segments@,
            )),
    {
        self.start.is_inside_of_or_touches(mould_segments) && self.end.is_inside_of_or_touches(
            mould_segments,
        )
    }
}

} // verus!
