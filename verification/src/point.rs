//! Points and the elementary exact sign tests built on them.
//!
//! Every predicate here is decided exactly: a sign test on a rational
//! expression is evaluated as a sign test on its cross-multiplied integer
//! numerator, whose denominator is known positive.

use vstd::prelude::*;

verus! {

use crate::rat::{Rat, rat_eq, rat_le, rat_lt, lemma_mul_within, COORD_LIMIT};
use crate::segment::{Segment, segs_wf, on_segment};

/// A point in the plane with exact rational coordinates.
#[derive(Clone, Copy, Debug)]
pub struct Point2d {
    pub x: Rat,
    pub y: Rat,
}

impl Point2d {
    /// Both coordinates are well-formed.
    pub open spec fn wf(self) -> bool {
        self.x.wf() && self.y.wf()
    }

    /// The point `(x, y)`.
    pub fn new(x: Rat, y: Rat) -> (r: Point2d)
        ensures
            r.x == x,
            r.y == y,
    {
        Point2d { x, y }
    }
}

/// The two points denote the same location.
pub open spec fn pt_eq(a: Point2d, b: Point2d) -> bool {
    rat_eq(a.x, b.x) && rat_eq(a.y, b.y)
}

/// Exact test that two points denote the same location.
pub fn pt_eq_exec(a: &Point2d, b: &Point2d) -> (r: bool)
    ensures
        r == pt_eq(*a, *b),
{
    a.x.eq_val(&b.x) && a.y.eq_val(&b.y)
}

impl PartialEq for Point2d {
    fn eq(&self, other: &Self) -> (r: bool) {
        pt_eq_exec(self, other)
    }
}

impl vstd::std_specs::cmp::PartialEqSpecImpl for Point2d {
    open spec fn obeys_eq_spec() -> bool {
        true
    }

    open spec fn eq_spec(&self, other: &Point2d) -> bool {
        pt_eq(*self, *other)
    }
}

/// Numerator of the difference `a - b`, over the denominator `sub_d(a, b)`.
pub open spec fn sub_n(a: Rat, b: Rat) -> int {
    a.num * b.den - b.num * a.den
}

/// Denominator of the difference `a - b`; positive for well-formed inputs.
pub open spec fn sub_d(a: Rat, b: Rat) -> int {
    a.den * b.den
}

/// Sign-significant numerator of the cross product `(a2 - a1) x (b2 - b1)`
/// (its z-component), over a positive denominator.
pub open spec fn cross_dirs_num(a1: Point2d, a2: Point2d, b1: Point2d, b2: Point2d) -> int {
    sub_n(a2.x, a1.x) * sub_n(b2.y, b1.y) * (sub_d(a2.y, a1.y) * sub_d(b2.x, b1.x)) - sub_n(
        a2.y,
        a1.y,
    ) * sub_n(b2.x, b1.x) * (sub_d(a2.x, a1.x) * sub_d(b2.y, b1.y))
}

/// Sign-significant numerator of the dot product `(a2 - a1) . (b2 - b1)`,
/// over a positive denominator.
pub open spec fn dot_dirs_num(a1: Point2d, a2: Point2d, b1: Point2d, b2: Point2d) -> int {
    sub_n(a2.x, a1.x) * sub_n(b2.x, b1.x) * (sub_d(a2.y, a1.y) * sub_d(b2.y, b1.y)) + sub_n(
        a2.y,
        a1.y,
    ) * sub_n(b2.y, b1.y) * (sub_d(a2.x, a1.x) * sub_d(b2.x, b1.x))
}

/// Orientation of the triple `(a, b, c)`: the sign of `(b - a) x (c - a)`.
/// Positive means `c` lies to the left of the directed line `a -> b`.
pub open spec fn orient_num(a: Point2d, b: Point2d, c: Point2d) -> int {
    cross_dirs_num(a, b, a, c)
}

/// `c` lies on the supporting line of `a -> b`.
pub open spec fn collinear(a: Point2d, b: Point2d, c: Point2d) -> bool {
    orient_num(a, b, c) == 0
}

/// Exact evaluation of `sub_n`.
fn sub_n_i128(a: &Rat, b: &Rat) -> (r: i128)
    requires
        a.wf(),
        b.wf(),
    ensures
        r as int == sub_n(*a, *b),
        -0x8000_0000 <= r <= 0x8000_0000,
{
    proof {
        lemma_mul_within(a.num as int, b.den as int, COORD_LIMIT as int, COORD_LIMIT as int);
        lemma_mul_within(b.num as int, a.den as int, COORD_LIMIT as int, COORD_LIMIT as int);
    }
    (a.num as i128) * (b.den as i128) - (b.num as i128) * (a.den as i128)
}

/// Exact evaluation of `sub_d`.
fn sub_d_i128(a: &Rat, b: &Rat) -> (r: i128)
    requires
        a.wf(),
        b.wf(),
    ensures
        r as int == sub_d(*a, *b),
        1 <= r <= 0x4000_0000,
{
    proof {
        lemma_mul_within(a.den as int, b.den as int, COORD_LIMIT as int, COORD_LIMIT as int);
        crate::rat::lemma_mul_pos(a.den as int, b.den as int);
    }
    (a.den as i128) * (b.den as i128)
}

/// Exact evaluation of `cross_dirs_num`.
pub fn cross_dirs(a1: &Point2d, a2: &Point2d, b1: &Point2d, b2: &Point2d) -> (r: i128)
    requires
        a1.wf(),
        a2.wf(),
        b1.wf(),
        b2.wf(),
    ensures
        r as int == cross_dirs_num(*a1, *a2, *b1, *b2),
{
    let nax = sub_n_i128(&a2.x, &a1.x);
    let nay = sub_n_i128(&a2.y, &a1.y);
    let nbx = sub_n_i128(&b2.x, &b1.x);
    let nby = sub_n_i128(&b2.y, &b1.y);
    let dax = sub_d_i128(&a2.x, &a1.x);
    let day = sub_d_i128(&a2.y, &a1.y);
    let dbx = sub_d_i128(&b2.x, &b1.x);
    let dby = sub_d_i128(&b2.y, &b1.y);
    proof {
        lemma_mul_within(nax as int, nby as int, 0x8000_0000, 0x8000_0000);
        lemma_mul_within(day as int, dbx as int, 0x4000_0000, 0x4000_0000);
        lemma_mul_within(
            nax as int * nby as int,
            day as int * dbx as int,
            0x4000_0000_0000_0000,
            0x1000_0000_0000_0000,
        );
        lemma_mul_within(nay as int, nbx as int, 0x8000_0000, 0x8000_0000);
        lemma_mul_within(dax as int, dby as int, 0x4000_0000, 0x4000_0000);
        lemma_mul_within(
            nay as int * nbx as int,
            dax as int * dby as int,
            0x4000_0000_0000_0000,
            0x1000_0000_0000_0000,
        );
    }
    nax * nby * (day * dbx) - nay * nbx * (dax * dby)
}

/// Exact evaluation of `dot_dirs_num`.
pub fn dot_dirs(a1: &Point2d, a2: &Point2d, b1: &Point2d, b2: &Point2d) -> (r: i128)
    requires
        a1.wf(),
        a2.wf(),
        b1.wf(),
        b2.wf(),
    ensures
        r as int == dot_dirs_num(*a1, *a2, *b1, *b2),
{
    let nax = sub_n_i128(&a2.x, &a1.x);
    let nay = sub_n_i128(&a2.y, &a1.y);
    let nbx = sub_n_i128(&b2.x, &b1.x);
    let nby = sub_n_i128(&b2.y, &b1.y);
    let dax = sub_d_i128(&a2.x, &a1.x);
    let day = sub_d_i128(&a2.y, &a1.y);
    let dbx = sub_d_i128(&b2.x, &b1.x);
    let dby = sub_d_i128(&b2.y, &b1.y);
    proof {
        lemma_mul_within(nax as int, nbx as int, 0x8000_0000, 0x8000_0000);
        lemma_mul_within(day as int, dby as int, 0x4000_0000, 0x4000_0000);
        lemma_mul_within(
            nax as int * nbx as int,
            day as int * dby as int,
            0x4000_0000_0000_0000,
            0x1000_0000_0000_0000,
        );
        lemma_mul_within(nay as int, nby as int, 0x8000_0000, 0x8000_0000);
        lemma_mul_within(dax as int, dbx as int, 0x4000_0000, 0x4000_0000);
        lemma_mul_within(
            nay as int * nby as int,
            dax as int * dbx as int,
            0x4000_0000_0000_0000,
            0x1000_0000_0000_0000,
        );
    }
    nax * nbx * (day * dby) + nay * nby * (dax * dbx)
}

/// Exact orientation test: the sign of `orient_num(a, b, c)`.
pub fn orient(a: &Point2d, b: &Point2d, c: &Point2d) -> (r: i128)
    requires
        a.wf(),
        b.wf(),
        c.wf(),
    ensures
        r as int == orient_num(*a, *b, *c),
{
    cross_dirs(a, b, a, c)
}

/// The contribution of one directed boundary edge to the winding number of
/// `p`: `+1` for an upward edge crossing the horizontal ray through `p` with
/// `p` strictly to its left, `-1` for a downward edge with `p` strictly to
/// its right, `0` otherwise. The half-open vertical ranges make each vertex
/// count exactly once.
pub open spec fn winding_step(p: Point2d, s: Segment) -> int {
    if rat_le(s.start.y, p.y) && rat_lt(p.y, s.end.y) && orient_num(s.start, s.end, p) > 0 {
        1
    } else if rat_le(s.end.y, p.y) && rat_lt(p.y, s.start.y) && orient_num(s.start, s.end, p) < 0 {
        -1int
    } else {
        0
    }
}

/// The winding number of `p` around the closed boundary `segs`: the sum of
/// every edge's contribution. For a point not on the boundary of a simple
/// polygon it is nonzero exactly when the point is enclosed.
pub open spec fn winding_total(p: Point2d, segs: Seq<Segment>) -> int
    decreases segs.len(),
{
    if segs.len() == 0 {
        0
    } else {
        winding_total(p, segs.drop_last()) + winding_step(p, segs.last())
    }
}

/// `p` lies on some edge of the boundary.
pub open spec fn touches_spec(p: Point2d, segs: Seq<Segment>) -> bool {
    exists|i: int| 0 <= i < segs.len() && on_segment(p, segs[i])
}

/// `p` is enclosed by the boundary or lies on it.
pub open spec fn inside_or_touches_spec(p: Point2d, segs: Seq<Segment>) -> bool {
    touches_spec(p, segs) || winding_total(p, segs) != 0
}

/// `p` is strictly outside the boundary: not on it, with winding number zero.
pub open spec fn outside_spec(p: Point2d, segs: Seq<Segment>) -> bool {
    !touches_spec(p, segs) && winding_total(p, segs) == 0
}

impl Point2d {
    /// `self` lies on some edge of `segments`.
    fn touches(&self, segments: &[Segment]) -> (r: bool)
        requires
            self.wf(),
            segs_wf(segments@),
        ensures
            r == touches_spec(*self, segments@),
    {
        let n = segments.len();
        let mut i: usize = 0;
        while i < n
            invariant
                0 <= i <= n,
                n == segments@.len(),
                self.wf(),
                segs_wf(segments@),
                forall|j: int| 0 <= j < i ==> !on_segment(*self, segments@[j]),
            decreases n - i,
        {
            if segments[i].contains(self) {
                return true;
            }
            i = i + 1;
        }
        false
    }

    /// The exact winding number of `self` around the boundary `segments`.
    fn winding(&self, segments: &[Segment]) -> (r: i128)
        requires
            self.wf(),
            segs_wf(segments@),
        ensures
            r as int == winding_total(*self, segments@),
    {
        let n = segments.len();
        let mut total: i128 = 0;
        let mut i: usize = 0;
        while i < n
            invariant
                0 <= i <= n,
                n == segments@.len(),
                self.wf(),
                segs_wf(segments@),
                total as int == winding_total(*self, segments@.take(i as int)),
                -(i as int) <= total as int <= i as int,
            decreases n - i,
        {
            let s = &segments[i];
            let mut delta: i128 = 0;
            if s.start.y.le(&self.y) && self.y.lt(&s.end.y) && orient(&s.start, &s.end, self) > 0 {
                delta = 1;
            } else if s.end.y.le(&self.y) && self.y.lt(&s.start.y) && orient(
                &s.start,
                &s.end,
                self,
            ) < 0 {
                delta = -1;
            }
            proof {
                assert(delta as int == winding_step(*self, segments@[i as int]));
                assert(segments@.take(i + 1).drop_last() =~= segments@.take(i as int));
                assert(segments@.take(i + 1).last() == segments@[i as int]);
            }
            total = total + delta;
            i = i + 1;
        }
        proof {
            assert(segments@.take(n as int) =~= segments@);
        }
        total
    }

    /// `self` is enclosed by the boundary `mould_segments` or lies on it,
    /// decided by an exact winding-number test plus an exact on-edge test.
    pub fn is_inside_of_or_touches(&self, mould_segments: &[Segment]) -> (r: bool)
        requires
            self.wf(),
            segs_wf(mould_segments@),
        ensures
            r == inside_or_touches_spec(*self, mould_segments@),
    {
        if self.touches(mould_segments) {
            return true;
        }
        self.winding(mould_segments) != 0
    }

    /// `self` is strictly outside the boundary `mould_segments`: winding
    /// number zero and on no edge of it.
    pub fn is_outside_of(&self, mould_segments: &[Segment]) -> (r: bool)
        requires
            self.wf(),
            segs_wf(mould_segments@),
        ensures
            r == outside_spec(*self, mould_segments@),
    {
        !self.is_inside_of_or_touches(mould_segments)
    }
}

/// A point in space with exact rational coordinates.
#[derive(Clone, Copy, Debug)]
pub struct Point3d {
    pub x: Rat,
    pub y: Rat,
    pub z: Rat,
}

impl Point3d {
    /// The point `(x, y, z)`.
    pub fn new(x: Rat, y: Rat, z: Rat) -> (r: Point3d)
        ensures
            r.x == x,
            r.y == y,
            r.z == z,
    {
        Point3d { x, y, z }
    }
}

/// A vertex identity key taken from the exact bit pattern of a binary64
/// coordinate pair: mantissa, biased-free exponent and sign per axis. It is
/// meant for exact-match lookups only, never for tolerance tests.
#[derive(PartialEq, Eq, Hash, Clone, Copy, Debug)]
pub struct DecomposedPoint {
    pub x: (u64, i16, i8),
    pub y: (u64, i16, i8),
}

impl DecomposedPoint {
    /// Decompose the two bit patterns of a coordinate pair.
    pub fn from_bits(x_bits: u64, y_bits: u64) -> (r: DecomposedPoint)
        ensures
            r.x == integer_decode_spec(x_bits),
            r.y == integer_decode_spec(y_bits),
    {
        DecomposedPoint { x: integer_decode(x_bits), y: integer_decode(y_bits) }
    }
}

/// The mantissa, exponent and sign denoted by the bit pattern of a binary64
/// value, mirroring the layout of the format.
pub open spec fn integer_decode_spec(bits: u64) -> (u64, i16, i8) {
    let sign: i8 = if bits >> 63 == 0 {
        1
    } else {
        (-1) as i8
    };
    let exponent_raw = (bits >> 52) & 0x7ff;
    let mantissa: u64 = if exponent_raw == 0 {
        (bits & 0xfffffffffffff) << 1
    } else {
        (bits & 0xfffffffffffff) | 0x10000000000000
    };
    (mantissa, (exponent_raw - (1023 + 52)) as i16, sign)
}

/// Split the bit pattern of a binary64 value into mantissa, exponent and
/// sign, exactly as the format lays them out.
pub fn integer_decode(bits: u64) -> (r: (u64, i16, i8))
    ensures
        r == integer_decode_spec(bits),
{
    let sign: i8 = if bits >> 63 == 0 {
        1
    } else {
        -1
    };
    let exponent_raw: u64 = (bits >> 52) & 0x7ff;
    proof {
        assert((bits >> 52) & 0x7ff <= 0x7ff) by (bit_vector);
        assert(bits & 0xfffffffffffff <= 0xfffffffffffff) by (bit_vector);
        assert((bits & 0xfffffffffffff) << 1 == ((bits & 0xfffffffffffff) as int * 2) as u64)
            by (bit_vector);
    }
    let mantissa: u64 = if exponent_raw == 0 {
        (bits & 0xfffffffffffff) << 1
    } else {
        (bits & 0xfffffffffffff) | 0x10000000000000
    };
    let exponent: i16 = (exponent_raw as i16) - (1023 + 52);
    (mantissa, exponent, sign)
}

} // verus!
