//! Polygons, cyclic equality, and reassembly of fragment bags.

use vstd::prelude::*;

verus! {

use crate::bounds::{Bounds, bounds_of};
use crate::point::{Point2d, pt_eq, pt_eq_exec};
use crate::segment::{Segment, segment_new_spec, segs_wf};
use crate::ClipError;
use vstd::multiset::Multiset;

broadcast use vstd::seq_lib::group_to_multiset_ensures;

/// An ordered, cyclic sequence of at least three points, the directed edge
/// list derived from it (`segments[i]` runs from `points[i]` to the next
/// point around), and the bounds of the point set. Built once and never
/// mutated.
#[derive(Clone, Debug)]
pub struct Polygon {
    pub points: Vec<Point2d>,
    pub segments: Vec<Segment>,
    pub bounds: Bounds,
}

/// The index after `i` on a cycle of length `n`.
pub open spec fn next_idx(i: int, n: int) -> int {
    if i + 1 < n {
        i + 1
    } else {
        0
    }
}

impl Polygon {
    /// Well-formed: at least a triangle; every point and edge well-formed;
    /// each edge starts at its point and ends, by location, at the next
    /// point around the cycle; bounds freshly computed from the points.
    pub open spec fn wf(self) -> bool {
        &&& self.points@.len() >= 3
        &&& self.segments@.len() == self.points@.len()
        &&& forall|i: int| 0 <= i < self.points@.len() ==> (#[trigger] self.points@[i]).wf()
        &&& forall|i: int| 0 <= i < self.segments@.len() ==> (#[trigger] self.segments@[i]).wf()
        &&& forall|i: int|
            0 <= i < self.segments@.len() ==> (#[trigger] self.segments@[i]).start
                == self.points@[i]
        &&& forall|i: int|
            0 <= i < self.segments@.len() ==> pt_eq(
                (#[trigger] self.segments@[i]).end,
                self.points@[next_idx(i, self.points@.len() as int)],
            )
        &&& self.bounds == bounds_of(self.points@)
    }

    /// Build a polygon from an ordered point list (implicitly closed: the
    /// last point connects to the first). Fails exactly when fewer than
    /// three points are given.
    pub fn from_points(start_points: Vec<Point2d>) -> (r: Result<Polygon, ClipError>)
        requires
            forall|i: int| 0 <= i < start_points@.len() ==> (#[trigger] start_points@[i]).wf(),
        ensures
            r is Ok <==> start_points@.len() >= 3,
            r matches Err(e) ==> e == ClipError::TooFewPoints,
            r matches Ok(p) ==> p.wf() && p.points@ == start_points@ && forall|i: int|
                0 <= i < start_points@.len() ==> (#[trigger] p.segments@[i]) == segment_new_spec(
                    start_points@[i],
                    start_points@[next_idx(i, start_points@.len() as int)],
                ),
    {
        let n = start_points.len();
        if n < 3 {
            return Err(ClipError::TooFewPoints);
        }
        let mut segments: Vec<Segment> = Vec::new();
        let mut i: usize = 0;
        while i < n
            invariant
                0 <= i <= n,
                n == start_points@.len(),
                n >= 3,
                forall|j: int| 0 <= j < n ==> (#[trigger] start_points@[j]).wf(),
                segments@.len() == i,
                forall|j: int|
                    0 <= j < i ==> (#[trigger] segments@[j]) == segment_new_spec(
                        start_points@[j],
                        start_points@[next_idx(j, n as int)],
                    ),
            decreases n - i,
        {
            let nxt = if i + 1 == n {
                0
            } else {
                i + 1
            };
            let s = Segment::new(start_points[i], start_points[nxt]);
            segments.push(s);
            i = i + 1;
        }
        let bounds = Bounds::from_points(start_points.as_slice());
        let poly = Polygon { points: start_points, segments, bounds };
        proof {
            assert forall|j: int| 0 <= j < poly.segments@.len() implies (
            #[trigger] poly.segments@[j]).wf() by {
                assert(poly.segments@[j] == segment_new_spec(
                    poly.points@[j],
                    poly.points@[next_idx(j, poly.points@.len() as int)],
                ));
            }
        }
        Ok(poly)
    }

    /// The polygon's ordered points, for a consumer to walk.
    pub fn iter_points(&self) -> (r: &Vec<Point2d>)
        ensures
            r@ == self.points@,
    {
        &self.points
    }
}

/// `b` holds the points of `a` shifted left by `k` places around the cycle,
/// comparing locations.
pub open spec fn rotation_matches(a: Seq<Point2d>, b: Seq<Point2d>, k: int) -> bool {
    forall|i: int|
        0 <= i < a.len() ==> pt_eq(
            #[trigger] a[i],
            b[if i + k < a.len() {
                i + k
            } else {
                i + k - a.len()
            }],
        )
}

/// One point sequence is a cyclic rotation of the other, by location. This
/// is polygon equality: assembly may start a boundary walk at any vertex.
pub open spec fn cyclic_eq(a: Seq<Point2d>, b: Seq<Point2d>) -> bool {
    a.len() == b.len() && (a.len() == 0 || exists|k: int|
        0 <= k < a.len() && rotation_matches(a, b, k))
}

/// Cyclic-rotation idempotence: a point list and any left rotation of it
/// describe equal polygons. The rotation by `k` places is matched by the
/// shift `len - k` around the cycle.
pub proof fn lemma_cyclic_rotation_eq(a: Seq<Point2d>, k: int)
    requires
        0 <= k <= a.len(),
    ensures
        cyclic_eq(a, a.subrange(k, a.len() as int) + a.subrange(0, k)),
{
    let n = a.len() as int;
    let b = a.subrange(k, n) + a.subrange(0, k);
    if n > 0 {
        let shift = if k == 0 {
            0
        } else {
            n - k
        };
        assert forall|i: int| 0 <= i < n implies pt_eq(
            #[trigger] a[i],
            b[if i + shift < n {
                i + shift
            } else {
                i + shift - n
            }],
        ) by {
            let j = if i + shift < n {
                i + shift
            } else {
                i + shift - n
            };
            assert(b[j] == a[i]);
        }
        assert(rotation_matches(a, b, shift));
    }
}

/// Cyclic-rotation idempotence for polygons: one built from a point list
/// and one built from any rotation of that list are equal, since polygon
/// equality compares point sequences up to cyclic rotation by location.
pub proof fn lemma_rotation_builds_equal_polygon(a: Polygon, b: Polygon, k: int)
    requires
        0 <= k <= a.points@.len(),
        b.points@ == a.points@.subrange(k, a.points@.len() as int) + a.points@.subrange(0, k),
    ensures
        cyclic_eq(a.points@, b.points@),
{
    lemma_cyclic_rotation_eq(a.points@, k);
}

/// Exact cyclic equality of two polygons' point sequences.
fn polygon_cyclic_eq(a: &Polygon, b: &Polygon) -> (r: bool)
    ensures
        r == cyclic_eq(a.points@, b.points@),
{
    let n = a.points.len();
    if n != b.points.len() {
        return false;
    }
    if n == 0 {
        return true;
    }
    let mut k: usize = 0;
    while k < n
        invariant
            0 <= k <= n,
            n == a.points@.len(),
            n == b.points@.len(),
            n > 0,
            forall|k2: int| 0 <= k2 < k ==> !rotation_matches(a.points@, b.points@, k2),
        decreases n - k,
    {
        let mut all = true;
        let mut idx = k;
        let mut i: usize = 0;
        while i < n
            invariant
                0 <= i <= n,
                0 <= k < n,
                n == a.points@.len(),
                n == b.points@.len(),
                idx == if i + k < n {
                    i + k
                } else {
                    i + k - n
                },
                all == (forall|j: int|
                    0 <= j < i ==> pt_eq(
                        #[trigger] a.points@[j],
                        b.points@[if j + k < n as int {
                            j + k
                        } else {
                            j + k - n
                        }],
                    )),
            decreases n - i,
        {
            if !pt_eq_exec(&a.points[i], &b.points[idx]) {
                all = false;
            }
            idx = if idx + 1 == n {
                0
            } else {
                idx + 1
            };
            i = i + 1;
        }
        if all {
            proof {
                assert(rotation_matches(a.points@, b.points@, k as int));
            }
            return true;
        }
        k = k + 1;
    }
    false
}

impl PartialEq for Polygon {
    fn eq(&self, other: &Self) -> (r: bool) {
        polygon_cyclic_eq(self, other)
    }
}

impl vstd::std_specs::cmp::PartialEqSpecImpl for Polygon {
    open spec fn obeys_eq_spec() -> bool {
        true
    }

    open spec fn eq_spec(&self, other: &Polygon) -> bool {
        cyclic_eq(self.points@, other.points@)
    }
}

/// The bag of all edges of a polygon sequence.
pub open spec fn polys_segments(polys: Seq<Polygon>) -> Multiset<Segment>
    decreases polys.len(),
{
    if polys.len() == 0 {
        Multiset::empty()
    } else {
        polys_segments(polys.drop_last()).add(polys.last().segments@.to_multiset())
    }
}

/// The least index of a fragment departing from `v`, or `bag.len()` when
/// none does.
pub open spec fn find_outgoing(bag: Seq<Segment>, v: Point2d) -> int
    decreases bag.len(),
{
    if bag.len() == 0 {
        0
    } else if pt_eq(bag[0].start, v) {
        0
    } else {
        1 + find_outgoing(bag.drop_first(), v)
    }
}

/// A prefix of fragments not departing from `v` that ends on one that does
/// pins `find_outgoing` down.
proof fn lemma_find_outgoing_found(bag: Seq<Segment>, v: Point2d, i: int)
    requires
        0 <= i < bag.len(),
        forall|j: int| 0 <= j < i ==> !pt_eq(bag[j].start, v),
        pt_eq(bag[i].start, v),
    ensures
        find_outgoing(bag, v) == i,
    decreases i,
{
    if i > 0 {
        lemma_find_outgoing_found(bag.drop_first(), v, i - 1);
    }
}

/// A bag with no fragment departing from `v` gives `find_outgoing` its
/// length.
proof fn lemma_find_outgoing_absent(bag: Seq<Segment>, v: Point2d)
    requires
        forall|j: int| 0 <= j < bag.len() ==> !pt_eq(bag[j].start, v),
    ensures
        find_outgoing(bag, v) == bag.len(),
    decreases bag.len(),
{
    if bag.len() > 0 {
        lemma_find_outgoing_absent(bag.drop_first(), v);
    }
}

/// One boundary walk: starting with the fragments `segs` already walked and
/// standing at `current`, repeatedly consume the first fragment of `bag`
/// departing from the current location. Yields the complete walk and what
/// is left of the bag.
pub open spec fn walk_from(bag: Seq<Segment>, segs: Seq<Segment>, current: Point2d) -> (
    Seq<Segment>,
    Seq<Segment>,
)
    decreases bag.len(),
{
    let k = find_outgoing(bag, current);
    if k < 0 || k >= bag.len() {
        (segs, bag)
    } else {
        walk_from(bag.remove(k), segs.push(bag[k]), bag[k].end)
    }
}

/// A walk consumes fragments, never makes them.
proof fn lemma_walk_from_len(bag: Seq<Segment>, segs: Seq<Segment>, current: Point2d)
    ensures
        walk_from(bag, segs, current).1.len() <= bag.len(),
    decreases bag.len(),
{
    let k = find_outgoing(bag, current);
    if 0 <= k < bag.len() {
        lemma_walk_from_len(bag.remove(k), segs.push(bag[k]), bag[k].end);
    }
}

/// The walks that reassembly carves out of a fragment bag, in order: each
/// round walks from the bag's front fragment until no fragment continues
/// it; a walk that is shorter than a triangle or does not return to its
/// start makes the whole bag malformed.
pub open spec fn assemble_walks(bag: Seq<Segment>) -> Option<Seq<Seq<Segment>>>
    decreases bag.len(),
    via assemble_walks_decreases
{
    if bag.len() == 0 {
        Some(Seq::empty())
    } else {
        let first = bag[0];
        let wr = walk_from(bag.drop_first(), seq![first], first.end);
        if wr.0.len() < 3 || !pt_eq(wr.0.last().end, first.start) {
            None
        } else {
            match assemble_walks(wr.1) {
                None => None,
                Some(ws) => Some(seq![wr.0] + ws),
            }
        }
    }
}

#[via_fn]
proof fn assemble_walks_decreases(bag: Seq<Segment>) {
    if bag.len() > 0 {
        lemma_walk_from_len(bag.drop_first(), seq![bag[0]], bag[0].end);
    }
}

/// Rebuild closed polygon boundaries from an unordered bag of directed
/// fragments by vertex-keyed walks: repeatedly follow a fragment departing
/// from the current location until no fragment continues the walk, emit the
/// closed walk as one polygon, and start over while fragments remain.
///
/// The walks are exactly `assemble_walks` of the bag: success and failure,
/// the number of polygons and each polygon's edge list are all pinned down.
/// On success every emitted polygon is a well-formed closed boundary and
/// the emitted edges are, as a bag, exactly the input fragments. A walk
/// that gets stuck away from its start, or returns to it in fewer than
/// three steps, reports the bag as malformed instead of silently emitting a
/// truncated polygon.
#[verifier::loop_isolation(false)]
pub fn polygons_from_unordered_segments(unordered_segments: Vec<Segment>) -> (r: Result<
    Vec<Polygon>,
    ClipError,
>)
    requires
        segs_wf(unordered_segments@),
    ensures
        match assemble_walks(unordered_segments@) {
            Some(walks) => r matches Ok(polys) && polys@.len() == walks.len() && (forall|i: int|
                0 <= i < walks.len() ==> (#[trigger] polys@[i]).segments@ == walks[i]
                    && polys@[i].wf()) && polys_segments(polys@)
                == unordered_segments@.to_multiset(),
            None => r matches Err(e) && e == ClipError::UnclosedFragmentChain,
        },
{
    let ghost input = unordered_segments@.to_multiset();
    let ghost orig_seq = unordered_segments@;
    let mut remaining = unordered_segments;
    let mut polygons: Vec<Polygon> = Vec::new();
    let ghost mut walks_done: Seq<Seq<Segment>> = Seq::empty();
    proof {
        if assemble_walks(orig_seq) is Some {
            let ws = assemble_walks(orig_seq)->Some_0;
            assert(walks_done + ws =~= ws);
        }
    }
    while remaining.len() > 0
        invariant
            segs_wf(remaining@),
            forall|i: int| 0 <= i < polygons@.len() ==> (#[trigger] polygons@[i]).wf(),
            polys_segments(polygons@).add(remaining@.to_multiset()) =~= input,
            polygons@.len() == walks_done.len(),
            forall|i: int|
                0 <= i < walks_done.len() ==> (#[trigger] polygons@[i]).segments@
                    == walks_done[i],
            assemble_walks(remaining@) is None ==> assemble_walks(orig_seq) is None,
            forall|ws: Seq<Seq<Segment>>|
                assemble_walks(remaining@) == Some(ws) ==> assemble_walks(orig_seq) == Some(
                    walks_done + ws,
                ),
        decreases remaining@.len(),
    {
        let ghost outer_len = remaining@.len();
        let ghost pre_bag = remaining@;
        let first = remaining.remove(0);
        proof {
            assert(remaining@ =~= pre_bag.drop_first());
        }
        let ghost round_bag = remaining@;
        let mut walk_points: Vec<Point2d> = Vec::new();
        let mut walk_segs: Vec<Segment> = Vec::new();
        walk_points.push(first.start);
        let mut current: Point2d = first.end;
        walk_segs.push(first);
        loop
            invariant
                remaining@.len() < outer_len,
                segs_wf(remaining@),
                segs_wf(walk_segs@),
                walk_segs@.len() == walk_points@.len(),
                walk_segs@.len() >= 1,
                walk_segs@[0] == first,
                forall|i: int|
                    0 <= i < walk_points@.len() ==> (#[trigger] walk_segs@[i]).start
                        == walk_points@[i],
                forall|i: int|
                    0 <= i < walk_segs@.len() - 1 ==> pt_eq(
                        (#[trigger] walk_segs@[i]).end,
                        walk_points@[i + 1],
                    ),
                current == walk_segs@.last().end,
                walk_from(remaining@, walk_segs@, current) == walk_from(
                    round_bag,
                    seq![first],
                    first.end,
                ),
                polys_segments(polygons@).add(remaining@.to_multiset()).add(
                    walk_segs@.to_multiset(),
                ) =~= input,
            decreases remaining@.len(),
        {
            let mut found = remaining.len();
            let mut j: usize = 0;
            while j < remaining.len()
                invariant
                    0 <= j <= remaining@.len(),
                    found <= remaining@.len(),
                    found == remaining@.len() ==> forall|j2: int|
                        0 <= j2 < j ==> !pt_eq(remaining@[j2].start, current),
                    found < remaining@.len() ==> pt_eq(remaining@[found as int].start, current)
                        && (forall|j2: int|
                        0 <= j2 < found ==> !pt_eq(remaining@[j2].start, current)),
                decreases remaining@.len() - j,
            {
                if found == remaining.len() {
                    let candidate = &remaining[j];
                    if pt_eq_exec(&candidate.start, &current) {
                        found = j;
                    }
                }
                j = j + 1;
            }
            if found == remaining.len() {
                proof {
                    lemma_find_outgoing_absent(remaining@, current);
                }
                break ;
            }
            proof {
                lemma_find_outgoing_found(remaining@, current, found as int);
            }
            let ghost b = remaining@;
            let ghost ws_old = walk_segs@;
            let ghost current_old = current;
            let seg = remaining.remove(found);
            walk_points.push(seg.start);
            current = seg.end;
            walk_segs.push(seg);
            proof {
                assert(walk_from(b, ws_old, current_old) == walk_from(
                    b.remove(found as int),
                    ws_old.push(b[found as int]),
                    b[found as int].end,
                ));
            }
        }
        // the walk is complete: it must have closed and form at least a
        // triangle
        proof {
            assert(walk_from(remaining@, walk_segs@, current) == (walk_segs@, remaining@));
        }
        let ghost wr = walk_from(round_bag, seq![first], first.end);
        if walk_points.len() < 3 {
            return Err(ClipError::UnclosedFragmentChain);
        }
        if !pt_eq_exec(&current, &walk_points[0]) {
            return Err(ClipError::UnclosedFragmentChain);
        }
        proof {
            assert(!(wr.0.len() < 3 || !pt_eq(wr.0.last().end, pre_bag[0].start)));
            assert(assemble_walks(pre_bag) is None ==> assemble_walks(remaining@) is None);
            assert forall|i: int| 0 <= i < walk_points@.len() implies (
            #[trigger] walk_points@[i]).wf() by {
                assert(walk_segs@[i].wf());
                assert(walk_segs@[i].start == walk_points@[i]);
            }
        }
        let bounds = Bounds::from_points(walk_points.as_slice());
        let poly = Polygon { points: walk_points, segments: walk_segs, bounds };
        proof {
            let n = poly.points@.len() as int;
            assert forall|i: int| 0 <= i < poly.segments@.len() implies pt_eq(
                (#[trigger] poly.segments@[i]).end,
                poly.points@[next_idx(i, n)],
            ) by {
                if i < poly.segments@.len() - 1 {
                    assert(pt_eq(poly.segments@[i].end, poly.points@[i + 1]));
                } else {
                    assert(poly.segments@[i].end == current);
                }
            }
            assert(poly.wf());
            assert(polys_segments(polygons@.push(poly)) =~= polys_segments(polygons@).add(
                poly.segments@.to_multiset(),
            )) by {
                assert(polygons@.push(poly).drop_last() =~= polygons@);
            }
            if assemble_walks(remaining@) is Some {
                let ws2 = assemble_walks(remaining@)->Some_0;
                assert(assemble_walks(pre_bag) == Some(seq![wr.0] + ws2));
                assert(walks_done + (seq![wr.0] + ws2) =~= walks_done.push(wr.0) + ws2);
            }
            walks_done = walks_done.push(poly.segments@);
        }
        polygons.push(poly);
    }
    proof {
        assert(remaining@.to_multiset() =~= Multiset::empty());
        assert(polys_segments(polygons@) =~= input);
        assert(walks_done + Seq::<Seq<Segment>>::empty() =~= walks_done);
    }
    Ok(polygons)
}

} // verus!
