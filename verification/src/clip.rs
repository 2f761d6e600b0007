//! Pairwise boundary clipping and the n-ary union reduction.

use vstd::prelude::*;

verus! {

use crate::point::{Point2d, pt_eq, inside_or_touches_spec, cross_dirs_num, dot_dirs};
use crate::polygon::{Polygon, polygons_from_unordered_segments, polys_segments, assemble_walks};
use crate::segment::{
    Segment, segment_new_spec, segs_wf, parallel, opposing, intersections_spec,
};
use crate::ClipError;

/// Both endpoints of `s` lie inside, or on, the boundary `mould`.
pub open spec fn seg_inside_spec(s: Segment, mould: Seq<Segment>) -> bool {
    inside_or_touches_spec(s.start, mould) && inside_or_touches_spec(s.end, mould)
}

/// A mould edge that lies inside the other polygon is skipped (the opposite
/// pass will produce its fragments), unless it runs collinear with and
/// opposite to the edge being clipped.
pub open spec fn skip_mould_edge(m: Segment, seg: Segment, poly: Seq<Segment>) -> bool {
    seg_inside_spec(m, poly) && !(parallel(m, seg) && opposing(m, seg))
}

/// The fragments one intersection point `p` of `seg` with the mould edge `m`
/// contributes: of the two candidate sub-segments toward `seg`'s endpoints,
/// degenerate ones are dropped and the one that does not point into the
/// mould's interior is kept, re-oriented to run along `seg`'s direction.
pub open spec fn frags_of_point(p: Point2d, seg: Segment, m: Segment) -> Seq<Segment> {
    let sub_a = segment_new_spec(p, seg.start);
    let sub_b = segment_new_spec(p, seg.end);
    if pt_eq(p, seg.start) || pt_eq(p, seg.end) {
        Seq::empty()
    } else if cross_dirs_num(m.start, m.end, sub_a.start, sub_a.end) <= 0 {
        seq![sub_b]
    } else {
        seq![segment_new_spec(seg.start, p)]
    }
}

/// The fragments of the first `i` intersection points, in order.
pub open spec fn frags_upto(pts: Seq<Point2d>, seg: Segment, m: Segment, i: int) -> Seq<Segment>
    decreases i,
{
    if i <= 0 {
        Seq::empty()
    } else {
        frags_upto(pts, seg, m, i - 1) + frags_of_point(pts[i - 1], seg, m)
    }
}

/// The fragments of `seg` clipped against the first `i` mould edges; `None`
/// when an intersection left the coordinate range.
pub open spec fn clip_segment_upto(
    mould: Seq<Segment>,
    seg: Segment,
    poly: Seq<Segment>,
    i: int,
) -> Option<Seq<Segment>>
    decreases i,
{
    if i <= 0 {
        Some(Seq::empty())
    } else {
        match clip_segment_upto(mould, seg, poly, i - 1) {
            None => None,
            Some(acc) => {
                let m = mould[i - 1];
                if skip_mould_edge(m, seg, poly) {
                    Some(acc)
                } else {
                    match intersections_spec(m, seg) {
                        None => None,
                        Some(pts) => Some(acc + frags_upto(pts, seg, m, pts.len() as int)),
                    }
                }
            },
        }
    }
}

/// What clipping one edge of a polygon against the whole mould boundary
/// yields: nothing when the edge is interior to the union; its kept
/// fragments when some mould edge cuts it; the edge unchanged when none
/// does.
pub open spec fn clip_segment_spec(mould: Seq<Segment>, seg: Segment, poly: Seq<Segment>) -> Option<
    Seq<Segment>,
> {
    if seg_inside_spec(seg, mould) {
        Some(Seq::empty())
    } else {
        match clip_segment_upto(mould, seg, poly, mould.len() as int) {
            None => None,
            Some(fr) => if fr.len() == 0 {
                Some(seq![seg])
            } else {
                Some(fr)
            },
        }
    }
}

/// The fragments of the first `i` polygon edges clipped against the mould.
pub open spec fn clip_upto(mould: Seq<Segment>, poly: Seq<Segment>, i: int) -> Option<Seq<Segment>>
    decreases i,
{
    if i <= 0 {
        Some(Seq::empty())
    } else {
        match clip_upto(mould, poly, i - 1) {
            None => None,
            Some(acc) => match clip_segment_spec(mould, poly[i - 1], poly) {
                None => None,
                Some(fr) => Some(acc + fr),
            },
        }
    }
}

/// One clipping pass: every edge of `poly` clipped against `mould`.
pub open spec fn clip_spec(mould: Seq<Segment>, poly: Seq<Segment>) -> Option<Seq<Segment>> {
    clip_upto(mould, poly, poly.len() as int)
}

/// Both passes of the pairwise clip: `a` against `b`, then `b` against `a`.
pub open spec fn clip_one_another_spec(a: Seq<Segment>, b: Seq<Segment>) -> Option<Seq<Segment>> {
    match clip_spec(b, a) {
        None => None,
        Some(f1) => match clip_spec(a, b) {
            None => None,
            Some(f2) => Some(f1 + f2),
        },
    }
}

/// Once a prefix of the mould reports a range error, every longer prefix
/// does.
proof fn lemma_clip_segment_upto_none(
    mould: Seq<Segment>,
    seg: Segment,
    poly: Seq<Segment>,
    j: int,
    j2: int,
)
    requires
        clip_segment_upto(mould, seg, poly, j) is None,
        j <= j2,
    ensures
        clip_segment_upto(mould, seg, poly, j2) is None,
    decreases j2 - j,
{
    if j < j2 {
        lemma_clip_segment_upto_none(mould, seg, poly, j, j2 - 1);
    }
}

/// Once a prefix of the polygon reports a range error, every longer prefix
/// does.
proof fn lemma_clip_upto_none(mould: Seq<Segment>, poly: Seq<Segment>, j: int, j2: int)
    requires
        clip_upto(mould, poly, j) is None,
        j <= j2,
    ensures
        clip_upto(mould, poly, j2) is None,
    decreases j2 - j,
{
    if j < j2 {
        lemma_clip_upto_none(mould, poly, j, j2 - 1);
    }
}

/// Clip one edge against every mould edge, appending the kept fragments.
#[verifier::loop_isolation(false)]
fn clip_segment(
    mould_segments: &[Segment],
    segment: &Segment,
    polygon_segments: &[Segment],
    clipped_segments: &mut Vec<Segment>,
) -> (r: Result<(), ClipError>)
    requires
        segs_wf(mould_segments@),
        segs_wf(polygon_segments@),
        segment.wf(),
        segs_wf(old(clipped_segments)@),
    ensures
        match clip_segment_spec(mould_segments@, *segment, polygon_segments@) {
            Some(s) => r is Ok && final(clipped_segments)@ == old(clipped_segments)@ + s
                && segs_wf(final(clipped_segments)@),
            None => r matches Err(e) && e == ClipError::CoordinateOverflow,
        },
{
    if segment.is_inside_of_or_touches(mould_segments) {
        proof {
            assert(clipped_segments@ =~= clipped_segments@ + Seq::<Segment>::empty());
        }
        return Ok(());
    }
    let ghost base = clipped_segments@;
    let clipped_before = clipped_segments.len();
    let n = mould_segments.len();
    let mut i: usize = 0;
    while i < n
        invariant
            0 <= i <= n,
            n == mould_segments@.len(),
            segs_wf(mould_segments@),
            segs_wf(polygon_segments@),
            segment.wf(),
            segs_wf(base),
            clipped_before == base.len(),
            clip_segment_upto(mould_segments@, *segment, polygon_segments@, i as int) matches Some(
                acc,
            ) && clipped_segments@ == base + acc && segs_wf(clipped_segments@),
        decreases n - i,
    {
        let m = &mould_segments[i];
        let mut process = true;
        if m.is_inside_of_or_touches(polygon_segments) {
            let is_parallel = m.is_collinear_with(segment);
            let is_opposing = dot_dirs(&m.start, &m.end, &segment.start, &segment.end) < 0;
            if !(is_parallel && is_opposing) {
                process = false;
            }
        }
        proof {
            assert(process == !skip_mould_edge(
                mould_segments@[i as int],
                *segment,
                polygon_segments@,
            ));
        }
        if process {
            let pts = match m.intersections_with(segment) {
                Err(e) => {
                    proof {
                        lemma_clip_segment_upto_none(
                            mould_segments@,
                            *segment,
                            polygon_segments@,
                            i as int + 1,
                            n as int,
                        );
                    }
                    return Err(e);
                },
                Ok(v) => v,
            };
            let ghost acc_before = clipped_segments@;
            let np = pts.len();
            let mut pi: usize = 0;
            while pi < np
                invariant
                    0 <= pi <= np,
                    np == pts@.len(),
                    segment.wf(),
                    m.wf(),
                    0 <= i < n,
                    n == mould_segments@.len(),
                    *m == mould_segments@[i as int],
                    forall|q: int| 0 <= q < np ==> (#[trigger] pts@[q]).wf(),
                    clipped_segments@ == acc_before + frags_upto(pts@, *segment, *m, pi as int),
                    segs_wf(clipped_segments@),
                decreases np - pi,
            {
                let p = pts[pi];
                let sub_a = Segment::new(p, segment.start);
                let sub_b = Segment::new(p, segment.end);
                if sub_a.is_point() || sub_b.is_point() {
                    // a degenerate candidate: the undivided edge is handled
                    // after the loop
                } else {
                    let kept = if sub_a.points_inwards_of(m) {
                        sub_b
                    } else {
                        Segment::new(segment.start, p)
                    };
                    clipped_segments.push(kept);
                }
                proof {
                    assert((acc_before + frags_upto(pts@, *segment, *m, pi as int))
                        + frags_of_point(pts@[pi as int], *segment, *m) =~= acc_before
                        + frags_upto(pts@, *segment, *m, pi as int + 1));
                }
                pi = pi + 1;
            }
        }
        proof {
            let acc = clip_segment_upto(
                mould_segments@,
                *segment,
                polygon_segments@,
                i as int,
            )->Some_0;
            if !skip_mould_edge(mould_segments@[i as int], *segment, polygon_segments@) {
                let pts = intersections_spec(mould_segments@[i as int], *segment)->Some_0;
                let fr = frags_upto(pts, *segment, mould_segments@[i as int], pts.len() as int);
                assert((base + acc) + fr =~= base + (acc + fr));
            }
        }
        i = i + 1;
    }
    if clipped_segments.len() == clipped_before {
        proof {
            let acc = clip_segment_upto(
                mould_segments@,
                *segment,
                polygon_segments@,
                n as int,
            )->Some_0;
            assert(base + acc =~= base);
            assert(acc =~= Seq::<Segment>::empty());
        }
        clipped_segments.push(*segment);
        proof {
            assert(clipped_segments@ =~= base + seq![*segment]);
        }
    }
    Ok(())
}

/// One clipping pass: clip every edge of `polygon_segments` against the
/// boundary `mould_segments`, appending the kept fragments.
#[verifier::loop_isolation(false)]
fn clip(
    mould_segments: &[Segment],
    polygon_segments: &[Segment],
    clipped_segments: &mut Vec<Segment>,
) -> (r: Result<(), ClipError>)
    requires
        segs_wf(mould_segments@),
        segs_wf(polygon_segments@),
        segs_wf(old(clipped_segments)@),
    ensures
        match clip_spec(mould_segments@, polygon_segments@) {
            Some(s) => r is Ok && final(clipped_segments)@ == old(clipped_segments)@ + s
                && segs_wf(final(clipped_segments)@),
            None => r matches Err(e) && e == ClipError::CoordinateOverflow,
        },
{
    let ghost base = clipped_segments@;
    let n = polygon_segments.len();
    let mut i: usize = 0;
    proof {
        assert(clipped_segments@ =~= base + Seq::<Segment>::empty());
    }
    while i < n
        invariant
            0 <= i <= n,
            n == polygon_segments@.len(),
            segs_wf(mould_segments@),
            segs_wf(polygon_segments@),
            clip_upto(mould_segments@, polygon_segments@, i as int) matches Some(acc)
                && clipped_segments@ == base + acc && segs_wf(clipped_segments@),
        decreases n - i,
    {
        let segment = &polygon_segments[i];
        match clip_segment(mould_segments, segment, polygon_segments, clipped_segments) {
            Err(e) => {
                proof {
                    lemma_clip_upto_none(mould_segments@, polygon_segments@, i as int + 1, n as int);
                }
                return Err(e);
            },
            Ok(u) => u,
        };
        proof {
            let acc = clip_upto(mould_segments@, polygon_segments@, i as int)->Some_0;
            let fr = clip_segment_spec(
                mould_segments@,
                polygon_segments@[i as int],
                polygon_segments@,
            )->Some_0;
            assert((base + acc) + fr =~= base + (acc + fr));
        }
        i = i + 1;
    }
    Ok(())
}

/// The kept boundary fragments of the union of two overlapping polygons,
/// given as their edge lists: the concatenation of both clipping passes, an
/// unordered bag of directed segments.
pub fn clip_one_another(segments_a: &[Segment], segments_b: &[Segment]) -> (r: Result<
    Vec<Segment>,
    ClipError,
>)
    requires
        segs_wf(segments_a@),
        segs_wf(segments_b@),
    ensures
        match clip_one_another_spec(segments_a@, segments_b@) {
            Some(s) => r matches Ok(v) && v@ == s && segs_wf(v@),
            None => r matches Err(e) && e == ClipError::CoordinateOverflow,
        },
{
    let mut clipped_segments: Vec<Segment> = Vec::new();
    match clip(segments_b, segments_a, &mut clipped_segments) {
        Err(e) => {
            return Err(e);
        },
        Ok(u) => u,
    };
    match clip(segments_a, segments_b, &mut clipped_segments) {
        Err(e) => {
            return Err(e);
        },
        Ok(u) => u,
    };
    proof {
        let f1 = clip_spec(segments_b@, segments_a@)->Some_0;
        let f2 = clip_spec(segments_a@, segments_b@)->Some_0;
        assert((Seq::<Segment>::empty() + f1) + f2 =~= f1 + f2);
    }
    Ok(clipped_segments)
}

/// Symmetry of the pairwise union: swapping the two polygons yields the
/// same fragments as a bag - the two clipping passes merely trade places -
/// and the one order leaves the coordinate range exactly when the other
/// does. The union boundary is therefore the same set of directed edges
/// either way; only the vertex at which reassembly starts a walk may differ.
pub proof fn lemma_clip_one_another_symmetric(a: Seq<Segment>, b: Seq<Segment>)
    ensures
        clip_one_another_spec(a, b) is Some <==> clip_one_another_spec(b, a) is Some,
        clip_one_another_spec(a, b) is Some ==> clip_one_another_spec(
            a,
            b,
        )->Some_0.to_multiset() == clip_one_another_spec(b, a)->Some_0.to_multiset(),
{
    if clip_spec(b, a) is Some && clip_spec(a, b) is Some {
        let f1 = clip_spec(b, a)->Some_0;
        let f2 = clip_spec(a, b)->Some_0;
        vstd::seq_lib::lemma_seq_union_to_multiset_commutative(f1, f2);
    }
}

/// Symmetry of the two-polygon sum: reducing `[p, q]` and `[q, p]` yields
/// the same fragment bag, so together with the reassembly contract the
/// boundary edges of `sum` of two polygons do not depend on their order.
pub proof fn lemma_sum_pair_symmetric(p: Polygon, q: Polygon)
    ensures
        reduce_spec(seg_queue_view(seq![p, q])) is Some <==> reduce_spec(
            seg_queue_view(seq![q, p]),
        ) is Some,
        reduce_spec(seg_queue_view(seq![p, q])) is Some ==> reduce_spec(
            seg_queue_view(seq![p, q]),
        )->Some_0.to_multiset() == reduce_spec(seg_queue_view(seq![q, p]))->Some_0.to_multiset(),
{
    let v1 = seg_queue_view(seq![p, q]);
    let v2 = seg_queue_view(seq![q, p]);
    assert(v1.len() == 2 && v1[0] == p.segments@ && v1[1] == q.segments@);
    assert(v2.len() == 2 && v2[0] == q.segments@ && v2[1] == p.segments@);
    lemma_clip_one_another_symmetric(p.segments@, q.segments@);
    if clip_one_another_spec(p.segments@, q.segments@) is Some {
        let bag1 = clip_one_another_spec(p.segments@, q.segments@)->Some_0;
        let bag2 = clip_one_another_spec(q.segments@, p.segments@)->Some_0;
        assert(v1.subrange(2, 2).push(bag1) =~= seq![bag1]);
        assert(v2.subrange(2, 2).push(bag2) =~= seq![bag2]);
        assert(reduce_spec(seq![bag1]) == Some(bag1));
        assert(reduce_spec(seq![bag2]) == Some(bag2));
    }
}

/// The edge lists of a polygon list, in order: the work queue that the
/// union reduction drains.
pub open spec fn seg_queue_view(polys: Seq<Polygon>) -> Seq<Seq<Segment>> {
    polys.map_values(|p: Polygon| p.segments@)
}

/// The reduction protocol: while two items remain, clip the front pair and
/// enqueue the resulting fragment bag at the back; the single survivor is
/// the union's fragment bag. `None` when a step left the coordinate range.
pub open spec fn reduce_spec(queue: Seq<Seq<Segment>>) -> Option<Seq<Segment>>
    decreases queue.len(),
{
    if queue.len() == 0 {
        Some(Seq::empty())
    } else if queue.len() == 1 {
        Some(queue[0])
    } else {
        match clip_one_another_spec(queue[0], queue[1]) {
            None => None,
            Some(bag) => reduce_spec(queue.subrange(2, queue.len() as int).push(bag)),
        }
    }
}

/// The union ("sum") of a list of polygons: zero or one polygon is returned
/// unchanged without scheduling any work; otherwise the list is reduced by
/// `N - 1` pairwise clips and the final fragment bag is reassembled into the
/// disjoint boundary polygons of the union.
#[verifier::loop_isolation(false)]
#[verifier::rlimit(50)]
pub fn sum(polygons: Vec<Polygon>) -> (r: Result<Vec<Polygon>, ClipError>)
    requires
        forall|i: int| 0 <= i < polygons@.len() ==> (#[trigger] polygons@[i]).wf(),
    ensures
        polygons@.len() <= 1 ==> (r matches Ok(v) && v@ == polygons@),
        polygons@.len() >= 2 ==> match reduce_spec(seg_queue_view(polygons@)) {
            Some(bag) => match assemble_walks(bag) {
                Some(walks) => r matches Ok(v) && v@.len() == walks.len() && (forall|i: int|
                    0 <= i < walks.len() ==> (#[trigger] v@[i]).segments@ == walks[i]
                        && v@[i].wf()) && polys_segments(v@) == bag.to_multiset(),
                None => r matches Err(e) && e == ClipError::UnclosedFragmentChain,
            },
            None => r matches Err(e) && e == ClipError::CoordinateOverflow,
        },
{
    let ghost orig_view = seg_queue_view(polygons@);
    let n = polygons.len();
    if n <= 1 {
        return Ok(polygons);
    }
    let mut inputs = polygons;
    let mut queue: Vec<Vec<Segment>> = Vec::new();
    while inputs.len() > 0
        invariant
            forall|i: int| 0 <= i < inputs@.len() ==> (#[trigger] inputs@[i]).wf(),
            queue@.map_values(|v: Vec<Segment>| v@) + seg_queue_view(inputs@) =~= orig_view,
            forall|i: int| 0 <= i < queue@.len() ==> segs_wf((#[trigger] queue@[i])@),
        decreases inputs@.len(),
    {
        let p = inputs.remove(0);
        queue.push(p.segments);
        proof {
            assert(queue@.map_values(|v: Vec<Segment>| v@) + seg_queue_view(inputs@)
                =~= orig_view);
        }
    }
    while queue.len() >= 2
        invariant
            forall|i: int| 0 <= i < queue@.len() ==> segs_wf((#[trigger] queue@[i])@),
            queue@.len() >= 1,
            reduce_spec(queue@.map_values(|v: Vec<Segment>| v@)) == reduce_spec(orig_view),
        decreases queue@.len(),
    {
        let ghost qv = queue@.map_values(|v: Vec<Segment>| v@);
        let a = queue.remove(0);
        let b = queue.remove(0);
        let bag = match clip_one_another(a.as_slice(), b.as_slice()) {
            Err(e) => {
                return Err(e);
            },
            Ok(v) => v,
        };
        queue.push(bag);
        proof {
            assert(queue@.map_values(|v: Vec<Segment>| v@) =~= qv.subrange(2, qv.len() as int).push(
                bag@,
            ));
        }
    }
    let final_bag = queue.remove(0);
    polygons_from_unordered_segments(final_bag)
}

} // verus!
