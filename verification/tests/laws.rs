use polygon_clipping::clip;
use polygon_clipping::point::Point2d;
use polygon_clipping::polygon::{polygons_from_unordered_segments, Polygon};
use polygon_clipping::rat::Rat;
use polygon_clipping::segment::Segment;
use polygon_clipping::ClipError;

fn p(x: i64, y: i64) -> Point2d {
    Point2d::new(Rat::from_int(x), Rat::from_int(y))
}

fn square_a() -> Polygon {
    Polygon::from_points(vec![p(1, 1), p(1, 3), p(3, 3), p(3, 1)]).unwrap()
}

fn square_b() -> Polygon {
    Polygon::from_points(vec![p(2, 0), p(2, 2), p(4, 2), p(4, 0)]).unwrap()
}

fn triangle_d() -> Polygon {
    Polygon::from_points(vec![p(0, 0), p(3, 6), p(6, 0)]).unwrap()
}

fn same_polygon_set(left: &[Polygon], right: &[Polygon]) -> bool {
    left.len() == right.len()
        && left.iter().all(|a| right.iter().any(|b| a == b))
        && right.iter().all(|b| left.iter().any(|a| a == b))
}

#[test]
fn test_interior_points_stay_interior_and_exterior_stay_exterior() {
    // every point strictly interior to either input is interior to the sum;
    // every point strictly exterior to both stays exterior
    let union = clip::sum(vec![square_a(), square_b()]).unwrap();
    assert_eq!(union.len(), 1);
    let boundary = &union[0].segments;

    let interior_of_a = p(2, 2);
    let interior_of_b = p(3, 1);
    assert!(interior_of_a.is_inside_of_or_touches(boundary));
    assert!(interior_of_b.is_inside_of_or_touches(boundary));

    let exterior = p(0, 0);
    let far_exterior = p(5, 5);
    assert!(exterior.is_outside_of(boundary));
    assert!(far_exterior.is_outside_of(boundary));
}

#[test]
fn test_sum_of_two_polygons_is_symmetric() {
    let one_way = clip::sum(vec![square_a(), square_b()]).unwrap();
    let other_way = clip::sum(vec![square_b(), square_a()]).unwrap();
    assert!(same_polygon_set(&one_way, &other_way));
}

#[test]
fn test_sum_is_independent_of_reduction_order() {
    let orders = [
        vec![square_a(), square_b(), triangle_d()],
        vec![triangle_d(), square_a(), square_b()],
        vec![square_b(), triangle_d(), square_a()],
    ];
    let first = clip::sum(orders[0].clone()).unwrap();
    for order in orders.iter().skip(1) {
        let other = clip::sum(order.clone()).unwrap();
        assert!(same_polygon_set(&first, &other));
    }
}

#[test]
fn test_intersections_never_exceed_two_points() {
    // a collinear overlap reports both contained endpoints and nothing more
    let long = Segment::new(p(0, 0), p(4, 0));
    let short = Segment::new(p(1, 0), p(3, 0));
    let pts = long.intersections_with(&short).unwrap();
    assert_eq!(pts.len(), 2);
    assert_eq!(pts[0], p(1, 0));
    assert_eq!(pts[1], p(3, 0));

    // a plain crossing reports the single exact meeting point
    let rising = Segment::new(p(0, 0), p(2, 2));
    let falling = Segment::new(p(0, 2), p(2, 0));
    let pts = rising.intersections_with(&falling).unwrap();
    assert_eq!(pts.len(), 1);
    assert_eq!(pts[0], p(1, 1));

    // parallel segments on distinct lines share nothing
    let low = Segment::new(p(0, 0), p(4, 0));
    let high = Segment::new(p(0, 1), p(4, 1));
    let pts = low.intersections_with(&high).unwrap();
    assert_eq!(pts.len(), 0);
}

#[test]
fn test_sum_over_a_single_polygon_returns_it_unchanged() {
    let square = square_a();
    let expected = vec![square.clone()];
    let actual = clip::sum(vec![square]).unwrap();
    assert_eq!(actual, expected);
}

#[test]
fn test_sum_over_an_empty_list_returns_an_empty_list() {
    let actual = clip::sum(Vec::new()).unwrap();
    assert!(actual.is_empty());
}

#[test]
fn test_from_points_rejects_fewer_than_three_points() {
    let r = Polygon::from_points(vec![p(0, 0), p(1, 1)]);
    assert_eq!(r.unwrap_err(), ClipError::TooFewPoints);
}

#[test]
fn test_unclosed_fragment_bag_is_reported() {
    let fragments = vec![Segment::new(p(0, 0), p(1, 0)), Segment::new(p(1, 0), p(1, 1))];
    let r = polygons_from_unordered_segments(fragments);
    assert_eq!(r.unwrap_err(), ClipError::UnclosedFragmentChain);
}

#[test]
fn test_fragment_bag_with_two_disjoint_cycles_yields_two_polygons() {
    let fragments = vec![
        Segment::new(p(0, 0), p(0, 1)),
        Segment::new(p(0, 1), p(1, 1)),
        Segment::new(p(1, 1), p(0, 0)),
        Segment::new(p(5, 5), p(5, 6)),
        Segment::new(p(5, 6), p(6, 6)),
        Segment::new(p(6, 6), p(5, 5)),
    ];
    let polys = polygons_from_unordered_segments(fragments).unwrap();
    assert_eq!(polys.len(), 2);
    assert_eq!(polys[0].points.len(), 3);
    assert_eq!(polys[1].points.len(), 3);
}

#[test]
fn test_coordinate_past_the_limit_is_rejected() {
    assert!(Rat::new(40000, 1).is_none());
    assert!(Rat::new(1, 40000).is_none());
    assert!(Rat::new(40000, 2).is_some());
}

#[test]
fn test_intersection_past_the_coordinate_range_reports_overflow() {
    // the exact meeting point is 32767/32768 along the first axis, whose
    // reduced denominator does not fit the coordinate limit
    let steep = Segment::new(p(0, 0), p(32767, 32767));
    let shallow = Segment::new(p(0, 1), p(32767, 0));
    let r = steep.intersections_with(&shallow);
    assert_eq!(r.unwrap_err(), ClipError::CoordinateOverflow);
}

#[test]
fn test_rational_arithmetic_is_exact_and_reduced() {
    let half = Rat::new(1, 2).unwrap();
    let third = Rat::new(1, 3).unwrap();
    let sum = half.add(&third).unwrap();
    assert_eq!((sum.num, sum.den), (5, 6));

    let same_half = Rat::new(2, 4).unwrap();
    assert_eq!((same_half.num, same_half.den), (1, 2));
    assert!(half.eq_val(&same_half));

    let negated = Rat::new(3, -6).unwrap();
    assert_eq!((negated.num, negated.den), (-1, 2));

    let product = half.mul(&third).unwrap();
    assert_eq!((product.num, product.den), (1, 6));

    let quotient = half.div(&third).unwrap();
    assert_eq!((quotient.num, quotient.den), (3, 2));
}

#[test]
fn test_vertical_collinear_overlap_reports_contained_endpoints() {
    let long = Segment::new(p(0, 0), p(0, 4));
    let short = Segment::new(p(0, 1), p(0, 3));
    let pts = long.intersections_with(&short).unwrap();
    assert_eq!(pts.len(), 2);
    assert_eq!(pts[0], p(0, 1));
    assert_eq!(pts[1], p(0, 3));

    // seen from the shorter segment, neither endpoint of the longer one
    // falls within its extent
    let pts = short.intersections_with(&long).unwrap();
    assert_eq!(pts.len(), 0);
}

#[test]
fn test_points_inwards_follows_the_clockwise_winding_convention() {
    // for a clockwise boundary the interior lies to the right of each edge
    let mould_edge = Segment::new(p(0, 0), p(0, 2));
    let rightward = Segment::new(p(0, 0), p(1, 0));
    let leftward = Segment::new(p(0, 0), p(-1, 0));
    assert!(rightward.points_inwards_of(&mould_edge));
    assert!(!leftward.points_inwards_of(&mould_edge));
}

#[test]
fn test_pairwise_clip_of_two_squares_keeps_eight_fragments() {
    let a = square_a();
    let b = square_b();
    let fragments = clip::clip_one_another(&a.segments, &b.segments).unwrap();
    assert_eq!(fragments.len(), 8);
    let rebuilt = polygons_from_unordered_segments(fragments).unwrap();
    assert_eq!(rebuilt.len(), 1);
    assert_eq!(rebuilt[0].points.len(), 8);
}

#[test]
fn test_boundary_point_counts_as_inside_or_touching() {
    let square = square_a();
    let on_edge = p(1, 2);
    let corner = p(1, 1);
    assert!(on_edge.is_inside_of_or_touches(&square.segments));
    assert!(corner.is_inside_of_or_touches(&square.segments));
    assert!(!on_edge.is_outside_of(&square.segments));
}
