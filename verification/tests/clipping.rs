use polygon_clipping::clip;
use polygon_clipping::point::Point2d;
use polygon_clipping::polygon::Polygon;
use polygon_clipping::rat::Rat;
use polygon_clipping::vector::Vector2d;

fn p(x: i64, y: i64) -> Point2d {
    Point2d::new(Rat::from_int(x), Rat::from_int(y))
}

fn pr(xn: i64, xd: i64, yn: i64, yd: i64) -> Point2d {
    Point2d::new(Rat::new(xn, xd).unwrap(), Rat::new(yn, yd).unwrap())
}

#[test]
fn test_two_squares_partially_overlapping() {
    let points = vec![p(1, 1), p(1, 3), p(3, 3), p(3, 1)];
    let square_a = Polygon::from_points(points).unwrap();

    let points = vec![p(2, 0), p(2, 2), p(4, 2), p(4, 0)];
    let square_b = Polygon::from_points(points).unwrap();

    let polygons = vec![square_a, square_b];
    let actual_polygons = clip::sum(polygons).unwrap();

    let points = vec![
        p(2, 0),
        p(2, 1),
        p(1, 1),
        p(1, 3),
        p(3, 3),
        p(3, 2),
        p(4, 2),
        p(4, 0),
    ];
    let expected_polygon = Polygon::from_points(points).unwrap();
    let expected_polygons = vec![expected_polygon];

    assert_eq!(actual_polygons, expected_polygons);
}

#[test]
fn test_two_triangles_partially_overlapping() {
    let points = vec![p(1, 1), p(2, 3), p(3, 1)];
    let triangle_a = Polygon::from_points(points).unwrap();

    let points = vec![p(2, 2), p(3, 4), p(4, 2)];
    let triangle_b = Polygon::from_points(points).unwrap();

    let polygons = vec![triangle_a, triangle_b];
    let actual_polygons = clip::sum(polygons).unwrap();

    let points = vec![
        p(1, 1),
        p(2, 3),
        pr(9, 4, 5, 2),
        p(3, 4),
        p(4, 2),
        pr(5, 2, 2, 1),
        p(3, 1),
    ];
    let expected_polygon = Polygon::from_points(points).unwrap();
    let expected_polygons = vec![expected_polygon];

    assert_eq!(actual_polygons, expected_polygons);
}

#[test]
fn test_a_square_and_a_triangle_partially_overlapping() {
    let points = vec![p(1, 1), p(1, 3), p(3, 3), p(3, 1)];
    let square = Polygon::from_points(points).unwrap();

    let points = vec![p(0, 0), p(3, 6), p(6, 0)];
    let triangle = Polygon::from_points(points).unwrap();

    let polygons = vec![square, triangle];
    let actual_polygons = clip::sum(polygons).unwrap();

    let points = vec![
        p(0, 0),
        p(1, 2),
        p(1, 3),
        pr(3, 2, 3, 1),
        p(3, 6),
        p(6, 0),
    ];
    let expected_polygon = Polygon::from_points(points).unwrap();
    let expected_polygons = vec![expected_polygon];

    assert_eq!(actual_polygons, expected_polygons);
}

#[test]
fn test_a_square_sharing_one_edge_with_a_triangle_and_inside_of_the_triangle() {
    let points = vec![p(2, 0), p(2, 2), p(4, 2), p(4, 0)];
    let square = Polygon::from_points(points).unwrap();

    let points = vec![p(0, 0), p(3, 6), p(6, 0)];
    let triangle = Polygon::from_points(points).unwrap();
    let expected_polygons = vec![triangle.clone()];
    let polygons = vec![square, triangle];
    let actual_polygons = clip::sum(polygons).unwrap();

    assert_eq!(actual_polygons, expected_polygons);
}

#[test]
fn test_a_square_sharing_one_edge_with_a_triangle_but_otherwise_outside_the_triangle() {
    let points = vec![p(2, 0), p(4, 0), p(4, -2), p(2, -2)];
    let square = Polygon::from_points(points).unwrap();

    let points = vec![p(0, 0), p(3, 6), p(6, 0)];
    let triangle = Polygon::from_points(points).unwrap();

    let polygons = vec![square, triangle];
    let actual_polygons = clip::sum(polygons).unwrap();

    let points = vec![
        p(0, 0),
        p(3, 6),
        p(6, 0),
        p(4, 0),
        p(4, -2),
        p(2, -2),
        p(2, 0),
    ];
    let expected_polygon = Polygon::from_points(points).unwrap();
    let expected_polygons = vec![expected_polygon];

    assert_eq!(actual_polygons, expected_polygons);
}

#[test]
fn test() {
    let start_a = p(0, 0);
    let end_a = p(2, 1);
    let a = Vector2d::from_points(&start_a, &end_a).unwrap();

    let start_b = p(2, 1);
    let end_b = p(1, 1);
    let b = Vector2d::from_points(&start_b, &end_b).unwrap();
    assert!(a.dot(&b).unwrap().lt(&Rat::from_int(0)));
}

#[test]
fn test_equality_of_two_polygons_starting_at_different_points() {
    let points = vec![p(1, 1), p(1, 3), p(3, 3), p(3, 1)];
    let mut other_points = points.clone();
    let polygon_a = Polygon::from_points(points).unwrap();

    for i in 1..other_points.len() {
        other_points.rotate_left(i);
        let polygon_b = Polygon::from_points(other_points.clone()).unwrap();
        assert_eq!(polygon_a, polygon_b);
    }

    // same as above but just making sure
    for i in 1..other_points.len() {
        other_points.rotate_right(i);
        let polygon_b = Polygon::from_points(other_points.clone()).unwrap();
        assert_eq!(polygon_a, polygon_b);
    }
}
