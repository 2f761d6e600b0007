use polygon_clipping::iter_from::{Flatten, IterFrom, IteratorExt, IteratorFrom};

#[test]
fn test_iter_from() {
    let items = vec![0, 1, 2];
    let mut actual_items = items.from(1);
    let expected_items = [1, 2, 0];
    for expected in expected_items.iter() {
        let actual = actual_items.next().unwrap();
        assert_eq!(actual, *expected);
    }
    assert_eq!(actual_items.next(), None);
}

#[test]
fn test_iter_from_absent_item_keeps_order() {
    let items = vec![4, 5, 6];
    let mut walk = IterFrom::new(items, 9);
    assert_eq!(walk.next(), Some(4));
    assert_eq!(walk.next(), Some(5));
    assert_eq!(walk.next(), Some(6));
    assert_eq!(walk.next(), None);
}

#[test]
fn test_flatten() {
    let outer = vec![vec![1, 2], vec![3, 4]];
    let mut flat = outer.our_flatten();
    let mut actual = Vec::new();
    while let Some(v) = flat.next() {
        actual.push(v);
    }
    let expected = vec![1, 2, 3, 4];
    assert_eq!(actual, expected);
}

#[test]
fn test_flatten_skips_empty_inner_lists() {
    let outer = vec![vec![], vec![7], vec![], vec![8, 9]];
    let mut flat = Flatten::new(outer);
    let mut actual = Vec::new();
    while let Some(v) = flat.next() {
        actual.push(v);
    }
    assert_eq!(actual, vec![7, 8, 9]);
}
