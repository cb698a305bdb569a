//! The spatial index: point and rectangle queries over item boxes.

use humanboard::spatial::SpatialIndex;

#[test]
fn test_insert_and_query() {
    let mut index = SpatialIndex::new();
    index.insert(1, (0, 0), (100, 100));
    index.insert(2, (50, 50), (100, 100));
    index.insert(3, (200, 200), (50, 50));

    let results = index.query_point(25, 25);
    assert_eq!(results.len(), 1);
    assert!(results.contains(&1));

    let results = index.query_point(75, 75);
    assert_eq!(results.len(), 2);
}

#[test]
fn test_remove() {
    let mut index = SpatialIndex::new();
    index.insert(1, (0, 0), (100, 100));
    assert_eq!(index.len(), 1);

    index.remove(1);
    assert_eq!(index.len(), 0);
    assert!(index.query_point(50, 50).is_empty());
}

#[test]
fn test_query_rect() {
    let mut index = SpatialIndex::new();
    index.insert(1, (0, 0), (100, 100));
    index.insert(2, (150, 150), (100, 100));

    let results = index.query_rect(25, 25, 75, 75);
    assert_eq!(results.len(), 1);
    assert!(results.contains(&1));
}

#[test]
fn test_insert_replaces_entry_with_same_id() {
    let mut index = SpatialIndex::new();
    index.insert(7, (0, 0), (10, 10));
    index.insert(7, (500, 500), (10, 10));

    assert_eq!(index.len(), 1);
    assert!(index.query_point(5, 5).is_empty());
    let results = index.query_point(505, 505);
    assert_eq!(results, vec![7]);
}

#[test]
fn test_query_point_example() {
    // Two overlapping boxes: a point in only the first finds one id, a
    // point in the overlap finds both.
    let mut index = SpatialIndex::new();
    index.insert(1, (0, 0), (100, 100));
    index.insert(2, (50, 50), (100, 100));

    let only_first = index.query_point(25, 25);
    assert_eq!(only_first, vec![1]);

    let mut both = index.query_point(75, 75);
    both.sort();
    assert_eq!(both, vec![1, 2]);
}

#[test]
fn test_rebuild_and_clear() {
    let mut index = SpatialIndex::new();
    index.insert(1, (0, 0), (10, 10));
    let items = vec![
        (4u64, (0i64, 0i64), (10i64, 10i64)),
        (5u64, (20i64, 20i64), (10i64, 10i64)),
    ];
    index.rebuild(&items);
    assert_eq!(index.len(), 2);
    assert!(index.query_point(5, 5).contains(&4));
    assert!(!index.query_point(5, 5).contains(&1));

    index.clear();
    assert!(index.is_empty());
}
