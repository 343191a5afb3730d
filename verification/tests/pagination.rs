//! Pages and totals.

use realworld::db::pagination::{OffsetLimit, OffsetLimited};

fn cut(rows: Vec<i32>, offset: i64, limit: i64) -> (Vec<i32>, i64) {
    rows.offset_and_limit(offset, limit).load_and_count()
}

#[test]
fn page_is_cut_after_the_offset() {
    let rows = vec![10, 20, 30, 40, 50];
    assert_eq!(cut(rows.clone(), 0, 2), (vec![10, 20], 5));
    assert_eq!(cut(rows.clone(), 2, 2), (vec![30, 40], 5));
    assert_eq!(cut(rows.clone(), 4, 2), (vec![50], 5));
    assert_eq!(cut(rows.clone(), 1, 20), (vec![20, 30, 40, 50], 5));
}

#[test]
fn total_does_not_depend_on_the_page() {
    let rows = vec![10, 20, 30, 40, 50];
    assert_eq!(cut(rows.clone(), 5, 2), (vec![], 5));
    assert_eq!(cut(rows.clone(), 6, 2), (vec![], 5));
    assert_eq!(cut(rows.clone(), i64::MAX, i64::MAX), (vec![], 5));
    assert_eq!(cut(rows.clone(), 0, 0), (vec![], 5));
}

#[test]
fn negative_offset_and_limit_count_as_zero() {
    let rows = vec![10, 20, 30];
    assert_eq!(cut(rows.clone(), -1, 2), (vec![10, 20], 3));
    assert_eq!(cut(rows.clone(), i64::MIN, 1), (vec![10], 3));
    assert_eq!(cut(rows.clone(), 0, -1), (vec![], 3));
    assert_eq!(cut(rows.clone(), 1, i64::MIN), (vec![], 3));
}

#[test]
fn page_of_nothing_is_nothing() {
    assert_eq!(cut(Vec::new(), 0, 20), (vec![], 0));
}

#[test]
fn offset_and_limit_pairs_the_rows_with_the_page() {
    let paired: OffsetLimited<Vec<i32>> = vec![1, 2].offset_and_limit(3, 4);
    assert_eq!(paired.query, vec![1, 2]);
    assert_eq!(paired.offset, 3);
    assert_eq!(paired.limit, 4);
}
