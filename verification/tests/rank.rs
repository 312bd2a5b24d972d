use landmesh::field::{get_sorted_idx, include_all, include_at_least};

#[test]
fn rank_covers_every_grid_point_once() {
    // Three distinct values, always-true predicate: the numerators are a
    // permutation of {0, 1, 2} over the denominator 2.
    let field: Vec<i64> = vec![5_000_000, 1_000_000, 3_000_000];
    let incl = include_all(3);
    let r = get_sorted_idx(&field, &incl);
    assert_eq!(r.nums, vec![2, 0, 1]);
    assert_eq!(r.den, 2);
}

#[test]
fn rank_unchanged_by_monotone_transform() {
    let field: Vec<i64> = vec![10, 30, 20, 25];
    // A strictly increasing transform of every value.
    let transformed: Vec<i64> = field.iter().map(|x| 2 * x + 1).collect();
    let incl = include_all(4);
    let a = get_sorted_idx(&field, &incl);
    let b = get_sorted_idx(&transformed, &incl);
    assert_eq!(a.nums, b.nums);
    assert_eq!(a.den, b.den);
}

#[test]
fn rank_ties_break_by_vertex_index() {
    let field: Vec<i64> = vec![7, 7, 3];
    let incl = include_all(3);
    let r = get_sorted_idx(&field, &incl);
    assert_eq!(r.nums, vec![1, 2, 0]);
    assert_eq!(r.den, 2);
}

#[test]
fn rank_excluded_vertices_are_zero() {
    let field: Vec<i64> = vec![2_000_000, 500_000, 1_500_000, 900_000];
    let incl = include_at_least(&field, 1_000_000);
    assert_eq!(incl, vec![true, false, true, false]);
    let r = get_sorted_idx(&field, &incl);
    // Two included vertices: ranks 1 and 0, denominator 1.
    assert_eq!(r.nums, vec![1, 0, 0, 0]);
    assert_eq!(r.den, 1);
}

#[test]
fn rank_degenerate_one_included() {
    let field: Vec<i64> = vec![500_000, 1_500_000, 700_000];
    let incl = include_at_least(&field, 1_000_000);
    let r = get_sorted_idx(&field, &incl);
    assert_eq!(r.nums, vec![0, 0, 0]);
    assert_eq!(r.den, 1);
}

#[test]
fn rank_degenerate_none_included() {
    let field: Vec<i64> = vec![500_000, 600_000];
    let incl = include_at_least(&field, 1_000_000);
    let r = get_sorted_idx(&field, &incl);
    assert_eq!(r.nums, vec![0, 0]);
    assert_eq!(r.den, 1);
}

#[test]
fn rank_empty_field() {
    let field: Vec<i64> = vec![];
    let incl = include_all(0);
    let r = get_sorted_idx(&field, &incl);
    assert_eq!(r.nums.len(), 0);
    assert_eq!(r.den, 1);
}
