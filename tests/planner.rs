use decapod::error::Error;
use decapod::fetch::plan_fetch_path;

#[test]
fn plan_splits_rows_by_batch_counts() {
    let plan = plan_fetch_path(&vec![2, 0, 1, 3], &vec![4, 1, 7, 0, 2, 5], 6).unwrap().unwrap();
    assert_eq!(plan, vec![(0usize, vec![4u32, 1]), (2, vec![7]), (3, vec![0, 2, 5])]);
}

#[test]
fn plan_with_nothing_located_is_no_plan() {
    assert_eq!(plan_fetch_path(&vec![0, 0], &vec![0, 0], 0), Ok(None));
}

#[test]
fn plan_keeps_planner_order_within_a_batch() {
    let plan = plan_fetch_path(&vec![3], &vec![2, 0, 1], 3).unwrap().unwrap();
    assert_eq!(plan, vec![(0usize, vec![2u32, 0, 1])]);
}

#[test]
fn plan_counts_beyond_located_are_an_index_error() {
    assert!(matches!(plan_fetch_path(&vec![2, 2], &vec![0, 1, 2], 3), Err(Error::IndexError(_))));
}

#[test]
fn plan_counts_short_of_located_are_an_index_error() {
    assert!(matches!(plan_fetch_path(&vec![1], &vec![0, 1], 2), Err(Error::IndexError(_))));
}

#[test]
fn plan_located_beyond_buffer_is_an_index_error() {
    assert!(matches!(plan_fetch_path(&vec![3], &vec![0, 1], 3), Err(Error::IndexError(_))));
}
