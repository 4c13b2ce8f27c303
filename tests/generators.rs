use join_harness::generators::{
    asc_nulls_first, asc_nulls_last, ascending, desc_nulls_first, descending, intervals,
    modulo_keys, rounded_share, timestamps,
};
use join_harness::random::generate_ordered_array;
use join_harness::sorting::{line_le, sort_keys, sort_lines};

#[test]
fn rounded_share_rounds_to_nearest() {
    assert_eq!(rounded_share(100, 40), 40);
    assert_eq!(rounded_share(100, 60), 60);
    assert_eq!(rounded_share(7, 40), 3);
    assert_eq!(rounded_share(5, 50), 3);
    assert_eq!(rounded_share(3, 40), 1);
    assert_eq!(rounded_share(0, 40), 0);
    assert_eq!(rounded_share(9, 0), 0);
    assert_eq!(rounded_share(9, 100), 9);
}

#[test]
fn key_columns_have_their_shapes() {
    assert_eq!(ascending(4), vec![0, 1, 2, 3]);
    assert_eq!(descending(4), vec![3, 2, 1, 0]);
    assert_eq!(modulo_keys(6, 4), vec![0, 1, 2, 3, 0, 1]);
    assert_eq!(ascending(0), Vec::<i32>::new());
}

#[test]
fn null_padded_columns_have_their_shapes() {
    assert_eq!(asc_nulls_first(5, 2), vec![None, None, Some(2), Some(3), Some(4)]);
    assert_eq!(asc_nulls_last(5, 2), vec![Some(2), Some(3), Some(4), None, None]);
    assert_eq!(desc_nulls_first(5, 2), vec![None, None, Some(4), Some(3), Some(2)]);
    assert_eq!(asc_nulls_first(3, 0), vec![Some(0), Some(1), Some(2)]);
    assert_eq!(asc_nulls_last(2, 2), vec![None, None]);
}

#[test]
fn temporal_columns_start_at_2023() {
    assert_eq!(timestamps(3), vec![1672531200000, 1672531200001, 1672531200002]);
    assert_eq!(intervals(3), vec![0, 100, 200]);
}

#[test]
fn ordered_array_is_sorted_with_bounded_distinct_keys() {
    let r = generate_ordered_array(100, 40);
    assert_eq!(r.len(), 100);
    assert!(r.windows(2).all(|w| w[0] <= w[1]));
    assert!(r.iter().all(|v| (1..500).contains(v)));
    let mut distinct = r.clone();
    distinct.dedup();
    assert!(distinct.len() <= 60);
    assert!(distinct.len() > 1);
    assert_eq!(generate_ordered_array(100, 40), r);
    assert!(generate_ordered_array(0, 40).is_empty());
    let small = generate_ordered_array(10, 0);
    assert_eq!(small.len(), 10);
    assert!(small.iter().any(|v| *v != 1));
    assert_eq!(generate_ordered_array(10, 0), small);
}

#[test]
fn keys_sort_ascending() {
    assert_eq!(sort_keys(&vec![5, -1, 3, 3, 0]), vec![-1, 0, 3, 3, 5]);
    assert_eq!(sort_keys(&vec![]), Vec::<i32>::new());
}

#[test]
fn lines_sort_bytewise() {
    let lines = vec![b"b".to_vec(), b"ab".to_vec(), b"a".to_vec(), b"B".to_vec()];
    let sorted = sort_lines(lines);
    assert_eq!(sorted, vec![b"B".to_vec(), b"a".to_vec(), b"ab".to_vec(), b"b".to_vec()]);
    assert!(line_le(&b"a".to_vec(), &b"ab".to_vec()));
    assert!(!line_le(&b"b".to_vec(), &b"ab".to_vec()));
    assert!(line_le(&Vec::new(), &b"a".to_vec()));
}
