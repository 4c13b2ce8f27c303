use join_harness::compare::{compare_line_sets, LineComparison};
use join_harness::dataset::{build_sides_columns, SideColumns};

fn nulls(col: &[Option<i32>]) -> usize {
    col.iter().filter(|v| v.is_none()).count()
}

fn assert_mirrored(l: &SideColumns, r: &SideColumns) {
    assert_eq!(l.ordered, r.ordered);
    assert_eq!(l.low_cardinality, r.low_cardinality);
    assert_eq!(l.time, r.time);
    assert_eq!(l.ordered_copy, r.ordered_copy);
    assert_eq!(l.ordered_desc, r.ordered_desc);
    assert_eq!(l.asc_null_first, r.asc_null_first);
    assert_eq!(l.asc_null_last, r.asc_null_last);
    assert_eq!(l.desc_null_first, r.desc_null_first);
    assert_eq!(l.interval_time, r.interval_time);
    assert_eq!(l.random_ordered, r.random_ordered);
}

#[test]
fn dataset_generation_is_reproducible() {
    let (l1, r1) = build_sides_columns(50, (3, 7));
    let (l2, r2) = build_sides_columns(50, (3, 7));
    assert_mirrored(&l1, &l2);
    assert_eq!(l1.cardinality_key, l2.cardinality_key);
    assert_mirrored(&r1, &r2);
    assert_eq!(r1.cardinality_key, r2.cardinality_key);
}

#[test]
fn dataset_shape_invariants() {
    let (l, _) = build_sides_columns(100, (4, 4));
    assert_eq!(nulls(&l.asc_null_first), 40);
    assert_eq!(nulls(&l.asc_null_last), 40);
    assert_eq!(nulls(&l.desc_null_first), 40);
    assert_eq!(l.asc_null_first[40], Some(40));
    assert_eq!(l.asc_null_last[0], Some(40));
    assert_eq!(l.asc_null_last[59], Some(99));
    assert_eq!(l.asc_null_last[60], None);
    assert_eq!(l.desc_null_first[40], Some(99));
    assert_eq!(l.desc_null_first[99], Some(40));
    assert!(l.random_ordered.windows(2).all(|w| w[0] <= w[1]));
    assert!(l.random_ordered.iter().all(|v| (1..500).contains(v)));
    let mut distinct = l.random_ordered.clone();
    distinct.dedup();
    assert!(distinct.len() <= 60);
    let (small, _) = build_sides_columns(7, (2, 2));
    assert_eq!(nulls(&small.asc_null_first), 3);
    assert_eq!(small.time.len(), 7);
}

#[test]
fn dataset_sides_mirror_each_other() {
    let (l, r) = build_sides_columns(30, (2, 5));
    assert_mirrored(&l, &r);
    assert_eq!(l.cardinality_key, (0..30).map(|i| i % 2).collect::<Vec<i32>>());
    assert_eq!(r.cardinality_key, (0..30).map(|i| i % 5).collect::<Vec<i32>>());
    assert_eq!(l.low_cardinality, (0..30).map(|i| i % 4).collect::<Vec<i32>>());
}

#[test]
fn empty_dataset_has_empty_columns() {
    let (l, r) = build_sides_columns(0, (1, 1));
    assert!(l.ordered.is_empty() && r.random_ordered.is_empty());
    assert!(l.asc_null_first.is_empty());
}

#[test]
fn ascending_keys_match_one_to_one_across_sides() {
    let (l, r) = build_sides_columns(100, (4, 4));
    let mut joined: Vec<Vec<u8>> = Vec::new();
    for a in &l.ordered {
        for b in &r.ordered {
            if a == b {
                joined.push(format!("| {} | {} |", a, b).into_bytes());
            }
        }
    }
    assert_eq!(joined.len(), 100);
    // The same rows, grouped and ordered as another partitioning would emit them.
    let mut regrouped: Vec<Vec<u8>> = Vec::new();
    for part in 0..4 {
        for row in joined.iter().skip(part).step_by(4).rev() {
            regrouped.push(row.clone());
        }
    }
    assert_eq!(compare_line_sets(joined, regrouped), LineComparison::Equal);
}
