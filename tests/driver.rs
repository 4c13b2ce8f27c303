use join_harness::partition::{
    check_orderings, nonempty_batch_indices, plan_partitions, split_ranges, DriverError,
    InputDistribution,
    JoinFamily, PartitionPlan, SidePartitioning,
};

#[test]
fn hash_families_partition_on_keys() {
    let p = plan_partitions(
        JoinFamily::Hash,
        InputDistribution::Unspecified,
        InputDistribution::Unspecified,
    );
    assert_eq!(
        p,
        PartitionPlan {
            left: SidePartitioning::HashOnKeys(4),
            right: SidePartitioning::HashOnKeys(4),
            output_partitions: 4
        }
    );
    let s = plan_partitions(
        JoinFamily::SymmetricHash,
        InputDistribution::Unspecified,
        InputDistribution::Unspecified,
    );
    assert_eq!(s.output_partitions, 4);
}

#[test]
fn loop_families_partition_round_robin() {
    let p = plan_partitions(
        JoinFamily::SlidingNestedLoop,
        InputDistribution::SinglePartition,
        InputDistribution::Unspecified,
    );
    assert_eq!(
        p,
        PartitionPlan {
            left: SidePartitioning::Unchanged,
            right: SidePartitioning::RoundRobin(2),
            output_partitions: 2
        }
    );
    let q = plan_partitions(
        JoinFamily::NestedLoop,
        InputDistribution::SinglePartition,
        InputDistribution::SinglePartition,
    );
    assert_eq!(
        q,
        PartitionPlan {
            left: SidePartitioning::Unchanged,
            right: SidePartitioning::Unchanged,
            output_partitions: 1
        }
    );
}

#[test]
fn ordered_family_needs_both_orderings() {
    assert_eq!(check_orderings(JoinFamily::SlidingNestedLoop, true, true), Ok(()));
    assert_eq!(
        check_orderings(JoinFamily::SlidingNestedLoop, true, false),
        Err(DriverError::MissingOrdering)
    );
    assert_eq!(
        check_orderings(JoinFamily::SlidingNestedLoop, false, true),
        Err(DriverError::MissingOrdering)
    );
    assert_eq!(check_orderings(JoinFamily::Hash, false, false), Ok(()));
}

#[test]
fn empty_batches_are_dropped() {
    assert_eq!(nonempty_batch_indices(&vec![3, 0, 2, 0, 1]), vec![0, 2, 4]);
    assert_eq!(nonempty_batch_indices(&vec![0, 0]), Vec::<usize>::new());
    assert_eq!(nonempty_batch_indices(&vec![]), Vec::<usize>::new());
}

#[test]
fn batches_split_into_full_slices_and_a_rest() {
    assert_eq!(split_ranges(10, 4), vec![(0, 4), (4, 4), (8, 2)]);
    assert_eq!(split_ranges(8, 4), vec![(0, 4), (4, 4), (8, 0)]);
    assert_eq!(split_ranges(0, 3), vec![(0, 0)]);
}
