//! The decisions of the partitioned join driver: how each input is
//! repartitioned, how many output partitions are drained, whether the ordering
//! precondition holds, and which collected batches are kept.

use vstd::prelude::*;

verus! {

/// The join operator families the driver runs.
#[derive(Clone, Copy, Debug, PartialEq, Eq, Structural)]
pub enum JoinFamily {
    Hash,
    SymmetricHash,
    NestedLoop,
    SlidingNestedLoop,
}

/// What a join type asks of the distribution of one input.
#[derive(Clone, Copy, Debug, PartialEq, Eq, Structural)]
pub enum InputDistribution {
    SinglePartition,
    Unspecified,
}

/// How one input is wrapped before the join.
#[derive(Clone, Copy, Debug, PartialEq, Eq, Structural)]
pub enum SidePartitioning {
    /// The input is passed through as it is.
    Unchanged,
    /// Hash-partitioned on the input's join keys into this many partitions.
    HashOnKeys(usize),
    /// Round-robin partitioned into this many partitions.
    RoundRobin(usize),
}

/// The repartitioning of both inputs and the number of output partitions to drain.
#[derive(Clone, Copy, Debug, PartialEq, Eq, Structural)]
pub struct PartitionPlan {
    pub left: SidePartitioning,
    pub right: SidePartitioning,
    pub output_partitions: usize,
}

/// The driver's own failure.
#[derive(Clone, Copy, Debug, PartialEq, Eq, Structural)]
pub enum DriverError {
    /// An ordered join family was given an input without output ordering.
    MissingOrdering,
}

/// Partition count of the hash-partitioned families.
pub const HASH_PARTITIONS: usize = 4;

/// Partition count of the round-robin partitioned families.
pub const ROUND_ROBIN_PARTITIONS: usize = 2;

pub open spec fn hash_partitioned(family: JoinFamily) -> bool {
    family == JoinFamily::Hash || family == JoinFamily::SymmetricHash
}

pub open spec fn partition_count_spec(family: JoinFamily) -> usize {
    if hash_partitioned(family) {
        HASH_PARTITIONS
    } else {
        ROUND_ROBIN_PARTITIONS
    }
}

pub open spec fn side_plan_spec(family: JoinFamily, req: InputDistribution) -> SidePartitioning {
    if req == InputDistribution::SinglePartition {
        SidePartitioning::Unchanged
    } else if hash_partitioned(family) {
        SidePartitioning::HashOnKeys(HASH_PARTITIONS)
    } else {
        SidePartitioning::RoundRobin(ROUND_ROBIN_PARTITIONS)
    }
}

/// An input that must stay in one partition is passed through; any other is
/// repartitioned, and then all partitions of the family's count are drained.
pub open spec fn plan_spec(
    family: JoinFamily,
    left: InputDistribution,
    right: InputDistribution,
) -> PartitionPlan {
    PartitionPlan {
        left: side_plan_spec(family, left),
        right: side_plan_spec(family, right),
        output_partitions: if left == InputDistribution::SinglePartition && right
            == InputDistribution::SinglePartition {
            1
        } else {
            partition_count_spec(family)
        },
    }
}

/// The families whose operator needs the output ordering of both inputs.
pub open spec fn needs_ordering_spec(family: JoinFamily) -> bool {
    family == JoinFamily::SlidingNestedLoop
}

fn side_plan(family: JoinFamily, req: InputDistribution) -> (p: SidePartitioning)
    ensures
        p == side_plan_spec(family, req),
{
    match req {
        InputDistribution::SinglePartition => SidePartitioning::Unchanged,
        InputDistribution::Unspecified => match family {
            JoinFamily::Hash | JoinFamily::SymmetricHash => SidePartitioning::HashOnKeys(
                HASH_PARTITIONS,
            ),
            _ => SidePartitioning::RoundRobin(ROUND_ROBIN_PARTITIONS),
        },
    }
}

/// Plans the repartitioning of both inputs of a join of `family` from what its
/// join type asks of each input.
pub fn plan_partitions(
    family: JoinFamily,
    left: InputDistribution,
    right: InputDistribution,
) -> (p: PartitionPlan)
    ensures
        p == plan_spec(family, left, right),
        p.output_partitions >= 1,
{
    let l = side_plan(family, left);
    let r = side_plan(family, right);
    let output_partitions = match (left, right) {
        (InputDistribution::SinglePartition, InputDistribution::SinglePartition) => 1,
        _ => match family {
            JoinFamily::Hash | JoinFamily::SymmetricHash => HASH_PARTITIONS,
            _ => ROUND_ROBIN_PARTITIONS,
        },
    };
    PartitionPlan { left: l, right: r, output_partitions }
}

/// Checks, before anything runs, that an ordered family has the output
/// ordering of both of its (possibly repartitioned) inputs.
pub fn check_orderings(family: JoinFamily, left_ordered: bool, right_ordered: bool) -> (r: Result<
    (),
    DriverError,
>)
    ensures
        r is Err <==> (needs_ordering_spec(family) && !(left_ordered && right_ordered)),
        r is Err ==> r == Err::<(), DriverError>(DriverError::MissingOrdering),
{
    match family {
        JoinFamily::SlidingNestedLoop => {
            if left_ordered && right_ordered {
                Ok(())
            } else {
                Err(DriverError::MissingOrdering)
            }
        },
        _ => Ok(()),
    }
}

/// The positions, in order, of the batches among the first `n` whose row count is not zero.
pub open spec fn nonempty_prefix(rows: Seq<usize>, n: int) -> Seq<usize>
    decreases n,
{
    if n <= 0 {
        Seq::empty()
    } else if rows[n - 1] > 0 {
        nonempty_prefix(rows, n - 1).push((n - 1) as usize)
    } else {
        nonempty_prefix(rows, n - 1)
    }
}

/// The positions of the non-empty batches of a collected stream, given the row
/// count of each batch, in the order the batches came.
pub fn nonempty_batch_indices(rows: &Vec<usize>) -> (r: Vec<usize>)
    ensures
        r@ == nonempty_prefix(rows@, rows@.len() as int),
{
    let mut r: Vec<usize> = Vec::new();
    let mut i: usize = 0;
    while i < rows.len()
        invariant
            0 <= i <= rows@.len(),
            r@ == nonempty_prefix(rows@, i as int),
        decreases rows@.len() - i,
    {
        if rows[i] > 0 {
            r.push(i);
        }
        i = i + 1;
    }
    r
}

/// Every batch that the driver keeps has rows, every batch with rows is kept,
/// and kept batches stay in the order they came.
pub proof fn lemma_kept_batches_nonempty(rows: Seq<usize>, n: int)
    requires
        0 <= n <= rows.len(),
        rows.len() <= usize::MAX,
    ensures
        forall|k: int|
            0 <= k < nonempty_prefix(rows, n).len() ==> #[trigger] nonempty_prefix(rows, n)[k] < n
                && rows[nonempty_prefix(rows, n)[k] as int] > 0,
        forall|k: int, l: int|
            0 <= k < l < nonempty_prefix(rows, n).len() ==> nonempty_prefix(rows, n)[k]
                < nonempty_prefix(rows, n)[l],
        forall|i: int| 0 <= i < n && rows[i] > 0 ==> nonempty_prefix(rows, n).contains(i as usize),
    decreases n,
{
    if n > 0 {
        lemma_kept_batches_nonempty(rows, n - 1);
        let p = nonempty_prefix(rows, n - 1);
        let q = nonempty_prefix(rows, n);
        if rows[n - 1] > 0 {
            assert(q == p.push((n - 1) as usize));
        } else {
            assert(q == p);
        }
        assert forall|k: int| 0 <= k < q.len() implies q[k] < n && rows[q[k] as int] > 0 by {
            if k < p.len() {
                assert(q[k] == p[k]);
                assert(p[k] < n - 1);
                assert(rows[p[k] as int] > 0);
            }
        }
        assert forall|k: int, l: int| 0 <= k < l < q.len() implies q[k] < q[l] by {
            assert(q[k] == p[k]);
            if l < p.len() {
                assert(q[l] == p[l]);
            }
        }
        if rows[n - 1] > 0 {
            assert forall|i: int| 0 <= i < n && rows[i] > 0 implies nonempty_prefix(
                rows,
                n,
            ).contains(i as usize) by {
                if i < n - 1 {
                    let k = choose|k: int| 0 <= k < p.len() && p[k] == i as usize;
                    assert(nonempty_prefix(rows, n)[k] == i as usize);
                } else {
                    assert(nonempty_prefix(rows, n)[p.len() as int] == i as usize);
                }
            }
        }
    }
}


/// The slices `(offset, length)` that cut `row_num` rows into batches of
/// `batch_size`: `row_num / batch_size` full batches, then one batch with the
/// remainder, which is empty when `batch_size` divides `row_num`.
pub open spec fn split_spec(row_num: int, batch_size: int) -> Seq<(usize, usize)> {
    Seq::new(
        (row_num / batch_size + 1) as nat,
        |i: int|
            (
                (i * batch_size) as usize,
                if i < row_num / batch_size {
                    batch_size as usize
                } else {
                    (row_num - (row_num / batch_size) * batch_size) as usize
                },
            ),
    )
}

/// Cuts `row_num` rows into slices of `batch_size` rows and a last slice with
/// the rest.
pub fn split_ranges(row_num: usize, batch_size: usize) -> (r: Vec<(usize, usize)>)
    requires
        batch_size > 0,
        row_num < usize::MAX,
    ensures
        r@ == split_spec(row_num as int, batch_size as int),
{
    let full = row_num / batch_size;
    let mut r: Vec<(usize, usize)> = Vec::new();
    let mut i: usize = 0;
    proof {
        assert(full * batch_size <= row_num) by (nonlinear_arith)
            requires
                full == row_num / batch_size,
                batch_size > 0,
        ;
        assert(full <= row_num) by (nonlinear_arith)
            requires
                full == row_num / batch_size,
                batch_size > 0,
        ;
    }
    while i <= full
        invariant
            0 <= i <= full + 1,
            full == row_num / batch_size,
            full * batch_size <= row_num,
            full <= row_num < usize::MAX,
            batch_size > 0,
            r@ =~= split_spec(row_num as int, batch_size as int).subrange(0, i as int),
        decreases full + 1 - i,
    {
        proof {
            assert(i * batch_size <= full * batch_size) by (nonlinear_arith)
                requires
                    i <= full,
                    batch_size > 0,
            ;
        }
        let len = if i < full {
            batch_size
        } else {
            row_num - full * batch_size
        };
        r.push((i * batch_size, len));
        i = i + 1;
    }
    r
}

} // verus!
