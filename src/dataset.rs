//! A matched pair of column sets, one per join side, built from the value
//! generators.

use vstd::prelude::*;
use vstd::relations::sorted_by;
use crate::generators::{
    asc_nulls_first, asc_nulls_first_spec, asc_nulls_last, asc_nulls_last_spec, ascending,
    ascending_spec, desc_nulls_first, desc_nulls_first_spec, descending, descending_spec, intervals,
    intervals_spec, lemma_nulls_first_count, lemma_nulls_last_count, modulo_keys, modulo_spec,
    null_positions, rounded_share, share_spec, timestamps, timestamps_spec,
};
use crate::random::{
    DATASET_SEED, POOL_HIGH, POOL_LOW, generate_ordered_array, ordered_spec, unique_count_spec,
};
use crate::sorting::key_leq;

verus! {

/// Percentage of rows left empty in each null-padded column.
pub const NULL_PERCENT: i32 = 40;

/// Percentage of rows of the ordered random column that repeat an earlier key.
pub const DUPLICATE_PERCENT: i32 = 40;

/// Modulus of the low-cardinality key that both sides share.
pub const LOW_CARDINALITY: i32 = 4;

/// The columns of one join side, in the order they appear in its batch. The
/// float column of random ascending values is not among them.
#[derive(Debug)]
pub struct SideColumns {
    /// The keys `0 .. size` in ascending order.
    pub ordered: Vec<i32>,
    /// Row index modulo `LOW_CARDINALITY`.
    pub low_cardinality: Vec<i32>,
    /// Row index modulo this side's key cardinality.
    pub cardinality_key: Vec<i32>,
    /// Millisecond timestamps from 2023-01-01 on, one millisecond apart.
    pub time: Vec<i64>,
    /// A second copy of `ordered`.
    pub ordered_copy: Vec<i32>,
    /// The keys `0 .. size` in descending order.
    pub ordered_desc: Vec<i32>,
    pub asc_null_first: Vec<Option<i32>>,
    pub asc_null_last: Vec<Option<i32>>,
    pub desc_null_first: Vec<Option<i32>>,
    /// Millisecond intervals, `INTERVAL_STEP_MS` apart.
    pub interval_time: Vec<i64>,
    /// Sorted random keys with repeats.
    pub random_ordered: Vec<i32>,
}

/// The number of empty slots in each null-padded column of `size` rows.
pub open spec fn null_count_spec(size: int) -> int {
    share_spec(size, NULL_PERCENT as int)
}

/// What the columns of one side hold for `size` rows and a key cardinality of `modulus`.
pub open spec fn side_spec(s: SideColumns, size: int, modulus: int) -> bool {
    &&& s.ordered@ == ascending_spec(size)
    &&& s.low_cardinality@ == modulo_spec(size, LOW_CARDINALITY as int)
    &&& s.cardinality_key@ == modulo_spec(size, modulus)
    &&& s.time@ == timestamps_spec(size)
    &&& s.ordered_copy@ == ascending_spec(size)
    &&& s.ordered_desc@ == descending_spec(size)
    &&& s.asc_null_first@ == asc_nulls_first_spec(size, null_count_spec(size))
    &&& s.asc_null_last@ == asc_nulls_last_spec(size, null_count_spec(size))
    &&& s.desc_null_first@ == desc_nulls_first_spec(size, null_count_spec(size))
    &&& s.interval_time@ == intervals_spec(size)
    &&& s.random_ordered@ == ordered_spec(DATASET_SEED, size, DUPLICATE_PERCENT as int)
    &&& s.random_ordered@.len() == size
    &&& sorted_by(s.random_ordered@, key_leq())
    &&& s.random_ordered@.to_set().len() <= unique_count_spec(size, DUPLICATE_PERCENT as int)
    &&& forall|i: int|
        0 <= i < s.random_ordered@.len() ==> POOL_LOW <= #[trigger] s.random_ordered@[i]
            < POOL_HIGH
}

/// Whether two column sets hold the same values, column by column.
pub open spec fn same_values(a: SideColumns, b: SideColumns) -> bool {
    &&& a.ordered@ == b.ordered@
    &&& a.low_cardinality@ == b.low_cardinality@
    &&& a.cardinality_key@ == b.cardinality_key@
    &&& a.time@ == b.time@
    &&& a.ordered_copy@ == b.ordered_copy@
    &&& a.ordered_desc@ == b.ordered_desc@
    &&& a.asc_null_first@ == b.asc_null_first@
    &&& a.asc_null_last@ == b.asc_null_last@
    &&& a.desc_null_first@ == b.desc_null_first@
    &&& a.interval_time@ == b.interval_time@
    &&& a.random_ordered@ == b.random_ordered@
}

/// Builds the columns of one side with `size` rows and a key cardinality of `modulus`.
pub fn build_side(size: i32, modulus: i32) -> (s: SideColumns)
    requires
        0 <= size,
        0 < modulus,
    ensures
        side_spec(s, size as int, modulus as int),
{
    let nulls = rounded_share(size, NULL_PERCENT);
    proof {
        assert(size == 0 || unique_count_spec(size as int, DUPLICATE_PERCENT as int) > 0);
    }
    SideColumns {
        ordered: ascending(size),
        low_cardinality: modulo_keys(size, LOW_CARDINALITY),
        cardinality_key: modulo_keys(size, modulus),
        time: timestamps(size),
        ordered_copy: ascending(size),
        ordered_desc: descending(size),
        asc_null_first: asc_nulls_first(size, nulls),
        asc_null_last: asc_nulls_last(size, nulls),
        desc_null_first: desc_nulls_first(size, nulls),
        interval_time: intervals(size),
        random_ordered: generate_ordered_array(size, DUPLICATE_PERCENT),
    }
}

/// Builds the left and right columns of a dataset with `table_size` rows; the
/// key cardinality of each side is given in `key_cardinality`.
pub fn build_sides_columns(table_size: i32, key_cardinality: (i32, i32)) -> (r: (
    SideColumns,
    SideColumns,
))
    requires
        0 <= table_size,
        0 < key_cardinality.0,
        0 < key_cardinality.1,
    ensures
        side_spec(r.0, table_size as int, key_cardinality.0 as int),
        side_spec(r.1, table_size as int, key_cardinality.1 as int),
{
    let left = build_side(table_size, key_cardinality.0);
    let right = build_side(table_size, key_cardinality.1);
    (left, right)
}

/// Two datasets built for the same size and key cardinalities hold the same
/// values, side by side.
pub proof fn lemma_reproducible(
    first: (SideColumns, SideColumns),
    second: (SideColumns, SideColumns),
    size: int,
    key_cardinality: (int, int),
)
    requires
        side_spec(first.0, size, key_cardinality.0),
        side_spec(first.1, size, key_cardinality.1),
        side_spec(second.0, size, key_cardinality.0),
        side_spec(second.1, size, key_cardinality.1),
    ensures
        same_values(first.0, second.0),
        same_values(first.1, second.1),
{
}

/// Each null-padded column holds exactly the rounded 40 percent of its rows as
/// empty slots; the random ordered column has a key in `POOL_LOW .. POOL_HIGH`
/// for each row, is sorted, and holds at most the rounded 60 percent of its
/// rows as distinct keys.
pub proof fn lemma_shape(s: SideColumns, size: int, modulus: int)
    requires
        0 <= size,
        side_spec(s, size, modulus),
    ensures
        null_positions(s.asc_null_first@).len() == null_count_spec(size),
        null_positions(s.asc_null_last@).len() == null_count_spec(size),
        null_positions(s.desc_null_first@).len() == null_count_spec(size),
        s.random_ordered@.len() == size,
        forall|i: int|
            0 <= i < size ==> POOL_LOW <= #[trigger] s.random_ordered@[i] < POOL_HIGH,
        sorted_by(s.random_ordered@, key_leq()),
        s.random_ordered@.to_set().len() <= share_spec(size, 60),
{
    let nulls = null_count_spec(size);
    assert(0 <= nulls <= size) by (nonlinear_arith)
        requires
            nulls == (2 * (size * 40) + 100) / 200,
            0 <= size,
    ;
    lemma_nulls_first_count(s.asc_null_first@, size, nulls);
    lemma_nulls_first_count(s.desc_null_first@, size, nulls);
    lemma_nulls_last_count(size, nulls);
}

/// The two sides of a dataset agree on every column but the per-side
/// cardinality key: the ascending and descending keys, the null-padded keys,
/// the timestamps, the intervals and the random ordered keys.
pub proof fn lemma_mirrored(
    left: SideColumns,
    right: SideColumns,
    size: int,
    left_modulus: int,
    right_modulus: int,
)
    requires
        side_spec(left, size, left_modulus),
        side_spec(right, size, right_modulus),
    ensures
        left.ordered@ == right.ordered@,
        left.low_cardinality@ == right.low_cardinality@,
        left.time@ == right.time@,
        left.ordered_copy@ == right.ordered_copy@,
        left.ordered_desc@ == right.ordered_desc@,
        left.asc_null_first@ == right.asc_null_first@,
        left.asc_null_last@ == right.asc_null_last@,
        left.desc_null_first@ == right.desc_null_first@,
        left.interval_time@ == right.interval_time@,
        left.random_ordered@ == right.random_ordered@,
{
}


/// The ascending keys of the two sides match one to one: row `i` of the left
/// side has the same key as row `j` of the right side exactly when `i == j`,
/// so an equi-join on them pairs every row once.
pub proof fn lemma_keys_match_one_to_one(
    left: SideColumns,
    right: SideColumns,
    size: int,
    left_modulus: int,
    right_modulus: int,
)
    requires
        0 <= size <= i32::MAX,
        side_spec(left, size, left_modulus),
        side_spec(right, size, right_modulus),
    ensures
        forall|i: int, j: int|
            0 <= i < size && 0 <= j < size ==> (#[trigger] left.ordered@[i] == #[trigger] right.ordered@[j]
                <==> i == j),
{
}

} // verus!
