//! Seeded pseudo-random draws and the sorted column of duplicated random keys
//! made from them.

use vstd::prelude::*;
use vstd::relations::sorted_by;
use vstd::seq_lib::{to_multiset_contains, to_multiset_len};
use vstd::set_lib::lemma_len_subset;
use rand::rngs::StdRng;
use rand::{Rng, SeedableRng};
use crate::generators::{rounded_share, share_spec};
use crate::sorting::{key_leq, lemma_key_leq_total, sort_keys};

verus! {

/// The values that rand's `StdRng`, seeded with `seed`, returns for a run of
/// draws from the ranges `ranges`, in order.
pub uninterp spec fn seeded_draws(seed: u64, ranges: Seq<(i32, i32)>) -> Seq<i32>;

/// Relies on `rand::SeedableRng::seed_from_u64` for `StdRng` and on
/// `rand::Rng::gen_range` for `i32`: a fresh generator for the seed serves one
/// draw from each range, in order, each a value of `low .. high`. The generator
/// (ChaCha with 12 rounds) is deterministic, so the values depend on the seed
/// and the ranges alone. `gen_range` panics on an empty range.
#[verifier::external_body]
fn draw_ranges(seed: u64, ranges: &Vec<(i32, i32)>) -> (r: Vec<i32>)
    requires
        forall|i: int| 0 <= i < ranges@.len() ==> ranges@[i].0 < ranges@[i].1,
    ensures
        r@ == seeded_draws(seed, ranges@),
        r@.len() == ranges@.len(),
        forall|i: int| 0 <= i < r@.len() ==> ranges@[i].0 <= #[trigger] r@[i] < ranges@[i].1,
{
    let mut rng = StdRng::seed_from_u64(seed);
    ranges.iter().map(|&(low, high)| rng.gen_range(low..high)).collect()
}

/// The seed of every random sequence of a dataset.
pub const DATASET_SEED: u64 = 42;

/// Lower end of the range that the distinct keys of the ordered column come from.
pub const POOL_LOW: i32 = 1;

/// Upper end, not included, of that range.
pub const POOL_HIGH: i32 = 500;

/// The ranges drawn from for a column of `size` keys with a pool of `unique`
/// keys: `unique` draws of pool keys, then `size - unique` draws of positions
/// in the pool.
pub open spec fn ranges_spec(size: int, unique: int) -> Seq<(i32, i32)> {
    Seq::new(unique as nat, |k: int| (POOL_LOW, POOL_HIGH)) + Seq::new(
        (size - unique) as nat,
        |k: int| (0i32, unique as i32),
    )
}

/// The pool: the first `unique` draws.
pub open spec fn pool_spec(seed: u64, size: int, unique: int) -> Seq<i32> {
    seeded_draws(seed, ranges_spec(size, unique)).subrange(0, unique)
}

/// The pool followed by `size - unique` keys, each copied from the pool at the
/// position that the matching later draw gives.
pub open spec fn drawn_spec(seed: u64, size: int, unique: int) -> Seq<i32> {
    let draws = seeded_draws(seed, ranges_spec(size, unique));
    pool_spec(seed, size, unique) + Seq::new(
        (size - unique) as nat,
        |j: int| pool_spec(seed, size, unique)[draws[unique + j] as int],
    )
}

/// The number of distinct keys drawn for a column of `size` rows of which
/// `duplicate_percent` percent are repeats.
pub open spec fn unique_count_spec(size: int, duplicate_percent: int) -> int {
    share_spec(size, 100 - duplicate_percent)
}

/// The sorted column of `size` keys of which `duplicate_percent` percent repeat earlier ones.
pub open spec fn ordered_spec(seed: u64, size: int, duplicate_percent: int) -> Seq<i32> {
    drawn_spec(seed, size, unique_count_spec(size, duplicate_percent)).sort_by(key_leq())
}

/// A sorted column of `size` keys: first the rounded `100 - duplicate_percent`
/// percent of them are drawn from `POOL_LOW .. POOL_HIGH`, then each remaining
/// key copies one of those at a drawn position. Collisions among the first
/// draws are kept, so the count of distinct keys is a bound, not an exact value.
pub fn generate_ordered_array(size: i32, duplicate_percent: i32) -> (r: Vec<i32>)
    requires
        0 <= size,
        0 <= duplicate_percent <= 100,
        size == 0 || unique_count_spec(size as int, duplicate_percent as int) > 0,
    ensures
        r@ == ordered_spec(DATASET_SEED, size as int, duplicate_percent as int),
        r@.len() == size,
        sorted_by(r@, key_leq()),
        forall|i: int| 0 <= i < r@.len() ==> POOL_LOW <= #[trigger] r@[i] < POOL_HIGH,
        r@.to_set().len() <= unique_count_spec(size as int, duplicate_percent as int),
{
    let unique = rounded_share(size, 100 - duplicate_percent);
    let ghost want = ranges_spec(size as int, unique as int);
    let mut ranges: Vec<(i32, i32)> = Vec::new();
    let mut k: i32 = 0;
    while k < size
        invariant
            0 <= k <= size,
            0 <= unique <= size,
            size == 0 || unique > 0,
            want == ranges_spec(size as int, unique as int),
            ranges@ == want.subrange(0, k as int),
        decreases size - k,
    {
        if k < unique {
            ranges.push((POOL_LOW, POOL_HIGH));
        } else {
            ranges.push((0, unique));
        }
        k = k + 1;
        assert(ranges@ =~= want.subrange(0, k as int));
    }
    assert(want.subrange(0, size as int) =~= want);
    let draws = draw_ranges(DATASET_SEED, &ranges);
    let ghost pool = pool_spec(DATASET_SEED, size as int, unique as int);
    let ghost drawn = drawn_spec(DATASET_SEED, size as int, unique as int);
    let mut values: Vec<i32> = Vec::new();
    let mut i: i32 = 0;
    while i < unique
        invariant
            0 <= i <= unique <= size,
            draws@.len() == size,
            pool == draws@.subrange(0, unique as int),
            ranges@ == want,
            want == ranges_spec(size as int, unique as int),
            forall|t: int| 0 <= t < draws@.len() ==> ranges@[t].0 <= #[trigger] draws@[t] < ranges@[t].1,
            values@ == pool.subrange(0, i as int),
        decreases unique - i,
    {
        values.push(draws[i as usize]);
        i = i + 1;
        assert(values@ =~= pool.subrange(0, i as int));
    }
    assert(pool.subrange(0, unique as int) =~= pool);
    assert forall|t: int| 0 <= t < unique implies POOL_LOW <= #[trigger] values@[t] < POOL_HIGH by {
        assert(values@[t] == draws@[t]);
        assert(ranges@[t] == (POOL_LOW, POOL_HIGH));
    }
    let mut j: i32 = 0;
    while j < size - unique
        invariant
            0 <= j <= size - unique,
            0 <= unique <= size,
            draws@.len() == size,
            pool == draws@.subrange(0, unique as int),
            pool.len() == unique,
            ranges@ == want,
            want == ranges_spec(size as int, unique as int),
            draws@ == seeded_draws(DATASET_SEED, want),
            forall|t: int| 0 <= t < draws@.len() ==> ranges@[t].0 <= #[trigger] draws@[t] < ranges@[t].1,
            drawn == drawn_spec(DATASET_SEED, size as int, unique as int),
            values@ == drawn.subrange(0, unique + j),
            forall|t: int| 0 <= t < values@.len() ==> pool.contains(#[trigger] values@[t]),
            forall|t: int| 0 <= t < values@.len() ==> POOL_LOW <= #[trigger] values@[t] < POOL_HIGH,
        decreases size - unique - j,
    {
        let p = unique + j;
        assert(ranges@[p as int] == (0i32, unique));
        let idx = draws[p as usize];
        assert(0 <= idx < unique);
        assert(values@[idx as int] == pool[idx as int]);
        let v = values[idx as usize];
        values.push(v);
        j = j + 1;
        assert(values@ =~= drawn.subrange(0, unique + j));
    }
    assert(drawn.subrange(0, size as int) =~= drawn);
    let r = sort_keys(&values);
    proof {
        lemma_key_leq_total();
        values@.lemma_sort_by_ensures(key_leq());
        assert forall|x: i32| r@.to_set().contains(x) implies pool.to_set().contains(x) by {
            to_multiset_contains(r@, x);
            to_multiset_contains(values@, x);
            let k = choose|k: int| 0 <= k < values@.len() && values@[k] == x;
        }
        to_multiset_len(r@);
        to_multiset_len(values@);
        pool.lemma_cardinality_of_set();
        lemma_len_subset(r@.to_set(), pool.to_set());
        assert forall|i: int| 0 <= i < r@.len() implies POOL_LOW <= #[trigger] r@[i] < POOL_HIGH by {
            to_multiset_contains(r@, r@[i]);
            to_multiset_contains(values@, r@[i]);
        }
    }
    r
}

} // verus!
