//! Value sequences of fixed shape: ascending and descending keys, modulo keys,
//! null-padded keys, timestamps and intervals.

use vstd::prelude::*;
use vstd::set_lib::{lemma_int_range, set_int_range};

verus! {

/// Milliseconds from the Unix epoch to 2023-01-01 00:00:00 UTC.
pub const EPOCH_2023_MS: i64 = 1672531200000;

/// Milliseconds between two consecutive interval values.
pub const INTERVAL_STEP_MS: i64 = 100;

/// `size * percent / 100`, rounded to the nearest integer, halves away from zero.
pub open spec fn share_spec(size: int, percent: int) -> int {
    (2 * (size * percent) + 100) / 200
}

pub open spec fn ascending_spec(size: int) -> Seq<i32> {
    Seq::new(size as nat, |i: int| i as i32)
}

pub open spec fn descending_spec(size: int) -> Seq<i32> {
    Seq::new(size as nat, |i: int| (size - 1 - i) as i32)
}

pub open spec fn modulo_spec(size: int, modulus: int) -> Seq<i32> {
    Seq::new(size as nat, |i: int| (i % modulus) as i32)
}

/// `nulls` empty slots, then the values `nulls .. size` in ascending order.
pub open spec fn asc_nulls_first_spec(size: int, nulls: int) -> Seq<Option<i32>> {
    Seq::new(size as nat, |i: int| if i < nulls { None } else { Some(i as i32) })
}

/// The values `nulls .. size` in ascending order, then `nulls` empty slots.
pub open spec fn asc_nulls_last_spec(size: int, nulls: int) -> Seq<Option<i32>> {
    Seq::new(
        size as nat,
        |i: int| if i < size - nulls { Some((nulls + i) as i32) } else { None },
    )
}

/// `nulls` empty slots, then the values `nulls .. size` in descending order.
pub open spec fn desc_nulls_first_spec(size: int, nulls: int) -> Seq<Option<i32>> {
    Seq::new(
        size as nat,
        |i: int| if i < nulls { None } else { Some((size - 1 + nulls - i) as i32) },
    )
}

pub open spec fn timestamps_spec(size: int) -> Seq<i64> {
    Seq::new(size as nat, |i: int| (i + EPOCH_2023_MS) as i64)
}

pub open spec fn intervals_spec(size: int) -> Seq<i64> {
    Seq::new(size as nat, |i: int| (i * INTERVAL_STEP_MS) as i64)
}

/// The positions of a column that hold no value.
pub open spec fn null_positions(col: Seq<Option<i32>>) -> Set<int> {
    Set::new(|i: int| 0 <= i < col.len() && col[i] is None)
}

/// The share of `size` rows that `percent` percent stands for, rounded to nearest.
pub fn rounded_share(size: i32, percent: i32) -> (r: i32)
    requires
        0 <= size,
        0 <= percent <= 100,
    ensures
        r == share_spec(size as int, percent as int),
        0 <= r <= size,
{
    let s = size as i64;
    let p = percent as i64;
    proof {
        assert(0 <= s * p <= s * 100) by (nonlinear_arith)
            requires
                0 <= s,
                0 <= p <= 100,
        ;
        assert(share_spec(s as int, p as int) <= s) by (nonlinear_arith)
            requires
                0 <= s,
                0 <= p <= 100,
        ;
    }
    let num: i64 = 2 * (s * p) + 100;
    (num / 200) as i32
}

/// The keys `0 .. size` in ascending order.
pub fn ascending(size: i32) -> (r: Vec<i32>)
    requires
        0 <= size,
    ensures
        r@ == ascending_spec(size as int),
{
    let mut r: Vec<i32> = Vec::new();
    let mut i: i32 = 0;
    while i < size
        invariant
            0 <= i <= size,
            r@.len() == i,
            forall|j: int| 0 <= j < i ==> r@[j] == j,
        decreases size - i,
    {
        r.push(i);
        i = i + 1;
    }
    assert(r@ =~= ascending_spec(size as int));
    r
}

/// The keys `0 .. size` in descending order.
pub fn descending(size: i32) -> (r: Vec<i32>)
    requires
        0 <= size,
    ensures
        r@ == descending_spec(size as int),
{
    let mut r: Vec<i32> = Vec::new();
    let mut i: i32 = 0;
    while i < size
        invariant
            0 <= i <= size,
            r@.len() == i,
            forall|j: int| 0 <= j < i ==> r@[j] == size - 1 - j,
        decreases size - i,
    {
        r.push(size - 1 - i);
        i = i + 1;
    }
    assert(r@ =~= descending_spec(size as int));
    r
}

/// Each row index reduced modulo `modulus`: a key with at most `modulus` distinct values.
pub fn modulo_keys(size: i32, modulus: i32) -> (r: Vec<i32>)
    requires
        0 <= size,
        0 < modulus,
    ensures
        r@ == modulo_spec(size as int, modulus as int),
{
    let mut r: Vec<i32> = Vec::new();
    let mut i: i32 = 0;
    while i < size
        invariant
            0 <= i <= size,
            0 < modulus,
            r@.len() == i,
            forall|j: int| 0 <= j < i ==> r@[j] == j % (modulus as int),
        decreases size - i,
    {
        r.push(i % modulus);
        i = i + 1;
    }
    assert(r@ =~= modulo_spec(size as int, modulus as int));
    r
}

/// An ascending key whose first `nulls` slots are empty.
pub fn asc_nulls_first(size: i32, nulls: i32) -> (r: Vec<Option<i32>>)
    requires
        0 <= nulls <= size,
    ensures
        r@ == asc_nulls_first_spec(size as int, nulls as int),
{
    let mut r: Vec<Option<i32>> = Vec::new();
    let mut i: i32 = 0;
    while i < size
        invariant
            0 <= i <= size,
            r@.len() == i,
            forall|j: int|
                0 <= j < i ==> r@[j] == (if j < nulls { None } else { Some(j as i32) }),
        decreases size - i,
    {
        if i < nulls {
            r.push(None);
        } else {
            r.push(Some(i));
        }
        i = i + 1;
    }
    assert(r@ =~= asc_nulls_first_spec(size as int, nulls as int));
    r
}

/// An ascending key whose last `nulls` slots are empty.
pub fn asc_nulls_last(size: i32, nulls: i32) -> (r: Vec<Option<i32>>)
    requires
        0 <= nulls <= size,
    ensures
        r@ == asc_nulls_last_spec(size as int, nulls as int),
{
    let mut r: Vec<Option<i32>> = Vec::new();
    let mut i: i32 = 0;
    while i < size
        invariant
            0 <= nulls <= size,
            0 <= i <= size,
            r@.len() == i,
            forall|j: int|
                0 <= j < i ==> r@[j] == (if j < size - nulls {
                    Some((nulls + j) as i32)
                } else {
                    None
                }),
        decreases size - i,
    {
        if i < size - nulls {
            r.push(Some(nulls + i));
        } else {
            r.push(None);
        }
        i = i + 1;
    }
    assert(r@ =~= asc_nulls_last_spec(size as int, nulls as int));
    r
}

/// A descending key whose first `nulls` slots are empty.
pub fn desc_nulls_first(size: i32, nulls: i32) -> (r: Vec<Option<i32>>)
    requires
        0 <= nulls <= size,
    ensures
        r@ == desc_nulls_first_spec(size as int, nulls as int),
{
    let mut r: Vec<Option<i32>> = Vec::new();
    let mut i: i32 = 0;
    while i < size
        invariant
            0 <= nulls <= size,
            0 <= i <= size,
            r@.len() == i,
            forall|j: int|
                0 <= j < i ==> r@[j] == (if j < nulls {
                    None
                } else {
                    Some((size - 1 + nulls - j) as i32)
                }),
        decreases size - i,
    {
        if i < nulls {
            r.push(None);
        } else {
            r.push(Some((size - 1 - i) + nulls));
        }
        i = i + 1;
    }
    assert(r@ =~= desc_nulls_first_spec(size as int, nulls as int));
    r
}

/// Millisecond timestamps that start at 2023-01-01 and grow by one per row.
pub fn timestamps(size: i32) -> (r: Vec<i64>)
    requires
        0 <= size,
    ensures
        r@ == timestamps_spec(size as int),
{
    let mut r: Vec<i64> = Vec::new();
    let mut i: i32 = 0;
    while i < size
        invariant
            0 <= i <= size,
            r@.len() == i,
            forall|j: int| 0 <= j < i ==> r@[j] == j + EPOCH_2023_MS,
        decreases size - i,
    {
        r.push(i as i64 + EPOCH_2023_MS);
        i = i + 1;
    }
    assert(r@ =~= timestamps_spec(size as int));
    r
}

/// Millisecond intervals that grow by a fixed step per row, starting at zero.
pub fn intervals(size: i32) -> (r: Vec<i64>)
    requires
        0 <= size,
    ensures
        r@ == intervals_spec(size as int),
{
    let mut r: Vec<i64> = Vec::new();
    let mut i: i32 = 0;
    while i < size
        invariant
            0 <= i <= size,
            r@.len() == i,
            forall|j: int| 0 <= j < i ==> r@[j] == j * INTERVAL_STEP_MS,
        decreases size - i,
    {
        r.push(i as i64 * INTERVAL_STEP_MS);
        i = i + 1;
    }
    assert(r@ =~= intervals_spec(size as int));
    r
}

/// A column shaped with its first `nulls` slots empty has exactly `nulls` empty slots.
pub proof fn lemma_nulls_first_count(col: Seq<Option<i32>>, size: int, nulls: int)
    requires
        0 <= nulls <= size,
        col == asc_nulls_first_spec(size, nulls) || col == desc_nulls_first_spec(size, nulls),
    ensures
        null_positions(col) == set_int_range(0, nulls),
        null_positions(col).len() == nulls,
{
    assert(null_positions(col) =~= set_int_range(0, nulls));
    lemma_int_range(0, nulls);
}

/// A column shaped with its last `nulls` slots empty has exactly `nulls` empty slots.
pub proof fn lemma_nulls_last_count(size: int, nulls: int)
    requires
        0 <= nulls <= size,
    ensures
        null_positions(asc_nulls_last_spec(size, nulls)) == set_int_range(size - nulls, size),
        null_positions(asc_nulls_last_spec(size, nulls)).len() == nulls,
{
    assert(null_positions(asc_nulls_last_spec(size, nulls)) =~= set_int_range(
        size - nulls,
        size,
    ));
    lemma_int_range(size - nulls, size);
}

} // verus!
