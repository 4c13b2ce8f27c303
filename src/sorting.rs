//! Sorting of keys and of rendered lines, proved against vstd's `sort_by`.

use vstd::prelude::*;
use vstd::relations::{sorted_by, total_ordering};
use vstd::seq_lib::{lemma_sorted_unique, to_multiset_build, to_multiset_insert};

verus! {

/// The natural order of 32-bit keys.
pub open spec fn key_leq() -> spec_fn(i32, i32) -> bool {
    |a: i32, b: i32| a <= b
}

/// Byte-wise lexicographic order, the order of `str` in Rust.
pub open spec fn lex_le(a: Seq<u8>, b: Seq<u8>) -> bool
    decreases a.len(),
{
    if a.len() == 0 {
        true
    } else if b.len() == 0 {
        false
    } else if a[0] != b[0] {
        a[0] < b[0]
    } else {
        lex_le(a.drop_first(), b.drop_first())
    }
}

pub open spec fn line_leq() -> spec_fn(Seq<u8>, Seq<u8>) -> bool {
    |a: Seq<u8>, b: Seq<u8>| lex_le(a, b)
}

/// The contents of each line of a collection.
pub open spec fn line_views(v: Seq<Vec<u8>>) -> Seq<Seq<u8>> {
    v.map_values(|l: Vec<u8>| l@)
}

pub proof fn lemma_key_leq_total()
    ensures
        total_ordering(key_leq()),
{
}

proof fn lemma_lex_reflexive(a: Seq<u8>)
    ensures
        lex_le(a, a),
    decreases a.len(),
{
    if a.len() > 0 {
        lemma_lex_reflexive(a.drop_first());
    }
}

proof fn lemma_lex_antisymmetric(a: Seq<u8>, b: Seq<u8>)
    requires
        lex_le(a, b),
        lex_le(b, a),
    ensures
        a == b,
    decreases a.len(),
{
    if a.len() > 0 && b.len() > 0 {
        lemma_lex_antisymmetric(a.drop_first(), b.drop_first());
        assert(a =~= seq![a[0]] + a.drop_first());
        assert(b =~= seq![b[0]] + b.drop_first());
    }
}

proof fn lemma_lex_transitive(a: Seq<u8>, b: Seq<u8>, c: Seq<u8>)
    requires
        lex_le(a, b),
        lex_le(b, c),
    ensures
        lex_le(a, c),
    decreases a.len(),
{
    if a.len() > 0 && b.len() > 0 && c.len() > 0 && a[0] == b[0] && b[0] == c[0] {
        lemma_lex_transitive(a.drop_first(), b.drop_first(), c.drop_first());
    }
}

proof fn lemma_lex_connected(a: Seq<u8>, b: Seq<u8>)
    ensures
        lex_le(a, b) || lex_le(b, a),
    decreases a.len(),
{
    if a.len() > 0 && b.len() > 0 && a[0] == b[0] {
        lemma_lex_connected(a.drop_first(), b.drop_first());
    }
}

/// Lexicographic order on byte strings is a total order.
pub proof fn lemma_line_leq_total()
    ensures
        total_ordering(line_leq()),
{
    assert forall|a: Seq<u8>| #[trigger] line_leq()(a, a) by {
        lemma_lex_reflexive(a);
    }
    assert forall|a: Seq<u8>, b: Seq<u8>|
        #[trigger] line_leq()(a, b) && #[trigger] line_leq()(b, a) implies a == b by {
        lemma_lex_antisymmetric(a, b);
    }
    assert forall|a: Seq<u8>, b: Seq<u8>, c: Seq<u8>|
        #[trigger] line_leq()(a, b) && #[trigger] line_leq()(b, c) implies line_leq()(a, c) by {
        lemma_lex_transitive(a, b, c);
    }
    assert forall|a: Seq<u8>, b: Seq<u8>|
        #[trigger] line_leq()(a, b) || #[trigger] line_leq()(b, a) by {
        lemma_lex_connected(a, b);
    }
}

/// Whether `a` comes no later than `b` in byte-wise lexicographic order.
pub fn line_le(a: &Vec<u8>, b: &Vec<u8>) -> (r: bool)
    ensures
        r == lex_le(a@, b@),
{
    let mut i: usize = 0;
    assert(a@.subrange(0, a@.len() as int) =~= a@);
    assert(b@.subrange(0, b@.len() as int) =~= b@);
    while i < a.len() && i < b.len() && a[i] == b[i]
        invariant
            0 <= i <= a@.len(),
            i <= b@.len(),
            lex_le(a@, b@) == lex_le(a@.subrange(i as int, a@.len() as int), b@.subrange(i as int, b@.len() as int)),
        decreases a@.len() - i,
    {
        let ghost sa = a@.subrange(i as int, a@.len() as int);
        let ghost sb = b@.subrange(i as int, b@.len() as int);
        assert(sa.drop_first() =~= a@.subrange(i + 1, a@.len() as int));
        assert(sb.drop_first() =~= b@.subrange(i + 1, b@.len() as int));
        i = i + 1;
    }
    if i == a.len() {
        true
    } else if i == b.len() {
        false
    } else {
        a[i] < b[i]
    }
}

/// Sorts keys into ascending order.
pub fn sort_keys(v: &Vec<i32>) -> (r: Vec<i32>)
    ensures
        r@ == v@.sort_by(key_leq()),
{
    let mut out: Vec<i32> = Vec::new();
    let mut i: usize = 0;
    assert(v@.subrange(0, 0) =~= out@);
    while i < v.len()
        invariant
            0 <= i <= v@.len(),
            forall|a: int, b: int| 0 <= a < b < out@.len() ==> out@[a] <= out@[b],
            out@.to_multiset() == v@.subrange(0, i as int).to_multiset(),
        decreases v@.len() - i,
    {
        let x = v[i];
        let mut j: usize = 0;
        while j < out.len() && out[j] <= x
            invariant
                0 <= j <= out@.len(),
                forall|k: int| 0 <= k < j ==> out@[k] <= x,
            decreases out@.len() - j,
        {
            j = j + 1;
        }
        let ghost before = out@;
        out.insert(j, x);
        assert(out@ == before.insert(j as int, x));
        assert forall|a: int, b: int| 0 <= a < b < out@.len() implies out@[a] <= out@[b] by {
            if j < before.len() {
                assert(x < before[j as int]);
            }
        }
        proof {
            to_multiset_insert(before, j as int, x);
            to_multiset_build(v@.subrange(0, i as int), x);
        }
        assert(v@.subrange(0, i + 1) =~= v@.subrange(0, i as int).push(x));
        assert(v@.subrange(0, i as int).push(x).to_multiset() == v@.subrange(
            0,
            i as int,
        ).to_multiset().insert(x));
        i = i + 1;
    }
    proof {
        assert(v@.subrange(0, v@.len() as int) =~= v@);
        lemma_key_leq_total();
        v@.lemma_sort_by_ensures(key_leq());
        lemma_sorted_unique(out@, v@.sort_by(key_leq()), key_leq());
    }
    out
}

/// Sorts lines into byte-wise lexicographic order.
pub fn sort_lines(v: Vec<Vec<u8>>) -> (r: Vec<Vec<u8>>)
    ensures
        line_views(r@) == line_views(v@).sort_by(line_leq()),
{
    proof {
        lemma_line_leq_total();
    }
    let ghost all = line_views(v@);
    let mut out: Vec<Vec<u8>> = Vec::new();
    let mut rest = v;
    assert(all.subrange(all.len() as int, all.len() as int) =~= line_views(out@));
    assert(all.subrange(0, rest@.len() as int) =~= all);
    while rest.len() > 0
        invariant
            rest@.len() <= all.len(),
            line_views(rest@) == all.subrange(0, rest@.len() as int),
            total_ordering(line_leq()),
            sorted_by(line_views(out@), line_leq()),
            line_views(out@).to_multiset() == all.subrange(
                rest@.len() as int,
                all.len() as int,
            ).to_multiset(),
        decreases rest@.len(),
    {
        let ghost n = rest@.len();
        let ghost whole = rest@;
        let x = rest.pop().unwrap();
        assert(line_views(rest@) =~= all.subrange(0, n - 1));
        assert(x@ == all[n - 1]) by {
            assert(line_views(whole)[n - 1] == whole[n - 1]@);
        }
        let mut j: usize = 0;
        while j < out.len() && line_le(&out[j], &x)
            invariant
                0 <= j <= out@.len(),
                forall|k: int| 0 <= k < j ==> lex_le(#[trigger] out@[k]@, x@),
            decreases out@.len() - j,
        {
            j = j + 1;
        }
        let ghost before = line_views(out@);
        out.insert(j, x);
        assert(line_views(out@) =~= before.insert(j as int, x@));
        assert forall|a: int, b: int|
            0 <= a < b < line_views(out@).len() implies #[trigger] line_leq()(
            line_views(out@)[a],
            line_views(out@)[b],
        ) by {
            let s = line_views(out@);
            if b < j {
                assert(line_leq()(before[a], before[b]));
            } else if b == j {
                assert(lex_le(before[a], x@));
            } else if a == j {
                assert(line_leq()(before[j as int], x@) || line_leq()(x@, before[j as int]));
                if a + 1 < b {
                    assert(line_leq()(before[j as int], before[b - 1]));
                }
            } else if a < j {
                assert(line_leq()(before[a], before[b - 1]));
            } else {
                assert(line_leq()(before[a - 1], before[b - 1]));
            }
        }
        assert(all.subrange(n - 1, all.len() as int) =~= all.subrange(
            n as int,
            all.len() as int,
        ).insert(0, x@));
        proof {
            to_multiset_insert(before, j as int, x@);
            to_multiset_insert(all.subrange(n as int, all.len() as int), 0, x@);
        }
        assert(all.subrange(n as int, all.len() as int).insert(0, x@).to_multiset()
            == all.subrange(n as int, all.len() as int).to_multiset().insert(x@));
    }
    proof {
        assert(all.subrange(0, all.len() as int) =~= all);
        all.lemma_sort_by_ensures(line_leq());
        assert(all.subrange(0, 0).len() == 0);
        lemma_sorted_unique(line_views(out@), all.sort_by(line_leq()), line_leq());
    }
    out
}

} // verus!
