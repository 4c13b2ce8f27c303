//! Order-insensitive comparison of two rendered result collections: both are
//! sorted line by line and then compared position by position.

use vstd::prelude::*;
use vstd::seq_lib::lemma_sorted_unique;
use crate::sorting::{line_leq, line_views, lemma_line_leq_total, sort_lines};

verus! {

/// The outcome of comparing two sequences of lines position by position.
#[derive(Debug, PartialEq, Eq)]
pub enum LineComparison {
    /// The sequences hold the same lines in the same order.
    Equal,
    /// The first position where the sequences differ, with both lines there.
    Mismatch { index: usize, first: Vec<u8>, second: Vec<u8> },
    /// One sequence is a proper prefix of the other.
    LengthMismatch { first_len: usize, second_len: usize },
}

/// Whether `r` is what a position-by-position comparison of `a` with `b` reports.
pub open spec fn reports(r: LineComparison, a: Seq<Seq<u8>>, b: Seq<Seq<u8>>) -> bool {
    match r {
        LineComparison::Equal => a == b,
        LineComparison::Mismatch { index, first, second } => {
            &&& index < a.len()
            &&& index < b.len()
            &&& a[index as int] != b[index as int]
            &&& forall|k: int| 0 <= k < index ==> a[k] == b[k]
            &&& first@ == a[index as int]
            &&& second@ == b[index as int]
        },
        LineComparison::LengthMismatch { first_len, second_len } => {
            &&& first_len == a.len()
            &&& second_len == b.len()
            &&& first_len != second_len
            &&& forall|k: int| 0 <= k < a.len() && k < b.len() ==> a[k] == b[k]
        },
    }
}

/// The lines of a collection in sorted order.
pub open spec fn sorted_lines(v: Seq<Seq<u8>>) -> Seq<Seq<u8>> {
    v.sort_by(line_leq())
}

/// Whether two lines hold the same bytes.
pub fn same_line(a: &Vec<u8>, b: &Vec<u8>) -> (r: bool)
    ensures
        r == (a@ == b@),
{
    if a.len() != b.len() {
        return false;
    }
    let mut i: usize = 0;
    while i < a.len()
        invariant
            a@.len() == b@.len(),
            0 <= i <= a@.len(),
            forall|k: int| 0 <= k < i ==> a@[k] == b@[k],
        decreases a@.len() - i,
    {
        if a[i] != b[i] {
            return false;
        }
        i = i + 1;
    }
    assert(a@ =~= b@);
    true
}

fn copy_line(l: &Vec<u8>) -> (r: Vec<u8>)
    ensures
        r@ == l@,
{
    let mut r: Vec<u8> = Vec::new();
    let mut i: usize = 0;
    while i < l.len()
        invariant
            0 <= i <= l@.len(),
            r@ == l@.subrange(0, i as int),
        decreases l@.len() - i,
    {
        r.push(l[i]);
        i = i + 1;
        assert(r@ =~= l@.subrange(0, i as int));
    }
    assert(l@.subrange(0, l@.len() as int) =~= l@);
    r
}

/// Compares two sequences of lines position by position and reports the first
/// difference.
pub fn compare_lines(a: &Vec<Vec<u8>>, b: &Vec<Vec<u8>>) -> (r: LineComparison)
    ensures
        reports(r, line_views(a@), line_views(b@)),
{
    let ghost va = line_views(a@);
    let ghost vb = line_views(b@);
    let mut i: usize = 0;
    while i < a.len() && i < b.len()
        invariant
            0 <= i <= a@.len(),
            i <= b@.len(),
            va == line_views(a@),
            vb == line_views(b@),
            forall|k: int| 0 <= k < i ==> va[k] == vb[k],
        decreases a@.len() - i,
    {
        if !same_line(&a[i], &b[i]) {
            assert(va[i as int] == a@[i as int]@);
            assert(vb[i as int] == b@[i as int]@);
            return LineComparison::Mismatch {
                index: i,
                first: copy_line(&a[i]),
                second: copy_line(&b[i]),
            };
        }
        i = i + 1;
    }
    if a.len() != b.len() {
        LineComparison::LengthMismatch { first_len: a.len(), second_len: b.len() }
    } else {
        assert(va =~= vb);
        LineComparison::Equal
    }
}

/// Sorting makes two collections equal exactly when they hold the same lines,
/// each as often.
pub proof fn lemma_sorted_lines_equal(a: Seq<Seq<u8>>, b: Seq<Seq<u8>>)
    ensures
        (sorted_lines(a) == sorted_lines(b)) <==> (a.to_multiset() == b.to_multiset()),
{
    lemma_line_leq_total();
    a.lemma_sort_by_ensures(line_leq());
    b.lemma_sort_by_ensures(line_leq());
    if a.to_multiset() == b.to_multiset() {
        lemma_sorted_unique(sorted_lines(a), sorted_lines(b), line_leq());
    }
}

/// Compares two collections of rendered lines regardless of their order: both
/// are sorted, then compared position by position.
pub fn compare_line_sets(first: Vec<Vec<u8>>, second: Vec<Vec<u8>>) -> (r: LineComparison)
    ensures
        reports(r, sorted_lines(line_views(first@)), sorted_lines(line_views(second@))),
        (r is Equal) <==> line_views(first@).to_multiset() == line_views(second@).to_multiset(),
{
    let a = sort_lines(first);
    let b = sort_lines(second);
    let r = compare_lines(&a, &b);
    proof {
        lemma_sorted_lines_equal(line_views(first@), line_views(second@));
    }
    r
}

/// Two collections holding the same lines, each as often, in whatever order and
/// grouping, are reported equal; collections that differ in any line are
/// reported with their first differing position in sorted order, or with their
/// lengths when one sorted sequence is a prefix of the other.
pub proof fn lemma_order_insensitive(
    first: Seq<Seq<u8>>,
    second: Seq<Seq<u8>>,
    r: LineComparison,
)
    requires
        reports(r, sorted_lines(first), sorted_lines(second)),
    ensures
        first.to_multiset() == second.to_multiset() ==> r is Equal,
        first.to_multiset() != second.to_multiset() ==> (r is Mismatch || r is LengthMismatch),
{
    lemma_sorted_lines_equal(first, second);
}

} // verus!
