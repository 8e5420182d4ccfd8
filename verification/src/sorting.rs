//! Character-order predicates and sorting of a word's characters.

use vstd::prelude::*;
use vstd::relations::{sorted_by, total_ordering};
use vstd::seq_lib::lemma_sorted_unique;
use itertools::Itertools;

verus! {

/// The characters of `w` never decrease from left to right, by code point.
pub open spec fn non_decreasing(w: Seq<char>) -> bool {
    forall|i: int, j: int|
        #![trigger w[i], w[j]]
        0 <= i < j < w.len() ==> w[i] as int <= w[j] as int
}

/// The characters of `w` never increase from left to right, by code point.
pub open spec fn non_increasing(w: Seq<char>) -> bool {
    forall|i: int, j: int|
        #![trigger w[i], w[j]]
        0 <= i < j < w.len() ==> w[i] as int >= w[j] as int
}

/// Two words with the same characters, both in non-decreasing order, are
/// the same word: a sorted rearrangement is unique.
pub proof fn lemma_non_decreasing_unique(x: Seq<char>, y: Seq<char>)
    requires
        non_decreasing(x),
        non_decreasing(y),
        x.to_multiset() == y.to_multiset(),
    ensures
        x == y,
{
    let leq = |a: char, b: char| a as int <= b as int;
    assert(total_ordering(leq));
    assert(sorted_by(x, leq));
    assert(sorted_by(y, leq));
    lemma_sorted_unique(x, y, leq);
    assert(x =~= y);
}

/// Two words with the same characters, both in non-increasing order, are
/// the same word.
pub proof fn lemma_non_increasing_unique(x: Seq<char>, y: Seq<char>)
    requires
        non_increasing(x),
        non_increasing(y),
        x.to_multiset() == y.to_multiset(),
    ensures
        x == y,
{
    let geq = |a: char, b: char| a as int >= b as int;
    assert(total_ordering(geq));
    assert(sorted_by(x, geq));
    assert(sorted_by(y, geq));
    lemma_sorted_unique(x, y, geq);
    assert(x =~= y);
}

/// Relies on itertools' `Itertools::sorted`: it returns the iterator's
/// elements sorted in ascending order.
#[verifier::external_body]
fn sorted_chars(s: &str) -> (r: Vec<char>)
    ensures
        r@.to_multiset() == s@.to_multiset(),
        non_decreasing(r@),
{
    s.chars().sorted().collect()
}

/// Relies on std's `String::push`: it appends the given character to the
/// end of the string.
#[verifier::external_body]
fn push_char(s: &mut String, c: char)
    ensures
        final(s)@ == old(s)@.push(c),
{
    s.push(c);
}

/// The characters of `s` rearranged into non-decreasing code-point order,
/// or into non-increasing order when `descending` is true.
#[verifier::loop_isolation(false)]
pub fn sort_string(s: &str, descending: bool) -> (r: String)
    ensures
        r@.to_multiset() == s@.to_multiset(),
        !descending ==> non_decreasing(r@),
        descending ==> non_increasing(r@),
{
    let v = sorted_chars(s);
    let n = v.len();
    let mut out = String::new();
    if descending {
        let mut i: usize = 0;
        while i < n
            invariant
                i <= n,
                out@.len() == i,
                forall|k: int| 0 <= k < i ==> out@[k] == v@[n - 1 - k],
            decreases n - i,
        {
            push_char(&mut out, v[n - 1 - i]);
            i = i + 1;
        }
        proof {
            assert(out@ =~= v@.reverse());
            v@.lemma_reverse_to_multiset();
            assert forall|a: int, b: int|
                0 <= a < b < out@.len() implies out@[a] as int >= out@[b] as int by {
                assert(v@[n - 1 - b] as int <= v@[n - 1 - a] as int);
            }
        }
    } else {
        let mut i: usize = 0;
        while i < n
            invariant
                i <= n,
                out@ =~= v@.subrange(0, i as int),
            decreases n - i,
        {
            push_char(&mut out, v[i]);
            i = i + 1;
        }
        proof {
            assert(out@ =~= v@);
        }
    }
    out
}

} // verus!
