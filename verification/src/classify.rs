//! Order classification of whole words.

use vstd::prelude::*;
use vstd::string::StringExecFns;
use crate::sorting::{
    lemma_non_decreasing_unique, lemma_non_increasing_unique, non_decreasing, non_increasing,
    sort_string,
};

verus! {

/// How the characters of one word are ordered.
#[derive(Clone, Copy, PartialEq, Eq, Structural, Debug)]
pub enum OrderState {
    Ascending,
    Descending,
    Unordered,
}

/// The order state of a word: ascending when its characters never
/// decrease, otherwise descending when they never increase, otherwise
/// unordered. The ascending case is checked first, so a word whose
/// characters are all equal (or a word of at most one character) counts
/// as ascending.
pub open spec fn order_state_of(w: Seq<char>) -> OrderState {
    if non_decreasing(w) {
        OrderState::Ascending
    } else if non_increasing(w) {
        OrderState::Descending
    } else {
        OrderState::Unordered
    }
}

/// The output label that belongs to each order state.
pub open spec fn spec_label(state: OrderState) -> Seq<char> {
    match state {
        OrderState::Ascending => "IN ORDER"@,
        OrderState::Descending => "REVERSE ORDER"@,
        OrderState::Unordered => "NOT IN ORDER"@,
    }
}

impl OrderState {
    /// Classifies a word by comparing it against its own characters
    /// sorted ascending and, failing that, sorted descending.
    pub fn from_word(s: &str) -> (r: OrderState)
        ensures
            r == order_state_of(s@),
    {
        let w = s.to_owned();
        let asc = sort_string(s, false);
        if w == asc {
            OrderState::Ascending
        } else {
            proof {
                if non_decreasing(s@) {
                    lemma_non_decreasing_unique(s@, asc@);
                }
            }
            let desc = sort_string(s, true);
            if w == desc {
                OrderState::Descending
            } else {
                proof {
                    if non_increasing(s@) {
                        lemma_non_increasing_unique(s@, desc@);
                    }
                }
                OrderState::Unordered
            }
        }
    }

    /// The label printed for this order state.
    pub fn label(&self) -> (r: &'static str)
        ensures
            r@ == spec_label(*self),
    {
        match self {
            OrderState::Ascending => "IN ORDER",
            OrderState::Descending => "REVERSE ORDER",
            OrderState::Unordered => "NOT IN ORDER",
        }
    }
}

/// One word together with its order state.
pub struct OrderResult {
    pub word: String,
    pub state: OrderState,
}

impl OrderResult {
    /// Pairs a word with its classification.
    pub fn from_word(word: String) -> (r: OrderResult)
        ensures
            r.word@ == word@,
            r.state == order_state_of(word@),
    {
        let state = OrderState::from_word(word.as_str());
        OrderResult { word, state }
    }

    /// The output line for this result: the word, a space, and the label
    /// of its order state.
    pub fn render(&self) -> (r: String)
        ensures
            r@ == self.word@ + " "@ + spec_label(self.state),
    {
        let mut out = self.word.clone();
        out.append(" ");
        out.append(self.state.label());
        out
    }
}

/// Classifies each line in order, pairing every word with its state.
#[verifier::loop_isolation(false)]
pub fn parse_input(lines: Vec<String>) -> (r: Vec<OrderResult>)
    ensures
        r@.len() == lines@.len(),
        forall|i: int|
            0 <= i < lines@.len() ==> (#[trigger] r@[i]).word@ == lines@[i]@
                && r@[i].state == order_state_of(lines@[i]@),
{
    let mut out: Vec<OrderResult> = Vec::new();
    let mut idx: usize = 0;
    while idx < lines.len()
        invariant
            idx <= lines@.len(),
            out@.len() == idx,
            forall|i: int|
                0 <= i < idx ==> (#[trigger] out@[i]).word@ == lines@[i]@
                    && out@[i].state == order_state_of(lines@[i]@),
        decreases lines@.len() - idx,
    {
        let word = lines[idx].clone();
        out.push(OrderResult::from_word(word));
        idx = idx + 1;
    }
    out
}

/// A word of at most one character is classified as ascending.
pub proof fn lemma_short_word_ascending(w: Seq<char>)
    requires
        w.len() <= 1,
    ensures
        order_state_of(w) == OrderState::Ascending,
{
}

/// A word whose characters are non-decreasing by code point is classified
/// as ascending.
pub proof fn lemma_non_decreasing_ascending(w: Seq<char>)
    requires
        non_decreasing(w),
    ensures
        order_state_of(w) == OrderState::Ascending,
{
}

/// A word whose characters are non-increasing, and not non-decreasing, is
/// classified as descending.
pub proof fn lemma_non_increasing_descending(w: Seq<char>)
    requires
        non_increasing(w),
        !non_decreasing(w),
    ensures
        order_state_of(w) == OrderState::Descending,
{
}

/// A word that is neither non-decreasing nor non-increasing is classified
/// as unordered.
pub proof fn lemma_otherwise_unordered(w: Seq<char>)
    requires
        !non_decreasing(w),
        !non_increasing(w),
    ensures
        order_state_of(w) == OrderState::Unordered,
{
}

} // verus!
