//! Finding a delimiter in a text: the notions that the splitting routines are
//! specified with, and the standard library's search behind them.

use vstd::prelude::*;

verus! {

/// `d` stands in `s` at position `k`.
pub open spec fn occurs_at(s: Seq<char>, d: Seq<char>, k: int) -> bool {
    0 <= k && k + d.len() <= s.len() && s.subrange(k, k + d.len()) == d
}

/// `d` stands somewhere in `s`.
pub open spec fn occurs(s: Seq<char>, d: Seq<char>) -> bool {
    exists|k: int| occurs_at(s, d, k)
}

/// `d` stands in `s` at `k` and nowhere before.
pub open spec fn is_first_occurrence(s: Seq<char>, d: Seq<char>, k: int) -> bool {
    occurs_at(s, d, k) && forall|j: int| 0 <= j < k ==> !occurs_at(s, d, j)
}

/// The first position at which `d` stands in `s`, where it stands in it at all.
pub open spec fn first_occurrence(s: Seq<char>, d: Seq<char>) -> int {
    choose|k: int| is_first_occurrence(s, d, k)
}

/// What stands in `s` before the first `d`; all of `s` where there is none.
pub open spec fn head(s: Seq<char>, d: Seq<char>) -> Seq<char> {
    if occurs(s, d) {
        s.take(first_occurrence(s, d))
    } else {
        s
    }
}

/// What stands in `s` after the first `d`; nothing at all where there is none.
pub open spec fn tail(s: Seq<char>, d: Seq<char>) -> Option<Seq<char>> {
    if occurs(s, d) {
        Some(s.skip(first_occurrence(s, d) + d.len()))
    } else {
        None
    }
}

/// A first occurrence is the first occurrence: there is only one.
pub proof fn lemma_first_occurrence_is(s: Seq<char>, d: Seq<char>, k: int)
    requires
        is_first_occurrence(s, d, k),
    ensures
        occurs(s, d),
        first_occurrence(s, d) == k,
{
    let f = first_occurrence(s, d);
    assert(is_first_occurrence(s, d, f));
    if f < k {
        assert(!occurs_at(s, d, f));
    } else if k < f {
        assert(!occurs_at(s, d, k));
    }
}

/// Where `d` stands in `s`, it has a first occurrence, which lies inside `s`.
pub proof fn lemma_first_occurrence_exists(s: Seq<char>, d: Seq<char>)
    requires
        occurs(s, d),
    ensures
        is_first_occurrence(s, d, first_occurrence(s, d)),
        0 <= first_occurrence(s, d),
        first_occurrence(s, d) + d.len() <= s.len(),
{
    let k = choose|k: int| occurs_at(s, d, k);
    lemma_least_occurrence(s, d, k);
}

proof fn lemma_least_occurrence(s: Seq<char>, d: Seq<char>, k: int)
    requires
        occurs_at(s, d, k),
    ensures
        exists|f: int| is_first_occurrence(s, d, f),
    decreases k,
{
    if exists|j: int| 0 <= j < k && occurs_at(s, d, j) {
        let j = choose|j: int| 0 <= j < k && occurs_at(s, d, j);
        lemma_least_occurrence(s, d, j);
    } else {
        assert(is_first_occurrence(s, d, k));
    }
}

/// Splits `s` at the first `delim`: what stands before it and what stands
/// after it; `None` where `delim` does not stand in `s`.
///
/// Calls `str::split_once`, which splits on the first occurrence of the
/// delimiter and returns the prefix before it and the suffix after it, or
/// `None` if the delimiter does not occur.
#[verifier::external_body]
pub(crate) fn split_first<'a>(s: &'a str, delim: &str) -> (r: Option<(&'a str, &'a str)>)
    ensures
        match r {
            Some((before, after)) => is_first_occurrence(s@, delim@, before@.len() as int)
                && before@ == s@.take(before@.len() as int) && after@ == s@.skip(
                (before@.len() + delim@.len()) as int,
            ),
            None => !occurs(s@, delim@),
        },
{
    s.split_once(delim)
}

/// The text that consists of the one character `c`.
///
/// Calls `char::to_string`.
#[verifier::external_body]
pub(crate) fn char_string(c: char) -> (r: String)
    ensures
        r@ == seq![c],
{
    c.to_string()
}

} // verus!
