//! Splitting a text at a delimiter, piece by piece.

use vstd::prelude::*;
use crate::text::occurs;
use crate::text::head;
use crate::text::tail;
use crate::text::lemma_first_occurrence_is;
use crate::text::lemma_first_occurrence_exists;
use crate::text::split_first;
use crate::text::char_string;

verus! {

/// What a splitter holds: the part of the text not yet looked at, if any is
/// left, and the delimiter.
pub struct SplitState {
    pub remainder: Option<Seq<char>>,
    pub delimiter: Seq<char>,
}

/// The pieces of `s` between the occurrences of `d`, in their order. A text
/// that ends in `d` has an empty last piece.
pub open spec fn pieces(s: Seq<char>, d: Seq<char>) -> Seq<Seq<char>>
    decreases s.len(),
    when d.len() > 0
    via pieces_decreases
{
    if occurs(s, d) {
        seq![head(s, d)] + pieces(tail(s, d).unwrap(), d)
    } else {
        seq![s]
    }
}

#[via_fn]
proof fn pieces_decreases(s: Seq<char>, d: Seq<char>) {
    if occurs(s, d) {
        lemma_first_occurrence_exists(s, d);
    }
}

/// The pieces that a splitter in state `st` still has to give.
pub open spec fn pieces_left(st: SplitState) -> Seq<Seq<char>> {
    match st.remainder {
        Some(rem) => pieces(rem, st.delimiter),
        None => Seq::empty(),
    }
}

/// Gives the pieces of a text between the occurrences of a delimiter.
#[derive(Debug)]
pub struct StrSplit<'haystack, 'delim> {
    remainder: Option<&'haystack str>,
    delimiter: &'delim str,
}

impl<'haystack, 'delim> View for StrSplit<'haystack, 'delim> {
    type V = SplitState;

    closed spec fn view(&self) -> SplitState {
        SplitState {
            remainder: match self.remainder {
                Some(rem) => Some(rem@),
                None => None,
            },
            delimiter: self.delimiter@,
        }
    }
}

impl<'haystack, 'delim> StrSplit<'haystack, 'delim> {
    /// A splitter with all of `haystack` before it.
    pub fn new(haystack: &'haystack str, delim: &'delim str) -> (r: Self)
        ensures
            r@ == (SplitState { remainder: Some(haystack@), delimiter: delim@ }),
    {
        Self { remainder: Some(haystack), delimiter: delim }
    }

    /// The next piece: what stands before the next delimiter, or all that is
    /// left where there is none; `None` once the last piece was given.
    pub fn next(&mut self) -> (r: Option<&'haystack str>)
        ensures
            final(self)@.delimiter == old(self)@.delimiter,
            match old(self)@.remainder {
                Some(rem) => r is Some && r.unwrap()@ == head(rem, old(self)@.delimiter)
                    && final(self)@.remainder == tail(rem, old(self)@.delimiter),
                None => r is None && final(self)@.remainder is None,
            },
    {
        match self.remainder {
            Some(remainder) => {
                match split_first(remainder, self.delimiter) {
                    Some((until_delim, rest)) => {
                        proof {
                            lemma_first_occurrence_is(
                                remainder@,
                                self.delimiter@,
                                until_delim@.len() as int,
                            );
                        }
                        self.remainder = Some(rest);
                        Some(until_delim)
                    },
                    None => {
                        self.remainder = None;
                        Some(remainder)
                    },
                }
            },
            None => None,
        }
    }

    /// All the pieces that are left, in their order. The delimiter must not
    /// be empty: an empty one stands before every piece, and the pieces
    /// never end.
    pub fn collect(self) -> (r: Vec<&'haystack str>)
        requires
            self@.delimiter.len() > 0,
        ensures
            r@.len() == pieces_left(self@).len(),
            forall|i: int| 0 <= i < r@.len() ==> (#[trigger] r@[i])@ == pieces_left(self@)[i],
    {
        let mut split = self;
        let mut out: Vec<&'haystack str> = Vec::new();
        let ghost all = pieces_left(self@);
        loop
            invariant
                split@.delimiter == self@.delimiter,
                split@.delimiter.len() > 0,
                all == pieces_left(self@),
                out@.len() + pieces_left(split@).len() == all.len(),
                forall|i: int| 0 <= i < out@.len() ==> (#[trigger] out@[i])@ == all[i],
                forall|i: int|
                    0 <= i < pieces_left(split@).len() ==> #[trigger] pieces_left(split@)[i]
                        == all[out@.len() + i],
            ensures
                out@.len() == all.len(),
                forall|i: int| 0 <= i < out@.len() ==> (#[trigger] out@[i])@ == all[i],
            decreases
                    match split@.remainder {
                        Some(rem) => rem.len() + 1,
                        None => 0,
                    },
        {
            let ghost before = split@;
            let ghost left = pieces_left(before);
            match split.next() {
                Some(piece) => {
                    proof {
                        let rem = before.remainder.unwrap();
                        let d = before.delimiter;
                        if occurs(rem, d) {
                            lemma_first_occurrence_exists(rem, d);
                            let rest = pieces(tail(rem, d).unwrap(), d);
                            assert(left == seq![head(rem, d)] + rest);
                            assert(left[0] == head(rem, d));
                            assert(pieces_left(split@) == rest);
                            assert forall|i: int| 0 <= i < rest.len() implies #[trigger] rest[i]
                                == all[out@.len() + 1 + i] by {
                                assert(rest[i] == left[i + 1]);
                            }
                        } else {
                            assert(left == seq![rem]);
                            assert(left[0] == rem);
                        }
                    }
                    out.push(piece);
                },
                None => {
                    break;
                },
            }
        }
        out
    }
}

/// What stands in `s` before the first `c`; all of `s` where there is none.
pub fn until_char<'s>(s: &'s str, c: char) -> (r: &'s str)
    ensures
        r@ == head(s@, seq![c]),
{
    let delim = char_string(c);
    let mut split = StrSplit::new(s, delim.as_str());
    match split.next() {
        Some(piece) => piece,
        None => vstd::pervasive::unreached(),
    }
}

} // verus!
