//! Taking one token off the front of a text.

use vstd::prelude::*;
use crate::text::head;
use crate::text::tail;
use crate::text::lemma_first_occurrence_is;
use crate::text::split_first;
use crate::text::char_string;

verus! {

/// Takes the first token off `s`: returns what stands before the first
/// `delimiter` and leaves in `s` what stands after it. Where there is no
/// `delimiter`, all of `s` is the token and `s` is left empty.
pub fn strtok<'a, 'b>(s: &'a mut &'b str, delimiter: char) -> (r: &'b str)
    ensures
        r@ == head(old(s)@, seq![delimiter]),
        final(s)@ == match tail(old(s)@, seq![delimiter]) {
            Some(rest) => rest,
            None => Seq::<char>::empty(),
        },
{
    let delim = char_string(delimiter);
    let whole: &'b str = *s;
    match split_first(whole, delim.as_str()) {
        Some((prefix, suffix)) => {
            proof {
                lemma_first_occurrence_is(whole@, seq![delimiter], prefix@.len() as int);
            }
            *s = suffix;
            prefix
        },
        None => {
            proof {
                reveal_strlit("");
            }
            *s = "";
            assert(s@ =~= Seq::<char>::empty());
            whole
        },
    }
}

} // verus!
