//! A fact about where a value first occurs in a sequence.

use vstd::prelude::*;

verus! {

/// The first occurrence of `needle` in `s` is at `at` where `needle` stands at `at` with
/// no occurrence before it; `needle` does not occur in `s` where `at` is the length of `s`
/// and no occurrence stands before it.
pub proof fn lemma_index_of_first<A>(s: Seq<A>, needle: A, at: int)
    requires
        0 <= at <= s.len(),
        forall|k: int| 0 <= k < at ==> s[k] != needle,
        at == s.len() || s[at] == needle,
    ensures
        s.index_of_first(needle) == (if at < s.len() {
            Some(at)
        } else {
            None
        }),
        s.contains(needle) <==> at < s.len(),
{
    s.index_of_first_ensures(needle);
}

} // verus!
