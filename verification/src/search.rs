//! Finding the first item of a sequence that meets a condition.

use vstd::prelude::*;

verus! {

/// The index of the first item of `s` that meets `p`; the length of `s`
/// where none does.
pub open spec fn first_match<T>(s: Seq<T>, p: spec_fn(T) -> bool) -> int
    decreases s.len(),
{
    if s.len() == 0 {
        0
    } else if p(s[0]) {
        0
    } else {
        1 + first_match(s.drop_first(), p)
    }
}

/// The first match is a match, and nothing before it is.
pub proof fn lemma_first_match_is_first<T>(s: Seq<T>, p: spec_fn(T) -> bool)
    ensures
        0 <= first_match(s, p) <= s.len(),
        first_match(s, p) < s.len() ==> p(s[first_match(s, p)]),
        forall|k: int| 0 <= k < first_match(s, p) ==> !p(#[trigger] s[k]),
    decreases s.len(),
{
    if s.len() > 0 && !p(s[0]) {
        let rest = s.drop_first();
        lemma_first_match_is_first(rest, p);
        assert forall|k: int| 0 <= k < first_match(s, p) implies !p(#[trigger] s[k]) by {
            if k > 0 {
                assert(s[k] == rest[k - 1]);
            }
        }
    }
}

/// An index is the first match if it is a match, or the end, and nothing
/// before it is a match.
pub proof fn lemma_first_match_found<T>(s: Seq<T>, p: spec_fn(T) -> bool, i: int)
    requires
        0 <= i <= s.len(),
        i < s.len() ==> p(s[i]),
        forall|k: int| 0 <= k < i ==> !p(#[trigger] s[k]),
    ensures
        first_match(s, p) == i,
{
    lemma_first_match_is_first(s, p);
    let f = first_match(s, p);
    if f < i {
        assert(!p(s[f]));
    }
}

} // verus!
