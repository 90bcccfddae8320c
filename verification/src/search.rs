//! First-match search over sequences, shared by the stores that update the
//! first record satisfying a predicate.

use vstd::prelude::*;

verus! {

/// The index of the first element satisfying the predicate, if any.
pub open spec fn first_where<T>(s: Seq<T>, pred: spec_fn(T) -> bool) -> Option<int>
    decreases s.len(),
{
    if s.len() == 0 {
        None
    } else if pred(s[0]) {
        Some(0int)
    } else {
        match first_where(s.drop_first(), pred) {
            Some(j) => Some(j + 1),
            None => None,
        }
    }
}

/// A scan that saw no match up to `i` and a match at `i` has found the first
/// match.
pub proof fn lemma_first_where_found<T>(s: Seq<T>, pred: spec_fn(T) -> bool, i: int)
    requires
        0 <= i < s.len(),
        pred(s[i]),
        forall|j: int| 0 <= j < i ==> !pred(s[j]),
    ensures
        first_where(s, pred) == Some(i),
    decreases i,
{
    if i == 0 {
    } else {
        assert(!pred(s[0]));
        let rest = s.drop_first();
        assert(forall|j: int| 0 <= j < rest.len() ==> rest[j] == s[j + 1]);
        lemma_first_where_found(rest, pred, i - 1);
    }
}

/// A scan that saw no match at all proves there is none.
pub proof fn lemma_first_where_none<T>(s: Seq<T>, pred: spec_fn(T) -> bool)
    requires
        forall|j: int| 0 <= j < s.len() ==> !pred(s[j]),
    ensures
        first_where(s, pred) is None,
    decreases s.len(),
{
    if s.len() > 0 {
        let rest = s.drop_first();
        assert(forall|j: int| 0 <= j < rest.len() ==> rest[j] == s[j + 1]);
        lemma_first_where_none(rest, pred);
    }
}

} // verus!
