//! The first place at which a value occurs in a sequence.

use vstd::prelude::*;

verus! {

/// Whether `k` is the first position of `s` that holds `x`.
pub open spec fn is_first<T>(s: Seq<T>, x: T, k: int) -> bool {
    &&& 0 <= k < s.len()
    &&& s[k] == x
    &&& forall|j: int| 0 <= j < k ==> s[j] != x
}

/// The first position of `s` that holds `x`, if `x` occurs in `s` at all.
pub open spec fn first_index<T>(s: Seq<T>, x: T) -> Option<int> {
    if exists|k: int| is_first(s, x, k) {
        Some(choose|k: int| is_first(s, x, k))
    } else {
        None
    }
}

/// A first position is the first position: there is only one.
pub proof fn lemma_first_index_found<T>(s: Seq<T>, x: T, k: int)
    requires
        is_first(s, x, k),
    ensures
        first_index(s, x) == Some(k),
{
}

/// A value that no position holds has no first position.
pub proof fn lemma_first_index_absent<T>(s: Seq<T>, x: T)
    requires
        forall|j: int| 0 <= j < s.len() ==> s[j] != x,
    ensures
        first_index(s, x).is_none(),
{
}

/// What `first_index` returns is a first position, and it returns none only
/// where the value does not occur.
pub proof fn lemma_first_index<T>(s: Seq<T>, x: T)
    ensures
        match first_index(s, x) {
            Some(k) => is_first(s, x, k),
            None => forall|j: int| 0 <= j < s.len() ==> s[j] != x,
        },
{
    if first_index(s, x).is_none() {
        assert forall|j: int| 0 <= j < s.len() implies s[j] != x by {
            if s[j] == x {
                lemma_occurrence_has_first(s, x, j);
            }
        }
    }
}

/// Below any position that holds `x` there is a first one.
proof fn lemma_occurrence_has_first<T>(s: Seq<T>, x: T, j: int)
    requires
        0 <= j < s.len(),
        s[j] == x,
    ensures
        exists|k: int| is_first(s, x, k),
    decreases j,
{
    if forall|i: int| 0 <= i < j ==> s[i] != x {
        assert(is_first(s, x, j));
    } else {
        let i = choose|i: int| 0 <= i < j && s[i] == x;
        lemma_occurrence_has_first(s, x, i);
    }
}

} // verus!
