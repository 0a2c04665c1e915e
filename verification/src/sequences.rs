//! Searches over sequences, shared by the contracts of the other modules.

use vstd::prelude::*;

verus! {

/// `i` is the lowest index of `s` whose item satisfies `p`.
pub open spec fn is_first<T>(s: Seq<T>, p: spec_fn(T) -> bool, i: int) -> bool {
    &&& 0 <= i < s.len()
    &&& p(s[i])
    &&& forall|j: int| 0 <= j < i ==> !p(#[trigger] s[j])
}

/// The lowest index of `s` whose item satisfies `p`, if there is one.
pub open spec fn first_match<T>(s: Seq<T>, p: spec_fn(T) -> bool) -> Option<int> {
    if exists|i: int| is_first(s, p, i) {
        Some(choose|i: int| is_first(s, p, i))
    } else {
        None
    }
}

/// A first match is the one that `first_match` names.
pub proof fn lemma_first_match<T>(s: Seq<T>, p: spec_fn(T) -> bool, i: int)
    requires
        is_first(s, p, i),
    ensures
        first_match(s, p) == Some(i),
{
    let k = choose|k: int| is_first(s, p, k);
    assert(is_first(s, p, k));
    if k < i {
        assert(!p(s[k]));
    } else if i < k {
        assert(!p(s[i]));
    }
}

/// Where no item satisfies `p` there is no first match.
pub proof fn lemma_no_match<T>(s: Seq<T>, p: spec_fn(T) -> bool)
    requires
        forall|i: int| 0 <= i < s.len() ==> !p(#[trigger] s[i]),
    ensures
        first_match(s, p) is None,
{
    if exists|i: int| is_first(s, p, i) {
        let k = choose|i: int| is_first(s, p, i);
        assert(!p(s[k]));
    }
}

/// Where some item satisfies `p` there is a first match.
pub proof fn lemma_match_exists<T>(s: Seq<T>, p: spec_fn(T) -> bool, at: int)
    requires
        0 <= at < s.len(),
        p(s[at]),
    ensures
        first_match(s, p) matches Some(i) && is_first(s, p, i) && i <= at,
    decreases at,
{
    if forall|j: int| 0 <= j < at ==> !p(#[trigger] s[j]) {
        lemma_first_match(s, p, at);
    } else {
        let j = choose|j: int| 0 <= j < at && p(#[trigger] s[j]);
        lemma_match_exists(s, p, j);
    }
}

/// A first match that is named satisfies `is_first`.
pub proof fn lemma_first_match_is_first<T>(s: Seq<T>, p: spec_fn(T) -> bool)
    ensures
        match first_match(s, p) {
            Some(i) => is_first(s, p, i),
            None => forall|i: int| 0 <= i < s.len() ==> !p(#[trigger] s[i]),
        },
{
    if first_match(s, p) is None {
        assert forall|i: int| 0 <= i < s.len() implies !p(#[trigger] s[i]) by {
            if p(s[i]) {
                lemma_match_exists(s, p, i);
            }
        }
    }
}

} // verus!
