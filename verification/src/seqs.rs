//! Two notions on sequences that the directory is stated with: the first
//! item that satisfies a predicate, and where the items of a filtered
//! sequence come from.

use vstd::prelude::*;

verus! {

/// `i` is the first position of `s` whose item satisfies `p`.
pub open spec fn is_first<T>(s: Seq<T>, p: spec_fn(T) -> bool, i: int) -> bool {
    &&& 0 <= i < s.len()
    &&& p(s[i])
    &&& forall|j: int| 0 <= j < i ==> !p(#[trigger] s[j])
}

/// The first position of `s` whose item satisfies `p`, if there is one.
pub open spec fn first_index<T>(s: Seq<T>, p: spec_fn(T) -> bool) -> Option<int> {
    if exists|i: int| is_first(s, p, i) {
        Some(choose|i: int| is_first(s, p, i))
    } else {
        None
    }
}

/// A first position is the only one.
pub proof fn lemma_first_index_found<T>(s: Seq<T>, p: spec_fn(T) -> bool, i: int)
    requires
        is_first(s, p, i),
    ensures
        first_index(s, p) == Some(i),
{
    let k = choose|k: int| is_first(s, p, k);
    assert(is_first(s, p, k));
    if k < i {
        assert(!p(s[k]));
    } else if i < k {
        assert(!p(s[i]));
    }
}

/// Where no item satisfies `p`, there is no first position.
pub proof fn lemma_first_index_absent<T>(s: Seq<T>, p: spec_fn(T) -> bool)
    requires
        forall|j: int| 0 <= j < s.len() ==> !p(#[trigger] s[j]),
    ensures
        first_index(s, p) is None,
{
    if exists|i: int| is_first(s, p, i) {
        let k = choose|k: int| is_first(s, p, k);
        assert(!p(s[k]));
    }
}

/// What `first_index` says when it answers.
pub proof fn lemma_first_index_facts<T>(s: Seq<T>, p: spec_fn(T) -> bool)
    ensures
        match first_index(s, p) {
            Some(i) => is_first(s, p, i),
            None => forall|j: int| 0 <= j < s.len() ==> !p(#[trigger] s[j]),
        },
{
    if exists|i: int| is_first(s, p, i) {
    } else {
        assert forall|j: int| 0 <= j < s.len() implies !p(#[trigger] s[j]) by {
            if p(s[j]) {
                lemma_some_first(s, p, j);
            }
        }
    }
}

/// Where some item up to `j` satisfies `p`, a first one exists.
proof fn lemma_some_first<T>(s: Seq<T>, p: spec_fn(T) -> bool, j: int)
    requires
        0 <= j < s.len(),
        p(s[j]),
    ensures
        exists|i: int| is_first(s, p, i),
    decreases j,
{
    if exists|k: int| 0 <= k < j && p(#[trigger] s[k]) {
        let k = choose|k: int| 0 <= k < j && p(#[trigger] s[k]);
        lemma_some_first(s, p, k);
    } else {
        assert(is_first(s, p, j));
    }
}

/// The positions in `s` that the items of `s.filter(p)` come from: one for
/// each item, rising, each holding that item.
pub proof fn filter_sources<T>(s: Seq<T>, p: spec_fn(T) -> bool) -> (src: Seq<int>)
    ensures
        src.len() == s.filter(p).len(),
        forall|k: int|
            0 <= k < src.len() ==> 0 <= #[trigger] src[k] < s.len() && s[src[k]] == s.filter(p)[k]
                && p(s[src[k]]),
        forall|k: int, l: int| 0 <= k < l < src.len() ==> #[trigger] src[k] < #[trigger] src[l],
    decreases s.len(),
{
    reveal(Seq::filter);
    if s.len() == 0 {
        Seq::empty()
    } else {
        let rest = filter_sources(s.drop_last(), p);
        if p(s.last()) {
            rest.push(s.len() - 1)
        } else {
            rest
        }
    }
}

} // verus!
