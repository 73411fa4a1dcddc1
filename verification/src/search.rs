//! Searching a sequence from one of its ends.

use vstd::prelude::*;

verus! {

/// `i` is the first position of `s` at which `p` holds.
pub open spec fn is_first<T>(s: Seq<T>, p: spec_fn(T) -> bool, i: int) -> bool {
    &&& 0 <= i < s.len()
    &&& p(s[i])
    &&& forall|j: int| 0 <= j < i ==> !p(#[trigger] s[j])
}

/// The first position of `s` at which `p` holds.
pub open spec fn first_index<T>(s: Seq<T>, p: spec_fn(T) -> bool) -> Option<int> {
    if exists|i: int| is_first(s, p, i) {
        Some(choose|i: int| is_first(s, p, i))
    } else {
        None
    }
}

/// The first item of `s` for which `p` holds.
pub open spec fn first<T>(s: Seq<T>, p: spec_fn(T) -> bool) -> Option<T> {
    match first_index(s, p) {
        Some(i) => Some(s[i]),
        None => None,
    }
}

/// `i` is the last position of `s` at which `p` holds.
pub open spec fn is_last<T>(s: Seq<T>, p: spec_fn(T) -> bool, i: int) -> bool {
    &&& 0 <= i < s.len()
    &&& p(s[i])
    &&& forall|j: int| i < j < s.len() ==> !p(#[trigger] s[j])
}

/// The last position of `s` at which `p` holds.
pub open spec fn last_index<T>(s: Seq<T>, p: spec_fn(T) -> bool) -> Option<int> {
    if exists|i: int| is_last(s, p, i) {
        Some(choose|i: int| is_last(s, p, i))
    } else {
        None
    }
}

/// There is only one first position.
pub proof fn lemma_first<T>(s: Seq<T>, p: spec_fn(T) -> bool, i: int)
    requires
        is_first(s, p, i),
    ensures
        first_index(s, p) == Some(i),
        first(s, p) == Some(s[i]),
{
    let k = choose|k: int| is_first(s, p, k);
    assert(is_first(s, p, k));
    if k < i {
        assert(!p(s[k]));
    }
    if i < k {
        assert(!p(s[i]));
    }
}

/// Where `p` holds nowhere there is no first position.
pub proof fn lemma_no_first<T>(s: Seq<T>, p: spec_fn(T) -> bool)
    requires
        forall|j: int| 0 <= j < s.len() ==> !p(#[trigger] s[j]),
    ensures
        first_index(s, p) is None,
        first(s, p) is None,
{
}

/// Sequences on which `p` holds at the same positions have the same first position.
pub proof fn lemma_first_agrees<T>(s: Seq<T>, t: Seq<T>, p: spec_fn(T) -> bool)
    requires
        s.len() == t.len(),
        forall|j: int| 0 <= j < s.len() ==> p(#[trigger] s[j]) == p(t[j]),
    ensures
        first_index(s, p) == first_index(t, p),
{
    if exists|i: int| is_first(s, p, i) {
        let i = choose|i: int| is_first(s, p, i);
        assert(p(s[i]));
        assert forall|j: int| 0 <= j < i implies !p(#[trigger] t[j]) by {
            assert(!p(s[j]));
        }
        assert(is_first(t, p, i));
        lemma_first(s, p, i);
        lemma_first(t, p, i);
    } else if exists|i: int| is_first(t, p, i) {
        let i = choose|i: int| is_first(t, p, i);
        assert(p(s[i]) == p(t[i]));
        assert forall|j: int| 0 <= j < i implies !p(#[trigger] s[j]) by {
            assert(!p(t[j]));
        }
        assert(is_first(s, p, i));
    }
}

/// An item put at the end is the first one only where there was none.
pub proof fn lemma_first_push<T>(s: Seq<T>, item: T, p: spec_fn(T) -> bool)
    ensures
        first_index(s.push(item), p) == (match first_index(s, p) {
            Some(i) => Some(i),
            None => if p(item) {
                Some(s.len() as int)
            } else {
                None
            },
        }),
    decreases s.len(),
{
    let t = s.push(item);
    if exists|i: int| is_first(s, p, i) {
        let i = choose|i: int| is_first(s, p, i);
        assert forall|j: int| 0 <= j < i implies !p(#[trigger] t[j]) by {
            assert(!p(s[j]));
        }
        assert(is_first(t, p, i));
        lemma_first(s, p, i);
        lemma_first(t, p, i);
    } else {
        lemma_none_holds(s, p);
        if p(item) {
            assert(is_first(t, p, s.len() as int));
            lemma_first(t, p, s.len() as int);
        } else {
            lemma_no_first(t, p);
        }
    }
}

/// Where there is no first position, `p` holds nowhere.
pub proof fn lemma_none_holds<T>(s: Seq<T>, p: spec_fn(T) -> bool)
    requires
        first_index(s, p) is None,
    ensures
        forall|j: int| 0 <= j < s.len() ==> !p(#[trigger] s[j]),
{
    assert forall|j: int| 0 <= j < s.len() implies !p(#[trigger] s[j]) by {
        if p(s[j]) {
            lemma_some_first(s, p, j);
        }
    }
}

/// Where `p` holds somewhere there is a first position.
pub proof fn lemma_some_first<T>(s: Seq<T>, p: spec_fn(T) -> bool, j: int)
    requires
        0 <= j < s.len(),
        p(s[j]),
    ensures
        first_index(s, p) is Some,
    decreases j,
{
    if forall|k: int| 0 <= k < j ==> !p(#[trigger] s[k]) {
        assert(is_first(s, p, j));
    } else {
        let k = choose|k: int| 0 <= k < j && p(#[trigger] s[k]);
        lemma_some_first(s, p, k);
    }
}

/// There is only one last position.
pub proof fn lemma_last<T>(s: Seq<T>, p: spec_fn(T) -> bool, i: int)
    requires
        is_last(s, p, i),
    ensures
        last_index(s, p) == Some(i),
{
    let k = choose|k: int| is_last(s, p, k);
    assert(is_last(s, p, k));
    if k < i {
        assert(!p(s[i]));
    }
    if i < k {
        assert(!p(s[k]));
    }
}

} // verus!
