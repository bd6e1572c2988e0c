//! Stable sorting by insertion, as a mathematical function, and what holds
//! of it.

use vstd::prelude::*;

verus! {

/// Where `x` goes in `s`: the index of the first element that `x` goes
/// before; the length of `s` where there is none.
pub open spec fn insertion_point<T>(s: Seq<T>, x: T, before: spec_fn(T, T) -> bool) -> int
    decreases s.len(),
{
    if s.len() == 0 {
        0
    } else if before(x, s[0]) {
        0
    } else {
        1 + insertion_point(s.drop_first(), x, before)
    }
}

/// `s` with `x` put in at its insertion point.
pub open spec fn insert_sorted<T>(s: Seq<T>, x: T, before: spec_fn(T, T) -> bool) -> Seq<T> {
    s.insert(insertion_point(s, x, before), x)
}

/// The elements of `s` in order: each one put into the sorted elements
/// that came before it, behind those it does not go before. Elements of
/// which neither goes before the other keep the order they had in `s`.
pub open spec fn stable_sort<T>(s: Seq<T>, before: spec_fn(T, T) -> bool) -> Seq<T>
    decreases s.len(),
{
    if s.len() == 0 {
        Seq::empty()
    } else {
        insert_sorted(stable_sort(s.drop_last(), before), s.last(), before)
    }
}

/// No element goes before itself, and going before is transitive.
pub open spec fn strict_order<T>(before: spec_fn(T, T) -> bool) -> bool {
    &&& forall|a: T| !#[trigger] before(a, a)
    &&& forall|a: T, b: T, c: T| #[trigger] before(a, b) && #[trigger] before(b, c) ==> before(a, c)
}

/// No element of `s` goes before one that stands earlier.
pub open spec fn ordered<T>(s: Seq<T>, before: spec_fn(T, T) -> bool) -> bool {
    forall|i: int, j: int| 0 <= i < j < s.len() ==> !before(#[trigger] s[j], #[trigger] s[i])
}

/// The insertion point lies in `s` or at its end; `x` goes before none of
/// the elements ahead of it, and before the element at it.
pub proof fn lemma_insertion_point<T>(s: Seq<T>, x: T, before: spec_fn(T, T) -> bool)
    ensures
        0 <= insertion_point(s, x, before) <= s.len(),
        forall|j: int| 0 <= j < insertion_point(s, x, before) ==> !before(x, #[trigger] s[j]),
        insertion_point(s, x, before) < s.len() ==> before(x, s[insertion_point(s, x, before)]),
    decreases s.len(),
{
    if s.len() > 0 && !before(x, s[0]) {
        let t = s.drop_first();
        lemma_insertion_point(t, x, before);
        let p = insertion_point(s, x, before);
        assert forall|j: int| 0 <= j < p implies !before(x, #[trigger] s[j]) by {
            if j > 0 {
                assert(s[j] == t[j - 1]);
            }
        }
        if p < s.len() {
            assert(s[p] == t[p - 1]);
        }
    }
}

/// Putting an element into an ordered sequence leaves it ordered.
pub proof fn lemma_insert_sorted_ordered<T>(s: Seq<T>, x: T, before: spec_fn(T, T) -> bool)
    requires
        strict_order(before),
        ordered(s, before),
    ensures
        ordered(insert_sorted(s, x, before), before),
{
    lemma_insertion_point(s, x, before);
    let p = insertion_point(s, x, before);
    let out = insert_sorted(s, x, before);
    assert forall|i: int, j: int| 0 <= i < j < out.len() implies !before(
        #[trigger] out[j],
        #[trigger] out[i],
    ) by {
        if j == p {
            assert(out[j] == x);
            assert(out[i] == s[i]);
        } else if i == p {
            assert(out[i] == x);
            assert(out[j] == s[j - 1]);
            assert(before(x, s[p]));
            if before(s[j - 1], x) {
                assert(before(s[j - 1], s[p]));
                if j - 1 > p {
                    assert(!before(s[j - 1], s[p]));
                } else {
                    assert(!before(s[p], s[p]));
                }
            }
        } else {
            let a = if i < p { i } else { i - 1 };
            let b = if j < p { j } else { j - 1 };
            assert(out[i] == s[a]);
            assert(out[j] == s[b]);
            assert(a < b);
        }
    }
}

/// A sorted sequence is ordered.
pub proof fn lemma_stable_sort_ordered<T>(s: Seq<T>, before: spec_fn(T, T) -> bool)
    requires
        strict_order(before),
    ensures
        ordered(stable_sort(s, before), before),
    decreases s.len(),
{
    if s.len() > 0 {
        lemma_stable_sort_ordered(s.drop_last(), before);
        lemma_insert_sorted_ordered(stable_sort(s.drop_last(), before), s.last(), before);
    }
}

/// Sorting keeps the elements: each as often as before.
pub proof fn lemma_stable_sort_permutes<T>(s: Seq<T>, before: spec_fn(T, T) -> bool)
    ensures
        stable_sort(s, before).len() == s.len(),
        stable_sort(s, before).to_multiset() == s.to_multiset(),
    decreases s.len(),
{
    broadcast use vstd::seq_lib::to_multiset_build, vstd::seq_lib::to_multiset_insert;

    if s.len() > 0 {
        let init = s.drop_last();
        lemma_stable_sort_permutes(init, before);
        let sorted = stable_sort(init, before);
        lemma_insertion_point(sorted, s.last(), before);
        assert(s =~= init.push(s.last()));
        assert(sorted.insert(insertion_point(sorted, s.last(), before), s.last()).to_multiset()
            == sorted.to_multiset().insert(s.last()));
        assert(init.push(s.last()).to_multiset() == init.to_multiset().insert(s.last()));
    } else {
        assert(stable_sort(s, before) =~= s);
    }
}

/// The insertion point of `x` in `s`, found by going along `s`: ahead of
/// `k` there is no element that `x` goes before.
pub proof fn lemma_insertion_point_step<T>(
    s: Seq<T>,
    x: T,
    before: spec_fn(T, T) -> bool,
    k: int,
)
    requires
        0 <= k < s.len(),
        !before(x, s[k]),
    ensures
        insertion_point(s.skip(k), x, before) == 1 + insertion_point(s.skip(k + 1), x, before),
{
    assert(s.skip(k).drop_first() =~= s.skip(k + 1));
}

} // verus!
