//! Sums of a measure over a sequence, and how they react to the edits the
//! escrow registry performs: push, in-place update and removal.

use vstd::prelude::*;

verus! {

/// The sum of `f` over every element of `s`.
pub open spec fn sum_by<T>(s: Seq<T>, f: spec_fn(T) -> int) -> int
    decreases s.len(),
{
    if s.len() == 0 {
        0
    } else {
        sum_by(s.drop_last(), f) + f(s.last())
    }
}

/// Appending an element adds exactly its measure.
pub proof fn lemma_sum_by_push<T>(s: Seq<T>, f: spec_fn(T) -> int, x: T)
    ensures
        sum_by(s.push(x), f) == sum_by(s, f) + f(x),
{
    assert(s.push(x).drop_last() =~= s);
    assert(s.push(x).last() == x);
}

/// Replacing the element at `i` shifts the sum by the difference of the
/// measures.
pub proof fn lemma_sum_by_update<T>(s: Seq<T>, f: spec_fn(T) -> int, i: int, x: T)
    requires
        0 <= i < s.len(),
    ensures
        sum_by(s.update(i, x), f) == sum_by(s, f) - f(s[i]) + f(x),
    decreases s.len(),
{
    if i == s.len() - 1 {
        assert(s.update(i, x).drop_last() =~= s.drop_last());
        assert(s.update(i, x).last() == x);
    } else {
        assert(s.update(i, x).drop_last() =~= s.drop_last().update(i, x));
        assert(s.update(i, x).last() == s.last());
        lemma_sum_by_update(s.drop_last(), f, i, x);
    }
}

/// Removing the element at `i` subtracts exactly its measure.
pub proof fn lemma_sum_by_remove<T>(s: Seq<T>, f: spec_fn(T) -> int, i: int)
    requires
        0 <= i < s.len(),
    ensures
        sum_by(s.remove(i), f) == sum_by(s, f) - f(s[i]),
    decreases s.len(),
{
    if i == s.len() - 1 {
        assert(s.remove(i) =~= s.drop_last());
    } else {
        assert(s.remove(i).drop_last() =~= s.drop_last().remove(i));
        assert(s.remove(i).last() == s.last());
        lemma_sum_by_remove(s.drop_last(), f, i);
    }
}

/// A sum of a nonnegative measure is nonnegative.
pub proof fn lemma_sum_by_nonneg<T>(s: Seq<T>, f: spec_fn(T) -> int)
    requires
        forall|x: T| #[trigger] f(x) >= 0,
    ensures
        sum_by(s, f) >= 0,
    decreases s.len(),
{
    if s.len() > 0 {
        lemma_sum_by_nonneg(s.drop_last(), f);
    }
}

/// Under a nonnegative measure, every element's measure is bounded by the
/// sum.
pub proof fn lemma_sum_by_element_bound<T>(s: Seq<T>, f: spec_fn(T) -> int, i: int)
    requires
        forall|x: T| #[trigger] f(x) >= 0,
        0 <= i < s.len(),
    ensures
        f(s[i]) <= sum_by(s, f),
    decreases s.len(),
{
    if i == s.len() - 1 {
        lemma_sum_by_nonneg(s.drop_last(), f);
    } else {
        lemma_sum_by_element_bound(s.drop_last(), f, i);
        assert(s.drop_last()[i] == s[i]);
    }
}

/// A sum over elements that all measure zero is zero.
pub proof fn lemma_sum_by_zero<T>(s: Seq<T>, f: spec_fn(T) -> int)
    requires
        forall|i: int| 0 <= i < s.len() ==> f(#[trigger] s[i]) == 0,
    ensures
        sum_by(s, f) == 0,
    decreases s.len(),
{
    if s.len() > 0 {
        assert(forall|i: int| 0 <= i < s.drop_last().len() ==> f(#[trigger] s.drop_last()[i]) == 0);
        lemma_sum_by_zero(s.drop_last(), f);
        assert(f(s.last()) == 0);
    }
}

} // verus!
