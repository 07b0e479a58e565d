//! The mathematical definition of edit distance that every contract in this
//! crate refers to.

use vstd::prelude::*;
use vstd::std_specs::cmp::PartialEqSpec;

verus! {

/// The smallest of three numbers.
pub open spec fn min3(a: nat, b: nat, c: nat) -> nat {
    if a <= b && a <= c {
        a
    } else if b <= c {
        b
    } else {
        c
    }
}

/// The edit distance between `s1` and `s2`: the least number of single-element
/// insertions, deletions and substitutions that turn one into the other, where
/// two elements count as the same when `eq_spec` relates them.
///
/// It is defined by the usual recurrence on the last elements:
/// an empty sequence is as far from the other as the other is long; equal
/// last elements cost nothing and are dropped together; unequal last
/// elements cost one edit on top of the cheapest of the three shorter problems.
/// That this counts the edits of the cheapest edit script is shown in
/// [`lemma_distance_is_least_cost`](crate::script::lemma_distance_is_least_cost).
pub open spec fn distance<T: PartialEq>(s1: Seq<T>, s2: Seq<T>) -> nat
    decreases s1.len() + s2.len(),
{
    if s1.len() == 0 {
        s2.len()
    } else if s2.len() == 0 {
        s1.len()
    } else if s1.last().eq_spec(&s2.last()) {
        distance(s1.drop_last(), s2.drop_last())
    } else {
        1 + min3(
            distance(s1.drop_last(), s2),
            distance(s1, s2.drop_last()),
            distance(s1.drop_last(), s2.drop_last()),
        )
    }
}

/// Dropping the last element of either sequence moves the distance by at most
/// one, in either direction.
pub proof fn lemma_distance_drop_last<T: PartialEq>(s1: Seq<T>, s2: Seq<T>)
    ensures
        s1.len() > 0 ==> distance(s1, s2) <= distance(s1.drop_last(), s2) + 1,
        s1.len() > 0 ==> distance(s1.drop_last(), s2) <= distance(s1, s2) + 1,
        s2.len() > 0 ==> distance(s1, s2) <= distance(s1, s2.drop_last()) + 1,
        s2.len() > 0 ==> distance(s1, s2.drop_last()) <= distance(s1, s2) + 1,
    decreases s1.len() + s2.len(),
{
    if s1.len() > 0 {
        lemma_distance_drop_last(s1.drop_last(), s2);
    }
    if s2.len() > 0 {
        lemma_distance_drop_last(s1, s2.drop_last());
    }
}

/// What the last pair of elements costs: nothing when they are equal, one
/// substitution when they are not.
pub open spec fn last_cost<T: PartialEq>(s1: Seq<T>, s2: Seq<T>) -> nat {
    if s1.last().eq_spec(&s2.last()) {
        0
    } else {
        1
    }
}

/// The distance between two non-empty sequences is the cheapest of: delete the
/// last element of `s1`, insert the last element of `s2`, or pair the two last
/// elements up. This is the form in which a table of distances is filled.
pub proof fn lemma_distance_step<T: PartialEq>(s1: Seq<T>, s2: Seq<T>)
    requires
        s1.len() > 0,
        s2.len() > 0,
    ensures
        distance(s1, s2) == min3(
            distance(s1.drop_last(), s2) + 1,
            distance(s1, s2.drop_last()) + 1,
            distance(s1.drop_last(), s2.drop_last()) + last_cost(s1, s2),
        ),
{
    lemma_distance_drop_last(s1.drop_last(), s2);
    lemma_distance_drop_last(s1, s2.drop_last());
}

/// The distance is at least the difference of the two lengths and at most the
/// greater of them.
pub proof fn lemma_distance_bounds<T: PartialEq>(s1: Seq<T>, s2: Seq<T>)
    ensures
        distance(s1, s2) >= s1.len() - s2.len(),
        distance(s1, s2) >= s2.len() - s1.len(),
        distance(s1, s2) <= s1.len() || distance(s1, s2) <= s2.len(),
    decreases s1.len() + s2.len(),
{
    if s1.len() > 0 && s2.len() > 0 {
        lemma_distance_bounds(s1.drop_last(), s2);
        lemma_distance_bounds(s1, s2.drop_last());
        lemma_distance_bounds(s1.drop_last(), s2.drop_last());
    }
}

/// Element by element, `s1` and `s2` hold equal values.
pub open spec fn pointwise_equal<T: PartialEq>(s1: Seq<T>, s2: Seq<T>) -> bool {
    &&& s1.len() == s2.len()
    &&& forall|i: int| 0 <= i < s1.len() ==> (#[trigger] s1[i]).eq_spec(&s2[i])
}

/// Every value of `T` equals itself.
pub open spec fn eq_is_reflexive<T: PartialEq>() -> bool {
    forall|x: T| #[trigger] x.eq_spec(&x)
}

/// Equality on `T` does not depend on the order of its operands.
pub open spec fn eq_is_symmetric<T: PartialEq>() -> bool {
    forall|x: T, y: T| #[trigger] x.eq_spec(&y) ==> y.eq_spec(&x)
}

/// Two values of `T` that both equal a third equal each other.
pub open spec fn eq_is_transitive<T: PartialEq>() -> bool {
    forall|x: T, y: T, z: T| #[trigger] x.eq_spec(&y) && #[trigger] y.eq_spec(&z) ==> x.eq_spec(&z)
}

/// An empty sequence is as far from `s` as `s` is long, on either side.
pub proof fn lemma_distance_empty<T: PartialEq>(s: Seq<T>)
    ensures
        distance(Seq::<T>::empty(), s) == s.len(),
        distance(s, Seq::<T>::empty()) == s.len(),
{
}

/// Sequences that are equal element by element are at distance zero.
pub proof fn lemma_distance_pointwise_equal<T: PartialEq>(s1: Seq<T>, s2: Seq<T>)
    requires
        pointwise_equal(s1, s2),
    ensures
        distance(s1, s2) == 0,
    decreases s1.len(),
{
    if s1.len() > 0 {
        assert(s1.last().eq_spec(&s2.last()));
        lemma_distance_pointwise_equal(s1.drop_last(), s2.drop_last());
    }
}

/// One more element at the end of one of two sequences that are equal element
/// by element puts them at distance one.
pub proof fn lemma_distance_one_extra<T: PartialEq>(s1: Seq<T>, s2: Seq<T>, extra: T)
    requires
        pointwise_equal(s1, s2),
    ensures
        distance(s1.push(extra), s2) == 1,
        distance(s1, s2.push(extra)) == 1,
{
    lemma_distance_pointwise_equal(s1, s2);
    assert(s1.push(extra).drop_last() == s1);
    assert(s2.push(extra).drop_last() == s2);
    lemma_distance_drop_last(s1.push(extra), s2);
    lemma_distance_drop_last(s1, s2.push(extra));
    lemma_distance_bounds(s1.push(extra), s2);
    lemma_distance_bounds(s1, s2.push(extra));
}

/// Identity: a sequence is at distance zero from itself.
pub proof fn lemma_distance_identity<T: PartialEq>(s: Seq<T>)
    requires
        eq_is_reflexive::<T>(),
    ensures
        distance(s, s) == 0,
{
    lemma_distance_pointwise_equal(s, s);
}

/// Symmetry: the distance does not depend on the order of the two sequences.
pub proof fn lemma_distance_symmetric<T: PartialEq>(s1: Seq<T>, s2: Seq<T>)
    requires
        eq_is_symmetric::<T>(),
    ensures
        distance(s1, s2) == distance(s2, s1),
    decreases s1.len() + s2.len(),
{
    if s1.len() > 0 && s2.len() > 0 {
        lemma_distance_symmetric(s1.drop_last(), s2);
        lemma_distance_symmetric(s1, s2.drop_last());
        lemma_distance_symmetric(s1.drop_last(), s2.drop_last());
    }
}

/// Triangle inequality: going from `s1` to `s3` directly never costs more than
/// going by way of `s2`.
pub proof fn lemma_distance_triangle<T: PartialEq>(s1: Seq<T>, s2: Seq<T>, s3: Seq<T>)
    requires
        eq_is_transitive::<T>(),
    ensures
        distance(s1, s3) <= distance(s1, s2) + distance(s2, s3),
    decreases s1.len() + s2.len() + s3.len(),
{
    lemma_distance_bounds(s1, s2);
    lemma_distance_bounds(s2, s3);
    lemma_distance_bounds(s1, s3);
    if s1.len() > 0 && s2.len() > 0 && s3.len() > 0 {
        lemma_distance_step(s1, s2);
        lemma_distance_step(s2, s3);
        lemma_distance_step(s1, s3);
        lemma_distance_triangle(s1.drop_last(), s2, s3);
        lemma_distance_triangle(s1, s2, s3.drop_last());
        lemma_distance_triangle(s1, s2.drop_last(), s3);
        lemma_distance_triangle(s1, s2.drop_last(), s3.drop_last());
        lemma_distance_triangle(s1.drop_last(), s2.drop_last(), s3);
        lemma_distance_triangle(s1.drop_last(), s2.drop_last(), s3.drop_last());
    }
}

} // verus!
