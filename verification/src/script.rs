//! Edit distance as the cost of the cheapest edit script.
//!
//! An edit script walks through two sequences from their first elements to
//! their last and says, step by step, how the first becomes the second. The
//! lemmas here show that the recurrence that defines
//! [`distance`](crate::model::distance) counts the edits of the cheapest such
//! script.

use vstd::prelude::*;
use vstd::std_specs::cmp::PartialEqSpec;
use crate::model::{distance, lemma_distance_step};

verus! {

/// One step of an edit script.
pub enum Edit {
    /// The next element of the first sequence equals the next element of the
    /// second and is kept.
    Keep,
    /// The next element of the first sequence is replaced by the next element
    /// of the second.
    Substitute,
    /// The next element of the first sequence is dropped.
    Delete,
    /// The next element of the second sequence is put in.
    Insert,
}

/// The number of edits in `script`: every step but `Keep` is one.
pub open spec fn cost(script: Seq<Edit>) -> nat
    decreases script.len(),
{
    if script.len() == 0 {
        0
    } else if script.last() is Keep {
        cost(script.drop_last())
    } else {
        cost(script.drop_last()) + 1
    }
}

/// `script` turns `s1` into `s2`: its steps use up the elements of `s1` and of
/// `s2` in order, all of them, and it keeps an element only where the two
/// sequences have equal elements.
pub open spec fn rewrites<T: PartialEq>(script: Seq<Edit>, s1: Seq<T>, s2: Seq<T>) -> bool
    decreases script.len(),
{
    if script.len() == 0 {
        s1.len() == 0 && s2.len() == 0
    } else {
        match script.last() {
            Edit::Keep => {
                &&& s1.len() > 0
                &&& s2.len() > 0
                &&& s1.last().eq_spec(&s2.last())
                &&& rewrites(script.drop_last(), s1.drop_last(), s2.drop_last())
            },
            Edit::Substitute => {
                &&& s1.len() > 0
                &&& s2.len() > 0
                &&& rewrites(script.drop_last(), s1.drop_last(), s2.drop_last())
            },
            Edit::Delete => {
                &&& s1.len() > 0
                &&& rewrites(script.drop_last(), s1.drop_last(), s2)
            },
            Edit::Insert => {
                &&& s2.len() > 0
                &&& rewrites(script.drop_last(), s1, s2.drop_last())
            },
        }
    }
}

/// No script that turns `s1` into `s2` has fewer edits than the distance
/// between them.
pub proof fn lemma_no_script_is_cheaper<T: PartialEq>(script: Seq<Edit>, s1: Seq<T>, s2: Seq<T>)
    requires
        rewrites(script, s1, s2),
    ensures
        distance(s1, s2) <= cost(script),
    decreases script.len(),
{
    if script.len() > 0 {
        let rest = script.drop_last();
        match script.last() {
            Edit::Keep => {
                lemma_no_script_is_cheaper(rest, s1.drop_last(), s2.drop_last());
            },
            Edit::Substitute => {
                lemma_no_script_is_cheaper(rest, s1.drop_last(), s2.drop_last());
                lemma_distance_step(s1, s2);
            },
            Edit::Delete => {
                lemma_no_script_is_cheaper(rest, s1.drop_last(), s2);
                if s2.len() > 0 {
                    lemma_distance_step(s1, s2);
                }
            },
            Edit::Insert => {
                lemma_no_script_is_cheaper(rest, s1, s2.drop_last());
                if s1.len() > 0 {
                    lemma_distance_step(s1, s2);
                }
            },
        }
    }
}

/// Some script turns `s1` into `s2` with exactly as many edits as the distance
/// between them.
pub proof fn lemma_cheapest_script<T: PartialEq>(s1: Seq<T>, s2: Seq<T>) -> (script: Seq<Edit>)
    ensures
        rewrites(script, s1, s2),
        cost(script) == distance(s1, s2),
    decreases s1.len() + s2.len(),
{
    if s1.len() == 0 && s2.len() == 0 {
        Seq::empty()
    } else if s1.len() == 0 {
        let rest = lemma_cheapest_script(s1, s2.drop_last());
        let script = rest.push(Edit::Insert);
        assert(script.drop_last() == rest);
        script
    } else if s2.len() == 0 {
        let rest = lemma_cheapest_script(s1.drop_last(), s2);
        let script = rest.push(Edit::Delete);
        assert(script.drop_last() == rest);
        script
    } else if s1.last().eq_spec(&s2.last()) {
        let rest = lemma_cheapest_script(s1.drop_last(), s2.drop_last());
        let script = rest.push(Edit::Keep);
        assert(script.drop_last() == rest);
        script
    } else {
        let by_delete = distance(s1.drop_last(), s2);
        let by_insert = distance(s1, s2.drop_last());
        let by_substitute = distance(s1.drop_last(), s2.drop_last());
        if by_delete <= by_insert && by_delete <= by_substitute {
            let rest = lemma_cheapest_script(s1.drop_last(), s2);
            let script = rest.push(Edit::Delete);
            assert(script.drop_last() == rest);
            script
        } else if by_insert <= by_substitute {
            let rest = lemma_cheapest_script(s1, s2.drop_last());
            let script = rest.push(Edit::Insert);
            assert(script.drop_last() == rest);
            script
        } else {
            let rest = lemma_cheapest_script(s1.drop_last(), s2.drop_last());
            let script = rest.push(Edit::Substitute);
            assert(script.drop_last() == rest);
            script
        }
    }
}

/// `d` is the number of edits of the cheapest script that turns `s1` into
/// `s2`: some script does it with `d` edits, and none with fewer.
pub open spec fn is_least_cost<T: PartialEq>(d: nat, s1: Seq<T>, s2: Seq<T>) -> bool {
    &&& exists|script: Seq<Edit>| #[trigger] rewrites(script, s1, s2) && cost(script) == d
    &&& forall|script: Seq<Edit>| #[trigger] rewrites(script, s1, s2) ==> d <= cost(script)
}

/// The edit distance is the least number of insertions, deletions and
/// substitutions that turn `s1` into `s2`.
pub proof fn lemma_distance_is_least_cost<T: PartialEq>(s1: Seq<T>, s2: Seq<T>)
    ensures
        is_least_cost(distance(s1, s2), s1, s2),
{
    let cheapest = lemma_cheapest_script(s1, s2);
    assert(rewrites(cheapest, s1, s2));
    assert forall|script: Seq<Edit>| #[trigger] rewrites(script, s1, s2) implies distance(s1, s2)
        <= cost(script) by {
        lemma_no_script_is_cheaper(script, s1, s2);
    }
}

} // verus!
