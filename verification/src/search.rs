//! Finding the first place in a sequence where something holds.

use vstd::prelude::*;

verus! {

/// The first place in `flags` that holds `true`, if any does.
pub open spec fn first_true(flags: Seq<bool>) -> Option<int>
    decreases flags.len(),
{
    if flags.len() == 0 {
        None
    } else {
        match first_true(flags.drop_last()) {
            Some(i) => Some(i),
            None => if flags.last() {
                Some(flags.len() - 1)
            } else {
                None
            },
        }
    }
}

/// What `first_true` finds: a place that holds `true` with none before it
/// that does, or nothing where no place holds `true`.
pub proof fn lemma_first_true(flags: Seq<bool>)
    ensures
        match first_true(flags) {
            Some(i) => 0 <= i < flags.len() && flags[i] && forall|j: int| 0 <= j < i ==> !flags[j],
            None => forall|j: int| 0 <= j < flags.len() ==> !flags[j],
        },
    decreases flags.len(),
{
    if flags.len() > 0 {
        let front = flags.drop_last();
        lemma_first_true(front);
        assert forall|j: int| 0 <= j < front.len() implies front[j] == flags[j] by {}
    }
}

/// A place that holds `true`, with none before it that does, is the one
/// that `first_true` finds.
pub proof fn lemma_first_true_is(flags: Seq<bool>, i: int)
    requires
        0 <= i < flags.len(),
        flags[i],
        forall|j: int| 0 <= j < i ==> !flags[j],
    ensures
        first_true(flags) == Some(i),
{
    lemma_first_true(flags);
}

/// Where no place holds `true`, `first_true` finds nothing.
pub proof fn lemma_first_true_none(flags: Seq<bool>)
    requires
        forall|j: int| 0 <= j < flags.len() ==> !flags[j],
    ensures
        first_true(flags) is None,
{
    lemma_first_true(flags);
}

} // verus!
