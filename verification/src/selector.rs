//! The threshold and the selector of cooperating parties.
//!
//! A selector has one entry for each party, in party order. Entry `i` is
//! `true` when party `i` contributes its partial decryption.

use crate::error::SchemeError;
use vstd::prelude::*;

verus! {

/// The threshold `t` of a run with `parties` parties. More than `t`
/// contributions are needed for a decryption.
pub open spec fn threshold_of(parties: nat) -> nat {
    parties / 2
}

/// The number of parties that a selector names.
pub open spec fn selected_count(selector: Seq<bool>) -> nat
    decreases selector.len(),
{
    if selector.len() == 0 {
        0
    } else {
        selected_count(selector.drop_last()) + if selector.last() {
            1nat
        } else {
            0nat
        }
    }
}

/// Whether a selector names enough parties for a run with as many parties as
/// it has entries.
pub open spec fn meets_threshold(selector: Seq<bool>) -> bool {
    selected_count(selector) >= threshold_of(selector.len()) + 1
}

/// The smallest cooperating subset that leaves out the reserved party 0: the
/// `t + 1` parties that follow it.
pub open spec fn leading_selector(parties: nat) -> Seq<bool> {
    Seq::new(parties, |i: int| 1 <= i <= threshold_of(parties) + 1)
}

/// A selector names no more parties than it has entries.
pub proof fn lemma_count_bounded(selector: Seq<bool>)
    ensures
        selected_count(selector) <= selector.len(),
    decreases selector.len(),
{
    if selector.len() > 0 {
        lemma_count_bounded(selector.drop_last());
    }
}

/// Taking a party out of a selector lowers the count by one if the party was
/// in it, and leaves it as it is otherwise.
pub proof fn lemma_count_exclude(selector: Seq<bool>, party: int)
    requires
        0 <= party < selector.len(),
    ensures
        selected_count(selector.update(party, false)) + if selector[party] {
            1nat
        } else {
            0nat
        } == selected_count(selector),
    decreases selector.len(),
{
    let last = selector.len() - 1;
    if party == last {
        assert(selector.update(party, false).drop_last() =~= selector.drop_last());
    } else {
        lemma_count_exclude(selector.drop_last(), party);
        assert(selector.update(party, false).drop_last() =~= selector.drop_last().update(
            party,
            false,
        ));
    }
}

/// Among the first `upto + 1` parties a selector names those that it names
/// among the first `upto`, and party `upto` if its entry is `true`. It names
/// no more parties among the first `upto` than it names in all.
pub proof fn lemma_count_take(selector: Seq<bool>, upto: int)
    requires
        0 <= upto <= selector.len(),
    ensures
        selected_count(selector.take(upto)) <= selected_count(selector),
        upto < selector.len() ==> selected_count(selector.take(upto + 1)) == selected_count(
            selector.take(upto),
        ) + if selector[upto] {
            1nat
        } else {
            0nat
        },
    decreases selector.len() - upto,
{
    if upto < selector.len() {
        assert(selector.take(upto + 1).drop_last() =~= selector.take(upto));
        lemma_count_take(selector, upto + 1);
    } else {
        assert(selector.take(upto) =~= selector);
    }
}

/// A selector whose entries from `from` on are all `false` names as many
/// parties as its first `from` entries do.
proof fn lemma_count_prefix(selector: Seq<bool>, from: int)
    requires
        0 <= from <= selector.len(),
        forall|i: int| from <= i < selector.len() ==> !selector[i],
    ensures
        selected_count(selector) == selected_count(selector.take(from)),
    decreases selector.len() - from,
{
    if from == selector.len() {
        assert(selector.take(from) =~= selector);
    } else {
        lemma_count_prefix(selector.drop_last(), from);
        assert(selector.drop_last().take(from) =~= selector.take(from));
    }
}

/// A selector whose entries are all `true` from `from` on, and `false`
/// before, names every party from `from` on.
proof fn lemma_count_suffix(selector: Seq<bool>, from: int)
    requires
        0 <= from <= selector.len(),
        forall|i: int| 0 <= i < from ==> !selector[i],
        forall|i: int| from <= i < selector.len() ==> selector[i],
    ensures
        selected_count(selector) == selector.len() - from,
    decreases selector.len(),
{
    if selector.len() > from {
        lemma_count_suffix(selector.drop_last(), from);
    } else if selector.len() > 0 {
        lemma_count_suffix(selector.drop_last(), from - 1);
    }
}

/// With three parties or more, the leading selector names exactly `t + 1`
/// parties, and the reserved party 0 is not among them.
pub proof fn lemma_leading_selector(parties: nat)
    requires
        parties >= 3,
    ensures
        leading_selector(parties).len() == parties,
        !leading_selector(parties)[0],
        selected_count(leading_selector(parties)) == threshold_of(parties) + 1,
        meets_threshold(leading_selector(parties)),
{
    let selector = leading_selector(parties);
    let end = threshold_of(parties) + 2;
    assert(end <= parties);
    lemma_count_prefix(selector, end as int);
    lemma_count_suffix(selector.take(end as int), 1);
}

/// Computes the threshold of a run with `parties` parties.
pub fn threshold(parties: usize) -> (t: usize)
    ensures
        t == threshold_of(parties as nat),
        t < usize::MAX,
{
    parties / 2
}

/// Counts the parties that a selector names.
pub fn count_selected(selector: &Vec<bool>) -> (count: usize)
    ensures
        count == selected_count(selector@),
{
    let mut count: usize = 0;
    let mut at: usize = 0;
    while at < selector.len()
        invariant
            at <= selector.len(),
            count <= at,
            count == selected_count(selector@.take(at as int)),
        decreases selector.len() - at,
    {
        proof {
            assert(selector@.take(at + 1).drop_last() =~= selector@.take(at as int));
        }
        if selector[at] {
            count = count + 1;
        }
        at = at + 1;
    }
    assert(selector@.take(at as int) =~= selector@);
    count
}

/// Decides whether shares may be combined under a selector: it has to name
/// more parties than the threshold of a run with as many parties as it has
/// entries. This is settled here, before any primitive is called.
pub fn check_threshold(selector: &Vec<bool>) -> (res: Result<(), SchemeError>)
    ensures
        meets_threshold(selector@) ==> res == Ok::<(), SchemeError>(()),
        !meets_threshold(selector@) ==> res == Err::<(), SchemeError>(
            SchemeError::InsufficientShares,
        ),
{
    if count_selected(selector) > threshold(selector.len()) {
        Ok(())
    } else {
        Err(SchemeError::InsufficientShares)
    }
}

/// Builds the leading selector for `parties` parties.
pub fn leading(parties: usize) -> (selector: Vec<bool>)
    ensures
        selector@ == leading_selector(parties as nat),
{
    let last: usize = threshold(parties) + 1;
    let mut selector: Vec<bool> = Vec::new();
    let mut at: usize = 0;
    while at < parties
        invariant
            at <= parties,
            last == threshold_of(parties as nat) + 1,
            selector@.len() == at,
            forall|i: int| 0 <= i < at ==> selector@[i] == (1 <= i <= last),
        decreases parties - at,
    {
        selector.push(1 <= at && at <= last);
        at = at + 1;
    }
    assert(selector@ =~= leading_selector(parties as nat));
    selector
}

} // verus!
