//! What holds of a run whatever the driver reports.

use crate::engine::{collected, slots_agree, Action, Event, Goal, Phase, RunView};
use crate::error::SchemeError;
use crate::keys::{in_party_order, settled_key, SecretKey, DUMMY_PARTY};
use crate::selector::{
    lemma_count_bounded, lemma_count_exclude, meets_threshold, selected_count,
};
use crate::shares::identity_encoding;
use vstd::prelude::*;

verus! {

/// Filling the share slots keeps what was there, takes parties out of the
/// selector but never puts one in, and ends in one of three ways: a party is
/// to be asked, and its key is live; or all slots are filled and the selector
/// still names more parties than the threshold; or it does not, and the run
/// has failed for want of shares.
pub proof fn lemma_collected(selector: Seq<bool>, keys: Seq<SecretKey>, shares: Seq<Seq<u8>>)
    requires
        keys.len() == selector.len(),
        shares.len() <= selector.len(),
        slots_agree(selector, keys, shares),
    ensures
        ({
            let (after, slots, phase) = collected(selector, keys, shares);
            &&& after.len() == selector.len()
            &&& shares.len() <= slots.len() <= selector.len()
            &&& forall|i: int| 0 <= i < shares.len() ==> slots[i] == shares[i]
            &&& forall|i: int| 0 <= i < after.len() && #[trigger] after[i] ==> selector[i]
            &&& selected_count(after) <= selected_count(selector)
            &&& slots_agree(after, keys, slots)
            &&& match phase {
                Phase::PartialDecryption => {
                    &&& slots.len() < after.len()
                    &&& after[slots.len() as int]
                    &&& !keys[slots.len() as int].nullified
                },
                Phase::Combination => slots.len() == after.len() && meets_threshold(after),
                Phase::Failed(reason) => {
                    &&& reason == SchemeError::InsufficientShares
                    &&& slots.len() == after.len()
                    &&& !meets_threshold(after)
                },
                _ => false,
            }
        }),
    decreases selector.len() - shares.len(),
{
    let at = shares.len() as int;
    if at < selector.len() && !(selector[at] && !keys[at].nullified) {
        let shrunk = selector.update(at, false);
        let grown = shares.push(identity_encoding());
        lemma_count_exclude(selector, at);
        assert(slots_agree(shrunk, keys, grown)) by {
            assert forall|i: int| 0 <= i < grown.len() implies {
                &&& (#[trigger] shrunk[i]) ==> !keys[i].nullified
                &&& !shrunk[i] ==> grown[i] == identity_encoding()
            } by {
                if i < at {
                    assert(selector[i] == shrunk[i]);
                }
            }
        }
        lemma_collected(shrunk, keys, grown);
        let (after, slots, phase) = collected(shrunk, keys, grown);
        assert forall|i: int| 0 <= i < after.len() && #[trigger] after[i] implies selector[i] by {
            assert(shrunk[i]);
        }
    }
}

/// A run starts in a state that a run can be in.
pub proof fn lemma_start_is_wf(state: RunView, goal: Goal, block: Seq<u8>, selector: Seq<bool>)
    requires
        state.starts(goal, block, selector),
        selector.len() <= usize::MAX,
    ensures
        state.wf(),
{
}

/// Every step leads from a state that a run can be in to another such state.
pub proof fn lemma_next_preserves_wf(state: RunView, event: Event)
    requires
        state.wf(),
    ensures
        state.next(event).wf(),
{
    let n = state.parties();
    match state.phase {
        Phase::KeyGeneration => {
            if event is PartyGenerated {
                let index = state.keys.len() as int;
                let after = state.next(event);
                assert(in_party_order(after.public_keys)) by {
                    assert forall|i: int| 0 <= i < after.public_keys.len() implies (
                    #[trigger] after.public_keys[i]).party == i by {
                        if i < index {
                            assert(after.public_keys[i] == state.public_keys[i]);
                        }
                    }
                }
            }
        },
        Phase::Encryption => {
            if event is Encrypted && state.goal == Goal::Decrypt {
                lemma_collected(state.selector, state.keys, state.shares);
            }
        },
        Phase::PartialDecryption => {
            let at = state.shares.len() as int;
            match event {
                Event::Share(share) => {
                    let grown = state.shares.push(share@);
                    assert(slots_agree(state.selector, state.keys, grown));
                    lemma_collected(state.selector, state.keys, grown);
                },
                Event::ShareRefused => {
                    let shrunk = state.selector.update(at, false);
                    let grown = state.shares.push(identity_encoding());
                    assert(slots_agree(shrunk, state.keys, grown)) by {
                        assert forall|i: int| 0 <= i < grown.len() implies {
                            &&& (#[trigger] shrunk[i]) ==> !state.keys[i].nullified
                            &&& !shrunk[i] ==> grown[i] == identity_encoding()
                        } by {
                            if i < at {
                                assert(state.selector[i] == shrunk[i]);
                            }
                        }
                    }
                    lemma_collected(shrunk, state.keys, grown);
                },
                _ => {},
            }
        },
        _ => {},
    }
}

/// No step changes what the run was asked for: the goal, the message and the
/// number of parties stay. The selector only loses parties.
pub proof fn lemma_next_keeps_request(state: RunView, event: Event)
    requires
        state.wf(),
    ensures
        state.next(event).goal == state.goal,
        state.next(event).message == state.message,
        state.next(event).selector.len() == state.selector.len(),
        selected_count(state.next(event).selector) <= selected_count(state.selector),
        forall|i: int|
            0 <= i < state.selector.len() && #[trigger] state.next(event).selector[i]
                ==> state.selector[i],
{
    lemma_next_preserves_wf(state, event);
    match state.phase {
        Phase::Encryption => {
            if event is Encrypted && state.goal == Goal::Decrypt {
                lemma_collected(state.selector, state.keys, state.shares);
            }
        },
        Phase::PartialDecryption => {
            let at = state.shares.len() as int;
            match event {
                Event::Share(share) => {
                    let grown = state.shares.push(share@);
                    assert(slots_agree(state.selector, state.keys, grown));
                    lemma_collected(state.selector, state.keys, grown);
                },
                Event::ShareRefused => {
                    let shrunk = state.selector.update(at, false);
                    let grown = state.shares.push(identity_encoding());
                    lemma_count_exclude(state.selector, at);
                    assert(slots_agree(shrunk, state.keys, grown)) by {
                        assert forall|i: int| 0 <= i < grown.len() implies {
                            &&& (#[trigger] shrunk[i]) ==> !state.keys[i].nullified
                            &&& !shrunk[i] ==> grown[i] == identity_encoding()
                        } by {
                            if i < at {
                                assert(state.selector[i] == shrunk[i]);
                            }
                        }
                    }
                    lemma_collected(shrunk, state.keys, grown);
                    let after = state.next(event).selector;
                    assert forall|i: int|
                        0 <= i < state.selector.len() && #[trigger] after[i] implies state.selector[i] by {
                        assert(shrunk[i]);
                    }
                },
                _ => {},
            }
        },
        _ => {},
    }
}

/// Whatever the driver reports, and in whatever order, the run stays in a
/// state that a run can be in, and what it was asked for stays.
pub proof fn lemma_after_preserves_wf(state: RunView, events: Seq<Event>)
    requires
        state.wf(),
    ensures
        state.after(events).wf(),
        state.after(events).goal == state.goal,
        state.after(events).message == state.message,
        state.after(events).selector.len() == state.selector.len(),
        selected_count(state.after(events).selector) <= selected_count(state.selector),
        forall|i: int|
            0 <= i < state.selector.len() && #[trigger] state.after(events).selector[i]
                ==> state.selector[i],
    decreases events.len(),
{
    if events.len() > 0 {
        let before = state.after(events.drop_last());
        lemma_after_preserves_wf(state, events.drop_last());
        lemma_next_preserves_wf(before, events.last());
        lemma_next_keeps_request(before, events.last());
        let last = state.after(events).selector;
        assert forall|i: int| 0 <= i < state.selector.len() && #[trigger] last[i] implies state.selector[i] by {
            assert(before.selector[i]);
        }
    }
}

/// A run whose selector names no more parties than the threshold never gets
/// to combine, whatever the driver reports.
pub proof fn lemma_too_few_never_combine(state: RunView, events: Seq<Event>)
    requires
        state.wf(),
        !meets_threshold(state.selector),
    ensures
        state.after(events).phase != Phase::Combination,
        state.after(events).pending() != Ok::<Action, SchemeError>(Action::Combine),
{
    lemma_after_preserves_wf(state, events);
}

/// The reserved party never contributes, whether the selector names it or
/// not: it is never asked for a share, and by the time the shares are
/// combined it is out of the selector and the placeholder stands in its
/// slot.
pub proof fn lemma_dummy_never_contributes(state: RunView, events: Seq<Event>)
    requires
        state.wf(),
    ensures
        state.after(events).pending() != Ok::<Action, SchemeError>(
            Action::PartialDecrypt { index: DUMMY_PARTY },
        ),
        state.after(events).phase == Phase::Combination ==> {
            &&& !state.after(events).selector[DUMMY_PARTY as int]
            &&& state.after(events).shares[DUMMY_PARTY as int] == identity_encoding()
        },
{
    lemma_after_preserves_wf(state, events);
    let end = state.after(events);
    if end.phase == Phase::PartialDecryption {
        assert(end.keys[end.shares.len() as int] == settled_key(end.shares.len() as int));
    }
    if end.phase == Phase::Combination {
        lemma_count_bounded(end.selector);
        assert(end.keys[0] == settled_key(0));
        assert(end.selector[0] ==> !end.keys[0].nullified);
    }
}

/// Shares are combined only when more parties than the threshold are left in
/// the selector, every party in it holds a live key, and the placeholder
/// stands in the slot of every party that is not in it.
pub proof fn lemma_combination_is_sound(state: RunView, events: Seq<Event>)
    requires
        state.wf(),
    ensures
        state.after(events).phase == Phase::Combination ==> {
            let end = state.after(events);
            &&& end.shares.len() == end.parties()
            &&& meets_threshold(end.selector)
            &&& forall|i: int|
                0 <= i < end.parties() ==> {
                    &&& (#[trigger] end.selector[i]) ==> state.selector[i] && i != DUMMY_PARTY
                    &&& !end.selector[i] ==> end.shares[i] == identity_encoding()
                }
        },
{
    lemma_after_preserves_wf(state, events);
    let end = state.after(events);
    if end.phase == Phase::Combination {
        assert forall|i: int| 0 <= i < end.parties() implies {
            &&& (#[trigger] end.selector[i]) ==> state.selector[i] && i != DUMMY_PARTY
            &&& !end.selector[i] ==> end.shares[i] == identity_encoding()
        } by {
            assert(end.keys[i] == settled_key(i));
        }
    }
}

} // verus!
