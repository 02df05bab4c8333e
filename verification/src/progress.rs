//! How far a run gets when nothing goes wrong on the driver's side.

use crate::engine::{collected, settled_keys, slots_agree, Event, Goal, Phase, RunView};
use crate::error::SchemeError;
use crate::invariants::lemma_next_preserves_wf;
use crate::keys::{settled_key, SecretKey, DUMMY_PARTY};
use crate::selector::{
    lemma_count_bounded, lemma_count_take, lemma_leading_selector, leading_selector,
    meets_threshold, selected_count, threshold_of,
};
use crate::shares::identity_encoding;
use vstd::prelude::*;

verus! {

/// The report of a driver that succeeds in the pending step. Where the step
/// asks a party for its share, `shares` says what that party sends.
pub open spec fn faultless(state: RunView, shares: spec_fn(int) -> [u8; 96]) -> Event {
    match state.phase {
        Phase::Setup => Event::SetupDone,
        Phase::KeyGeneration => Event::PartyGenerated,
        Phase::Aggregation => Event::AggregateBuilt,
        Phase::Encryption => Event::Encrypted,
        Phase::PartialDecryption => Event::Share(shares(state.shares.len() as int)),
        _ => Event::Combined,
    }
}

/// The state after `steps` steps in each of which the driver succeeds.
pub open spec fn driven(state: RunView, shares: spec_fn(int) -> [u8; 96], steps: nat) -> RunView
    decreases steps,
{
    if steps == 0 {
        state
    } else {
        driven(state.next(faultless(state, shares)), shares, (steps - 1) as nat)
    }
}

/// Whether the slots of the selected parties hold what those parties send.
pub open spec fn slots_hold(
    selector: Seq<bool>,
    slots: Seq<Seq<u8>>,
    shares: spec_fn(int) -> [u8; 96],
) -> bool {
    forall|i: int| 0 <= i < slots.len() && #[trigger] selector[i] ==> slots[i] == shares(i)@
}

/// Taking `first` steps and then `then` more is taking them all at once.
pub proof fn lemma_driven_in_two(
    state: RunView,
    shares: spec_fn(int) -> [u8; 96],
    first: nat,
    then: nat,
)
    ensures
        driven(state, shares, first + then) == driven(driven(state, shares, first), shares, then),
    decreases first,
{
    if first > 0 {
        lemma_driven_in_two(
            state.next(faultless(state, shares)),
            shares,
            (first - 1) as nat,
            then,
        );
    }
}

/// Key generation comes to its end: one step for each party that has no key
/// yet leads to the aggregation, and nothing else of the run changes.
pub proof fn lemma_keys_get_generated(state: RunView, shares: spec_fn(int) -> [u8; 96])
    requires
        state.wf(),
        state.phase == Phase::KeyGeneration,
    ensures
        ({
            let end = driven(state, shares, (state.parties() - state.keys.len()) as nat);
            &&& end.wf()
            &&& end.phase == Phase::Aggregation
            &&& end.goal == state.goal
            &&& end.message == state.message
            &&& end.selector == state.selector
        }),
    decreases state.parties() - state.keys.len(),
{
    let next = state.next(Event::PartyGenerated);
    lemma_next_preserves_wf(state, Event::PartyGenerated);
    if next.phase == Phase::KeyGeneration {
        lemma_keys_get_generated(next, shares);
    } else {
        assert(driven(next, shares, 0) == next);
    }
}

/// Where the selector names no party with a nullified key, filling the share
/// slots leaves the selector as it is, skips exactly the parties that it does
/// not name, and keeps what the named parties have sent.
pub proof fn lemma_collected_keeps_selector(
    selector: Seq<bool>,
    keys: Seq<SecretKey>,
    slots: Seq<Seq<u8>>,
    shares: spec_fn(int) -> [u8; 96],
)
    requires
        keys == settled_keys(selector.len()),
        slots.len() <= selector.len(),
        selector.len() > 0 ==> !selector[DUMMY_PARTY as int],
        slots_agree(selector, keys, slots),
        slots_hold(selector, slots, shares),
    ensures
        ({
            let (after, filled, phase) = collected(selector, keys, slots);
            &&& after == selector
            &&& slots.len() <= filled.len() <= selector.len()
            &&& slots_agree(selector, keys, filled)
            &&& slots_hold(selector, filled, shares)
            &&& selected_count(selector.take(filled.len() as int)) == selected_count(
                selector.take(slots.len() as int),
            )
            &&& phase == Phase::PartialDecryption ==> filled.len() < selector.len()
                && selector[filled.len() as int]
            &&& phase != Phase::PartialDecryption ==> filled.len() == selector.len()
            &&& phase == if filled.len() < selector.len() {
                Phase::PartialDecryption
            } else if meets_threshold(selector) {
                Phase::Combination
            } else {
                Phase::Failed(SchemeError::InsufficientShares)
            }
        }),
    decreases selector.len() - slots.len(),
{
    let at = slots.len() as int;
    if at < selector.len() {
        assert(keys[at] == settled_key(at));
        if !selector[at] {
            let grown = slots.push(identity_encoding());
            assert(selector.update(at, false) =~= selector);
            lemma_count_take(selector, at);
            assert(slots_agree(selector, keys, grown)) by {
                assert forall|i: int| 0 <= i < grown.len() implies {
                    &&& (#[trigger] selector[i]) ==> !keys[i].nullified
                    &&& !selector[i] ==> grown[i] == identity_encoding()
                } by {
                    assert(keys[i] == settled_key(i));
                }
            }
            lemma_collected_keeps_selector(selector, keys, grown, shares);
        }
    }
}

/// Share collection comes to its end: where the selector names enough
/// parties, none of them the reserved one, one step for each named party that
/// has not sent its share yet leads to the combination. The selector is then
/// as it was, the slot of each named party holds what the party sent, and the
/// placeholder stands in every other slot.
pub proof fn lemma_shares_get_collected(state: RunView, shares: spec_fn(int) -> [u8; 96])
    requires
        state.wf(),
        state.phase == Phase::PartialDecryption,
        !state.selector[DUMMY_PARTY as int],
        meets_threshold(state.selector),
        slots_hold(state.selector, state.shares, shares),
    ensures
        ({
            let sent = selected_count(state.selector.take(state.shares.len() as int));
            let end = driven(state, shares, (selected_count(state.selector) - sent) as nat);
            &&& sent < selected_count(state.selector)
            &&& end.wf()
            &&& end.phase == Phase::Combination
            &&& end.goal == state.goal
            &&& end.message == state.message
            &&& end.selector == state.selector
            &&& slots_hold(end.selector, end.shares, shares)
        }),
    decreases state.parties() - state.shares.len(),
{
    let selector = state.selector;
    let at = state.shares.len() as int;
    let event = Event::Share(shares(at));
    let grown = state.shares.push(shares(at)@);
    let next = state.next(event);
    lemma_next_preserves_wf(state, event);
    lemma_count_take(selector, at);
    lemma_count_take(selector, at + 1);
    assert(state.keys =~= settled_keys(selector.len()));
    assert(slots_agree(selector, state.keys, grown));
    assert(slots_hold(selector, grown, shares));
    lemma_collected_keeps_selector(selector, state.keys, grown, shares);
    if next.phase == Phase::PartialDecryption {
        lemma_shares_get_collected(next, shares);
    } else {
        assert(selector.take(selector.len() as int) =~= selector);
        assert(driven(next, shares, 0) == next);
    }
}

/// A decryption run with which nothing goes wrong gets to combine. The run
/// starts with a selector that names more parties than the threshold and not
/// the reserved one. After the setup, one key generation for each party, the
/// aggregation, the encryption and one share from each named party, the
/// shares are ready: the selector and the message are as at the start, the
/// slot of each named party holds what the party sent, and the placeholder
/// stands in every other slot.
pub proof fn lemma_faultless_decryption(state: RunView, shares: spec_fn(int) -> [u8; 96])
    requires
        state.wf(),
        state.phase == Phase::Setup,
        state.goal == Goal::Decrypt,
        meets_threshold(state.selector),
        !state.selector[DUMMY_PARTY as int],
    ensures
        ({
            let end = driven(
                state,
                shares,
                state.parties() + 3 + selected_count(state.selector),
            );
            &&& end.phase == Phase::Combination
            &&& end.message == state.message
            &&& end.selector == state.selector
            &&& end.shares.len() == state.parties()
            &&& forall|i: int|
                0 <= i < state.parties() ==> (#[trigger] end.shares[i]) == if state.selector[i] {
                    shares(i)@
                } else {
                    identity_encoding()
                }
        }),
{
    let selector = state.selector;
    let n = state.parties();
    let named = selected_count(selector);
    lemma_count_bounded(selector);
    // Setup.
    let keyed = state.next(Event::SetupDone);
    lemma_next_preserves_wf(state, Event::SetupDone);
    assert(driven(state, shares, 1) == keyed) by {
        assert(driven(keyed, shares, 0) == keyed);
    }
    // Key generation.
    lemma_keys_get_generated(keyed, shares);
    let aggregating = driven(keyed, shares, n);
    // Aggregation.
    let encrypting = aggregating.next(Event::AggregateBuilt);
    lemma_next_preserves_wf(aggregating, Event::AggregateBuilt);
    assert(driven(aggregating, shares, 1) == encrypting) by {
        assert(driven(encrypting, shares, 0) == encrypting);
    }
    // Encryption, and the slots of the parties before the first named one.
    let collecting = encrypting.next(Event::Encrypted);
    lemma_next_preserves_wf(encrypting, Event::Encrypted);
    assert(driven(encrypting, shares, 1) == collecting) by {
        assert(driven(collecting, shares, 0) == collecting);
    }
    assert(encrypting.keys =~= settled_keys(n));
    lemma_collected_keeps_selector(selector, encrypting.keys, encrypting.shares, shares);
    assert(selector.take(0) =~= Seq::<bool>::empty());
    assert(selector.take(n as int) =~= selector);
    assert(collecting.phase == Phase::PartialDecryption);
    // Share collection.
    lemma_shares_get_collected(collecting, shares);
    let end = driven(collecting, shares, named);
    // All steps in one.
    lemma_driven_in_two(state, shares, 1, n);
    lemma_driven_in_two(state, shares, 1 + n, 1);
    lemma_driven_in_two(state, shares, n + 2, 1);
    lemma_driven_in_two(state, shares, n + 3, named);
    assert(driven(state, shares, n + 3 + named) == end);
    assert forall|i: int| 0 <= i < n implies (#[trigger] end.shares[i]) == if selector[i] {
        shares(i)@
    } else {
        identity_encoding()
    } by {
        if !selector[i] {
            assert(!end.selector[i]);
        }
    }
}

/// An encryption run with which nothing goes wrong comes to its end: after
/// the setup, one key generation for each party, the aggregation and the
/// encryption, the run has delivered, and no party has been asked for a
/// share.
pub proof fn lemma_faultless_encryption(state: RunView, shares: spec_fn(int) -> [u8; 96])
    requires
        state.wf(),
        state.phase == Phase::Setup,
        state.goal == Goal::Encrypt,
        state.parties() > 0,
    ensures
        ({
            let end = driven(state, shares, state.parties() + 3);
            &&& end.phase == Phase::Finished
            &&& end.message == state.message
            &&& end.selector == state.selector
            &&& end.shares.len() == 0
        }),
{
    let n = state.parties();
    let keyed = state.next(Event::SetupDone);
    lemma_next_preserves_wf(state, Event::SetupDone);
    assert(driven(state, shares, 1) == keyed) by {
        assert(driven(keyed, shares, 0) == keyed);
    }
    lemma_keys_get_generated(keyed, shares);
    let aggregating = driven(keyed, shares, n);
    let encrypting = aggregating.next(Event::AggregateBuilt);
    lemma_next_preserves_wf(aggregating, Event::AggregateBuilt);
    assert(driven(aggregating, shares, 1) == encrypting) by {
        assert(driven(encrypting, shares, 0) == encrypting);
    }
    let end = encrypting.next(Event::Encrypted);
    assert(driven(encrypting, shares, 1) == end) by {
        assert(driven(end, shares, 0) == end);
    }
    lemma_driven_in_two(state, shares, 1, n);
    lemma_driven_in_two(state, shares, 1 + n, 1);
    lemma_driven_in_two(state, shares, n + 2, 1);
}

/// With three parties or more, a decryption run with the leading selector
/// gets to combine when nothing goes wrong, with exactly `t + 1` shares in
/// the slots of the parties 1 to `t + 1`.
pub proof fn lemma_leading_parties_decrypt(state: RunView, shares: spec_fn(int) -> [u8; 96])
    requires
        state.wf(),
        state.phase == Phase::Setup,
        state.goal == Goal::Decrypt,
        state.parties() >= 3,
        state.selector == leading_selector(state.parties()),
    ensures
        ({
            let t = threshold_of(state.parties());
            let end = driven(state, shares, state.parties() + t + 4);
            &&& end.phase == Phase::Combination
            &&& end.message == state.message
            &&& end.selector == leading_selector(state.parties())
            &&& selected_count(end.selector) == t + 1
            &&& forall|i: int|
                0 <= i < state.parties() ==> (#[trigger] end.shares[i]) == if 1 <= i <= t + 1 {
                    shares(i)@
                } else {
                    identity_encoding()
                }
        }),
{
    lemma_leading_selector(state.parties());
    lemma_faultless_decryption(state, shares);
}

} // verus!
