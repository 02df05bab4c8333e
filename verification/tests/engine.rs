use ark_bls12_381::G2Projective;
use ark_serialize::{CanonicalDeserialize, CanonicalSerialize};
use ark_std::Zero;
use coprocessor_benchmarks::engine::{Action, Event, Goal, Phase, Run};
use coprocessor_benchmarks::{to_array_32, DataType, SchemeError};

fn placeholder() -> [u8; 96] {
    let mut bytes = [0u8; 96];
    bytes[0] = 0xc0;
    bytes
}

fn share_of(party: usize) -> [u8; 96] {
    [party as u8 + 1; 96]
}

/// Answers every step as a backend without faults would, up to the
/// combination or the end of the run.
fn drive(run: Run) -> (Run, Vec<Action>, Result<Action, SchemeError>) {
    let mut run = run;
    let mut seen = Vec::new();
    let mut pending = run.pending();
    loop {
        let action = match pending {
            Ok(action) => action,
            Err(_) => return (run, seen, pending),
        };
        let event = match action {
            Action::Setup { .. } => Event::SetupDone,
            Action::GenerateParty { .. } => Event::PartyGenerated,
            Action::BuildAggregate { .. } => Event::AggregateBuilt,
            Action::Encrypt { .. } => Event::Encrypted,
            Action::PartialDecrypt { index } => Event::Share(share_of(index)),
            Action::Combine | Action::Done => return (run, seen, pending),
        };
        seen.push(action);
        let (next, outcome) = run.step(event);
        run = next;
        pending = outcome;
    }
}

fn samples() -> Vec<DataType> {
    vec![
        DataType::U32(0),
        DataType::U32(u32::MAX),
        DataType::U64(0),
        DataType::U64(u64::MAX),
        DataType::U128(0),
        DataType::U128(u128::MAX),
        DataType::Bytes32([0; 32]),
        DataType::Bytes32([0xff; 32]),
        DataType::Address([0; 48]),
        DataType::Address([0xff; 48]),
    ]
}

#[test]
fn placeholder_is_the_identity_of_g2() {
    let (run, _, _) = drive(Run::decryption(DataType::U32(1), vec![false, true, true, true]));
    let slot = run.shares()[0];
    assert_eq!(slot, placeholder());
    let point = G2Projective::deserialize_compressed(&slot[..]).unwrap();
    assert!(point.is_zero());
    let mut written = Vec::new();
    G2Projective::zero().serialize_compressed(&mut written).unwrap();
    assert_eq!(written, slot.to_vec());
}

#[test]
fn encryption_run_of_four_parties() {
    let run = Run::encryption(DataType::U32(42), 4);
    assert_eq!(run.goal(), Goal::Encrypt);
    assert_eq!(run.phase(), Phase::Setup);
    assert_eq!(run.parties(), 4);
    let (run, seen, pending) = drive(run);
    let mut message = [0u8; 32];
    message[0] = 42;
    assert_eq!(
        seen,
        vec![
            Action::Setup { parties: 4 },
            Action::GenerateParty { index: 0, nullify: true },
            Action::GenerateParty { index: 1, nullify: false },
            Action::GenerateParty { index: 2, nullify: false },
            Action::GenerateParty { index: 3, nullify: false },
            Action::BuildAggregate { parties: 4 },
            Action::Encrypt { threshold: 2, message },
        ]
    );
    assert_eq!(pending, Ok(Action::Done));
    assert_eq!(run.phase(), Phase::Finished);
    assert!(run.shares().is_empty());
}

#[test]
fn message_is_the_normalized_encoding() {
    for parties in [4usize, 8, 16] {
        for data in samples() {
            let selector: Vec<bool> = (0..parties).map(|i| 1 <= i && i <= parties / 2 + 1).collect();
            let (run, seen, pending) = drive(Run::decryption(data, selector.clone()));
            let expected = to_array_32(data.to_vec());
            let encrypts: Vec<&Action> =
                seen.iter().filter(|a| matches!(a, Action::Encrypt { .. })).collect();
            assert_eq!(
                encrypts,
                vec![&Action::Encrypt { threshold: parties / 2, message: expected }]
            );
            assert_eq!(pending, Ok(Action::Combine));
            assert_eq!(run.selector(), &selector);
            let asked: Vec<usize> = seen
                .iter()
                .filter_map(|a| match a {
                    Action::PartialDecrypt { index } => Some(*index),
                    _ => None,
                })
                .collect();
            assert_eq!(asked, (1..=parties / 2 + 1).collect::<Vec<usize>>());
        }
    }
}

#[test]
fn eight_parties_five_shares_combine() {
    let selector = vec![false, true, true, true, true, true, false, false];
    let (run, seen, pending) = drive(Run::decryption(DataType::U32(42), selector.clone()));
    let mut message = [0u8; 32];
    message[0] = 42;
    assert!(seen.contains(&Action::Encrypt { threshold: 4, message }));
    assert_eq!(
        &seen[11..],
        &[
            Action::PartialDecrypt { index: 1 },
            Action::PartialDecrypt { index: 2 },
            Action::PartialDecrypt { index: 3 },
            Action::PartialDecrypt { index: 4 },
            Action::PartialDecrypt { index: 5 },
        ]
    );
    assert_eq!(pending, Ok(Action::Combine));
    assert_eq!(run.phase(), Phase::Combination);
    assert_eq!(run.selector(), &selector);
    assert_eq!(
        run.shares(),
        &vec![
            placeholder(),
            share_of(1),
            share_of(2),
            share_of(3),
            share_of(4),
            share_of(5),
            placeholder(),
            placeholder(),
        ]
    );
    let (run, outcome) = run.step(Event::Combined);
    assert_eq!(outcome, Ok(Action::Done));
    assert_eq!(run.phase(), Phase::Finished);
}

#[test]
fn eight_parties_four_shares_are_not_enough() {
    let selector = vec![false, true, true, true, true, false, false, false];
    let (run, seen, pending) = drive(Run::decryption(DataType::U32(42), selector));
    assert_eq!(pending, Err(SchemeError::InsufficientShares));
    assert_eq!(run.phase(), Phase::Failed(SchemeError::InsufficientShares));
    assert!(!seen.contains(&Action::Combine));
}

#[test]
fn empty_selector_is_not_enough() {
    let (run, _, pending) = drive(Run::decryption(DataType::U64(9), vec![false; 4]));
    assert_eq!(pending, Err(SchemeError::InsufficientShares));
    assert_eq!(run.shares(), &vec![placeholder(); 4]);
}

#[test]
fn reserved_party_is_left_out_when_selected() {
    let selector = vec![true, true, true, true, true, true, false, false];
    let (run, seen, pending) = drive(Run::decryption(DataType::U32(42), selector));
    assert!(!seen.contains(&Action::PartialDecrypt { index: 0 }));
    assert_eq!(pending, Ok(Action::Combine));
    assert_eq!(
        run.selector(),
        &vec![false, true, true, true, true, true, false, false]
    );
    assert_eq!(run.shares()[0], placeholder());
    assert_eq!(run.shares()[1], share_of(1));
}

#[test]
fn reserved_party_does_not_count() {
    let selector = vec![true, true, true, true, true, false, false, false];
    let (run, seen, pending) = drive(Run::decryption(DataType::U32(42), selector));
    assert!(!seen.contains(&Action::PartialDecrypt { index: 0 }));
    assert_eq!(pending, Err(SchemeError::InsufficientShares));
    assert_eq!(
        run.selector(),
        &vec![false, true, true, true, true, false, false, false]
    );
}

#[test]
fn subset_that_is_no_prefix() {
    let selector = vec![false, false, true, false, true, false, true, true];
    let (run, seen, pending) = drive(Run::decryption(DataType::Bytes32([5; 32]), selector.clone()));
    let asked: Vec<usize> = seen
        .iter()
        .filter_map(|a| match a {
            Action::PartialDecrypt { index } => Some(*index),
            _ => None,
        })
        .collect();
    assert_eq!(asked, vec![2, 4, 6, 7]);
    assert_eq!(pending, Err(SchemeError::InsufficientShares));
    assert_eq!(run.selector(), &selector);

    let selector = vec![false, false, true, true, true, false, true, true];
    let (run, _, pending) = drive(Run::decryption(DataType::Bytes32([5; 32]), selector.clone()));
    assert_eq!(pending, Ok(Action::Combine));
    assert_eq!(
        run.shares(),
        &vec![
            placeholder(),
            placeholder(),
            share_of(2),
            share_of(3),
            share_of(4),
            placeholder(),
            share_of(6),
            share_of(7),
        ]
    );
}

#[test]
fn party_that_refuses_is_left_out() {
    let selector = vec![false, true, true, true];
    let mut run = Run::decryption(DataType::U32(1), selector);
    for event in [
        Event::SetupDone,
        Event::PartyGenerated,
        Event::PartyGenerated,
        Event::PartyGenerated,
        Event::PartyGenerated,
        Event::AggregateBuilt,
    ] {
        run = run.step(event).0;
    }
    let (run, outcome) = run.step(Event::Encrypted);
    assert_eq!(outcome, Ok(Action::PartialDecrypt { index: 1 }));
    let (run, outcome) = run.step(Event::Share(share_of(1)));
    assert_eq!(outcome, Ok(Action::PartialDecrypt { index: 2 }));
    let (run, outcome) = run.step(Event::ShareRefused);
    assert_eq!(outcome, Ok(Action::PartialDecrypt { index: 3 }));
    assert_eq!(run.selector(), &vec![false, true, false, true]);
    let (run, outcome) = run.step(Event::Share(share_of(3)));
    assert_eq!(outcome, Err(SchemeError::InsufficientShares));
    assert_eq!(
        run.shares(),
        &vec![placeholder(), share_of(1), placeholder(), share_of(3)]
    );
}

#[test]
fn spare_party_makes_up_for_one_that_refuses() {
    let mut run = Run::decryption(DataType::U32(1), vec![false, true, true, true, true, false, false, true]);
    run = run.step(Event::SetupDone).0;
    for _ in 0..8 {
        run = run.step(Event::PartyGenerated).0;
    }
    run = run.step(Event::AggregateBuilt).0;
    run = run.step(Event::Encrypted).0;
    run = run.step(Event::Share(share_of(1))).0;
    run = run.step(Event::Share(share_of(2))).0;
    run = run.step(Event::ShareRefused).0;
    let (run, outcome) = run.step(Event::Share(share_of(4)));
    assert_eq!(outcome, Ok(Action::PartialDecrypt { index: 7 }));
    let (run, outcome) = run.step(Event::Share(share_of(7)));
    assert_eq!(outcome, Err(SchemeError::InsufficientShares));
    assert_eq!(
        run.selector(),
        &vec![false, true, true, false, true, false, false, true]
    );
}

#[test]
fn failed_setup_ends_the_run() {
    let run = Run::encryption(DataType::U32(1), 4);
    let (run, outcome) = run.step(Event::SetupFailed);
    assert_eq!(outcome, Err(SchemeError::SetupError));
    assert_eq!(run.phase(), Phase::Failed(SchemeError::SetupError));
    let (run, outcome) = run.step(Event::SetupDone);
    assert_eq!(outcome, Err(SchemeError::SetupError));
    assert_eq!(run.phase(), Phase::Failed(SchemeError::SetupError));
}

#[test]
fn run_without_parties_fails_at_setup() {
    let run = Run::encryption(DataType::U32(1), 0);
    assert_eq!(run.pending(), Ok(Action::Setup { parties: 0 }));
    let (_, outcome) = run.step(Event::SetupDone);
    assert_eq!(outcome, Err(SchemeError::SetupError));
}

#[test]
fn report_that_answers_nothing_fails_the_run() {
    let run = Run::encryption(DataType::U32(1), 4);
    let (run, outcome) = run.step(Event::Encrypted);
    assert_eq!(outcome, Err(SchemeError::UnsupportedInputKind));
    assert_eq!(run.phase(), Phase::Failed(SchemeError::UnsupportedInputKind));

    let run = Run::encryption(DataType::U32(1), 4);
    let (run, _) = run.step(Event::SetupDone);
    let (_, outcome) = run.step(Event::Share(share_of(1)));
    assert_eq!(outcome, Err(SchemeError::UnsupportedInputKind));

    let (run, _, pending) = drive(Run::encryption(DataType::U32(1), 4));
    assert_eq!(pending, Ok(Action::Done));
    let (_, outcome) = run.step(Event::Combined);
    assert_eq!(outcome, Err(SchemeError::UnsupportedInputKind));
}

#[test]
fn runs_of_one_and_two_parties_cannot_decrypt() {
    for parties in [1usize, 2] {
        let (_, seen, pending) = drive(Run::decryption(DataType::U32(1), vec![true; parties]));
        assert_eq!(pending, Err(SchemeError::InsufficientShares));
        assert!(!seen.contains(&Action::PartialDecrypt { index: 0 }));
    }
}

#[test]
fn runs_do_not_share_state() {
    let first = drive(Run::decryption(DataType::U32(42), vec![false, true, true, true]));
    let second = drive(Run::decryption(DataType::U32(42), vec![false, true, true, true]));
    assert_eq!(first.1, second.1);
    assert_eq!(first.2, second.2);
    assert_eq!(first.0.shares(), second.0.shares());
}

#[test]
fn kept_keys_take_the_run_straight_to_the_encryption() {
    let run = Run::decryption(DataType::U32(42), vec![true, true, true, true, false]);
    let (run, outcome) = run.step(Event::KeysSupplied);
    let mut message = [0u8; 32];
    message[0] = 42;
    assert_eq!(outcome, Ok(Action::Encrypt { threshold: 2, message }));
    assert_eq!(run.phase(), Phase::Encryption);
    let (run, outcome) = run.step(Event::Encrypted);
    assert_eq!(outcome, Ok(Action::PartialDecrypt { index: 1 }));
    assert_eq!(run.selector(), &vec![false, true, true, true, false]);
    let (run, _) = run.step(Event::Share(share_of(1)));
    let (run, _) = run.step(Event::Share(share_of(2)));
    let (run, outcome) = run.step(Event::Share(share_of(3)));
    assert_eq!(outcome, Ok(Action::Combine));
    assert_eq!(
        run.shares(),
        &vec![placeholder(), share_of(1), share_of(2), share_of(3), placeholder()]
    );
}

#[test]
fn kept_keys_of_no_party_fail_the_run() {
    let (_, outcome) = Run::encryption(DataType::U32(1), 0).step(Event::KeysSupplied);
    assert_eq!(outcome, Err(SchemeError::SetupError));
    let run = Run::encryption(DataType::U32(1), 4).step(Event::SetupDone).0;
    let (_, outcome) = run.step(Event::KeysSupplied);
    assert_eq!(outcome, Err(SchemeError::UnsupportedInputKind));
}

#[test]
fn faultless_run_takes_one_step_for_each_primitive() {
    for parties in [4usize, 8, 16] {
        let selector: Vec<bool> = (0..parties).map(|i| 1 <= i && i <= parties / 2 + 1).collect();
        let (_, seen, pending) = drive(Run::decryption(DataType::U64(3), selector));
        assert_eq!(pending, Ok(Action::Combine));
        assert_eq!(seen.len(), parties + 3 + parties / 2 + 1);
        let (_, seen, pending) = drive(Run::encryption(DataType::U64(3), parties));
        assert_eq!(pending, Ok(Action::Done));
        assert_eq!(seen.len(), parties + 3);
    }
}
