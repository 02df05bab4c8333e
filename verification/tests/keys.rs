use coprocessor_benchmarks::keys::{
    build_aggregate, generate_party, PublicKey, SecretKey, DUMMY_PARTY,
};
use coprocessor_benchmarks::SchemeError;

#[test]
fn generate_party_gives_a_live_key_of_that_party() {
    let (secret, public) = generate_party(3, 8).unwrap();
    assert_eq!(secret, SecretKey { party: 3, nullified: false });
    assert_eq!(public, PublicKey { party: 3 });
}

#[test]
fn generate_party_refuses_an_index_outside_the_run() {
    assert_eq!(generate_party(8, 8), Err(SchemeError::SetupError));
    assert_eq!(generate_party(9, 8), Err(SchemeError::SetupError));
    assert_eq!(generate_party(0, 0), Err(SchemeError::SetupError));
    assert!(generate_party(7, 8).is_ok());
}

#[test]
fn nullify_is_for_good() {
    let (mut secret, _) = generate_party(DUMMY_PARTY, 4).unwrap();
    secret.nullify();
    assert_eq!(secret, SecretKey { party: 0, nullified: true });
    secret.nullify();
    assert_eq!(secret, SecretKey { party: 0, nullified: true });
}

#[test]
fn a_live_key_names_its_party() {
    let (secret, _) = generate_party(5, 8).unwrap();
    assert_eq!(secret.partial_decrypt(), Ok(5));
}

#[test]
fn a_nullified_key_is_refused() {
    let (mut secret, _) = generate_party(5, 8).unwrap();
    secret.nullify();
    assert_eq!(secret.partial_decrypt(), Err(SchemeError::InvalidKeyState));
}

#[test]
fn aggregate_keeps_the_keys_in_order() {
    let keys: Vec<PublicKey> = (0..8).map(|party| PublicKey { party }).collect();
    let aggregate = build_aggregate(keys);
    assert_eq!(aggregate.parties(), 8);
    for i in 0..8 {
        assert_eq!(aggregate.member(i), PublicKey { party: i });
    }
}

#[test]
fn aggregate_built_twice_is_the_same() {
    let keys: Vec<PublicKey> = (0..4).map(|party| PublicKey { party }).collect();
    let first = build_aggregate(keys.clone());
    let second = build_aggregate(keys);
    assert_eq!(first.parties(), second.parties());
    for i in 0..4 {
        assert_eq!(first.member(i), second.member(i));
    }
    assert_eq!(format!("{:?}", first), format!("{:?}", second));
}
