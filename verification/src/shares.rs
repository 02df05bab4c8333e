//! Partial decryptions in the form in which they travel.
//!
//! A share is a point of the group `G2` of BLS12-381 in its compressed form of
//! 96 bytes. A party that does not take part is stood for by the identity of
//! the group, which adds nothing to a combination.

use ark_bls12_381::Bls12_381;
use ark_ec::pairing::Pairing;
use ark_serialize::CanonicalSerialize;
use ark_std::Zero;
use vstd::prelude::*;

verus! {

/// The compressed form of the identity of `G2`: all coordinate bytes are
/// zero, and the first byte carries the two flags "compressed" and
/// "infinity".
pub open spec fn identity_encoding() -> Seq<u8> {
    Seq::new(
        96,
        |i: int|
            if i == 0 {
                0xc0u8
            } else {
                0u8
            },
    )
}

/// Whether a share is the placeholder of a party that does not take part.
pub open spec fn is_placeholder(share: [u8; 96]) -> bool {
    share@ == identity_encoding()
}

/// Makes the identity of `G2` with `Zero::zero` and writes it down with
/// `CanonicalSerialize::serialize_compressed`. The contract claims the bytes
/// that the curve's serializer gives for the point at infinity: 96 bytes, the
/// first `0xc0`, the others zero. Not proved here.
#[verifier::external_body]
pub(crate) fn identity_share() -> (share: [u8; 96])
    ensures
        is_placeholder(share),
{
    let mut share = [0u8; 96];
    <Bls12_381 as Pairing>::G2::zero().serialize_compressed(&mut share[..]).unwrap();
    share
}

} // verus!
