//! What the orchestration keeps of the key material.
//!
//! The scalars and group elements of a key never leave the backend. A run
//! reads three things of them: whose key it is, whether a secret key can
//! still decrypt, and in which order the public keys went into the aggregate.
//! The records below hold exactly that.

use crate::error::SchemeError;
use vstd::prelude::*;

verus! {

/// The party whose slot is reserved: its secret key is nullified as soon as it
/// exists, so it never contributes a partial decryption. Its public key is
/// part of the aggregate like any other.
pub const DUMMY_PARTY: usize = 0;

/// The record of one party's secret key.
#[derive(Clone, Copy, Debug, PartialEq, Eq, Structural)]
pub struct SecretKey {
    /// The party that holds the key.
    pub party: usize,
    /// Whether the key has been nullified. Nothing in this crate makes a
    /// nullified key live again.
    pub nullified: bool,
}

/// The record of one party's public key.
#[derive(Clone, Copy, Debug, PartialEq, Eq, Structural)]
pub struct PublicKey {
    /// The party that the key belongs to.
    pub party: usize,
}

/// The record of an aggregate key: the public keys that went into it, in the
/// order in which they went in. It is built once and never changed.
#[derive(Debug)]
pub struct AggregateKey {
    members: Vec<PublicKey>,
}

/// Whether entry `i` of a sequence of public keys is the key of party `i`,
/// for every `i`.
pub open spec fn in_party_order(keys: Seq<PublicKey>) -> bool {
    forall|i: int| 0 <= i < keys.len() ==> (#[trigger] keys[i]).party == i
}

/// The secret key of a party as it stands once key generation is over: the
/// key of the reserved party is nullified, every other key is live.
pub open spec fn settled_key(party: int) -> SecretKey {
    SecretKey { party: party as usize, nullified: party == DUMMY_PARTY }
}

/// Generates the key pair of party `index` in a run with `parties` parties.
/// There is no such party if `index` is not below `parties`.
pub fn generate_party(index: usize, parties: usize) -> (res: Result<
    (SecretKey, PublicKey),
    SchemeError,
>)
    ensures
        index < parties ==> res == Ok::<(SecretKey, PublicKey), SchemeError>(
            (SecretKey { party: index, nullified: false }, PublicKey { party: index }),
        ),
        index >= parties ==> res == Err::<(SecretKey, PublicKey), SchemeError>(
            SchemeError::SetupError,
        ),
{
    if index < parties {
        Ok((SecretKey { party: index, nullified: false }, PublicKey { party: index }))
    } else {
        Err(SchemeError::SetupError)
    }
}

impl SecretKey {
    /// Takes the key's power to decrypt away, for good. The key stays with
    /// its party.
    pub fn nullify(&mut self)
        ensures
            final(self).party == old(self).party,
            final(self).nullified,
    {
        self.nullified = true;
    }

    /// Decides whether the key may be used for a partial decryption, and
    /// names the party to ask. A nullified key is refused: no share, valid or
    /// not, is ever made with it.
    pub fn partial_decrypt(&self) -> (res: Result<usize, SchemeError>)
        ensures
            self.nullified ==> res == Err::<usize, SchemeError>(SchemeError::InvalidKeyState),
            !self.nullified ==> res == Ok::<usize, SchemeError>(self.party),
    {
        if self.nullified {
            Err(SchemeError::InvalidKeyState)
        } else {
            Ok(self.party)
        }
    }
}

impl View for AggregateKey {
    type V = Seq<PublicKey>;

    closed spec fn view(&self) -> Seq<PublicKey> {
        self.members@
    }
}

impl AggregateKey {
    #[verifier::type_invariant]
    spec fn members_in_order(self) -> bool {
        in_party_order(self.members@)
    }

    /// The number of parties whose keys the aggregate covers.
    pub fn parties(&self) -> (count: usize)
        ensures
            count == self@.len(),
    {
        self.members.len()
    }

    /// The public key that stands at position `index`.
    pub fn member(&self, index: usize) -> (key: PublicKey)
        requires
            index < self@.len(),
        ensures
            key == self@[index as int],
            key.party == index,
    {
        proof {
            use_type_invariant(self);
        }
        self.members[index]
    }
}

/// Builds the aggregate of the public keys of all parties. The order counts:
/// the key of party `i` stands at position `i`. The aggregate holds the keys
/// in that order, so equal sequences give equal aggregates.
pub fn build_aggregate(public_keys: Vec<PublicKey>) -> (aggregate: AggregateKey)
    requires
        in_party_order(public_keys@),
    ensures
        aggregate@ == public_keys@,
{
    AggregateKey { members: public_keys }
}

/// Aggregation is a function of the ordered public keys: two aggregates built
/// of the same keys in the same order hold the same keys in the same order.
pub proof fn lemma_aggregate_determined(
    public_keys: Seq<PublicKey>,
    first: AggregateKey,
    second: AggregateKey,
)
    requires
        first@ == public_keys,
        second@ == public_keys,
    ensures
        first@ == second@,
{
}

/// For a given number of parties there is one admissible order of public
/// keys: two sequences in party order of the same length are equal.
pub proof fn lemma_party_order_unique(first: Seq<PublicKey>, second: Seq<PublicKey>)
    requires
        in_party_order(first),
        in_party_order(second),
        first.len() == second.len(),
    ensures
        first == second,
{
    assert forall|i: int| 0 <= i < first.len() implies first[i] == second[i] by {
        assert(first[i].party == i);
        assert(second[i].party == i);
    }
    assert(first =~= second);
}

} // verus!
