//! The state machine of a run.
//!
//! A run goes through its phases in a fixed order: setup, key generation,
//! aggregation, encryption and, where a plaintext is wanted back, partial
//! decryption and combination. The machine does none of the cryptography. It
//! tells the driver which primitive to run next, and the driver reports what
//! came of it. All that is decided on the way is decided here: which party's
//! key is nullified, which parties are asked for a share, what stands in for
//! the others, and whether enough of them are left to combine.

use crate::error::SchemeError;
use crate::invariants::lemma_next_preserves_wf;
use crate::keys::{
    build_aggregate, generate_party, in_party_order, settled_key, AggregateKey, PublicKey,
    SecretKey, DUMMY_PARTY,
};
use crate::plaintext::{to_array_32, DataType};
use crate::selector::{check_threshold, meets_threshold, threshold, threshold_of};
use crate::shares::{identity_encoding, identity_share};
use vstd::prelude::*;

verus! {

/// What a run is to deliver.
#[derive(Clone, Copy, Debug, PartialEq, Eq, Structural)]
pub enum Goal {
    /// A ciphertext: the run ends with the encryption.
    Encrypt,
    /// The plaintext back: the run goes on to decrypt what it encrypted.
    Decrypt,
}

/// Where a run stands. In every phase but the last two the run waits for the
/// driver to report on one step.
#[derive(Clone, Copy, Debug, PartialEq, Eq, Structural)]
pub enum Phase {
    Setup,
    KeyGeneration,
    Aggregation,
    Encryption,
    PartialDecryption,
    Combination,
    Finished,
    Failed(SchemeError),
}

/// The step that the driver has to take next.
#[derive(Clone, Copy, Debug, PartialEq, Eq)]
pub enum Action {
    /// Generate the commitment parameters for `parties` parties.
    Setup { parties: usize },
    /// Generate the secret key of party `index`, nullify it first if
    /// `nullify` is set, and derive the party's public key from it.
    GenerateParty { index: usize, nullify: bool },
    /// Build the aggregate key of the public keys of all `parties` parties,
    /// in party order.
    BuildAggregate { parties: usize },
    /// Encrypt `message` against the aggregate key, bound to `threshold`.
    Encrypt { threshold: usize, message: [u8; 32] },
    /// Ask party `index` for its partial decryption of the ciphertext.
    PartialDecrypt { index: usize },
    /// Combine the run's shares under the run's selector.
    Combine,
    /// Nothing: the run has delivered.
    Done,
}

/// What the driver reports.
#[derive(Clone, Copy, Debug, PartialEq, Eq)]
pub enum Event {
    /// The parameters are there.
    SetupDone,
    /// The parameters could not be generated.
    SetupFailed,
    /// Nothing had to be generated: the parameters, the key pairs of all
    /// parties, the reserved party's key nullified, and their aggregate are
    /// kept from an earlier run.
    KeysSupplied,
    /// The key pair of the party that was asked for is there.
    PartyGenerated,
    /// The aggregate key is there.
    AggregateBuilt,
    /// The ciphertext is there.
    Encrypted,
    /// The party that was asked has sent its share.
    Share([u8; 96]),
    /// The party that was asked could not make a share.
    ShareRefused,
    /// The shares have been combined.
    Combined,
}

/// The state of a run as contracts see it.
pub struct RunView {
    pub goal: Goal,
    /// The 32-byte block that is encrypted.
    pub message: [u8; 32],
    /// The cooperating parties, one entry for each party of the run. Parties
    /// that turn out unable to contribute are taken out as the run goes.
    pub selector: Seq<bool>,
    pub phase: Phase,
    /// The secret keys generated so far, in party order.
    pub keys: Seq<SecretKey>,
    /// The public keys that wait for the aggregation, in party order.
    pub public_keys: Seq<PublicKey>,
    /// The public keys that the aggregate holds, once it is built.
    pub aggregate: Option<Seq<PublicKey>>,
    /// The share slots filled so far, in party order.
    pub shares: Seq<Seq<u8>>,
}

/// The shares of a vector as byte sequences.
pub open spec fn share_views(shares: Seq<[u8; 96]>) -> Seq<Seq<u8>> {
    Seq::new(shares.len(), |i: int| shares[i]@)
}

/// Whether the slots filled so far agree with the selector and the keys: a
/// party that is selected has a live key, and the slot of a party that is not
/// holds the placeholder.
pub open spec fn slots_agree(
    selector: Seq<bool>,
    keys: Seq<SecretKey>,
    shares: Seq<Seq<u8>>,
) -> bool {
    forall|i: int|
        0 <= i < shares.len() ==> {
            &&& (#[trigger] selector[i]) ==> !keys[i].nullified
            &&& !selector[i] ==> shares[i] == identity_encoding()
        }
}

/// Whether an aggregate has been built of the keys of `parties` parties in
/// party order.
pub open spec fn covers(aggregate: Option<Seq<PublicKey>>, parties: nat) -> bool {
    aggregate matches Some(members) && members.len() == parties && in_party_order(members)
}

/// The secret keys of `parties` parties once key generation is over.
pub open spec fn settled_keys(parties: nat) -> Seq<SecretKey> {
    Seq::new(parties, |i: int| settled_key(i))
}

/// The public keys of `parties` parties in party order.
pub open spec fn ordered_public_keys(parties: nat) -> Seq<PublicKey> {
    Seq::new(parties, |i: int| PublicKey { party: i as usize })
}

/// Fills the share slots from the first empty one on, up to the next party
/// that is selected and whose key is live, or to the end. A party that is not
/// selected gets the placeholder. So does a party that is selected but whose
/// key is nullified, and it is taken out of the selector. At the end the
/// selector decides: with more parties than the threshold the shares can be
/// combined, with fewer the run fails.
pub open spec fn collected(selector: Seq<bool>, keys: Seq<SecretKey>, shares: Seq<Seq<u8>>) -> (
    Seq<bool>,
    Seq<Seq<u8>>,
    Phase,
)
    decreases selector.len() - shares.len(),
{
    let at = shares.len() as int;
    if at >= selector.len() {
        if meets_threshold(selector) {
            (selector, shares, Phase::Combination)
        } else {
            (selector, shares, Phase::Failed(SchemeError::InsufficientShares))
        }
    } else if selector[at] && !keys[at].nullified {
        (selector, shares, Phase::PartialDecryption)
    } else {
        collected(selector.update(at, false), keys, shares.push(identity_encoding()))
    }
}

impl RunView {
    /// The number of parties.
    pub open spec fn parties(self) -> nat {
        self.selector.len()
    }

    /// The state in which a run starts.
    pub open spec fn starts(self, goal: Goal, block: Seq<u8>, selector: Seq<bool>) -> bool {
        &&& self.goal == goal
        &&& self.message@ == block
        &&& self.selector == selector
        &&& self.phase == Phase::Setup
        &&& self.keys.len() == 0
        &&& self.public_keys.len() == 0
        &&& self.aggregate is None
        &&& self.shares.len() == 0
    }

    /// What holds of every state that a run can be in.
    pub open spec fn wf(self) -> bool {
        let n = self.parties();
        &&& n <= usize::MAX
        &&& self.keys.len() <= n
        &&& forall|i: int| 0 <= i < self.keys.len() ==> #[trigger] self.keys[i] == settled_key(i)
        &&& match self.phase {
            Phase::Setup => {
                &&& self.keys.len() == 0
                &&& self.public_keys.len() == 0
                &&& self.aggregate is None
                &&& self.shares.len() == 0
            },
            Phase::KeyGeneration => {
                &&& self.keys.len() < n
                &&& self.public_keys.len() == self.keys.len()
                &&& in_party_order(self.public_keys)
                &&& self.aggregate is None
                &&& self.shares.len() == 0
            },
            Phase::Aggregation => {
                &&& self.keys.len() == n
                &&& self.public_keys.len() == n
                &&& in_party_order(self.public_keys)
                &&& self.aggregate is None
                &&& self.shares.len() == 0
            },
            Phase::Encryption => {
                &&& self.keys.len() == n
                &&& covers(self.aggregate, n)
                &&& self.shares.len() == 0
            },
            Phase::PartialDecryption => {
                &&& self.goal == Goal::Decrypt
                &&& self.keys.len() == n
                &&& covers(self.aggregate, n)
                &&& self.shares.len() < n
                &&& self.selector[self.shares.len() as int]
                &&& !self.keys[self.shares.len() as int].nullified
                &&& slots_agree(self.selector, self.keys, self.shares)
            },
            Phase::Combination => {
                &&& self.goal == Goal::Decrypt
                &&& self.keys.len() == n
                &&& covers(self.aggregate, n)
                &&& self.shares.len() == n
                &&& meets_threshold(self.selector)
                &&& slots_agree(self.selector, self.keys, self.shares)
            },
            Phase::Finished => true,
            Phase::Failed(_) => true,
        }
    }

    /// The run, failed for the given reason.
    pub open spec fn fail(self, reason: SchemeError) -> RunView {
        RunView { phase: Phase::Failed(reason), ..self }
    }

    /// The run after its share slots have been filled as far as they can be
    /// without the driver.
    pub open spec fn collect(self) -> RunView {
        let (selector, shares, phase) = collected(self.selector, self.keys, self.shares);
        RunView { selector, shares, phase, ..self }
    }

    /// The state that follows on a report of the driver. A report that does
    /// not answer the pending step fails the run. A failed run stays as it
    /// is.
    pub open spec fn next(self, event: Event) -> RunView {
        match self.phase {
            Phase::Setup => match event {
                Event::SetupDone => if self.parties() == 0 {
                    self.fail(SchemeError::SetupError)
                } else {
                    RunView { phase: Phase::KeyGeneration, ..self }
                },
                Event::SetupFailed => self.fail(SchemeError::SetupError),
                Event::KeysSupplied => if self.parties() == 0 {
                    self.fail(SchemeError::SetupError)
                } else {
                    RunView {
                        phase: Phase::Encryption,
                        keys: settled_keys(self.parties()),
                        aggregate: Some(ordered_public_keys(self.parties())),
                        ..self
                    }
                },
                _ => self.fail(SchemeError::UnsupportedInputKind),
            },
            Phase::KeyGeneration => match event {
                Event::PartyGenerated => {
                    let index = self.keys.len() as int;
                    RunView {
                        phase: if index + 1 == self.parties() {
                            Phase::Aggregation
                        } else {
                            Phase::KeyGeneration
                        },
                        keys: self.keys.push(settled_key(index)),
                        public_keys: self.public_keys.push(PublicKey { party: index as usize }),
                        ..self
                    }
                },
                _ => self.fail(SchemeError::UnsupportedInputKind),
            },
            Phase::Aggregation => match event {
                Event::AggregateBuilt => RunView {
                    phase: Phase::Encryption,
                    public_keys: Seq::empty(),
                    aggregate: Some(self.public_keys),
                    ..self
                },
                _ => self.fail(SchemeError::UnsupportedInputKind),
            },
            Phase::Encryption => match event {
                Event::Encrypted => match self.goal {
                    Goal::Encrypt => RunView { phase: Phase::Finished, ..self },
                    Goal::Decrypt => self.collect(),
                },
                _ => self.fail(SchemeError::UnsupportedInputKind),
            },
            Phase::PartialDecryption => match event {
                Event::Share(share) => RunView {
                    shares: self.shares.push(share@),
                    ..self
                }.collect(),
                Event::ShareRefused => RunView {
                    selector: self.selector.update(self.shares.len() as int, false),
                    shares: self.shares.push(identity_encoding()),
                    ..self
                }.collect(),
                _ => self.fail(SchemeError::UnsupportedInputKind),
            },
            Phase::Combination => match event {
                Event::Combined => RunView { phase: Phase::Finished, ..self },
                _ => self.fail(SchemeError::UnsupportedInputKind),
            },
            Phase::Finished => self.fail(SchemeError::UnsupportedInputKind),
            Phase::Failed(_) => self,
        }
    }

    /// The step that the driver has to take in this state, or the reason why
    /// the run has failed.
    pub open spec fn pending(self) -> Result<Action, SchemeError> {
        match self.phase {
            Phase::Setup => Ok(Action::Setup { parties: self.parties() as usize }),
            Phase::KeyGeneration => Ok(
                Action::GenerateParty {
                    index: self.keys.len() as usize,
                    nullify: self.keys.len() == DUMMY_PARTY,
                },
            ),
            Phase::Aggregation => Ok(Action::BuildAggregate { parties: self.parties() as usize }),
            Phase::Encryption => Ok(
                Action::Encrypt {
                    threshold: threshold_of(self.parties()) as usize,
                    message: self.message,
                },
            ),
            Phase::PartialDecryption => Ok(
                Action::PartialDecrypt { index: self.shares.len() as usize },
            ),
            Phase::Combination => Ok(Action::Combine),
            Phase::Finished => Ok(Action::Done),
            Phase::Failed(reason) => Err(reason),
        }
    }

    /// The state after a sequence of reports.
    pub open spec fn after(self, events: Seq<Event>) -> RunView
        decreases events.len(),
    {
        if events.len() == 0 {
            self
        } else {
            self.after(events.drop_last()).next(events.last())
        }
    }
}

/// A run of the scheme: one encryption, or one encryption followed by its
/// decryption, with key material of its own.
pub struct Run {
    goal: Goal,
    message: [u8; 32],
    selector: Vec<bool>,
    phase: Phase,
    keys: Vec<SecretKey>,
    public_keys: Vec<PublicKey>,
    aggregate: Option<AggregateKey>,
    shares: Vec<[u8; 96]>,
}

impl View for Run {
    type V = RunView;

    closed spec fn view(&self) -> RunView {
        RunView {
            goal: self.goal,
            message: self.message,
            selector: self.selector@,
            phase: self.phase,
            keys: self.keys@,
            public_keys: self.public_keys@,
            aggregate: match self.aggregate {
                Some(aggregate) => Some(aggregate@),
                None => None,
            },
            shares: share_views(self.shares@),
        }
    }
}

/// Records the key pair of the next party of a run with `parties` parties.
/// The secret key of the reserved party is nullified before it is recorded.
fn enrol(keys: &mut Vec<SecretKey>, public_keys: &mut Vec<PublicKey>, parties: usize)
    requires
        old(keys)@.len() == old(public_keys)@.len(),
        old(keys)@.len() < parties,
    ensures
        final(keys)@ == old(keys)@.push(settled_key(old(keys)@.len() as int)),
        final(public_keys)@ == old(public_keys)@.push(
            PublicKey { party: old(keys)@.len() as usize },
        ),
{
    let index: usize = keys.len();
    match generate_party(index, parties) {
        Ok((secret, public)) => {
            let mut secret = secret;
            if index == DUMMY_PARTY {
                secret.nullify();
            }
            keys.push(secret);
            public_keys.push(public);
        },
        Err(_) => {},
    }
}

/// Fills the share slots as far as that can be done without the driver.
fn collect(selector: Vec<bool>, keys: &Vec<SecretKey>, shares: Vec<[u8; 96]>) -> (res: (
    Vec<bool>,
    Vec<[u8; 96]>,
    Phase,
))
    requires
        keys@.len() == selector@.len(),
        shares@.len() <= selector@.len(),
    ensures
        (res.0@, share_views(res.1@), res.2) == collected(
            selector@,
            keys@,
            share_views(shares@),
        ),
{
    let mut chosen = selector;
    let mut slots = shares;
    let parties: usize = chosen.len();
    while slots.len() < parties
        invariant
            parties == chosen@.len(),
            parties == keys@.len(),
            slots@.len() <= parties,
            collected(chosen@, keys@, share_views(slots@)) == collected(
                selector@,
                keys@,
                share_views(shares@),
            ),
        decreases parties - slots.len(),
    {
        let at: usize = slots.len();
        if chosen[at] {
            match keys[at].partial_decrypt() {
                Ok(_) => {
                    return (chosen, slots, Phase::PartialDecryption);
                },
                Err(_) => {},
            }
        }
        let ghost filled = share_views(slots@);
        chosen.set(at, false);
        slots.push(identity_share());
        assert(share_views(slots@) =~= filled.push(identity_encoding()));
    }
    let phase = match check_threshold(&chosen) {
        Ok(()) => Phase::Combination,
        Err(reason) => Phase::Failed(reason),
    };
    (chosen, slots, phase)
}

impl Run {
    #[verifier::type_invariant]
    spec fn inv(self) -> bool {
        self@.wf()
    }

    /// Starts a run that encrypts `data` for `parties` parties. No party is
    /// selected: the run ends before any share is asked for.
    pub fn encryption(data: DataType, parties: usize) -> (run: Run)
        ensures
            run@.starts(Goal::Encrypt, data.block(), Seq::new(parties as nat, |i: int| false)),
            run@.wf(),
    {
        let mut selector: Vec<bool> = Vec::new();
        while selector.len() < parties
            invariant
                selector@.len() <= parties,
                forall|i: int| 0 <= i < selector@.len() ==> !selector@[i],
            decreases parties - selector.len(),
        {
            selector.push(false);
        }
        assert(selector@ =~= Seq::new(parties as nat, |i: int| false));
        Run {
            goal: Goal::Encrypt,
            message: to_array_32(data.to_vec()),
            selector,
            phase: Phase::Setup,
            keys: Vec::new(),
            public_keys: Vec::new(),
            aggregate: None,
            shares: Vec::new(),
        }
    }

    /// Starts a run that encrypts `data` and decrypts it again with the
    /// parties that `selector` names. The run has as many parties as the
    /// selector has entries.
    pub fn decryption(data: DataType, selector: Vec<bool>) -> (run: Run)
        ensures
            run@.starts(Goal::Decrypt, data.block(), selector@),
            run@.wf(),
    {
        assert(selector@.len() <= usize::MAX) by {
            assert(selector.len() == selector@.len());
        }
        Run {
            goal: Goal::Decrypt,
            message: to_array_32(data.to_vec()),
            selector,
            phase: Phase::Setup,
            keys: Vec::new(),
            public_keys: Vec::new(),
            aggregate: None,
            shares: Vec::new(),
        }
    }

    /// The step that the driver has to take now, or the reason why the run
    /// has failed.
    pub fn pending(&self) -> (res: Result<Action, SchemeError>)
        ensures
            res == self@.pending(),
    {
        proof {
            use_type_invariant(self);
        }
        match self.phase {
            Phase::Setup => Ok(Action::Setup { parties: self.selector.len() }),
            Phase::KeyGeneration => Ok(
                Action::GenerateParty {
                    index: self.keys.len(),
                    nullify: self.keys.len() == DUMMY_PARTY,
                },
            ),
            Phase::Aggregation => Ok(Action::BuildAggregate { parties: self.selector.len() }),
            Phase::Encryption => Ok(
                Action::Encrypt {
                    threshold: threshold(self.selector.len()),
                    message: self.message,
                },
            ),
            Phase::PartialDecryption => Ok(Action::PartialDecrypt { index: self.shares.len() }),
            Phase::Combination => Ok(Action::Combine),
            Phase::Finished => Ok(Action::Done),
            Phase::Failed(reason) => Err(reason),
        }
    }

    /// Takes the driver's report on the pending step and moves the run on.
    /// Returns the run in its next state, and with it the step that is
    /// pending then or the reason why the run has failed.
    pub fn step(self, event: Event) -> (res: (Run, Result<Action, SchemeError>))
        ensures
            self@.wf(),
            res.0@ == self@.next(event),
            res.0@.wf(),
            res.1 == res.0@.pending(),
    {
        proof {
            use_type_invariant(&self);
            lemma_next_preserves_wf(self@, event);
        }
        let ghost before = self@;
        let Run { goal, message, selector, phase, keys, public_keys, aggregate, shares } = self;
        let mut selector = selector;
        let mut phase = phase;
        let mut keys = keys;
        let mut public_keys = public_keys;
        let mut aggregate = aggregate;
        let mut shares = shares;
        match phase {
            Phase::Setup => match event {
                Event::SetupDone => {
                    phase =
                    if selector.len() == 0 {
                        Phase::Failed(SchemeError::SetupError)
                    } else {
                        Phase::KeyGeneration
                    };
                },
                Event::SetupFailed => {
                    phase = Phase::Failed(SchemeError::SetupError);
                },
                Event::KeysSupplied => {
                    let parties: usize = selector.len();
                    if parties == 0 {
                        phase = Phase::Failed(SchemeError::SetupError);
                    } else {
                        while keys.len() < parties
                            invariant
                                keys@.len() <= parties,
                                keys@ == settled_keys(keys@.len()),
                                public_keys@ == ordered_public_keys(keys@.len()),
                            decreases parties - keys.len(),
                        {
                            let ghost enrolled = keys@.len();
                            enrol(&mut keys, &mut public_keys, parties);
                            assert(keys@ =~= settled_keys(enrolled + 1));
                            assert(public_keys@ =~= ordered_public_keys(enrolled + 1));
                        }
                        aggregate = Some(build_aggregate(public_keys));
                        public_keys = Vec::new();
                        phase = Phase::Encryption;
                    }
                },
                _ => {
                    phase = Phase::Failed(SchemeError::UnsupportedInputKind);
                },
            },
            Phase::KeyGeneration => match event {
                Event::PartyGenerated => {
                    enrol(&mut keys, &mut public_keys, selector.len());
                    phase =
                    if keys.len() == selector.len() {
                        Phase::Aggregation
                    } else {
                        Phase::KeyGeneration
                    };
                },
                _ => {
                    phase = Phase::Failed(SchemeError::UnsupportedInputKind);
                },
            },
            Phase::Aggregation => match event {
                Event::AggregateBuilt => {
                    aggregate = Some(build_aggregate(public_keys));
                    public_keys = Vec::new();
                    phase = Phase::Encryption;
                },
                _ => {
                    phase = Phase::Failed(SchemeError::UnsupportedInputKind);
                },
            },
            Phase::Encryption => match event {
                Event::Encrypted => match goal {
                    Goal::Encrypt => {
                        phase = Phase::Finished;
                    },
                    Goal::Decrypt => {
                        let filled = collect(selector, &keys, shares);
                        selector = filled.0;
                        shares = filled.1;
                        phase = filled.2;
                    },
                },
                _ => {
                    phase = Phase::Failed(SchemeError::UnsupportedInputKind);
                },
            },
            Phase::PartialDecryption => match event {
                Event::Share(share) => {
                    let ghost slots = share_views(shares@);
                    shares.push(share);
                    assert(share_views(shares@) =~= slots.push(share@));
                    let filled = collect(selector, &keys, shares);
                    selector = filled.0;
                    shares = filled.1;
                    phase = filled.2;
                },
                Event::ShareRefused => {
                    let ghost slots = share_views(shares@);
                    let at: usize = shares.len();
                    selector.set(at, false);
                    shares.push(identity_share());
                    assert(share_views(shares@) =~= slots.push(identity_encoding()));
                    let filled = collect(selector, &keys, shares);
                    selector = filled.0;
                    shares = filled.1;
                    phase = filled.2;
                },
                _ => {
                    phase = Phase::Failed(SchemeError::UnsupportedInputKind);
                },
            },
            Phase::Combination => match event {
                Event::Combined => {
                    phase = Phase::Finished;
                },
                _ => {
                    phase = Phase::Failed(SchemeError::UnsupportedInputKind);
                },
            },
            Phase::Finished => {
                phase = Phase::Failed(SchemeError::UnsupportedInputKind);
            },
            Phase::Failed(_) => {},
        }
        let run = Run { goal, message, selector, phase, keys, public_keys, aggregate, shares };
        assert(run@.keys =~= before.next(event).keys);
        assert(run@.public_keys =~= before.next(event).public_keys);
        let outcome = run.pending();
        (run, outcome)
    }

    /// Where the run stands.
    pub fn phase(&self) -> (phase: Phase)
        ensures
            phase == self@.phase,
    {
        self.phase
    }

    /// What the run is to deliver.
    pub fn goal(&self) -> (goal: Goal)
        ensures
            goal == self@.goal,
    {
        self.goal
    }

    /// The number of parties.
    pub fn parties(&self) -> (parties: usize)
        ensures
            parties == self@.parties(),
    {
        self.selector.len()
    }

    /// The parties that are still to contribute, or have contributed, to the
    /// combination.
    pub fn selector(&self) -> (selector: &Vec<bool>)
        ensures
            selector@ == self@.selector,
    {
        &self.selector
    }

    /// The share slots that have been filled, in party order.
    pub fn shares(&self) -> (shares: &Vec<[u8; 96]>)
        ensures
            share_views(shares@) == self@.shares,
    {
        &self.shares
    }
}

} // verus!
