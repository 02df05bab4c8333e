//! The interface through which a harness drives an encryption scheme.

use crate::engine::{Goal, Phase, Run};
use crate::error::SchemeError;
use crate::plaintext::DataType;
use vstd::prelude::*;

verus! {

/// A request to a scheme. Each variant carries what one scheme needs to start
/// a run.
#[derive(Clone, Debug, Copy)]
pub enum EncryptionSchemeInputs {
    /// For the silent threshold scheme: the payload and the number of
    /// parties.
    SilentThreshold(DataType, usize),
}

/// An encryption scheme as a harness sees it.
pub trait EncryptionScheme {
    /// The scheme's name.
    spec fn name(&self) -> Seq<char>;

    /// Whether a request is one of the scheme's own.
    spec fn serves(&self, inputs: EncryptionSchemeInputs) -> bool;

    /// Returns the scheme's name. It never changes.
    fn scheme_name(&self) -> (name: String)
        ensures
            name@ == self.name(),
    ;

    /// Makes the request that asks this scheme to work on `data_type` with
    /// `n` parties.
    fn get_inputs(&self, data_type: DataType, n: usize) -> (inputs: EncryptionSchemeInputs)
        ensures
            self.serves(inputs),
    ;

    /// Starts a run that encrypts what the request carries. A request made
    /// for another scheme is refused.
    fn encrypt(&self, encryption_scheme_inputs: EncryptionSchemeInputs) -> (res: Result<
        Run,
        SchemeError,
    >)
        ensures
            self.serves(encryption_scheme_inputs) ==> (res matches Ok(run) && run@.goal
                == Goal::Encrypt && run@.phase == Phase::Setup),
            !self.serves(encryption_scheme_inputs) ==> (res matches Err(reason) && reason
                == SchemeError::UnsupportedInputKind),
    ;

    /// Starts a run that encrypts what the request carries and decrypts it
    /// again. A request made for another scheme is refused.
    fn decrypt(&self, encryption_scheme_inputs: EncryptionSchemeInputs) -> (res: Result<
        Run,
        SchemeError,
    >)
        ensures
            self.serves(encryption_scheme_inputs) ==> (res matches Ok(run) && run@.goal
                == Goal::Decrypt && run@.phase == Phase::Setup),
            !self.serves(encryption_scheme_inputs) ==> (res matches Err(reason) && reason
                == SchemeError::UnsupportedInputKind),
    ;
}

} // verus!
