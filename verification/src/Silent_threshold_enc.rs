//! The silent threshold scheme.

use crate::engine::{Goal, Run};
use crate::error::SchemeError;
use crate::plaintext::DataType;
use crate::scheme::{EncryptionScheme, EncryptionSchemeInputs};
use crate::selector::{leading, leading_selector};
use vstd::prelude::*;

verus! {

/// The silent threshold scheme: a message is encrypted against the aggregate
/// key of `n` parties and decrypted by more than `n / 2` of them.
pub struct STE;

impl STE {
    /// Makes the request that asks the scheme to work on `data_type` with `n`
    /// parties.
    pub fn get_inputs(data_type: DataType, n: usize) -> (inputs: EncryptionSchemeInputs)
        ensures
            inputs == EncryptionSchemeInputs::SilentThreshold(data_type, n),
    {
        EncryptionSchemeInputs::SilentThreshold(data_type, n)
    }
}

impl EncryptionScheme for STE {
    open spec fn name(&self) -> Seq<char> {
        "SilentThreshold"@
    }

    open spec fn serves(&self, inputs: EncryptionSchemeInputs) -> bool {
        inputs is SilentThreshold
    }

    fn scheme_name(&self) -> (name: String) {
        "SilentThreshold".to_owned()
    }

    fn get_inputs(&self, data_type: DataType, n: usize) -> (inputs: EncryptionSchemeInputs)
        ensures
            inputs == EncryptionSchemeInputs::SilentThreshold(data_type, n),
    {
        EncryptionSchemeInputs::SilentThreshold(data_type, n)
    }

    /// Starts a run that sets up `n` parties and encrypts the message block
    /// of the payload against their aggregate key, bound to the threshold
    /// `n / 2`.
    fn encrypt(&self, encryption_scheme_inputs: EncryptionSchemeInputs) -> (res: Result<
        Run,
        SchemeError,
    >)
        ensures
            encryption_scheme_inputs matches EncryptionSchemeInputs::SilentThreshold(data, n)
                ==> (res matches Ok(run) && run@.starts(
                Goal::Encrypt,
                data.block(),
                Seq::new(n as nat, |i: int| false),
            )),
    {
        match encryption_scheme_inputs {
            EncryptionSchemeInputs::SilentThreshold(data, n) => Ok(Run::encryption(data, n)),
        }
    }

    /// Starts a run that does what an encryption run does and then decrypts
    /// the ciphertext with the smallest cooperating subset that leaves out
    /// the reserved party: the `n / 2 + 1` parties that follow it.
    fn decrypt(&self, encryption_scheme_inputs: EncryptionSchemeInputs) -> (res: Result<
        Run,
        SchemeError,
    >)
        ensures
            encryption_scheme_inputs matches EncryptionSchemeInputs::SilentThreshold(data, n)
                ==> (res matches Ok(run) && run@.starts(
                Goal::Decrypt,
                data.block(),
                leading_selector(n as nat),
            )),
    {
        match encryption_scheme_inputs {
            EncryptionSchemeInputs::SilentThreshold(data, n) => Ok(
                Run::decryption(data, leading(n)),
            ),
        }
    }
}

} // verus!
