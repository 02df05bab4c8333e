//! The ways in which a run can fail.

use vstd::prelude::*;

verus! {

/// Why a run stopped without its result.
#[derive(Clone, Copy, Debug, PartialEq, Eq, Structural)]
pub enum SchemeError {
    /// The commitment parameters or a party's keys could not be generated.
    /// Nothing of the run is usable after that.
    SetupError,
    /// A nullified secret key was asked for a partial decryption. The caller
    /// recovers by leaving that party out.
    InvalidKeyState,
    /// Fewer parties than the threshold asks for contribute to the
    /// combination.
    InsufficientShares,
    /// The receiver was handed an input of a kind that it does not serve: a
    /// request made for another scheme, or an event that does not answer the
    /// step that is pending.
    UnsupportedInputKind,
}

} // verus!
