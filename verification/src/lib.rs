//! Orchestration of a silent (non-interactive) threshold encryption run.
//!
//! A message is encrypted once against the aggregate key of `n` parties and
//! can be recovered once more than `n / 2` of them contribute a partial
//! decryption. This crate holds the part that decides what happens in which
//! order: the byte form of a message, the selector of cooperating parties, the
//! state of every party's key, and the state machine that tells a driver which
//! primitive to run next. The pairing arithmetic stays with the backend.

#[allow(non_snake_case)]
pub mod Silent_threshold_enc;
pub mod engine;
pub mod error;
pub mod invariants;
pub mod keys;
pub mod plaintext;
pub mod progress;
pub mod scheme;
pub mod selector;
pub mod shares;

pub use error::SchemeError;
pub use plaintext::{to_array_32, DataType};
pub use scheme::{EncryptionScheme, EncryptionSchemeInputs};
