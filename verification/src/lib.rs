//! Validation that the instruction just before the executing one is a
//! companion of a trusted signature verifier: that verifier has attested
//! that the expected signer signed one shared message, and the message is
//! what validation returns.
//!
//! [`decode`] reads the companion's data into signature entries,
//! [`validate`] holds them against the batch and the expected signer, and
//! [`sysvar`] does the same on the batch as the host serializes it.
//! [`laws`] states what holds of validation on every batch, and [`encode`]
//! that decoding is the inverse of encoding.

pub mod batch;
pub mod decode;
pub mod encode;
pub mod entry;
pub mod error;
pub mod laws;
pub mod scheme;
pub mod sysvar;
pub mod validate;
pub mod wire;
