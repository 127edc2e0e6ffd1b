//! What the client promises, operation by operation.
//!
//! Each law here speaks of the fields of the state, of frames and replies, of
//! literal texts and of what the cryptographic crates compute.
pub mod data;
pub mod envelope;
pub mod login;
pub mod membership;
pub mod reading;
pub mod rekeying;
pub mod sending;
pub mod sessions;
