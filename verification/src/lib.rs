//! The client core of a post-quantum encrypted group chat.
//!
//! Everything a client decides, computes and remembers is here: the
//! cryptographic envelope of messages and group keys, the in-memory channel
//! state, the reaction to every server frame, the rekey election and the
//! request/reply flows. Sockets, files and the user interface stay outside and
//! exchange plain values with these functions.
pub mod text;

pub mod error;

pub mod ids;

pub mod encoding;

pub mod crypto;

pub mod protocol;

pub mod identity;

pub mod state;

pub mod client;

pub mod commands;

pub mod laws;
