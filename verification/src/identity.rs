//! The identity of the user: an identifier, a name and two key pairs.
//!
//! An identity is kept across launches, so the user keeps the same keys. The
//! keys are base64 text, as they are stored and sent.
use vstd::prelude::*;

use crate::crypto::{
    dilithium_keypair, generate_dilithium_keypair, generate_kyber_keypair, kyber_keypair,
    DILITHIUM_PUBLIC_KEY_BYTES, DILITHIUM_SECRET_KEY_BYTES, KYBER_PUBLIC_KEY_BYTES,
    KYBER_SECRET_KEY_BYTES,
};
use crate::encoding::{base64_encode, base64_encoded, decode, decode_outcome};
use crate::error::{outcome, ChatError, Messages};
use crate::ids::{UserId, NIL};

verus! {

/// The user's identifier, name and key pairs.
pub struct Identity {
    pub user_id: UserId,
    pub display_name: String,
    pub kem_pk_b64: String,
    pub kem_sk_b64: String,
    pub sig_pk_b64: String,
    pub sig_sk_b64: String,
}

impl Clone for Identity {
    fn clone(&self) -> (copy: Identity)
        ensures
            copy == *self,
    {
        Identity {
            user_id: self.user_id,
            display_name: self.display_name.clone(),
            kem_pk_b64: self.kem_pk_b64.clone(),
            kem_sk_b64: self.kem_sk_b64.clone(),
            sig_pk_b64: self.sig_pk_b64.clone(),
            sig_sk_b64: self.sig_sk_b64.clone(),
        }
    }
}

impl Identity {
    /// The Kyber public key.
    pub fn kem_pk(&self) -> (key: Result<Vec<u8>, ChatError>)
        ensures
            outcome(key) == decode_outcome(self.kem_pk_b64@),
    {
        decode(self.kem_pk_b64.as_str())
    }

    /// The Kyber secret key.
    pub fn kem_sk(&self) -> (key: Result<Vec<u8>, ChatError>)
        ensures
            outcome(key) == decode_outcome(self.kem_sk_b64@),
    {
        decode(self.kem_sk_b64.as_str())
    }

    /// The Dilithium public key.
    pub fn sig_pk(&self) -> (key: Result<Vec<u8>, ChatError>)
        ensures
            outcome(key) == decode_outcome(self.sig_pk_b64@),
    {
        decode(self.sig_pk_b64.as_str())
    }

    /// The Dilithium secret key.
    pub fn sig_sk(&self) -> (key: Result<Vec<u8>, ChatError>)
        ensures
            outcome(key) == decode_outcome(self.sig_sk_b64@),
    {
        decode(self.sig_sk_b64.as_str())
    }
}

/// Whether `text` is the base64 form of `bytes` and decodes to them.
pub open spec fn stands_for(text: Seq<char>, bytes: Seq<u8>) -> bool {
    &&& text == base64_encoded(bytes)
    &&& decode_outcome(text) == Ok::<Seq<u8>, Messages>(bytes)
}

/// Whether the identity holds the base64 form of a Kyber key pair.
pub open spec fn holds_kyber_keypair(identity: Identity) -> bool {
    exists|pk: Seq<u8>, sk: Seq<u8>| #[trigger]
        kyber_keypair(pk, sk) && pk.len() == KYBER_PUBLIC_KEY_BYTES && sk.len()
            == KYBER_SECRET_KEY_BYTES && stands_for(identity.kem_pk_b64@, pk) && stands_for(
            identity.kem_sk_b64@,
            sk,
        )
}

/// Whether the identity holds the base64 form of a Dilithium key pair.
pub open spec fn holds_dilithium_keypair(identity: Identity) -> bool {
    exists|pk: Seq<u8>, sk: Seq<u8>| #[trigger]
        dilithium_keypair(pk, sk) && pk.len() == DILITHIUM_PUBLIC_KEY_BYTES && sk.len()
            == DILITHIUM_SECRET_KEY_BYTES && stands_for(identity.sig_pk_b64@, pk) && stands_for(
            identity.sig_sk_b64@,
            sk,
        )
}

/// `identity` under another identifier; name and keys stay.
pub open spec fn renumbered(identity: Identity, user_id: UserId) -> Identity {
    Identity { user_id, ..identity }
}

/// A new identity with fresh key pairs. It has no identifier yet; the relay
/// assigns one at registration.
pub fn new_unregistered(display_name: String) -> (identity: Identity)
    ensures
        identity.user_id == NIL,
        identity.display_name == display_name,
        holds_kyber_keypair(identity),
        holds_dilithium_keypair(identity),
{
    let (kem_pk, kem_sk) = generate_kyber_keypair();
    let (sig_pk, sig_sk) = generate_dilithium_keypair();
    let identity = Identity {
        user_id: NIL,
        display_name,
        kem_pk_b64: base64_encode(&kem_pk),
        kem_sk_b64: base64_encode(&kem_sk),
        sig_pk_b64: base64_encode(&sig_pk),
        sig_sk_b64: base64_encode(&sig_sk),
    };
    proof {
        assert(kyber_keypair(kem_pk@, kem_sk@));
        assert(dilithium_keypair(sig_pk@, sig_sk@));
    }
    identity
}

/// The directory that holds the identity: the user's choice, where there is
/// one, or else the application-data directory of the operating system.
pub fn identity_dir<P>(chosen: Option<P>, app_data: Option<P>) -> (dir: Result<P, ChatError>)
    ensures
        match (chosen, app_data) {
            (Some(path), _) => dir == Ok::<P, ChatError>(path),
            (None, Some(path)) => dir == Ok::<P, ChatError>(path),
            (None, None) => dir matches Err(error) && error@ == seq![
                "could not resolve app data dir"@,
            ],
        },
{
    match chosen {
        Some(path) => Ok(path),
        None => match app_data {
            Some(path) => Ok(path),
            None => Err(ChatError::new("could not resolve app data dir".to_string())),
        },
    }
}

} // verus!
