//! The cryptographic envelope of the chat.
//!
//! The relay never sees any of this: it checks Dilithium signatures over the
//! login challenge and over message frames, with public keys uploaded at
//! registration, and nothing else.
use aes_gcm::aead::{Aead, AeadCore, KeyInit};
use pqcrypto_dilithium::dilithium3;
use pqcrypto_kyber::kyber768;
use pqcrypto_traits::kem::{Ciphertext, SharedSecret};
use rand::RngCore;
use vstd::bytes::{
    lemma_auto_spec_u64_to_from_le_bytes, spec_u64_to_le_bytes, u64_to_le_bytes,
};
use vstd::prelude::*;
use vstd::slice::{slice_subrange, slice_to_vec};

use crate::error::{outcome, ChatError, Messages};
use crate::ids::{id_bytes, law_id_bytes_identify, uuid_bytes, ServerId};
use crate::text::{decimal, decimal_text, followed_by};

verus! {

/// A 32-byte AES-256 key that the members of a channel share.
pub type GroupKey = [u8; 32];

/// Length of a Kyber768 public key.
pub const KYBER_PUBLIC_KEY_BYTES: usize = 1184;

/// Length of a Kyber768 secret key.
pub const KYBER_SECRET_KEY_BYTES: usize = 2400;

/// Length of a Kyber768 ciphertext.
pub const KYBER_CIPHERTEXT_BYTES: usize = 1088;

/// Length of a wrapped group key: a Kyber768 ciphertext and the masked key.
pub const ENVELOPE_BYTES: usize = 1120;

/// Length of a Dilithium3 public key.
pub const DILITHIUM_PUBLIC_KEY_BYTES: usize = 1952;

/// Length of a Dilithium3 secret key.
pub const DILITHIUM_SECRET_KEY_BYTES: usize = 4032;

/// Length of a Dilithium3 signature.
pub const DILITHIUM_SIGNATURE_BYTES: usize = 3309;

/// Length of an AES-GCM nonce.
pub const NONCE_BYTES: usize = 12;

/// Length of the tag that AES-GCM appends to a ciphertext.
pub const TAG_BYTES: usize = 16;

/// The longest plaintext that AES-GCM seals.
pub const MAX_PLAINTEXT_BYTES: u64 = 0x10_0000_0000;

// ----------------------------------------------------------------------------
// Names for what the cryptographic crates compute
// ----------------------------------------------------------------------------

/// Whether `pqcrypto_kyber::kyber768::keypair` can give this public and secret key.
pub uninterp spec fn kyber_keypair(pk: Seq<u8>, sk: Seq<u8>) -> bool;

/// Whether `pqcrypto_kyber::kyber768::encapsulate` can give this shared secret
/// and this ciphertext for the public key.
pub uninterp spec fn kyber_encapsulation(pk: Seq<u8>, ss: Seq<u8>, ct: Seq<u8>) -> bool;

/// The shared secret that `pqcrypto_kyber::kyber768::decapsulate` finds.
pub uninterp spec fn kyber_decapsulated(sk: Seq<u8>, ct: Seq<u8>) -> Seq<u8>;

/// Whether `pqcrypto_dilithium::dilithium3::keypair` can give this public and
/// secret key.
pub uninterp spec fn dilithium_keypair(pk: Seq<u8>, sk: Seq<u8>) -> bool;

/// The signature that `pqcrypto_dilithium::dilithium3::detached_sign` makes.
pub uninterp spec fn dilithium_signature(sk: Seq<u8>, message: Seq<u8>) -> Seq<u8>;

/// Whether `pqcrypto_dilithium::dilithium3::verify_detached_signature` accepts
/// the signature.
pub uninterp spec fn dilithium_accepts(pk: Seq<u8>, message: Seq<u8>, sig: Seq<u8>) -> bool;

/// What `encrypt` of `aes_gcm::Aes256Gcm` gives for a plaintext it accepts.
pub uninterp spec fn aes_gcm_encrypted(key: Seq<u8>, nonce: Seq<u8>, plaintext: Seq<u8>) -> Seq<u8>;

/// What `decrypt` of `aes_gcm::Aes256Gcm` gives: a plaintext, or nothing where
/// it refuses the ciphertext.
pub uninterp spec fn aes_gcm_decrypted(key: Seq<u8>, nonce: Seq<u8>, ciphertext: Seq<u8>) -> Option<
    Seq<u8>,
>;

/// How a `pqcrypto_traits::Error` about a length is written out.
pub open spec fn bad_length(name: Seq<char>, actual: nat, expected: nat) -> Seq<char> {
    "BadLength { name: \""@ + name + "\", actual: "@ + decimal_text(actual) + ", expected: "@
        + decimal_text(expected) + " }"@
}

// ----------------------------------------------------------------------------
// Keypair generation
// ----------------------------------------------------------------------------

/// Calls `pqcrypto_kyber::kyber768::keypair`: a fresh public key and secret key,
/// which are a key pair of Kyber768 and have its lengths.
#[verifier::external_body]
pub fn generate_kyber_keypair() -> (keys: (Vec<u8>, Vec<u8>))
    ensures
        kyber_keypair(keys.0@, keys.1@),
        keys.0@.len() == KYBER_PUBLIC_KEY_BYTES,
        keys.1@.len() == KYBER_SECRET_KEY_BYTES,
{
    let (pk, sk) = kyber768::keypair();
    (
        pqcrypto_traits::kem::PublicKey::as_bytes(&pk).to_vec(),
        pqcrypto_traits::kem::SecretKey::as_bytes(&sk).to_vec(),
    )
}

/// Calls `pqcrypto_dilithium::dilithium3::keypair`: a fresh public key and secret
/// key, which are a key pair of Dilithium3 and have its lengths.
#[verifier::external_body]
pub fn generate_dilithium_keypair() -> (keys: (Vec<u8>, Vec<u8>))
    ensures
        dilithium_keypair(keys.0@, keys.1@),
        keys.0@.len() == DILITHIUM_PUBLIC_KEY_BYTES,
        keys.1@.len() == DILITHIUM_SECRET_KEY_BYTES,
{
    let (pk, sk) = dilithium3::keypair();
    (
        pqcrypto_traits::sign::PublicKey::as_bytes(&pk).to_vec(),
        pqcrypto_traits::sign::SecretKey::as_bytes(&sk).to_vec(),
    )
}

/// Calls `fill_bytes` of `rand::rngs::OsRng`: 32 random bytes, of which nothing
/// else is known.
#[verifier::external_body]
pub fn random_group_key() -> GroupKey {
    let mut key = [0u8; 32];
    rand::rngs::OsRng.fill_bytes(&mut key);
    key
}

// ----------------------------------------------------------------------------
// Dilithium3 signatures
// ----------------------------------------------------------------------------

/// Calls `pqcrypto_dilithium::dilithium3::SecretKey::from_bytes` and
/// `pqcrypto_dilithium::dilithium3::detached_sign`. A secret key of the wrong
/// length is refused with the text of the error. The signature depends on the
/// secret key and the message alone, and every public key that belongs to the
/// secret key accepts it.
#[verifier::external_body]
fn dilithium_detached_sign(sk: &[u8], message: &[u8]) -> (sig: Result<Vec<u8>, String>)
    ensures
        match sig {
            Ok(sig) => {
                &&& sk@.len() == DILITHIUM_SECRET_KEY_BYTES
                &&& sig@ == dilithium_signature(sk@, message@)
                &&& sig@.len() == DILITHIUM_SIGNATURE_BYTES
                &&& forall|pk: Seq<u8>| #[trigger]
                    dilithium_keypair(pk, sk@) ==> pk.len() == DILITHIUM_PUBLIC_KEY_BYTES
                        && dilithium_accepts(pk, message@, sig@)
            },
            Err(reason) => {
                &&& sk@.len() != DILITHIUM_SECRET_KEY_BYTES
                &&& reason@ == bad_length(
                    "SecretKey"@,
                    sk@.len(),
                    DILITHIUM_SECRET_KEY_BYTES as nat,
                )
            },
        },
{
    let sk: dilithium3::SecretKey = pqcrypto_traits::sign::SecretKey::from_bytes(sk)
        .map_err(|e| format!("{e:?}"))?;
    let sig = dilithium3::detached_sign(message, &sk);
    Ok(pqcrypto_traits::sign::DetachedSignature::as_bytes(&sig).to_vec())
}

/// Why a signature was not accepted.
enum VerifyFailure {
    /// The public key is malformed.
    PublicKey(String),
    /// The signature is malformed.
    Signature(String),
    /// The signature does not belong to the message and the public key.
    Mismatch,
}

/// Calls `pqcrypto_dilithium::dilithium3::PublicKey::from_bytes`,
/// `pqcrypto_dilithium::dilithium3::DetachedSignature::from_bytes` and
/// `pqcrypto_dilithium::dilithium3::verify_detached_signature`. A public key of
/// the wrong length and a signature that is too long are refused, each with the
/// text of its error; otherwise the verdict depends on the public key, the
/// message and the signature alone.
#[verifier::external_body]
fn dilithium_verify_detached(pk: &[u8], message: &[u8], sig: &[u8]) -> (verdict: Result<
    (),
    VerifyFailure,
>)
    ensures
        match verdict {
            Ok(_) => {
                &&& pk@.len() == DILITHIUM_PUBLIC_KEY_BYTES
                &&& sig@.len() <= DILITHIUM_SIGNATURE_BYTES
                &&& dilithium_accepts(pk@, message@, sig@)
            },
            Err(VerifyFailure::PublicKey(reason)) => {
                &&& pk@.len() != DILITHIUM_PUBLIC_KEY_BYTES
                &&& reason@ == bad_length(
                    "PublicKey"@,
                    pk@.len(),
                    DILITHIUM_PUBLIC_KEY_BYTES as nat,
                )
            },
            Err(VerifyFailure::Signature(reason)) => {
                &&& pk@.len() == DILITHIUM_PUBLIC_KEY_BYTES
                &&& sig@.len() > DILITHIUM_SIGNATURE_BYTES
                &&& reason@ == bad_length(
                    "DetachedSignature"@,
                    sig@.len(),
                    DILITHIUM_SIGNATURE_BYTES as nat,
                )
            },
            Err(VerifyFailure::Mismatch) => {
                &&& pk@.len() == DILITHIUM_PUBLIC_KEY_BYTES
                &&& sig@.len() <= DILITHIUM_SIGNATURE_BYTES
                &&& !dilithium_accepts(pk@, message@, sig@)
            },
        },
{
    let pk: dilithium3::PublicKey = pqcrypto_traits::sign::PublicKey::from_bytes(pk)
        .map_err(|e| VerifyFailure::PublicKey(format!("{e:?}")))?;
    let sig: dilithium3::DetachedSignature =
        pqcrypto_traits::sign::DetachedSignature::from_bytes(sig)
        .map_err(|e| VerifyFailure::Signature(format!("{e:?}")))?;
    dilithium3::verify_detached_signature(&sig, message, &pk).map_err(|_| VerifyFailure::Mismatch)
}

/// Why nothing can be signed with the secret key `sk`.
pub open spec fn bad_signing_key(sk: Seq<u8>) -> Messages {
    seq![
        "invalid Dilithium3 secret key: "@ + bad_length(
            "SecretKey"@,
            sk.len(),
            DILITHIUM_SECRET_KEY_BYTES as nat,
        ),
    ]
}

/// The outcome of signing `message` with `sk`.
pub open spec fn sign_outcome(sk: Seq<u8>, message: Seq<u8>) -> Result<Seq<u8>, Messages> {
    if sk.len() == DILITHIUM_SECRET_KEY_BYTES {
        Ok(dilithium_signature(sk, message))
    } else {
        Err(bad_signing_key(sk))
    }
}

/// The outcome of checking the signature `sig` of `message` with `pk`.
pub open spec fn verify_outcome(pk: Seq<u8>, message: Seq<u8>, sig: Seq<u8>) -> Result<
    (),
    Messages,
> {
    if pk.len() != DILITHIUM_PUBLIC_KEY_BYTES {
        Err(
            seq![
                "invalid Dilithium3 public key: "@ + bad_length(
                    "PublicKey"@,
                    pk.len(),
                    DILITHIUM_PUBLIC_KEY_BYTES as nat,
                ),
            ],
        )
    } else if sig.len() > DILITHIUM_SIGNATURE_BYTES {
        Err(
            seq![
                "invalid Dilithium3 signature: "@ + bad_length(
                    "DetachedSignature"@,
                    sig.len(),
                    DILITHIUM_SIGNATURE_BYTES as nat,
                ),
            ],
        )
    } else if dilithium_accepts(pk, message, sig) {
        Ok(())
    } else {
        Err(seq!["Dilithium3 signature verification failed"@])
    }
}

/// Signs `message`. Whoever holds a public key that belongs to the secret key
/// can verify the signature.
pub fn dilithium_sign(sk_bytes: &[u8], message: &[u8]) -> (sig: Result<Vec<u8>, ChatError>)
    ensures
        outcome(sig) == sign_outcome(sk_bytes@, message@),
        sig matches Ok(sig) ==> sig@.len() == DILITHIUM_SIGNATURE_BYTES,
        sig matches Ok(sig) ==> forall|pk: Seq<u8>| #[trigger]
            dilithium_keypair(pk, sk_bytes@) ==> verify_outcome(pk, message@, sig@) is Ok,
{
    match dilithium_detached_sign(sk_bytes, message) {
        Ok(sig) => Ok(sig),
        Err(reason) => Err(
            ChatError::new(followed_by("invalid Dilithium3 secret key: ", reason.as_str())),
        ),
    }
}

/// Checks that `sig_bytes` is a signature of `message` under the public key.
pub fn dilithium_verify(pk_bytes: &[u8], message: &[u8], sig_bytes: &[u8]) -> (verdict: Result<
    (),
    ChatError,
>)
    ensures
        outcome(verdict) == verify_outcome(pk_bytes@, message@, sig_bytes@),
{
    match dilithium_verify_detached(pk_bytes, message, sig_bytes) {
        Ok(_) => Ok(()),
        Err(VerifyFailure::PublicKey(reason)) => Err(
            ChatError::new(followed_by("invalid Dilithium3 public key: ", reason.as_str())),
        ),
        Err(VerifyFailure::Signature(reason)) => Err(
            ChatError::new(followed_by("invalid Dilithium3 signature: ", reason.as_str())),
        ),
        Err(VerifyFailure::Mismatch) => Err(
            ChatError::new("Dilithium3 signature verification failed".to_string()),
        ),
    }
}

// ----------------------------------------------------------------------------
// Kyber768: wrapping and unwrapping a group key
// ----------------------------------------------------------------------------
//
// Encapsulation derives the shared secret from its own randomness, so a chosen
// group key travels masked: the envelope is the Kyber ciphertext followed by
// the group key XOR the shared secret. The mask is as long as the key and is
// used once.

/// Calls `pqcrypto_kyber::kyber768::PublicKey::from_bytes` and
/// `pqcrypto_kyber::kyber768::encapsulate`. A public key of the wrong length is
/// refused with the text of the error; otherwise the result is a fresh shared
/// secret and a ciphertext for the public key. Decapsulating the ciphertext with
/// the matching secret key gives the shared secret with overwhelming
/// probability, not always, so nothing is claimed of that.
#[verifier::external_body]
fn kyber_encapsulate(pk: &[u8]) -> (sent: Result<(Vec<u8>, Vec<u8>), String>)
    ensures
        match sent {
            Ok((ss, ct)) => {
                &&& pk@.len() == KYBER_PUBLIC_KEY_BYTES
                &&& kyber_encapsulation(pk@, ss@, ct@)
                &&& ss@.len() == 32
                &&& ct@.len() == KYBER_CIPHERTEXT_BYTES
            },
            Err(reason) => {
                &&& pk@.len() != KYBER_PUBLIC_KEY_BYTES
                &&& reason@ == bad_length("PublicKey"@, pk@.len(), KYBER_PUBLIC_KEY_BYTES as nat)
            },
        },
{
    let pk: kyber768::PublicKey = pqcrypto_traits::kem::PublicKey::from_bytes(pk)
        .map_err(|e| format!("{e:?}"))?;
    let (ss, ct) = kyber768::encapsulate(&pk);
    Ok((ss.as_bytes().to_vec(), ct.as_bytes().to_vec()))
}

/// Calls `pqcrypto_kyber::kyber768::SecretKey::from_bytes`,
/// `pqcrypto_kyber::kyber768::Ciphertext::from_bytes` and
/// `pqcrypto_kyber::kyber768::decapsulate`. A secret key of the wrong length is
/// refused with the text of the error; otherwise the 32-byte shared secret
/// depends on the secret key and the ciphertext alone.
#[verifier::external_body]
fn kyber_decapsulate(sk: &[u8], ct: &[u8]) -> (ss: Result<Vec<u8>, String>)
    requires
        ct@.len() == KYBER_CIPHERTEXT_BYTES,
    ensures
        match ss {
            Ok(ss) => {
                &&& sk@.len() == KYBER_SECRET_KEY_BYTES
                &&& ss@ == kyber_decapsulated(sk@, ct@)
                &&& ss@.len() == 32
            },
            Err(reason) => {
                &&& sk@.len() != KYBER_SECRET_KEY_BYTES
                &&& reason@ == bad_length("SecretKey"@, sk@.len(), KYBER_SECRET_KEY_BYTES as nat)
            },
        },
{
    let sk: kyber768::SecretKey = pqcrypto_traits::kem::SecretKey::from_bytes(sk)
        .map_err(|e| format!("{e:?}"))?;
    let ct = kyber768::Ciphertext::from_bytes(ct).map_err(|e| format!("{e:?}"))?;
    Ok(kyber768::decapsulate(&ct, &sk).as_bytes().to_vec())
}

/// `pqcrypto_kyber::kyber768::ciphertext_bytes` gives the length of a Kyber768
/// ciphertext.
pub assume_specification[ kyber768::ciphertext_bytes ]() -> (n: usize)
    ensures
        n == KYBER_CIPHERTEXT_BYTES,
;

/// `key` XOR `mask`, byte by byte.
pub open spec fn masked(key: Seq<u8>, mask: Seq<u8>) -> Seq<u8> {
    Seq::new(key.len(), |i: int| key[i] ^ mask[i])
}

/// The envelope that carries `key` masked with the shared secret `ss` behind the
/// Kyber ciphertext `ct`.
pub open spec fn envelope(ct: Seq<u8>, ss: Seq<u8>, key: Seq<u8>) -> Seq<u8> {
    ct + masked(key, ss)
}

/// Whether `wrapped` carries `key` to the owner of the Kyber public key `pk`: it
/// is the envelope of `key` for some encapsulation to that public key.
pub open spec fn wraps_for(pk: Seq<u8>, key: Seq<u8>, wrapped: Seq<u8>) -> bool {
    exists|ss: Seq<u8>, ct: Seq<u8>| #[trigger]
        kyber_encapsulation(pk, ss, ct) && ss.len() == 32 && ct.len() == KYBER_CIPHERTEXT_BYTES
            && wrapped == envelope(ct, ss, key)
}

/// Why a key cannot be wrapped for the public key `pk`.
pub open spec fn bad_recipient(pk: Seq<u8>) -> Messages {
    seq![
        "invalid recipient Kyber pubkey: "@ + bad_length(
            "PublicKey"@,
            pk.len(),
            KYBER_PUBLIC_KEY_BYTES as nat,
        ),
    ]
}

/// The outcome of opening an envelope with the Kyber secret key `sk`.
pub open spec fn unwrap_outcome(sk: Seq<u8>, wrapped: Seq<u8>) -> Result<Seq<u8>, Messages> {
    if wrapped.len() != ENVELOPE_BYTES {
        Err(
            seq![
                "wrapped envelope wrong size: got "@ + decimal_text(wrapped.len()) + ", expected "@
                    + decimal_text(ENVELOPE_BYTES as nat),
            ],
        )
    } else if sk.len() != KYBER_SECRET_KEY_BYTES {
        Err(
            seq![
                "invalid Kyber secret key: "@ + bad_length(
                    "SecretKey"@,
                    sk.len(),
                    KYBER_SECRET_KEY_BYTES as nat,
                ),
            ],
        )
    } else {
        Ok(
            masked(
                wrapped.skip(KYBER_CIPHERTEXT_BYTES as int),
                kyber_decapsulated(sk, wrapped.take(KYBER_CIPHERTEXT_BYTES as int)),
            ),
        )
    }
}

/// XORs 32 bytes with a mask of at least 32 bytes.
fn mask_key(key: &[u8], mask: &[u8]) -> (result: GroupKey)
    requires
        key@.len() == 32,
        mask@.len() >= 32,
    ensures
        result@ == masked(key@, mask@),
{
    let mut result: GroupKey = [0u8; 32];
    for i in 0..32
        invariant
            key@.len() == 32,
            mask@.len() >= 32,
            forall|j: int| 0 <= j < i ==> result@[j] == key@[j] ^ mask@[j],
    {
        result[i] = key[i] ^ mask[i];
    }
    assert(result@ =~= masked(key@, mask@));
    result
}

/// Puts a key and an encapsulation into an envelope.
pub fn seal_envelope(ct: &[u8], ss: &[u8], group_key: &GroupKey) -> (wrapped: Vec<u8>)
    requires
        ss@.len() >= 32,
    ensures
        wrapped@ == envelope(ct@, ss@, group_key@),
{
    let hidden = mask_key(group_key, ss);
    let mut wrapped = slice_to_vec(ct);
    wrapped.extend_from_slice(&hidden);
    wrapped
}

/// Wraps a group key for the owner of a Kyber public key. The envelope opens to
/// the key exactly when decapsulation finds the shared secret again (see
/// [`law_envelope_opens`]).
pub fn wrap_group_key_for(recipient_kem_pk: &[u8], group_key: &GroupKey) -> (wrapped: Result<
    Vec<u8>,
    ChatError,
>)
    ensures
        match wrapped {
            Ok(wrapped) => {
                &&& recipient_kem_pk@.len() == KYBER_PUBLIC_KEY_BYTES
                &&& wraps_for(recipient_kem_pk@, group_key@, wrapped@)
                &&& wrapped@.len() == ENVELOPE_BYTES
            },
            Err(error) => {
                &&& recipient_kem_pk@.len() != KYBER_PUBLIC_KEY_BYTES
                &&& error@ == bad_recipient(recipient_kem_pk@)
            },
        },
{
    match kyber_encapsulate(recipient_kem_pk) {
        Ok((ss, ct)) => Ok(seal_envelope(&ct, &ss, group_key)),
        Err(reason) => Err(
            ChatError::new(followed_by("invalid recipient Kyber pubkey: ", reason.as_str())),
        ),
    }
}

/// Opens an envelope with a Kyber secret key.
pub fn unwrap_group_key(my_kem_sk: &[u8], wrapped: &[u8]) -> (key: Result<GroupKey, ChatError>)
    ensures
        outcome(key) == unwrap_outcome(my_kem_sk@, wrapped@),
{
    let ct_len: usize = kyber768::ciphertext_bytes();
    if wrapped.len() != ct_len + 32 {
        let got = followed_by("wrapped envelope wrong size: got ", decimal(wrapped.len()).as_str());
        let expected = followed_by(", expected ", decimal(ct_len + 32).as_str());
        let message = followed_by(got.as_str(), expected.as_str());
        assert(message@ =~= "wrapped envelope wrong size: got "@ + decimal_text(wrapped@.len())
            + ", expected "@ + decimal_text(ENVELOPE_BYTES as nat));
        return Err(ChatError::new(message));
    }
    let ct = slice_subrange(wrapped, 0, ct_len);
    let hidden = slice_subrange(wrapped, ct_len, wrapped.len());
    proof {
        assert(ct@ =~= wrapped@.take(KYBER_CIPHERTEXT_BYTES as int));
        assert(hidden@ =~= wrapped@.skip(KYBER_CIPHERTEXT_BYTES as int));
    }
    match kyber_decapsulate(my_kem_sk, ct) {
        Ok(ss) => Ok(mask_key(hidden, &ss)),
        Err(reason) => Err(
            ChatError::new(followed_by("invalid Kyber secret key: ", reason.as_str())),
        ),
    }
}

/// Masking twice with the same mask gives the key back, and masking two
/// different keys with one mask gives different results.
pub proof fn law_masking_undoes_itself(key: Seq<u8>, other: Seq<u8>, mask: Seq<u8>)
    ensures
        masked(masked(key, mask), mask) == key,
        key.len() == other.len() && masked(key, mask) == masked(other, mask) ==> key == other,
{
    assert forall|k: Seq<u8>| #[trigger] masked(masked(k, mask), mask) == k by {
        assert forall|i: int| 0 <= i < k.len() implies masked(masked(k, mask), mask)[i]
            == k[i] by {
            let (a, b) = (k[i], mask[i]);
            assert((a ^ b) ^ b == a) by (bit_vector);
        }
        assert(masked(masked(k, mask), mask) =~= k);
    }
}

/// An envelope for a 32-byte `key` opens with the secret key `sk` to `key` if and
/// only if decapsulating its ciphertext with `sk` finds the 32 bytes of the
/// shared secret again.
pub proof fn law_envelope_opens(sk: Seq<u8>, ct: Seq<u8>, ss: Seq<u8>, key: Seq<u8>)
    requires
        sk.len() == KYBER_SECRET_KEY_BYTES,
        ct.len() == KYBER_CIPHERTEXT_BYTES,
        ss.len() == 32,
        key.len() == 32,
    ensures
        (unwrap_outcome(sk, envelope(ct, ss, key)) == Ok::<Seq<u8>, Messages>(key)) <==> (forall|
            i: int,
        |
            0 <= i < 32 ==> #[trigger] kyber_decapsulated(sk, ct)[i] == ss[i]),
{
    let found = kyber_decapsulated(sk, ct);
    let wrapped = envelope(ct, ss, key);
    assert(wrapped.take(KYBER_CIPHERTEXT_BYTES as int) =~= ct);
    assert(wrapped.skip(KYBER_CIPHERTEXT_BYTES as int) =~= masked(key, ss));
    let opened = masked(masked(key, ss), found);
    assert forall|i: int| 0 <= i < 32 implies (opened[i] == key[i] <==> #[trigger] found[i]
        == ss[i]) by {
        let (a, b, c) = (key[i], ss[i], found[i]);
        assert((a ^ b) ^ c == a <==> c == b) by (bit_vector);
    }
    if forall|i: int| 0 <= i < 32 ==> #[trigger] found[i] == ss[i] {
        assert(opened =~= key);
    }
}

// ----------------------------------------------------------------------------
// AES-256-GCM
// ----------------------------------------------------------------------------

/// Calls `generate_nonce` of `aes_gcm::Aes256Gcm`: 12 random bytes, of which
/// nothing else is known.
#[verifier::external_body]
fn fresh_nonce() -> (nonce: Vec<u8>)
    ensures
        nonce@.len() == NONCE_BYTES,
{
    aes_gcm::Aes256Gcm::generate_nonce(&mut aes_gcm::aead::OsRng).to_vec()
}

/// Calls `encrypt` of `aes_gcm::Aes256Gcm`. A plaintext beyond the limit of the
/// cipher is refused with the text of the error. Otherwise the ciphertext
/// depends on the key, the nonce and the plaintext alone, is longer than the
/// plaintext by the tag, and decrypts to the plaintext under the same key and
/// nonce.
#[verifier::external_body]
fn aes_gcm_encrypt(key: &GroupKey, nonce: &[u8], plaintext: &[u8]) -> (ciphertext: Result<
    Vec<u8>,
    String,
>)
    requires
        nonce@.len() == NONCE_BYTES,
    ensures
        match ciphertext {
            Ok(ciphertext) => {
                &&& plaintext@.len() <= MAX_PLAINTEXT_BYTES
                &&& ciphertext@ == aes_gcm_encrypted(key@, nonce@, plaintext@)
                &&& ciphertext@.len() == plaintext@.len() + TAG_BYTES
                &&& aes_gcm_decrypted(key@, nonce@, ciphertext@) == Some(plaintext@)
            },
            Err(reason) => {
                &&& plaintext@.len() > MAX_PLAINTEXT_BYTES
                &&& reason@ == "aead::Error"@
            },
        },
{
    let cipher = aes_gcm::Aes256Gcm::new(aes_gcm::Key::<aes_gcm::Aes256Gcm>::from_slice(key));
    cipher.encrypt(aes_gcm::Nonce::from_slice(nonce), plaintext).map_err(|e| e.to_string())
}

/// Calls `decrypt` of `aes_gcm::Aes256Gcm`. Whether the ciphertext is accepted,
/// and the plaintext, depend on the key, the nonce and the ciphertext alone; the
/// plaintext is shorter than the ciphertext by the tag.
#[verifier::external_body]
fn aes_gcm_decrypt(key: &GroupKey, nonce: &[u8], ciphertext: &[u8]) -> (plaintext: Result<
    Vec<u8>,
    String,
>)
    requires
        nonce@.len() == NONCE_BYTES,
    ensures
        match plaintext {
            Ok(plaintext) => {
                &&& aes_gcm_decrypted(key@, nonce@, ciphertext@) == Some(plaintext@)
                &&& ciphertext@.len() == plaintext@.len() + TAG_BYTES
            },
            Err(reason) => {
                &&& aes_gcm_decrypted(key@, nonce@, ciphertext@) is None
                &&& reason@ == "aead::Error"@
            },
        },
{
    let cipher = aes_gcm::Aes256Gcm::new(aes_gcm::Key::<aes_gcm::Aes256Gcm>::from_slice(key));
    cipher.decrypt(aes_gcm::Nonce::from_slice(nonce), ciphertext).map_err(|e| e.to_string())
}

/// The outcome of sealing `plaintext` under `key` with the given nonce.
pub open spec fn seal_outcome(key: Seq<u8>, nonce: Seq<u8>, plaintext: Seq<u8>) -> Result<
    Seq<u8>,
    Messages,
> {
    if plaintext.len() <= MAX_PLAINTEXT_BYTES {
        Ok(aes_gcm_encrypted(key, nonce, plaintext))
    } else {
        Err(seq!["AES-GCM seal failed: "@ + "aead::Error"@])
    }
}

/// The outcome of opening `ciphertext` under `key` with the given nonce.
pub open spec fn open_outcome(key: Seq<u8>, nonce: Seq<u8>, ciphertext: Seq<u8>) -> Result<
    Seq<u8>,
    Messages,
> {
    if nonce.len() != NONCE_BYTES {
        Err(seq!["AES-GCM nonce must be 12 bytes, got "@ + decimal_text(nonce.len())])
    } else {
        match aes_gcm_decrypted(key, nonce, ciphertext) {
            Some(plaintext) => Ok(plaintext),
            None => Err(seq!["AES-GCM open failed: "@ + "aead::Error"@]),
        }
    }
}

/// Seals a plaintext with a given nonce. What is sealed opens again.
pub fn aes_seal_with(key: &GroupKey, nonce: &[u8], plaintext: &[u8]) -> (ciphertext: Result<
    Vec<u8>,
    ChatError,
>)
    requires
        nonce@.len() == NONCE_BYTES,
    ensures
        outcome(ciphertext) == seal_outcome(key@, nonce@, plaintext@),
        ciphertext matches Ok(ciphertext) ==> {
            &&& ciphertext@.len() == plaintext@.len() + TAG_BYTES
            &&& open_outcome(key@, nonce@, ciphertext@) == Ok::<Seq<u8>, Messages>(plaintext@)
        },
{
    match aes_gcm_encrypt(key, nonce, plaintext) {
        Ok(ciphertext) => Ok(ciphertext),
        Err(reason) => Err(ChatError::new(followed_by("AES-GCM seal failed: ", reason.as_str()))),
    }
}

/// Seals a plaintext with a fresh nonce; gives the nonce and the ciphertext.
/// What is sealed opens again.
pub fn aes_seal(key: &GroupKey, plaintext: &[u8]) -> (sealed: Result<(Vec<u8>, Vec<u8>), ChatError>)
    ensures
        match sealed {
            Ok((nonce, ciphertext)) => {
                &&& nonce@.len() == NONCE_BYTES
                &&& seal_outcome(key@, nonce@, plaintext@) == Ok::<Seq<u8>, Messages>(ciphertext@)
                &&& ciphertext@.len() == plaintext@.len() + TAG_BYTES
                &&& open_outcome(key@, nonce@, ciphertext@) == Ok::<Seq<u8>, Messages>(plaintext@)
            },
            Err(error) => {
                &&& plaintext@.len() > MAX_PLAINTEXT_BYTES
                &&& error@ == seq!["AES-GCM seal failed: "@ + "aead::Error"@]
            },
        },
{
    let nonce = fresh_nonce();
    match aes_seal_with(key, &nonce, plaintext) {
        Ok(ciphertext) => Ok((nonce, ciphertext)),
        Err(error) => Err(error),
    }
}

/// Opens a ciphertext.
pub fn aes_open(key: &GroupKey, nonce: &[u8], ciphertext: &[u8]) -> (plaintext: Result<
    Vec<u8>,
    ChatError,
>)
    ensures
        outcome(plaintext) == open_outcome(key@, nonce@, ciphertext@),
        plaintext matches Ok(plaintext) ==> ciphertext@.len() == plaintext@.len() + TAG_BYTES,
{
    if nonce.len() != 12 {
        return Err(
            ChatError::new(
                followed_by(
                    "AES-GCM nonce must be 12 bytes, got ",
                    decimal(nonce.len()).as_str(),
                ),
            ),
        );
    }
    match aes_gcm_decrypt(key, nonce, ciphertext) {
        Ok(plaintext) => Ok(plaintext),
        Err(reason) => Err(ChatError::new(followed_by("AES-GCM open failed: ", reason.as_str()))),
    }
}

// ----------------------------------------------------------------------------
// The signed part of a message frame
// ----------------------------------------------------------------------------

/// The bytes that the sender of a message signs: server, epoch (little-endian),
/// nonce and ciphertext.
pub open spec fn signed_payload(
    server_id: ServerId,
    epoch: u64,
    nonce: Seq<u8>,
    ciphertext: Seq<u8>,
) -> Seq<u8> {
    id_bytes(server_id) + spec_u64_to_le_bytes(epoch) + nonce + ciphertext
}

/// The bytes that the sender of a message signs. The relay checks the signature
/// over the same layout.
pub fn message_signed_payload(
    server_id: &ServerId,
    epoch: u64,
    nonce: &[u8],
    ciphertext: &[u8],
) -> (payload: Vec<u8>)
    ensures
        payload@ == signed_payload(*server_id, epoch, nonce@, ciphertext@),
{
    let mut payload: Vec<u8> = Vec::new();
    payload.extend_from_slice(&uuid_bytes(*server_id));
    payload.extend_from_slice(&u64_to_le_bytes(epoch));
    payload.extend_from_slice(nonce);
    payload.extend_from_slice(ciphertext);
    assert(payload@ =~= signed_payload(*server_id, epoch, nonce@, ciphertext@));
    payload
}

/// A signed payload determines what it was made of: no two frames with nonces
/// of equal length have the same payload, so a signature cannot be moved to
/// another server, epoch, nonce or ciphertext.
pub proof fn law_payload_binds_frame(
    server_a: ServerId,
    epoch_a: u64,
    nonce_a: Seq<u8>,
    ciphertext_a: Seq<u8>,
    server_b: ServerId,
    epoch_b: u64,
    nonce_b: Seq<u8>,
    ciphertext_b: Seq<u8>,
)
    requires
        nonce_a.len() == nonce_b.len(),
        signed_payload(server_a, epoch_a, nonce_a, ciphertext_a) == signed_payload(
            server_b,
            epoch_b,
            nonce_b,
            ciphertext_b,
        ),
    ensures
        server_a == server_b,
        epoch_a == epoch_b,
        nonce_a == nonce_b,
        ciphertext_a == ciphertext_b,
{
    lemma_auto_spec_u64_to_from_le_bytes();
    let a = signed_payload(server_a, epoch_a, nonce_a, ciphertext_a);
    let b = signed_payload(server_b, epoch_b, nonce_b, ciphertext_b);
    let n = nonce_a.len() as int;
    assert(a.subrange(0, 16) =~= id_bytes(server_a));
    assert(b.subrange(0, 16) =~= id_bytes(server_b));
    law_id_bytes_identify(server_a, server_b);
    assert(a.subrange(16, 24) =~= spec_u64_to_le_bytes(epoch_a));
    assert(b.subrange(16, 24) =~= spec_u64_to_le_bytes(epoch_b));
    assert(a.subrange(24, 24 + n) =~= nonce_a);
    assert(b.subrange(24, 24 + n) =~= nonce_b);
    assert(a.skip(24 + n) =~= ciphertext_a);
    assert(b.skip(24 + n) =~= ciphertext_b);
}

} // verus!
