//! What the cryptographic envelope is made of.
use vstd::bytes::{spec_u64_to_le_bytes_open, spec_u64_to_le_bytes_to_open};
use vstd::prelude::*;

use crate::crypto::{
    aes_gcm_decrypted, aes_gcm_encrypted, dilithium_accepts, dilithium_signature, envelope,
    kyber_decapsulated, kyber_encapsulation, open_outcome, seal_outcome, sign_outcome,
    signed_payload, unwrap_outcome, verify_outcome, wraps_for, DILITHIUM_PUBLIC_KEY_BYTES,
    DILITHIUM_SECRET_KEY_BYTES, DILITHIUM_SIGNATURE_BYTES, KYBER_CIPHERTEXT_BYTES,
    KYBER_SECRET_KEY_BYTES, MAX_PLAINTEXT_BYTES,
};
use crate::encoding::{base64_decoded, decode_field_outcome, decode_outcome};
use crate::error::Messages;
use crate::ids::id_bytes;
use crate::protocol::{Epoch, ServerId};
use crate::text::decimal_text;

verus! {

/// Base64 decodes to the decoder's bytes, and to its complaint where it has one;
/// for a field of a frame, the complaint follows the name of the field.
pub proof fn law_base64_fields_decode(text: Seq<char>, field: Seq<char>)
    ensures
        match base64_decoded(text) {
            Ok(bytes) => {
                &&& decode_outcome(text) == Ok::<Seq<u8>, Messages>(bytes)
                &&& decode_field_outcome(text, field) == Ok::<Seq<u8>, Messages>(bytes)
            },
            Err(reason) => {
                &&& decode_outcome(text) == Err::<Seq<u8>, Messages>(seq![reason])
                &&& decode_field_outcome(text, field) == Err::<Seq<u8>, Messages>(
                    seq![field, reason],
                )
            },
        },
{
    if base64_decoded(text) is Err {
        assert(decode_field_outcome(text, field)->Err_0 =~= seq![field, base64_decoded(
            text,
        )->Err_0]);
    }
}

/// A key of the right length signs every message, with the signature of exactly
/// that message; one of another length signs nothing.
pub proof fn law_signing(sk: Seq<u8>, message: Seq<u8>)
    ensures
        sk.len() == DILITHIUM_SECRET_KEY_BYTES ==> sign_outcome(sk, message) == Ok::<
            Seq<u8>,
            Messages,
        >(dilithium_signature(sk, message)),
        sk.len() != DILITHIUM_SECRET_KEY_BYTES ==> sign_outcome(sk, message) == Err::<
            Seq<u8>,
            Messages,
        >(
            seq![
                "invalid Dilithium3 secret key: "@ + ("BadLength { name: \""@ + "SecretKey"@
                    + "\", actual: "@ + decimal_text(sk.len()) + ", expected: "@ + decimal_text(
                    DILITHIUM_SECRET_KEY_BYTES as nat,
                ) + " }"@),
            ],
        ),
{
}

/// A signature is accepted exactly when public key and signature have their
/// lengths and Dilithium3 accepts it for exactly that message.
pub proof fn law_verifying(pk: Seq<u8>, message: Seq<u8>, sig: Seq<u8>)
    ensures
        verify_outcome(pk, message, sig) is Ok <==> (pk.len() == DILITHIUM_PUBLIC_KEY_BYTES
            && sig.len() <= DILITHIUM_SIGNATURE_BYTES && dilithium_accepts(pk, message, sig)),
        pk.len() != DILITHIUM_PUBLIC_KEY_BYTES ==> verify_outcome(pk, message, sig) == Err::<
            (),
            Messages,
        >(
            seq![
                "invalid Dilithium3 public key: "@ + ("BadLength { name: \""@ + "PublicKey"@
                    + "\", actual: "@ + decimal_text(pk.len()) + ", expected: "@ + decimal_text(
                    DILITHIUM_PUBLIC_KEY_BYTES as nat,
                ) + " }"@),
            ],
        ),
        pk.len() == DILITHIUM_PUBLIC_KEY_BYTES && sig.len() > DILITHIUM_SIGNATURE_BYTES
            ==> verify_outcome(pk, message, sig) == Err::<(), Messages>(
            seq![
                "invalid Dilithium3 signature: "@ + ("BadLength { name: \""@
                    + "DetachedSignature"@ + "\", actual: "@ + decimal_text(sig.len())
                    + ", expected: "@ + decimal_text(DILITHIUM_SIGNATURE_BYTES as nat) + " }"@),
            ],
        ),
        pk.len() == DILITHIUM_PUBLIC_KEY_BYTES && sig.len() <= DILITHIUM_SIGNATURE_BYTES
            && !dilithium_accepts(pk, message, sig) ==> verify_outcome(pk, message, sig) == Err::<
            (),
            Messages,
        >(seq!["Dilithium3 signature verification failed"@]),
{
}

/// An envelope is the ciphertext as it is, followed by the key, byte by byte XOR
/// the shared secret.
pub proof fn law_envelope_layout(ct: Seq<u8>, ss: Seq<u8>, key: Seq<u8>)
    ensures
        envelope(ct, ss, key).len() == ct.len() + key.len(),
        forall|i: int| 0 <= i < ct.len() ==> #[trigger] envelope(ct, ss, key)[i] == ct[i],
        forall|i: int|
            0 <= i < key.len() ==> envelope(ct, ss, key)[ct.len() + i] == #[trigger] key[i]
                ^ ss[i],
{
}

/// What is wrapped for a public key begins with a ciphertext of Kyber for that
/// public key and ends with the key XOR the shared secret of that ciphertext.
pub proof fn law_wrapping(pk: Seq<u8>, key: Seq<u8>, wrapped: Seq<u8>)
    requires
        wraps_for(pk, key, wrapped),
    ensures
        wrapped.len() == KYBER_CIPHERTEXT_BYTES + key.len(),
        exists|ss: Seq<u8>|
            {
                &&& #[trigger] kyber_encapsulation(
                    pk,
                    ss,
                    wrapped.take(KYBER_CIPHERTEXT_BYTES as int),
                )
                &&& ss.len() == 32
                &&& forall|i: int|
                    0 <= i < key.len() ==> wrapped[KYBER_CIPHERTEXT_BYTES + i] == #[trigger] key[i]
                        ^ ss[i]
            },
{
    let (ss, ct) = choose|ss: Seq<u8>, ct: Seq<u8>| #[trigger]
        kyber_encapsulation(pk, ss, ct) && ss.len() == 32 && ct.len() == KYBER_CIPHERTEXT_BYTES
            && wrapped == envelope(ct, ss, key);
    assert(wrapped.take(KYBER_CIPHERTEXT_BYTES as int) =~= ct);
    assert(kyber_encapsulation(pk, ss, wrapped.take(KYBER_CIPHERTEXT_BYTES as int)));
}

/// An envelope opens exactly when it and the secret key have their lengths: to its
/// last 32 bytes, each XOR the secret that decapsulating the rest finds.
pub proof fn law_unwrapping(sk: Seq<u8>, wrapped: Seq<u8>)
    ensures
        wrapped.len() == KYBER_CIPHERTEXT_BYTES + 32 && sk.len() == KYBER_SECRET_KEY_BYTES ==> (
        unwrap_outcome(sk, wrapped) matches Ok(key) && key.len() == 32 && forall|i: int|
            0 <= i < 32 ==> #[trigger] key[i] == wrapped[KYBER_CIPHERTEXT_BYTES + i]
                ^ kyber_decapsulated(sk, wrapped.take(KYBER_CIPHERTEXT_BYTES as int))[i]),
        wrapped.len() != KYBER_CIPHERTEXT_BYTES + 32 ==> unwrap_outcome(sk, wrapped) == Err::<
            Seq<u8>,
            Messages,
        >(
            seq![
                "wrapped envelope wrong size: got "@ + decimal_text(wrapped.len())
                    + ", expected "@ + decimal_text((KYBER_CIPHERTEXT_BYTES + 32) as nat),
            ],
        ),
        wrapped.len() == KYBER_CIPHERTEXT_BYTES + 32 && sk.len() != KYBER_SECRET_KEY_BYTES
            ==> unwrap_outcome(sk, wrapped) == Err::<Seq<u8>, Messages>(
            seq![
                "invalid Kyber secret key: "@ + ("BadLength { name: \""@ + "SecretKey"@
                    + "\", actual: "@ + decimal_text(sk.len()) + ", expected: "@ + decimal_text(
                    KYBER_SECRET_KEY_BYTES as nat,
                ) + " }"@),
            ],
        ),
{
}

/// A plaintext within the limit is sealed as AES-GCM seals it under exactly that
/// key and nonce; a longer one is refused.
pub proof fn law_sealing(key: Seq<u8>, nonce: Seq<u8>, plaintext: Seq<u8>)
    ensures
        plaintext.len() <= MAX_PLAINTEXT_BYTES ==> seal_outcome(key, nonce, plaintext) == Ok::<
            Seq<u8>,
            Messages,
        >(aes_gcm_encrypted(key, nonce, plaintext)),
        plaintext.len() > MAX_PLAINTEXT_BYTES ==> seal_outcome(key, nonce, plaintext) == Err::<
            Seq<u8>,
            Messages,
        >(seq!["AES-GCM seal failed: "@ + "aead::Error"@]),
{
}

/// A ciphertext with a nonce of 12 bytes opens to what AES-GCM decrypts it to
/// under exactly that key and nonce; anything else is refused.
pub proof fn law_opening(key: Seq<u8>, nonce: Seq<u8>, ciphertext: Seq<u8>)
    ensures
        nonce.len() != 12 ==> open_outcome(key, nonce, ciphertext) == Err::<Seq<u8>, Messages>(
            seq!["AES-GCM nonce must be 12 bytes, got "@ + decimal_text(nonce.len())],
        ),
        nonce.len() == 12 ==> match aes_gcm_decrypted(key, nonce, ciphertext) {
            Some(plaintext) => open_outcome(key, nonce, ciphertext) == Ok::<Seq<u8>, Messages>(
                plaintext,
            ),
            None => open_outcome(key, nonce, ciphertext) == Err::<Seq<u8>, Messages>(
                seq!["AES-GCM open failed: "@ + "aead::Error"@],
            ),
        },
{
}

/// The signed payload is the sixteen bytes of the server, the most significant
/// first, the eight bytes of the epoch, the least significant first, the nonce and
/// the ciphertext.
pub proof fn law_payload_layout(
    server_id: ServerId,
    epoch: Epoch,
    nonce: Seq<u8>,
    ciphertext: Seq<u8>,
)
    ensures
        ({
            let payload = signed_payload(server_id, epoch, nonce, ciphertext);
            &&& payload.len() == 24 + nonce.len() + ciphertext.len()
            &&& forall|i: int|
                0 <= i < 16 ==> #[trigger] payload[i] == ((server_id >> ((8 * (15 - i)) as u128))
                    & 0xff) as u8
            &&& payload[16] == (epoch & 0xff) as u8
            &&& payload[17] == ((epoch >> 8) & 0xff) as u8
            &&& payload[18] == ((epoch >> 16) & 0xff) as u8
            &&& payload[19] == ((epoch >> 24) & 0xff) as u8
            &&& payload[20] == ((epoch >> 32) & 0xff) as u8
            &&& payload[21] == ((epoch >> 40) & 0xff) as u8
            &&& payload[22] == ((epoch >> 48) & 0xff) as u8
            &&& payload[23] == ((epoch >> 56) & 0xff) as u8
            &&& payload.subrange(24, 24 + nonce.len() as int) == nonce
            &&& payload.skip(24 + nonce.len() as int) == ciphertext
        }),
{
    let payload = signed_payload(server_id, epoch, nonce, ciphertext);
    spec_u64_to_le_bytes_to_open(epoch);
    let le = spec_u64_to_le_bytes_open(epoch);
    assert(le.len() == 8);
    assert forall|i: int| 0 <= i < 16 implies #[trigger] payload[i] == ((server_id >> ((8 * (15
        - i)) as u128)) & 0xff) as u8 by {
        assert(payload[i] == id_bytes(server_id)[i]);
    }
    assert(payload[16] == le[0] && payload[17] == le[1] && payload[18] == le[2] && payload[19]
        == le[3] && payload[20] == le[4] && payload[21] == le[5] && payload[22] == le[6]
        && payload[23] == le[7]);
    assert(payload.subrange(24, 24 + nonce.len() as int) =~= nonce);
    assert(payload.skip(24 + nonce.len() as int) =~= ciphertext);
}

} // verus!
