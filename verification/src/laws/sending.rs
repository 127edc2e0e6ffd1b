//! What is sent of a message, and when.
use vstd::prelude::*;
use vstd::utf8::*;

use crate::client::flows::{
    carries, fields_decode, sending_obstacle, signed_frame, signing_obstacle, well_signed,
};
use crate::crypto::{
    aes_gcm_decrypted, aes_gcm_encrypted, dilithium_accepts, dilithium_keypair, dilithium_signature,
    kyber_keypair, open_outcome, seal_outcome, signed_payload, verify_outcome,
    DILITHIUM_SECRET_KEY_BYTES, MAX_PLAINTEXT_BYTES, NONCE_BYTES,
};
use crate::encoding::{base64_decoded, base64_encoded, Decoded};
use crate::error::Messages;
use crate::identity::{holds_dilithium_keypair, holds_kyber_keypair, stands_for, Identity};
use crate::protocol::{Epoch, Request, ServerId};
use crate::state::Client;
use crate::text::decimal_text;

verus! {

/// A text goes out exactly when there is an identity, the client is in the server
/// and holds the key of the server's current epoch, the text is not too long, the
/// signing key decodes to the right length, and there is a connection. Otherwise
/// the first of these that fails is reported.
pub proof fn law_what_stands_in_the_way_of_a_text(
    client: Client,
    server_id: ServerId,
    text: Seq<char>,
)
    ensures
        client.identity is None ==> sending_obstacle(client, server_id, text) == Some(
            seq!["no identity loaded"@],
        ),
        client.identity matches Some(identity) ==> {
            let there = client.channels.contains_key(server_id);
            let channel = client.channels[server_id];
            let held = channel.keys.contains_key(channel.epoch);
            let fits = encode_utf8(text).len() <= MAX_PLAINTEXT_BYTES;
            let sk = base64_decoded(identity.sig_sk_b64@);
            let found = sending_obstacle(client, server_id, text);
            &&& !there ==> found == Some(seq!["you are not in this server"@])
            &&& there && !held ==> found == Some(
                seq!["no group key for current epoch — wait for key distribution"@],
            )
            &&& there && held && !fits ==> found == Some(
                seq!["AES-GCM seal failed: "@ + "aead::Error"@],
            )
            &&& there && held && fits && sk is Err ==> found == Some(seq![sk->Err_0])
            &&& there && held && fits && sk is Ok && sk->Ok_0.len() != DILITHIUM_SECRET_KEY_BYTES
                ==> found == Some(
                seq![
                    "invalid Dilithium3 secret key: "@ + ("BadLength { name: \""@ + "SecretKey"@
                        + "\", actual: "@ + decimal_text(sk->Ok_0.len()) + ", expected: "@
                        + decimal_text(DILITHIUM_SECRET_KEY_BYTES as nat) + " }"@),
                ],
            )
            &&& there && held && fits && sk is Ok && sk->Ok_0.len() == DILITHIUM_SECRET_KEY_BYTES
                && !client.connected ==> found == Some(seq!["not connected"@])
            &&& there && held && fits && sk is Ok && sk->Ok_0.len() == DILITHIUM_SECRET_KEY_BYTES
                && client.connected ==> found is None
        },
{
}

/// A frame that carries a text names the server and the epoch, and its fields
/// decode to a 12-byte nonce, to what AES-GCM makes of the text under the key with
/// that nonce, and to the signature of server, epoch, nonce and ciphertext with
/// the signing key.
pub proof fn law_a_frame_holds_the_sealed_and_signed_text(
    frame: Request,
    server_id: ServerId,
    epoch: Epoch,
    key: Seq<u8>,
    sk: Seq<u8>,
    text: Seq<char>,
)
    requires
        carries(frame, server_id, epoch, key, sk, text),
    ensures
        frame is SendMessage,
        frame->SendMessage_server_id == server_id,
        frame->SendMessage_epoch == epoch,
        exists|nonce: Seq<u8>|
            {
                let ciphertext = #[trigger] aes_gcm_encrypted(key, nonce, encode_utf8(text));
                let signature = dilithium_signature(
                    sk,
                    signed_payload(server_id, epoch, nonce, ciphertext),
                );
                &&& nonce.len() == NONCE_BYTES
                &&& frame->SendMessage_nonce == base64_encoded(nonce)
                &&& frame->SendMessage_ciphertext == base64_encoded(ciphertext)
                &&& frame->SendMessage_signature == base64_encoded(signature)
                &&& base64_decoded(frame->SendMessage_nonce) == Decoded::Ok(nonce)
                &&& base64_decoded(frame->SendMessage_ciphertext) == Decoded::Ok(ciphertext)
                &&& base64_decoded(frame->SendMessage_signature) == Decoded::Ok(signature)
                &&& aes_gcm_decrypted(key, nonce, ciphertext) == Some(encode_utf8(text))
            },
{
    let (nonce, ciphertext, signature) = choose|
        nonce: Seq<u8>,
        ciphertext: Seq<u8>,
        signature: Seq<u8>,
    |
        frame == #[trigger] signed_frame(server_id, epoch, nonce, ciphertext, signature)
            && fields_decode(nonce, ciphertext, signature) && nonce.len() == NONCE_BYTES
            && seal_outcome(key, nonce, encode_utf8(text)) == Ok::<Seq<u8>, Messages>(ciphertext)
            && open_outcome(key, nonce, ciphertext) == Ok::<Seq<u8>, Messages>(encode_utf8(text))
            && well_signed(server_id, epoch, nonce, ciphertext, sk, signature);
    assert(ciphertext == aes_gcm_encrypted(key, nonce, encode_utf8(text)));
}

/// The frame of a signed ciphertext holds the base64 of its three parts, each in
/// its place.
pub proof fn law_a_signed_frame_holds_its_parts(
    server_id: ServerId,
    epoch: Epoch,
    nonce: Seq<u8>,
    ciphertext: Seq<u8>,
    signature: Seq<u8>,
)
    ensures
        ({
            let frame = signed_frame(server_id, epoch, nonce, ciphertext, signature);
            &&& frame is SendMessage
            &&& frame->SendMessage_server_id == server_id
            &&& frame->SendMessage_epoch == epoch
            &&& frame->SendMessage_nonce == base64_encoded(nonce)
            &&& frame->SendMessage_ciphertext == base64_encoded(ciphertext)
            &&& frame->SendMessage_signature == base64_encoded(signature)
        }),
        fields_decode(nonce, ciphertext, signature) ==> {
            &&& base64_decoded(base64_encoded(nonce)) == Decoded::Ok(nonce)
            &&& base64_decoded(base64_encoded(ciphertext)) == Decoded::Ok(ciphertext)
            &&& base64_decoded(base64_encoded(signature)) == Decoded::Ok(signature)
        },
{
}

/// A well-signed ciphertext carries the signature of server, epoch, nonce and
/// ciphertext, and every public key that belongs to the signing key accepts it.
pub proof fn law_a_ciphertext_is_signed_with_its_place(
    server_id: ServerId,
    epoch: Epoch,
    nonce: Seq<u8>,
    ciphertext: Seq<u8>,
    sk: Seq<u8>,
    signature: Seq<u8>,
    pk: Seq<u8>,
)
    requires
        well_signed(server_id, epoch, nonce, ciphertext, sk, signature),
    ensures
        signature == dilithium_signature(sk, signed_payload(server_id, epoch, nonce, ciphertext)),
        dilithium_keypair(pk, sk) ==> dilithium_accepts(
            pk,
            signed_payload(server_id, epoch, nonce, ciphertext),
            signature,
        ),
{
    if dilithium_keypair(pk, sk) {
        assert(verify_outcome(
            pk,
            signed_payload(server_id, epoch, nonce, ciphertext),
            signature,
        ) is Ok);
    }
}

/// What can be signed with an identity: anything, exactly when its signing key
/// decodes to the length of a Dilithium3 secret key.
pub proof fn law_who_can_sign(identity: Identity)
    ensures
        match base64_decoded(identity.sig_sk_b64@) {
            Err(reason) => signing_obstacle(identity) == Some(seq![reason]),
            Ok(sk) => signing_obstacle(identity) is None <==> sk.len()
                == DILITHIUM_SECRET_KEY_BYTES,
        },
{
}

/// An identity that holds key pairs holds, as base64 that decodes, the two halves
/// of a Kyber key pair and of a Dilithium key pair, each half in its own field.
pub proof fn law_identities_hold_key_pairs(identity: Identity)
    ensures
        holds_kyber_keypair(identity) ==> exists|pk: Seq<u8>, sk: Seq<u8>| #[trigger]
            kyber_keypair(pk, sk) && identity.kem_pk_b64@ == base64_encoded(pk)
                && identity.kem_sk_b64@ == base64_encoded(sk) && base64_decoded(
                identity.kem_pk_b64@,
            ) == Decoded::Ok(pk) && base64_decoded(identity.kem_sk_b64@) == Decoded::Ok(sk),
        holds_dilithium_keypair(identity) ==> exists|pk: Seq<u8>, sk: Seq<u8>| #[trigger]
            dilithium_keypair(pk, sk) && identity.sig_pk_b64@ == base64_encoded(pk)
                && identity.sig_sk_b64@ == base64_encoded(sk) && base64_decoded(
                identity.sig_pk_b64@,
            ) == Decoded::Ok(pk) && base64_decoded(identity.sig_sk_b64@) == Decoded::Ok(sk),
{
    if holds_kyber_keypair(identity) {
        let (pk, sk) = choose|pk: Seq<u8>, sk: Seq<u8>| #[trigger]
            kyber_keypair(pk, sk) && stands_for(identity.kem_pk_b64@, pk)
                && stands_for(identity.kem_sk_b64@, sk);
        assert(kyber_keypair(pk, sk));
    }
    if holds_dilithium_keypair(identity) {
        let (pk, sk) = choose|pk: Seq<u8>, sk: Seq<u8>| #[trigger]
            dilithium_keypair(pk, sk) && stands_for(identity.sig_pk_b64@, pk) && stands_for(
                identity.sig_sk_b64@,
                sk,
            );
        assert(dilithium_keypair(pk, sk));
    }
}

} // verus!
