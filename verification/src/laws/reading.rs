//! What a client shows of the messages it gets.
use vstd::prelude::*;
use vstd::utf8::*;

use crate::client::events::{
    event_handled, law_sealed_exactly_without_key, reading, sender_name, shown, Effects,
};
use crate::client::flows::history_shown;
use crate::client::Notice;
use crate::crypto::{
    aes_gcm_decrypted, dilithium_accepts, signed_payload, DILITHIUM_PUBLIC_KEY_BYTES,
    DILITHIUM_SIGNATURE_BYTES, NONCE_BYTES,
};
use crate::encoding::base64_decoded;
use crate::ids::id_text;
use crate::protocol::{Epoch, MessageId, ServerId, ServerMessage, StoredMessage, Timestamp, UserId};
use crate::state::Client;

verus! {

/// Whether a client holds the key of an epoch of a server.
pub open spec fn key_held(client: Client, server_id: ServerId, epoch: Epoch) -> bool {
    client.channels.contains_key(server_id) && client.channels[server_id].keys.contains_key(epoch)
}

/// Whether a client knows the sender, but the sender's public key does not verify
/// the signature over server, epoch, nonce and ciphertext.
pub open spec fn signature_fails(
    client: Client,
    server_id: ServerId,
    sender: UserId,
    epoch: Epoch,
    nonce: Seq<u8>,
    ciphertext: Seq<u8>,
    signature: Seq<u8>,
) -> bool {
    let members = client.channels[server_id].members;
    members.contains_key(sender) && !(members[sender].sig_public_key.len()
        == DILITHIUM_PUBLIC_KEY_BYTES && signature.len() <= DILITHIUM_SIGNATURE_BYTES
        && dilithium_accepts(
        members[sender].sig_public_key,
        signed_payload(server_id, epoch, nonce, ciphertext),
        signature,
    ))
}

/// A message of an epoch whose key is not held is sealed; one whose known sender
/// did not sign it has a bad signature; of any other, the key of the message's own
/// epoch decides: what it decrypts to is the text if that is UTF-8, and otherwise
/// decryption has failed. No text is shown but in the one case.
pub proof fn law_every_message_is_read_with_its_own_key(
    client: Client,
    server_id: ServerId,
    sender: UserId,
    epoch: Epoch,
    nonce: Seq<u8>,
    ciphertext: Seq<u8>,
    signature: Seq<u8>,
)
    ensures
        ({
            let read = reading(client, server_id, sender, epoch, nonce, ciphertext, signature);
            let bad = signature_fails(
                client,
                server_id,
                sender,
                epoch,
                nonce,
                ciphertext,
                signature,
            );
            let opened = aes_gcm_decrypted(
                client.channels[server_id].keys[epoch],
                nonce,
                ciphertext,
            );
            let readable = nonce.len() == NONCE_BYTES && opened is Some && valid_utf8(
                opened->Some_0,
            );
            &&& !key_held(client, server_id, epoch) ==> read.plaintext is None && read.status
                == "sealed"@
            &&& key_held(client, server_id, epoch) && bad ==> read.plaintext is None
                && read.status == "bad_sig"@
            &&& key_held(client, server_id, epoch) && !bad && readable ==> read.plaintext == Some(
                decode_utf8(opened->Some_0),
            ) && read.status == "ok"@
            &&& key_held(client, server_id, epoch) && !bad && !readable ==> read.plaintext is None
                && read.status == "decrypt_failed"@
        }),
{
}

/// A known sender is shown by name, any other by the first eight characters of
/// the identifier.
pub proof fn law_senders_are_shown_by_name(client: Client, server_id: ServerId, sender: UserId)
    ensures
        client.channels.contains_key(server_id)
            && client.channels[server_id].members.contains_key(sender) ==> sender_name(
            client,
            server_id,
            sender,
        ) == client.channels[server_id].members[sender].display_name,
        !(client.channels.contains_key(server_id)
            && client.channels[server_id].members.contains_key(sender)) ==> sender_name(
            client,
            server_id,
            sender,
        ) == id_text(sender).subrange(0, 8),
{
}

/// What is shown of a message says of it what its frame says, and the text and
/// status are those of reading it.
pub proof fn law_messages_are_shown_as_they_are(
    client: Client,
    server_id: ServerId,
    message_id: MessageId,
    sender: UserId,
    epoch: Epoch,
    nonce: Seq<u8>,
    ciphertext: Seq<u8>,
    signature: Seq<u8>,
    timestamp: Timestamp,
)
    ensures
        ({
            let message = shown(
                client,
                server_id,
                message_id,
                sender,
                epoch,
                nonce,
                ciphertext,
                signature,
                timestamp,
            );
            let read = reading(client, server_id, sender, epoch, nonce, ciphertext, signature);
            &&& message.server_id == server_id
            &&& message.message_id == message_id
            &&& message.sender_id == sender
            &&& message.sender_name == sender_name(client, server_id, sender)
            &&& message.epoch == epoch
            &&& message.timestamp == timestamp
            &&& message.plaintext == read.plaintext
            &&& message.status == read.status
        }),
{
}

/// A message that arrives changes nothing in the client. Where its fields decode,
/// it is shown as its bytes read; where one does not, the first such field is
/// named and nothing is shown.
pub proof fn law_an_arriving_message_is_shown(
    client: Client,
    server_id: ServerId,
    message_id: MessageId,
    sender: UserId,
    epoch: Epoch,
    nonce: String,
    ciphertext: String,
    signature: String,
    timestamp: Timestamp,
    after: Client,
    effects: Effects,
)
    requires
        event_handled(
            client,
            ServerMessage::NewMessage {
                server_id,
                message_id,
                sender,
                epoch,
                nonce,
                ciphertext,
                signature,
                timestamp,
            },
            after,
            effects,
        ),
    ensures
        after == client,
        effects.out.frames.len() == 0,
        match (
            base64_decoded(nonce@),
            base64_decoded(ciphertext@),
            base64_decoded(signature@),
        ) {
            (Ok(n), Ok(c), Ok(s)) => {
                let read = reading(client, server_id, sender, epoch, n, c, s);
                &&& effects.out.failure is None
                &&& effects.shown matches Some(Notice::Message(message)) && message.server_id
                    == server_id && message.message_id == message_id && message.sender_id == sender
                    && message.sender_name == sender_name(client, server_id, sender)
                    && message.epoch == epoch && message.timestamp == timestamp
                    && message.plaintext == read.plaintext && message.status == read.status
            },
            (Err(reason), _, _) => effects.shown is None && effects.out.failure == Some(
                seq!["nonce b64"@, reason],
            ),
            (Ok(_), Err(reason), _) => effects.shown is None && effects.out.failure == Some(
                seq!["ciphertext b64"@, reason],
            ),
            (Ok(_), Ok(_), Err(reason)) => effects.shown is None && effects.out.failure == Some(
                seq!["signature b64"@, reason],
            ),
        },
{
    match (base64_decoded(nonce@), base64_decoded(ciphertext@), base64_decoded(signature@)) {
        (Ok(n), Ok(c), Ok(s)) => {},
        (Err(reason), _, _) => {
            assert(effects.out.failure->Some_0 =~= seq!["nonce b64"@, reason]);
        },
        (Ok(_), Err(reason), _) => {
            assert(effects.out.failure->Some_0 =~= seq!["ciphertext b64"@, reason]);
        },
        (Ok(_), Ok(_), Err(reason)) => {
            assert(effects.out.failure->Some_0 =~= seq!["signature b64"@, reason]);
        },
    }
}

/// A history shows one entry for each message, in the same order, and each entry
/// as the same bytes read when they arrive as a new message: with the sender,
/// epoch, nonce, ciphertext and signature of that message. So an entry is sealed
/// exactly when the key of its own epoch is not held, whatever the current epoch
/// is.
pub proof fn law_history_reads_like_new_messages(
    client: Client,
    server_id: ServerId,
    messages: Seq<StoredMessage>,
)
    ensures
        history_shown(client, server_id, messages).len() == messages.len(),
        forall|i: int|
            0 <= i < messages.len() ==> {
                let message = messages[i];
                let entry = #[trigger] history_shown(client, server_id, messages)[i];
                let read = reading(
                    client,
                    server_id,
                    message.sender,
                    message.epoch,
                    message.nonce@,
                    message.ciphertext@,
                    message.signature@,
                );
                &&& entry.server_id == server_id
                &&& entry.message_id == message.message_id
                &&& entry.sender_id == message.sender
                &&& entry.sender_name == sender_name(client, server_id, message.sender)
                &&& entry.epoch == message.epoch
                &&& entry.timestamp == message.timestamp
                &&& entry.plaintext == read.plaintext
                &&& entry.status == read.status
            },
        forall|i: int|
            0 <= i < messages.len() ==> (#[trigger] history_shown(
                client,
                server_id,
                messages,
            )[i].status == "sealed"@ <==> !key_held(client, server_id, messages[i].epoch)),
{
    assert forall|i: int| 0 <= i < messages.len() implies (#[trigger] history_shown(
        client,
        server_id,
        messages,
    )[i].status == "sealed"@ <==> !key_held(client, server_id, messages[i].epoch)) by {
        let message = messages[i];
        law_sealed_exactly_without_key(
            client,
            server_id,
            message.sender,
            message.epoch,
            message.nonce@,
            message.ciphertext@,
            message.signature@,
        );
    }
}

/// A message of any epoch whose key is held, which that key decrypts to UTF-8 and
/// which its sender signed, is shown in the history with its text, whatever the
/// current epoch is.
pub proof fn law_history_shows_texts_of_earlier_epochs(
    client: Client,
    server_id: ServerId,
    messages: Seq<StoredMessage>,
    i: int,
    bytes: Seq<u8>,
)
    requires
        0 <= i < messages.len(),
        key_held(client, server_id, messages[i].epoch),
        !signature_fails(
            client,
            server_id,
            messages[i].sender,
            messages[i].epoch,
            messages[i].nonce@,
            messages[i].ciphertext@,
            messages[i].signature@,
        ),
        messages[i].nonce@.len() == NONCE_BYTES,
        aes_gcm_decrypted(
            client.channels[server_id].keys[messages[i].epoch],
            messages[i].nonce@,
            messages[i].ciphertext@,
        ) == Some(bytes),
        valid_utf8(bytes),
    ensures
        history_shown(client, server_id, messages)[i].plaintext == Some(decode_utf8(bytes)),
        history_shown(client, server_id, messages)[i].status == "ok"@,
{
}

} // verus!
