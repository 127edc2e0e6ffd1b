//! Reactions to the frames of the relay.
use vstd::prelude::*;

use crate::client::rekey::{
    delivers, rekeyed, try_rekey_after_membership_change, Outbox, Outgoing,
};
use crate::client::session::{rpc_over, session_ended};
use crate::client::{Notice, ShownMessage, UiEvent, UiMemberChange, UiMessage};
use crate::crypto::{
    aes_open, dilithium_verify, envelope, kyber_decapsulated, kyber_encapsulation,
    law_envelope_opens, message_signed_payload, open_outcome, signed_payload, unwrap_group_key,
    unwrap_outcome, verify_outcome, wraps_for, GroupKey, KYBER_CIPHERTEXT_BYTES,
    KYBER_SECRET_KEY_BYTES,
};
use crate::encoding::{decode_field, decode_field_outcome, decode_outcome};
use crate::error::{outcome, ChatError, Messages};
use crate::identity::stands_for;
use crate::ids::{id_text, short_id, uuid_text};
use crate::protocol::{
    is_pushed, Epoch, Member, MemberInfo, MessageId, ServerId, ServerMessage, Timestamp, UserId,
};
use crate::state::{
    law_numbers_do_not_repeat, number_after, Channel, Client, ClientState,
};
use crate::text::{from_utf8, text_of, utf8_text};

verus! {

// ----------------------------------------------------------------------------
// Reading a message
// ----------------------------------------------------------------------------

/// The name under which a sender is shown: the name in the member cache, or else
/// the first characters of the identifier.
pub open spec fn sender_name(client: Client, server_id: ServerId, sender: UserId) -> Seq<char> {
    if client.channel(server_id).members.contains_key(sender) {
        client.channel(server_id).members[sender].display_name
    } else {
        id_text(sender).take(8)
    }
}

/// What a client makes of a message: the text, where it can be read, and the
/// status.
pub struct Reading {
    pub plaintext: Option<Seq<char>>,
    pub status: Seq<char>,
}

/// Whether the signature of a message is acceptable in a channel: that of a
/// known sender must verify; that of an unknown one is let through, since the
/// member cache may lag.
pub open spec fn signature_acceptable(
    channel: Channel,
    sender: UserId,
    payload: Seq<u8>,
    signature: Seq<u8>,
) -> bool {
    channel.members.contains_key(sender) ==> verify_outcome(
        channel.members[sender].sig_public_key,
        payload,
        signature,
    ) is Ok
}

/// What a client makes of a message.
pub open spec fn reading(
    client: Client,
    server_id: ServerId,
    sender: UserId,
    epoch: Epoch,
    nonce: Seq<u8>,
    ciphertext: Seq<u8>,
    signature: Seq<u8>,
) -> Reading {
    let channel = client.channel(server_id);
    if !client.holds_key(server_id, epoch) {
        Reading { plaintext: None, status: "sealed"@ }
    } else if !signature_acceptable(
        channel,
        sender,
        signed_payload(server_id, epoch, nonce, ciphertext),
        signature,
    ) {
        Reading { plaintext: None, status: "bad_sig"@ }
    } else {
        match open_outcome(channel.keys[epoch], nonce, ciphertext) {
            Ok(bytes) => match utf8_text(bytes) {
                Some(text) => Reading { plaintext: Some(text), status: "ok"@ },
                None => Reading { plaintext: None, status: "decrypt_failed"@ },
            },
            Err(_) => Reading { plaintext: None, status: "decrypt_failed"@ },
        }
    }
}

/// Reads a message: finds the key of its epoch, checks the signature of the
/// sender, and decrypts. Gives the text, the status and the sender's name.
pub fn decrypt_and_verify(
    state: &ClientState,
    server_id: ServerId,
    sender: UserId,
    epoch: Epoch,
    nonce: &[u8],
    ciphertext: &[u8],
    signature: &[u8],
) -> (read: (Option<String>, &'static str, String))
    ensures
        (Reading { plaintext: text_of(read.0), status: read.1@ }) == reading(
            state@,
            server_id,
            sender,
            epoch,
            nonce@,
            ciphertext@,
            signature@,
        ),
        read.2@ == sender_name(state@, server_id, sender),
{
    let channel = match state.channel(server_id) {
        Some(channel) => channel,
        None => {
            return (None, "sealed", short_id(sender));
        },
    };
    let member = channel.member(sender);
    let name = match member {
        Some(info) => info.display_name.clone(),
        None => short_id(sender),
    };
    let key: GroupKey = match channel.key_at(epoch) {
        Some(key) => key,
        None => {
            return (None, "sealed", name);
        },
    };
    let acceptable = match member {
        Some(info) => {
            let payload = message_signed_payload(&server_id, epoch, nonce, ciphertext);
            match dilithium_verify(&info.sig_public_key, &payload, signature) {
                Ok(_) => true,
                Err(_) => false,
            }
        },
        None => true,
    };
    if !acceptable {
        return (None, "bad_sig", name);
    }
    match aes_open(&key, nonce, ciphertext) {
        Ok(bytes) => match from_utf8(bytes) {
            Some(text) => (Some(text), "ok", name),
            None => (None, "decrypt_failed", name),
        },
        Err(_) => (None, "decrypt_failed", name),
    }
}

/// How a message appears in the user interface.
pub open spec fn shown(
    client: Client,
    server_id: ServerId,
    message_id: MessageId,
    sender: UserId,
    epoch: Epoch,
    nonce: Seq<u8>,
    ciphertext: Seq<u8>,
    signature: Seq<u8>,
    timestamp: Timestamp,
) -> ShownMessage {
    let read = reading(client, server_id, sender, epoch, nonce, ciphertext, signature);
    ShownMessage {
        server_id,
        message_id,
        sender_id: sender,
        sender_name: sender_name(client, server_id, sender),
        epoch,
        timestamp,
        plaintext: read.plaintext,
        status: read.status,
    }
}

/// Reads a message for the user interface.
pub fn show_message(
    state: &ClientState,
    server_id: ServerId,
    message_id: MessageId,
    sender: UserId,
    epoch: Epoch,
    nonce: &[u8],
    ciphertext: &[u8],
    signature: &[u8],
    timestamp: Timestamp,
) -> (message: UiMessage)
    ensures
        message@ == shown(
            state@,
            server_id,
            message_id,
            sender,
            epoch,
            nonce@,
            ciphertext@,
            signature@,
            timestamp,
        ),
{
    let (plaintext, status, sender_name) = decrypt_and_verify(
        state,
        server_id,
        sender,
        epoch,
        nonce,
        ciphertext,
        signature,
    );
    UiMessage {
        server_id,
        message_id,
        sender_id: sender,
        sender_name,
        epoch,
        timestamp,
        plaintext,
        status,
    }
}

// ----------------------------------------------------------------------------
// Pushed frames
// ----------------------------------------------------------------------------

/// What comes of a pushed frame: something to show, frames for sending, and what
/// went wrong. They are carried out in this order.
pub struct EventOutcome {
    pub ui: Option<UiEvent>,
    pub outbox: Outbox,
}

/// What an [`EventOutcome`] says.
#[verifier::ext_equal]
pub struct Effects {
    pub shown: Option<Notice>,
    pub out: Outgoing,
}

impl View for EventOutcome {
    type V = Effects;

    open spec fn view(&self) -> Effects {
        Effects {
            shown: match self.ui {
                Some(event) => Some(event@),
                None => None,
            },
            out: self.outbox@,
        }
    }
}

impl Effects {
    /// A notice to show, and nothing else.
    pub open spec fn just(notice: Notice) -> Effects {
        Effects { shown: Some(notice), out: Outgoing::nothing() }
    }

    /// A failure, and nothing else.
    pub open spec fn failed(messages: Messages) -> Effects {
        Effects { shown: None, out: Outgoing::failed(messages) }
    }
}

/// An outcome that only shows something.
fn just(event: UiEvent) -> (result: EventOutcome)
    ensures
        result@ == Effects::just(event@),
{
    let result = EventOutcome {
        ui: Some(event),
        outbox: Outbox { frames: Vec::new(), failure: None },
    };
    assert(result@ =~= Effects::just(event@));
    result
}

/// An outcome that only reports a failure.
fn failed(error: ChatError) -> (result: EventOutcome)
    ensures
        result@ == Effects::failed(error@),
{
    let result = EventOutcome {
        ui: None,
        outbox: Outbox { frames: Vec::new(), failure: Some(error) },
    };
    assert(result@ =~= Effects::failed(error@));
    result
}

/// What comes of a message: it is shown, unless a field is not base64.
pub open spec fn new_message_effects(
    client: Client,
    server_id: ServerId,
    message_id: MessageId,
    sender: UserId,
    epoch: Epoch,
    nonce: Seq<char>,
    ciphertext: Seq<char>,
    signature: Seq<char>,
    timestamp: Timestamp,
) -> Effects {
    match (
        decode_field_outcome(nonce, "nonce b64"@),
        decode_field_outcome(ciphertext, "ciphertext b64"@),
        decode_field_outcome(signature, "signature b64"@),
    ) {
        (Err(messages), _, _) => Effects::failed(messages),
        (_, Err(messages), _) => Effects::failed(messages),
        (_, _, Err(messages)) => Effects::failed(messages),
        (Ok(nonce), Ok(ciphertext), Ok(signature)) => Effects::just(
            Notice::Message(
                shown(
                    client,
                    server_id,
                    message_id,
                    sender,
                    epoch,
                    nonce,
                    ciphertext,
                    signature,
                    timestamp,
                ),
            ),
        ),
    }
}

/// Reacts to a message.
fn on_new_message(
    state: &ClientState,
    server_id: ServerId,
    message_id: MessageId,
    sender: UserId,
    epoch: Epoch,
    nonce: String,
    ciphertext: String,
    signature: String,
    timestamp: Timestamp,
) -> (result: EventOutcome)
    ensures
        result@ == new_message_effects(
            state@,
            server_id,
            message_id,
            sender,
            epoch,
            nonce@,
            ciphertext@,
            signature@,
            timestamp,
        ),
{
    let nonce_bytes = match decode_field(nonce.as_str(), "nonce b64") {
        Ok(bytes) => bytes,
        Err(error) => {
            return failed(error);
        },
    };
    let ciphertext_bytes = match decode_field(ciphertext.as_str(), "ciphertext b64") {
        Ok(bytes) => bytes,
        Err(error) => {
            return failed(error);
        },
    };
    let signature_bytes = match decode_field(signature.as_str(), "signature b64") {
        Ok(bytes) => bytes,
        Err(error) => {
            return failed(error);
        },
    };
    just(
        UiEvent::NewMessage(
            show_message(
                state,
                server_id,
                message_id,
                sender,
                epoch,
                &nonce_bytes,
                &ciphertext_bytes,
                &signature_bytes,
                timestamp,
            ),
        ),
    )
}

/// A client that has learnt of a new member.
pub open spec fn member_added(
    client: Client,
    server_id: ServerId,
    member: Member,
    epoch: Epoch,
) -> Client {
    client.with_channel(
        server_id,
        client.channel(server_id).with_member(member).at_epoch(epoch),
    )
}

/// A client that has learnt that a member is gone.
pub open spec fn member_removed(
    client: Client,
    server_id: ServerId,
    user_id: UserId,
    epoch: Epoch,
) -> Client {
    client.with_channel(
        server_id,
        client.channel(server_id).without_member(user_id).at_epoch(epoch),
    )
}

/// Reacts to a new member: remembers it, tells the user, and rekeys if that
/// falls to this client.
fn on_member_joined(
    state: &mut ClientState,
    server_id: ServerId,
    member: MemberInfo,
    epoch: Epoch,
) -> (result: EventOutcome)
    ensures
        rekeyed(
            member_added(old(state)@, server_id, member@, epoch),
            server_id,
            Some(member.user_id),
            final(state)@,
            result@.out,
        ),
        result@.shown == Some(
            Notice::MemberChange {
                server_id,
                user_id: member.user_id,
                display_name: member.display_name@,
                epoch,
                kind: "joined"@,
            },
        ),
{
    let user_id = member.user_id;
    let display_name = member.display_name.clone();
    let mut channel = state.take_channel(server_id);
    channel.add_member(member);
    channel.epoch = epoch;
    state.put_channel(server_id, channel);
    assert(state@ =~= member_added(old(state)@, server_id, member@, epoch));
    let outbox = try_rekey_after_membership_change(state, server_id, Some(user_id));
    EventOutcome {
        ui: Some(
            UiEvent::MemberChange(
                UiMemberChange { server_id, user_id, display_name, epoch, kind: "joined" },
            ),
        ),
        outbox,
    }
}

/// Reacts to the loss of a member: forgets it, tells the user, and rekeys if
/// that falls to this client. The member is out of the cache by the time it is
/// shown, so it is named by its identifier.
fn on_member_left(
    state: &mut ClientState,
    server_id: ServerId,
    user_id: UserId,
    epoch: Epoch,
) -> (result: EventOutcome)
    ensures
        rekeyed(
            member_removed(old(state)@, server_id, user_id, epoch),
            server_id,
            None,
            final(state)@,
            result@.out,
        ),
        result@.shown == Some(
            Notice::MemberChange {
                server_id,
                user_id,
                display_name: id_text(user_id),
                epoch,
                kind: "left"@,
            },
        ),
{
    let mut channel = state.take_channel(server_id);
    channel.remove_member(user_id);
    channel.epoch = epoch;
    state.put_channel(server_id, channel);
    assert(state@ =~= member_removed(old(state)@, server_id, user_id, epoch));
    let outbox = try_rekey_after_membership_change(state, server_id, None);
    EventOutcome {
        ui: Some(
            UiEvent::MemberChange(
                UiMemberChange {
                    server_id,
                    user_id,
                    display_name: uuid_text(user_id),
                    epoch,
                    kind: "left",
                },
            ),
        ),
        outbox,
    }
}

/// The group key that a client finds in a base64 envelope.
pub open spec fn key_material_outcome(client: Client, wrapped_key: Seq<char>) -> Result<
    Seq<u8>,
    Messages,
> {
    match decode_field_outcome(wrapped_key, "wrapped_key b64"@) {
        Err(messages) => Err(messages),
        Ok(wrapped) => match client.identity {
            None => Err(seq!["no identity loaded"@]),
            Some(identity) => match decode_outcome(identity.kem_sk_b64@) {
                Err(messages) => Err(messages),
                Ok(sk) => match unwrap_outcome(sk, wrapped) {
                    Err(messages) => Err(seq!["unwrapping group key"@] + messages),
                    Ok(key) => Ok(key),
                },
            },
        },
    }
}

/// Opens a base64 envelope with the identity in use.
pub fn open_key_material(state: &ClientState, wrapped_key: &str) -> (key: Result<
    GroupKey,
    ChatError,
>)
    ensures
        outcome(key) == key_material_outcome(state@, wrapped_key@),
{
    let wrapped = match decode_field(wrapped_key, "wrapped_key b64") {
        Ok(wrapped) => wrapped,
        Err(error) => {
            return Err(error);
        },
    };
    let sk = match state.require_identity() {
        Ok(identity) => match identity.kem_sk() {
            Ok(sk) => sk,
            Err(error) => {
                return Err(error);
            },
        },
        Err(error) => {
            return Err(error);
        },
    };
    match unwrap_group_key(&sk, &wrapped) {
        Ok(key) => Ok(key),
        Err(error) => Err(error.context("unwrapping group key".to_string())),
    }
}

/// Reacts to a group key: keeps it and tells the user. The epoch of the channel
/// stays: the membership change behind the new key sets it.
fn on_key_material(
    state: &mut ClientState,
    server_id: ServerId,
    epoch: Epoch,
    wrapped_key: String,
) -> (result: EventOutcome)
    ensures
        match key_material_outcome(old(state)@, wrapped_key@) {
            Ok(key) => {
                &&& final(state)@ == old(state)@.with_channel(
                    server_id,
                    old(state)@.channel(server_id).with_key(epoch, key),
                )
                &&& result@ == Effects::just(Notice::KeyRotated { server_id, epoch })
            },
            Err(messages) => {
                &&& final(state)@ == old(state)@
                &&& result@ == Effects::failed(messages)
            },
        },
{
    let key: GroupKey = match open_key_material(state, wrapped_key.as_str()) {
        Ok(key) => key,
        Err(error) => {
            return failed(error);
        },
    };
    let mut channel = state.take_channel(server_id);
    channel.add_key(epoch, key);
    state.put_channel(server_id, channel);
    assert(state@ =~= old(state)@.with_channel(
        server_id,
        old(state)@.channel(server_id).with_key(epoch, key@),
    ));
    just(UiEvent::KeyRotated { server_id, epoch })
}

/// What comes of a pushed frame, from `client` to `after`.
pub open spec fn event_handled(
    client: Client,
    message: ServerMessage,
    after: Client,
    effects: Effects,
) -> bool {
    match message {
        ServerMessage::NewMessage {
            server_id,
            message_id,
            sender,
            epoch,
            nonce,
            ciphertext,
            signature,
            timestamp,
        } => {
            &&& after == client
            &&& effects == new_message_effects(
                client,
                server_id,
                message_id,
                sender,
                epoch,
                nonce@,
                ciphertext@,
                signature@,
                timestamp,
            )
        },
        ServerMessage::MemberJoined { server_id, member, epoch } => {
            &&& effects.shown == Some(
                Notice::MemberChange {
                    server_id,
                    user_id: member.user_id,
                    display_name: member.display_name@,
                    epoch,
                    kind: "joined"@,
                },
            )
            &&& rekeyed(
                member_added(client, server_id, member@, epoch),
                server_id,
                Some(member.user_id),
                after,
                effects.out,
            )
        },
        ServerMessage::MemberLeft { server_id, user_id, epoch } => {
            &&& effects.shown == Some(
                Notice::MemberChange {
                    server_id,
                    user_id,
                    display_name: id_text(user_id),
                    epoch,
                    kind: "left"@,
                },
            )
            &&& rekeyed(
                member_removed(client, server_id, user_id, epoch),
                server_id,
                None,
                after,
                effects.out,
            )
        },
        ServerMessage::KeyMaterial { server_id, epoch, wrapped_key, .. } => {
            match key_material_outcome(client, wrapped_key@) {
                Ok(key) => {
                    &&& after == client.with_channel(
                        server_id,
                        client.channel(server_id).with_key(epoch, key),
                    )
                    &&& effects == Effects::just(Notice::KeyRotated { server_id, epoch })
                },
                Err(messages) => {
                    &&& after == client
                    &&& effects == Effects::failed(messages)
                },
            }
        },
        _ => false,
    }
}

/// Reacts to a frame that the relay pushed.
pub fn handle_event(state: &mut ClientState, message: ServerMessage) -> (result: EventOutcome)
    requires
        is_pushed(message),
    ensures
        event_handled(old(state)@, message, final(state)@, result@),
{
    match message {
        ServerMessage::NewMessage {
            server_id,
            message_id,
            sender,
            epoch,
            nonce,
            ciphertext,
            signature,
            timestamp,
        } => on_new_message(
            state,
            server_id,
            message_id,
            sender,
            epoch,
            nonce,
            ciphertext,
            signature,
            timestamp,
        ),
        ServerMessage::MemberJoined { server_id, member, epoch } => on_member_joined(
            state,
            server_id,
            member,
            epoch,
        ),
        ServerMessage::MemberLeft { server_id, user_id, epoch } => on_member_left(
            state,
            server_id,
            user_id,
            epoch,
        ),
        ServerMessage::KeyMaterial { server_id, from_user: _, epoch, wrapped_key } => {
            on_key_material(state, server_id, epoch, wrapped_key)
        },
        _ => {
            assert(false);
            EventOutcome { ui: None, outbox: Outbox { frames: Vec::new(), failure: None } }
        },
    }
}

/// What to do with a frame of the relay.
pub enum Dispatch {
    /// It was pushed; this comes of it.
    Event(EventOutcome),
    /// It answers the waiting request, which has the given number.
    Reply(u64, ServerMessage),
    /// It is an error that nobody waits for; show it to the user.
    ClientError(String),
    /// It is a reply that nobody waits for.
    Ignored,
    /// It came over a connection that has been replaced; read no more from it.
    Replaced,
}

/// What a [`Dispatch`] says.
pub enum Verdict {
    Event(Effects),
    Reply(u64, ServerMessage),
    ClientError(Seq<char>),
    Ignored,
    Replaced,
}

impl View for Dispatch {
    type V = Verdict;

    open spec fn view(&self) -> Verdict {
        match *self {
            Dispatch::Event(result) => Verdict::Event(result@),
            Dispatch::Reply(request, message) => Verdict::Reply(request, message),
            Dispatch::ClientError(reason) => Verdict::ClientError(reason@),
            Dispatch::Ignored => Verdict::Ignored,
            Dispatch::Replaced => Verdict::Replaced,
        }
    }
}

/// What comes of a frame that arrived over the connection of a session, from
/// `client` to `after`.
pub open spec fn frame_handled(
    client: Client,
    session: u64,
    message: ServerMessage,
    after: Client,
    verdict: Verdict,
) -> bool {
    if session != client.session {
        after == client && verdict is Replaced
    } else if is_pushed(message) {
        verdict matches Verdict::Event(effects) && event_handled(client, message, after, effects)
    } else {
        match (client.pending_rpc, message) {
            (Some(request), _) => {
                &&& after == rpc_over(client, request)
                &&& verdict == Verdict::Reply(request, message)
            },
            (None, ServerMessage::Error { reason }) => {
                &&& after == client
                &&& verdict == Verdict::ClientError(reason@)
            },
            (None, _) => after == client && verdict is Ignored,
        }
    }
}

/// Takes in a frame that arrived over the connection of a session. Pushed frames
/// are handled; a reply goes to the waiting request, which waits no longer; of
/// replies that nobody waits for only errors are shown. A frame of a connection
/// that was replaced changes nothing.
pub fn handle_server_message(
    state: &mut ClientState,
    session: u64,
    message: ServerMessage,
) -> (result: Dispatch)
    ensures
        frame_handled(old(state)@, session, message, final(state)@, result@),
{
    if session != state.session {
        return Dispatch::Replaced;
    }
    if message.is_event() {
        return Dispatch::Event(handle_event(state, message));
    }
    match state.pending_rpc {
        Some(request) => {
            state.pending_rpc = None;
            Dispatch::Reply(request, message)
        },
        None => match message {
            ServerMessage::Error { reason } => Dispatch::ClientError(reason),
            _ => Dispatch::Ignored,
        },
    }
}

// ----------------------------------------------------------------------------
// Laws
// ----------------------------------------------------------------------------

/// The four statuses are different texts.
proof fn lemma_statuses_differ()
    ensures
        "ok"@ != "sealed"@,
        "ok"@ != "bad_sig"@,
        "ok"@ != "decrypt_failed"@,
        "sealed"@ != "bad_sig"@,
        "sealed"@ != "decrypt_failed"@,
        "bad_sig"@ != "decrypt_failed"@,
{
    reveal_strlit("ok");
    reveal_strlit("sealed");
    reveal_strlit("bad_sig");
    reveal_strlit("decrypt_failed");
    assert("ok"@.len() == 2);
    assert("sealed"@.len() == 6);
    assert("bad_sig"@.len() == 7);
    assert("decrypt_failed"@.len() == 14);
}

/// A message has a text exactly when its status is `ok`, and any other status is
/// `sealed`, `bad_sig` or `decrypt_failed`.
pub proof fn law_text_exactly_when_ok(
    client: Client,
    server_id: ServerId,
    sender: UserId,
    epoch: Epoch,
    nonce: Seq<u8>,
    ciphertext: Seq<u8>,
    signature: Seq<u8>,
)
    ensures
        ({
            let read = reading(client, server_id, sender, epoch, nonce, ciphertext, signature);
            &&& read.plaintext is Some <==> read.status == "ok"@
            &&& read.plaintext is None ==> read.status == "sealed"@ || read.status == "bad_sig"@
                || read.status == "decrypt_failed"@
        }),
{
    lemma_statuses_differ();
}

/// A message is sealed exactly when the client does not hold the key of its
/// epoch. So after a disconnect, and before the first key of a server arrives,
/// every message is sealed.
pub proof fn law_sealed_exactly_without_key(
    client: Client,
    server_id: ServerId,
    sender: UserId,
    epoch: Epoch,
    nonce: Seq<u8>,
    ciphertext: Seq<u8>,
    signature: Seq<u8>,
)
    ensures
        reading(client, server_id, sender, epoch, nonce, ciphertext, signature).status
            == "sealed"@ <==> !client.holds_key(server_id, epoch),
{
    lemma_statuses_differ();
}

/// No text is shown for a message of a known member unless that member's public
/// key verifies the signature over server, epoch, nonce and ciphertext.
pub proof fn law_text_of_a_member_is_signed(
    client: Client,
    server_id: ServerId,
    sender: UserId,
    epoch: Epoch,
    nonce: Seq<u8>,
    ciphertext: Seq<u8>,
    signature: Seq<u8>,
)
    requires
        client.channel(server_id).members.contains_key(sender),
        reading(
            client,
            server_id,
            sender,
            epoch,
            nonce,
            ciphertext,
            signature,
        ).plaintext is Some,
    ensures
        verify_outcome(
            client.channel(server_id).members[sender].sig_public_key,
            signed_payload(server_id, epoch, nonce, ciphertext),
            signature,
        ) is Ok,
{
}

/// The server that a pushed frame is about.
pub open spec fn subject_server(message: ServerMessage) -> ServerId {
    match message {
        ServerMessage::NewMessage { server_id, .. } => server_id,
        ServerMessage::MemberJoined { server_id, .. } => server_id,
        ServerMessage::MemberLeft { server_id, .. } => server_id,
        ServerMessage::KeyMaterial { server_id, .. } => server_id,
        _ => arbitrary(),
    }
}

/// The epoch that a pushed frame is about.
pub open spec fn subject_epoch(message: ServerMessage) -> Epoch {
    match message {
        ServerMessage::NewMessage { epoch, .. } => epoch,
        ServerMessage::MemberJoined { epoch, .. } => epoch,
        ServerMessage::MemberLeft { epoch, .. } => epoch,
        ServerMessage::KeyMaterial { epoch, .. } => epoch,
        _ => arbitrary(),
    }
}

/// A pushed frame touches the channel of its server and nothing else: the
/// identity, the connection, a waiting request and all other channels stay.
pub proof fn law_events_touch_one_channel(
    client: Client,
    message: ServerMessage,
    after: Client,
    effects: Effects,
    other: ServerId,
)
    requires
        event_handled(client, message, after, effects),
        other != subject_server(message),
    ensures
        after.identity == client.identity,
        after.connected == client.connected,
        after.session == client.session,
        after.pending_rpc == client.pending_rpc,
        after.last_rpc == client.last_rpc,
        after.channels.contains_key(other) <==> client.channels.contains_key(other),
        after.channel(other) == client.channel(other),
{
}

/// No pushed frame loses a group key: every key that was held is still held, and
/// only the key of the frame's own epoch can have changed.
pub proof fn law_events_keep_keys(
    client: Client,
    message: ServerMessage,
    after: Client,
    effects: Effects,
    server_id: ServerId,
    epoch: Epoch,
)
    requires
        event_handled(client, message, after, effects),
        client.holds_key(server_id, epoch),
    ensures
        after.holds_key(server_id, epoch),
        server_id != subject_server(message) || epoch != subject_epoch(message)
            ==> after.channels[server_id].keys[epoch] == client.channels[server_id].keys[epoch],
{
}

/// Pushed frames keep each member filed under its own identifier.
pub proof fn law_events_keep_filing(
    client: Client,
    message: ServerMessage,
    after: Client,
    effects: Effects,
)
    requires
        event_handled(client, message, after, effects),
        client.well_filed(),
    ensures
        after.well_filed(),
{
    assert forall|server_id: ServerId| #[trigger]
        after.channels.contains_key(server_id) implies after.channels[server_id].well_filed() by {
        assert(client.channel(server_id).well_filed());
    }
}

/// A distributed key arrives: whoever decapsulates the shared secret of this
/// envelope to the public key `pk` finds the key in it, and then holds it.
pub proof fn law_distributed_key_arrives(
    client: Client,
    message: ServerMessage,
    after: Client,
    effects: Effects,
    pk: Seq<u8>,
    sk: Seq<u8>,
    key: Seq<u8>,
)
    requires
        event_handled(client, message, after, effects),
        message is KeyMaterial,
        key.len() == 32,
        delivers(pk, key, message->KeyMaterial_wrapped_key@),
        client.identity matches Some(identity) && decode_outcome(identity.kem_sk_b64@) == Ok::<
            Seq<u8>,
            Messages,
        >(sk),
        sk.len() == KYBER_SECRET_KEY_BYTES,
        forall|ss: Seq<u8>, ct: Seq<u8>| #[trigger]
            kyber_encapsulation(pk, ss, ct) && stands_for(
                message->KeyMaterial_wrapped_key@,
                envelope(ct, ss, key),
            ) ==> kyber_decapsulated(sk, ct) == ss,
    ensures
        after.holds_key(subject_server(message), subject_epoch(message)),
        after.channel(subject_server(message)).keys[subject_epoch(message)] == key,
        effects == Effects::just(
            Notice::KeyRotated {
                server_id: subject_server(message),
                epoch: subject_epoch(message),
            },
        ),
{
    let wrapped = choose|wrapped: Seq<u8>| #[trigger]
        wraps_for(pk, key, wrapped) && stands_for(message->KeyMaterial_wrapped_key@, wrapped);
    let (ss, ct) = choose|ss: Seq<u8>, ct: Seq<u8>| #[trigger]
        kyber_encapsulation(pk, ss, ct) && ss.len() == 32 && ct.len() == KYBER_CIPHERTEXT_BYTES
            && wrapped == envelope(ct, ss, key);
    law_envelope_opens(sk, ct, ss, key);
}

/// A replaced connection has no effect any more. Once another session was opened
/// (and before all session numbers have been used up), frames of the old one
/// change nothing and come to nothing, and neither does its end change anything.
pub proof fn law_replaced_connections_are_dead(
    replaced: u64,
    opened: nat,
    client: Client,
    message: ServerMessage,
    after: Client,
    verdict: Verdict,
)
    requires
        0 < opened <= u64::MAX,
        client.session == number_after(replaced, opened),
        frame_handled(client, replaced, message, after, verdict),
    ensures
        after == client,
        verdict is Replaced,
        session_ended(client, replaced) == client,
{
    law_numbers_do_not_repeat(replaced, opened);
}

/// A reply reaches the request that waits, exactly then, and is never a pushed
/// frame; the request waits no longer.
pub proof fn law_replies_reach_the_waiting_request(
    client: Client,
    session: u64,
    message: ServerMessage,
    after: Client,
    verdict: Verdict,
)
    requires
        frame_handled(client, session, message, after, verdict),
    ensures
        verdict is Reply <==> session == client.session && !is_pushed(message)
            && client.pending_rpc is Some,
        verdict matches Verdict::Reply(request, reply) ==> client.pending_rpc == Some(request)
            && reply == message && after.pending_rpc is None,
{
}

/// After a request has ended without a reply, an error of the relay reaches the
/// user.
pub proof fn law_errors_reach_the_user(
    client: Client,
    request: u64,
    reason: String,
    after: Client,
    verdict: Verdict,
)
    requires
        client.pending_rpc == Some(request),
        frame_handled(
            rpc_over(client, request),
            client.session,
            ServerMessage::Error { reason },
            after,
            verdict,
        ),
    ensures
        verdict == Verdict::ClientError(reason@),
        after == rpc_over(client, request),
{
}

} // verus!
