//! What the user's commands do.
//!
//! A command that needs the relay comes in two halves: one starts the request,
//! the other takes the reply. Sending a message has no reply; the relay passes
//! it on to all members, the sender among them.
use vstd::prelude::*;
use vstd::utf8::*;

use crate::client::events::{
    new_message_effects, reading, sender_name, show_message, shown, Effects, Reading,
};
use crate::client::session::{
    expect_ok, rpc, rpc_outcome, rpc_started, send, RpcStart, Started,
};
use crate::client::{shown_messages, Notice, ShownMessage, UiMessage};
use crate::crypto::{
    aes_seal, bad_signing_key, dilithium_keypair, dilithium_sign, message_signed_payload,
    open_outcome, random_group_key, seal_outcome, sign_outcome, signed_payload, verify_outcome,
    GroupKey, DILITHIUM_PUBLIC_KEY_BYTES, DILITHIUM_SECRET_KEY_BYTES, MAX_PLAINTEXT_BYTES,
    NONCE_BYTES,
};
use crate::encoding::{base64_encode, base64_encoded, decode_outcome};
use crate::error::{outcome, ChatError, Messages};
use crate::identity::{
    holds_dilithium_keypair, holds_kyber_keypair, new_unregistered, renumbered, stands_for,
    Identity,
};
use crate::ids::NIL;
use crate::protocol::{
    members_of, ClientMessage, Epoch, Member, MemberInfo, MessageId, Request, ServerId, ServerInfo,
    ServerMessage, StoredMessage, Timestamp, UserId,
};
use crate::state::{law_members_are_filed, Channel, Client, ClientState};
use crate::text::followed_by;

verus! {

/// A reply of the relay, with its text form for error messages.
pub struct Reply {
    pub message: ServerMessage,
    pub shown: String,
}

/// The message of a reply that is not an error, or why there is none.
pub open spec fn accepted(reply: Result<Reply, ChatError>) -> Result<ServerMessage, Messages> {
    match reply {
        Err(error) => Err(error@),
        Ok(reply) => match reply.message {
            ServerMessage::Error { reason } => Err(seq!["server: "@ + reason@]),
            message => Ok(message),
        },
    }
}

/// The complaint about a reply of the wrong sort.
pub open spec fn unexpected(what: Seq<char>, reply: Result<Reply, ChatError>) -> Messages {
    seq!["expected "@ + what + ", got "@ + reply->Ok_0.shown@]
}

/// Lets a reply pass unless it is an error.
pub(crate) fn accept(reply: Result<Reply, ChatError>) -> (passed: Result<Reply, ChatError>)
    ensures
        match passed {
            Ok(passed) => {
                &&& reply == Ok::<Reply, ChatError>(passed)
                &&& accepted(reply) == Ok::<ServerMessage, Messages>(passed.message)
            },
            Err(error) => accepted(reply) == Err::<ServerMessage, Messages>(error@),
        },
{
    match reply {
        Err(error) => Err(error),
        Ok(reply) => {
            let Reply { message, shown } = reply;
            match expect_ok(message) {
                Ok(message) => Ok(Reply { message, shown }),
                Err(error) => Err(error),
            }
        },
    }
}

/// Complains about a reply of the wrong sort.
pub(crate) fn unexpected_reply(what: &str, shown: &str) -> (error: ChatError)
    ensures
        error@ == seq!["expected "@ + what@ + ", got "@ + shown@],
{
    let expected = followed_by("expected ", what);
    let got = followed_by(", got ", shown);
    let message = followed_by(expected.as_str(), got.as_str());
    assert(message@ =~= "expected "@ + what@ + ", got "@ + shown@);
    ChatError::new(message)
}

// ----------------------------------------------------------------------------
// Registration
// ----------------------------------------------------------------------------

/// The request that registers an identity: its name and its public keys.
pub open spec fn registration(identity: Identity) -> Request {
    Request::Register {
        display_name: identity.display_name@,
        kem_public_key: identity.kem_pk_b64@,
        sig_public_key: identity.sig_pk_b64@,
    }
}

/// The frame that registers an identity.
pub fn registration_frame(identity: &Identity) -> (frame: ClientMessage)
    ensures
        frame@ == registration(*identity),
{
    ClientMessage::Register {
        display_name: identity.display_name.clone(),
        kem_public_key: identity.kem_pk_b64.clone(),
        sig_public_key: identity.sig_pk_b64.clone(),
    }
}

/// Makes a new identity and starts its registration.
pub fn register_request(state: &mut ClientState, display_name: String) -> (started: Result<
    (Identity, RpcStart),
    ChatError,
>)
    ensures
        final(state)@ == rpc_started(old(state)@),
        match started {
            Ok((identity, start)) => {
                &&& identity.user_id == NIL
                &&& identity.display_name == display_name
                &&& holds_kyber_keypair(identity)
                &&& holds_dilithium_keypair(identity)
                &&& rpc_outcome(old(state)@, registration(identity)) == Ok::<Started, Messages>(
                    start@,
                )
            },
            Err(error) => !old(state)@.connected && error@ == seq!["not connected"@],
        },
{
    let identity = new_unregistered(display_name);
    let frame = registration_frame(&identity);
    match rpc(state, frame) {
        Ok(start) => Ok((identity, start)),
        Err(error) => Err(error),
    }
}

/// The identity that a reply to its registration makes of `identity`.
pub open spec fn registered(identity: Identity, reply: Result<Reply, ChatError>) -> Result<
    Identity,
    Messages,
> {
    match accepted(reply) {
        Err(messages) => Err(messages),
        Ok(ServerMessage::Registered { user_id }) => Ok(renumbered(identity, user_id)),
        Ok(_) => Err(unexpected("Registered"@, reply)),
    }
}

/// Takes the reply to a registration: the identity with the identifier that the
/// relay assigned. It is to be stored, and adopted afterwards.
pub fn register_flow(identity: Identity, reply: Result<Reply, ChatError>) -> (result: Result<
    Identity,
    ChatError,
>)
    ensures
        match registered(identity, reply) {
            Ok(identity) => result == Ok::<Identity, ChatError>(identity),
            Err(messages) => result matches Err(error) && error@ == messages,
        },
{
    match accept(reply) {
        Err(error) => Err(error),
        Ok(reply) => match reply.message {
            ServerMessage::Registered { user_id } => {
                let mut identity = identity;
                identity.user_id = user_id;
                Ok(identity)
            },
            _ => Err(unexpected_reply("Registered", reply.shown.as_str())),
        },
    }
}

/// Puts an identity to use.
pub fn adopt_identity(state: &mut ClientState, identity: Identity)
    ensures
        final(state)@ == old(state)@.with_identity(Some(identity)),
{
    state.identity = Some(identity);
}

/// Registration shows the relay a name and public keys only: identities that
/// agree on these register alike, whatever their secret keys are.
pub proof fn law_registration_is_public(a: Identity, b: Identity)
    requires
        a.display_name@ == b.display_name@,
        a.kem_pk_b64@ == b.kem_pk_b64@,
        a.sig_pk_b64@ == b.sig_pk_b64@,
    ensures
        registration(a) == registration(b),
{
}

/// Registration changes the identifier of an identity and nothing else, so the
/// keys and the name survive it.
pub proof fn law_registration_keeps_keys(identity: Identity, reply: Result<Reply, ChatError>)
    requires
        registered(identity, reply) is Ok,
    ensures
        ({
            let new = registered(identity, reply)->Ok_0;
            &&& new == renumbered(identity, new.user_id)
            &&& registration(new) == registration(identity)
            &&& new.kem_sk_b64 == identity.kem_sk_b64
            &&& new.sig_sk_b64 == identity.sig_sk_b64
        }),
{
}

// ----------------------------------------------------------------------------
// Servers
// ----------------------------------------------------------------------------

/// Starts the creation of a server.
pub fn create_server_request(state: &mut ClientState, name: &String) -> (started: Result<
    RpcStart,
    ChatError,
>)
    ensures
        outcome(started) == rpc_outcome(old(state)@, Request::CreateServer { name: name@ }),
        final(state)@ == rpc_started(old(state)@),
{
    rpc(state, ClientMessage::CreateServer { name: name.clone() })
}

/// The client itself as a member.
pub open spec fn own_member(client: Client) -> Result<Member, Messages> {
    match client.identity {
        None => Err(seq!["no identity loaded"@]),
        Some(identity) => match (
            decode_outcome(identity.kem_pk_b64@),
            decode_outcome(identity.sig_pk_b64@),
        ) {
            (Err(messages), _) => Err(messages),
            (_, Err(messages)) => Err(messages),
            (Ok(kem_public_key), Ok(sig_public_key)) => Ok(
                Member {
                    user_id: identity.user_id,
                    display_name: identity.display_name@,
                    kem_public_key,
                    sig_public_key,
                },
            ),
        },
    }
}

/// The client itself as a member.
fn own_member_info(state: &ClientState) -> (me: Result<MemberInfo, ChatError>)
    ensures
        outcome(me) == own_member(state@),
{
    let identity = match state.require_identity() {
        Ok(identity) => identity,
        Err(error) => {
            return Err(error);
        },
    };
    let kem_public_key = match identity.kem_pk() {
        Ok(key) => key,
        Err(error) => {
            return Err(error);
        },
    };
    let sig_public_key = match identity.sig_pk() {
        Ok(key) => key,
        Err(error) => {
            return Err(error);
        },
    };
    Ok(
        MemberInfo {
            user_id: identity.user_id,
            display_name: identity.display_name.clone(),
            kem_public_key,
            sig_public_key,
        },
    )
}

/// A client that has created a server: it is a member and holds the first key.
pub open spec fn server_founded(
    client: Client,
    server_id: ServerId,
    epoch: Epoch,
    name: Seq<char>,
    me: Member,
    key: Seq<u8>,
) -> Client {
    client.with_channel(
        server_id,
        client.channel(server_id).at_epoch(epoch).named(name).with_member(me).with_key(epoch, key),
    )
}

/// Sets up the channel of a server that this client has created, with `key` as
/// its first group key.
pub fn found_server(
    state: &mut ClientState,
    server_id: ServerId,
    epoch: Epoch,
    name: String,
    key: GroupKey,
) -> (result: Result<ServerId, ChatError>)
    ensures
        match own_member(old(state)@) {
            Ok(me) => {
                &&& result == Ok::<ServerId, ChatError>(server_id)
                &&& final(state)@ == server_founded(
                    old(state)@,
                    server_id,
                    epoch,
                    name@,
                    me,
                    key@,
                )
            },
            Err(messages) => {
                &&& result matches Err(error) && error@ == messages
                &&& final(state)@ == old(state)@
            },
        },
{
    let me = match own_member_info(state) {
        Ok(me) => me,
        Err(error) => {
            return Err(error);
        },
    };
    let mut channel = state.take_channel(server_id);
    channel.epoch = epoch;
    channel.name = name;
    channel.add_member(me);
    channel.add_key(epoch, key);
    state.put_channel(server_id, channel);
    assert(state@ =~= server_founded(old(state)@, server_id, epoch, name@, me@, key@));
    Ok(server_id)
}

/// Takes the reply to the creation of a server: sets up its channel with a fresh
/// group key.
pub fn create_server_flow(
    state: &mut ClientState,
    name: String,
    reply: Result<Reply, ChatError>,
) -> (result: Result<ServerId, ChatError>)
    ensures
        match (accepted(reply), own_member(old(state)@)) {
            (Err(messages), _) => {
                &&& result matches Err(error) && error@ == messages
                &&& final(state)@ == old(state)@
            },
            (Ok(ServerMessage::ServerCreated { server_id, epoch }), Ok(me)) => {
                &&& result == Ok::<ServerId, ChatError>(server_id)
                &&& exists|key: Seq<u8>|
                    key.len() == 32 && final(state)@ == #[trigger] server_founded(
                        old(state)@,
                        server_id,
                        epoch,
                        name@,
                        me,
                        key,
                    )
            },
            (Ok(ServerMessage::ServerCreated { server_id, epoch }), Err(messages)) => {
                &&& result matches Err(error) && error@ == messages
                &&& final(state)@ == old(state)@
            },
            (Ok(_), _) => {
                &&& result matches Err(error) && error@ == unexpected("ServerCreated"@, reply)
                &&& final(state)@ == old(state)@
            },
        },
{
    match accept(reply) {
        Err(error) => Err(error),
        Ok(reply) => match reply.message {
            ServerMessage::ServerCreated { server_id, epoch } => found_server(
                state,
                server_id,
                epoch,
                name,
                random_group_key(),
            ),
            _ => Err(unexpected_reply("ServerCreated", reply.shown.as_str())),
        },
    }
}

/// Starts to join a server.
pub fn join_server_request(state: &mut ClientState, server_id: ServerId) -> (started: Result<
    RpcStart,
    ChatError,
>)
    ensures
        outcome(started) == rpc_outcome(old(state)@, Request::JoinServer { server_id }),
        final(state)@ == rpc_started(old(state)@),
{
    rpc(state, ClientMessage::JoinServer { server_id })
}

/// A client that has joined a server. It holds no key of the new epoch yet; one
/// arrives from an earlier member.
pub open spec fn server_joined(
    client: Client,
    server_id: ServerId,
    epoch: Epoch,
    members: Seq<Member>,
) -> Client {
    client.with_channel(
        server_id,
        client.channel(server_id).at_epoch(epoch).with_members(members),
    )
}

/// Takes the reply to joining a server: remembers its epoch and members.
pub fn join_server_flow(state: &mut ClientState, reply: Result<Reply, ChatError>) -> (result:
    Result<(), ChatError>)
    ensures
        match accepted(reply) {
            Err(messages) => {
                &&& result matches Err(error) && error@ == messages
                &&& final(state)@ == old(state)@
            },
            Ok(ServerMessage::ServerJoined { server_id, epoch, members }) => {
                &&& result is Ok
                &&& final(state)@ == server_joined(
                    old(state)@,
                    server_id,
                    epoch,
                    members_of(members@),
                )
            },
            Ok(_) => {
                &&& result matches Err(error) && error@ == unexpected("ServerJoined"@, reply)
                &&& final(state)@ == old(state)@
            },
        },
{
    match accept(reply) {
        Err(error) => Err(error),
        Ok(reply) => match reply.message {
            ServerMessage::ServerJoined { server_id, epoch, members } => {
                let mut channel = state.take_channel(server_id);
                channel.epoch = epoch;
                channel.add_members(&members);
                state.put_channel(server_id, channel);
                assert(state@ =~= server_joined(
                    old(state)@,
                    server_id,
                    epoch,
                    members_of(members@),
                ));
                Ok(())
            },
            _ => Err(unexpected_reply("ServerJoined", reply.shown.as_str())),
        },
    }
}

/// Starts to leave a server.
pub fn leave_server_request(state: &mut ClientState, server_id: ServerId) -> (started: Result<
    RpcStart,
    ChatError,
>)
    ensures
        outcome(started) == rpc_outcome(old(state)@, Request::LeaveServer { server_id }),
        final(state)@ == rpc_started(old(state)@),
{
    rpc(state, ClientMessage::LeaveServer { server_id })
}

/// A client that has left a server.
pub open spec fn server_left(client: Client, server_id: ServerId) -> Client {
    Client { channels: client.channels.remove(server_id), ..client }
}

/// Takes the reply to leaving a server: forgets the server, unless the reply is
/// an error.
pub fn leave_server_flow(
    state: &mut ClientState,
    server_id: ServerId,
    reply: Result<Reply, ChatError>,
) -> (result: Result<(), ChatError>)
    ensures
        match accepted(reply) {
            Err(messages) => {
                &&& result matches Err(error) && error@ == messages
                &&& final(state)@ == old(state)@
            },
            Ok(_) => result is Ok && final(state)@ == server_left(old(state)@, server_id),
        },
{
    match accept(reply) {
        Err(error) => Err(error),
        Ok(_) => {
            let _ = state.take_channel(server_id);
            Ok(())
        },
    }
}

/// Starts to list the servers.
pub fn list_servers_request(state: &mut ClientState) -> (started: Result<RpcStart, ChatError>)
    ensures
        outcome(started) == rpc_outcome(old(state)@, Request::ListServers),
        final(state)@ == rpc_started(old(state)@),
{
    rpc(state, ClientMessage::ListServers)
}

/// Takes the reply to listing the servers.
pub fn list_servers_flow(reply: Result<Reply, ChatError>) -> (result: Result<
    Vec<ServerInfo>,
    ChatError,
>)
    ensures
        match accepted(reply) {
            Err(messages) => result matches Err(error) && error@ == messages,
            Ok(ServerMessage::ServerList { servers }) => result == Ok::<
                Vec<ServerInfo>,
                ChatError,
            >(servers),
            Ok(_) => result matches Err(error) && error@ == unexpected("ServerList"@, reply),
        },
{
    match accept(reply) {
        Err(error) => Err(error),
        Ok(reply) => match reply.message {
            ServerMessage::ServerList { servers } => Ok(servers),
            _ => Err(unexpected_reply("ServerList", reply.shown.as_str())),
        },
    }
}

/// Starts to list the members of a server.
pub fn list_members_request(state: &mut ClientState, server_id: ServerId) -> (started: Result<
    RpcStart,
    ChatError,
>)
    ensures
        outcome(started) == rpc_outcome(old(state)@, Request::ListMembers { server_id }),
        final(state)@ == rpc_started(old(state)@),
{
    rpc(state, ClientMessage::ListMembers { server_id })
}

/// A client that has learnt of the members of a server. It remembers them where
/// it is in the server.
pub open spec fn members_learnt(
    client: Client,
    server_id: ServerId,
    members: Seq<Member>,
) -> Client {
    if client.channels.contains_key(server_id) {
        client.with_channel(server_id, client.channels[server_id].with_members(members))
    } else {
        client
    }
}

/// Takes the reply to listing the members of a server: hands the list out, and
/// refreshes the member cache if the client is in the server.
pub fn list_members_flow(
    state: &mut ClientState,
    server_id: ServerId,
    reply: Result<Reply, ChatError>,
) -> (result: Result<Vec<MemberInfo>, ChatError>)
    ensures
        match accepted(reply) {
            Err(messages) => {
                &&& result matches Err(error) && error@ == messages
                &&& final(state)@ == old(state)@
            },
            Ok(ServerMessage::MemberList { members, .. }) => {
                &&& result == Ok::<Vec<MemberInfo>, ChatError>(members)
                &&& final(state)@ == members_learnt(
                    old(state)@,
                    server_id,
                    members_of(members@),
                )
            },
            Ok(_) => {
                &&& result matches Err(error) && error@ == unexpected("MemberList"@, reply)
                &&& final(state)@ == old(state)@
            },
        },
{
    match accept(reply) {
        Err(error) => Err(error),
        Ok(reply) => match reply.message {
            ServerMessage::MemberList { server_id: _, members } => {
                if state.channel(server_id).is_some() {
                    let mut channel = state.take_channel(server_id);
                    channel.add_members(&members);
                    state.put_channel(server_id, channel);
                }
                assert(state@ =~= members_learnt(old(state)@, server_id, members_of(members@)));
                Ok(members)
            },
            _ => Err(unexpected_reply("MemberList", reply.shown.as_str())),
        },
    }
}

// ----------------------------------------------------------------------------
// History
// ----------------------------------------------------------------------------

/// Starts to fetch the history of a server.
pub fn get_history_request(state: &mut ClientState, server_id: ServerId) -> (started: Result<
    RpcStart,
    ChatError,
>)
    ensures
        outcome(started) == rpc_outcome(old(state)@, Request::GetHistory { server_id }),
        final(state)@ == rpc_started(old(state)@),
{
    rpc(state, ClientMessage::GetHistory { server_id })
}

/// How the messages of a history appear: each on its own, in the same order.
pub open spec fn history_shown(
    client: Client,
    server_id: ServerId,
    messages: Seq<StoredMessage>,
) -> Seq<ShownMessage> {
    messages.map_values(
        |message: StoredMessage|
            shown(
                client,
                server_id,
                message.message_id,
                message.sender,
                message.epoch,
                message.nonce@,
                message.ciphertext@,
                message.signature@,
                message.timestamp,
            ),
    )
}

/// Reads the messages of a history.
fn read_history(state: &ClientState, server_id: ServerId, messages: &Vec<StoredMessage>) -> (list:
    Vec<UiMessage>)
    ensures
        shown_messages(list@) == history_shown(state@, server_id, messages@),
{
    let mut list: Vec<UiMessage> = Vec::new();
    let mut i: usize = 0;
    while i < messages.len()
        invariant
            i <= messages.len(),
            shown_messages(list@) =~= history_shown(state@, server_id, messages@.take(i as int)),
        decreases messages.len() - i,
    {
        let message = &messages[i];
        let read = show_message(
            state,
            server_id,
            message.message_id,
            message.sender,
            message.epoch,
            &message.nonce,
            &message.ciphertext,
            &message.signature,
            message.timestamp,
        );
        proof {
            assert(shown_messages(list@.push(read)) =~= shown_messages(list@).push(read@));
            assert(messages@.take(i + 1) =~= messages@.take(i as int).push(messages@[i as int]));
        }
        list.push(read);
        i += 1;
    }
    assert(messages@.take(i as int) =~= messages@);
    list
}

/// Takes the reply to fetching a history: reads every message with the keys that
/// are held now.
pub fn get_history_flow(
    state: &ClientState,
    server_id: ServerId,
    reply: Result<Reply, ChatError>,
) -> (result: Result<Vec<UiMessage>, ChatError>)
    ensures
        match accepted(reply) {
            Err(messages) => result matches Err(error) && error@ == messages,
            Ok(ServerMessage::History { messages, .. }) => result matches Ok(list)
                && shown_messages(list@) == history_shown(state@, server_id, messages@),
            Ok(_) => result matches Err(error) && error@ == seq!["expected History"@],
        },
{
    match accept(reply) {
        Err(error) => Err(error),
        Ok(reply) => match reply.message {
            ServerMessage::History { server_id: _, messages } => Ok(
                read_history(state, server_id, &messages),
            ),
            _ => Err(ChatError::new("expected History".to_string())),
        },
    }
}

// ----------------------------------------------------------------------------
// Sending a message
// ----------------------------------------------------------------------------

/// Why nothing can be signed with an identity, if so.
pub open spec fn signing_obstacle(identity: Identity) -> Option<Messages> {
    match decode_outcome(identity.sig_sk_b64@) {
        Err(messages) => Some(messages),
        Ok(sk) => if sk.len() != DILITHIUM_SECRET_KEY_BYTES {
            Some(bad_signing_key(sk))
        } else {
            None
        },
    }
}

/// Why a text cannot be sent to a server, if so.
pub open spec fn sending_obstacle(client: Client, server_id: ServerId, text: Seq<char>) -> Option<
    Messages,
> {
    let channel = client.channel(server_id);
    if client.identity is None {
        Some(seq!["no identity loaded"@])
    } else if !client.channels.contains_key(server_id) {
        Some(seq!["you are not in this server"@])
    } else if !channel.keys.contains_key(channel.epoch) {
        Some(seq!["no group key for current epoch — wait for key distribution"@])
    } else if encode_utf8(text).len() > MAX_PLAINTEXT_BYTES {
        Some(seq!["AES-GCM seal failed: "@ + "aead::Error"@])
    } else if signing_obstacle(client.identity->Some_0) is Some {
        signing_obstacle(client.identity->Some_0)
    } else if !client.connected {
        Some(seq!["not connected"@])
    } else {
        None
    }
}

/// The frame that carries a ciphertext and its signature.
pub open spec fn signed_frame(
    server_id: ServerId,
    epoch: Epoch,
    nonce: Seq<u8>,
    ciphertext: Seq<u8>,
    signature: Seq<u8>,
) -> Request {
    Request::SendMessage {
        server_id,
        epoch,
        nonce: base64_encoded(nonce),
        ciphertext: base64_encoded(ciphertext),
        signature: base64_encoded(signature),
    }
}

/// Whether `signature` is the signature of a ciphertext with the secret key `sk`,
/// and every public key that belongs to `sk` verifies it.
pub open spec fn well_signed(
    server_id: ServerId,
    epoch: Epoch,
    nonce: Seq<u8>,
    ciphertext: Seq<u8>,
    sk: Seq<u8>,
    signature: Seq<u8>,
) -> bool {
    let payload = signed_payload(server_id, epoch, nonce, ciphertext);
    &&& sign_outcome(sk, payload) == Ok::<Seq<u8>, Messages>(signature)
    &&& forall|pk: Seq<u8>| #[trigger]
        dilithium_keypair(pk, sk) ==> verify_outcome(pk, payload, signature) is Ok
}

/// Whether the fields of a frame decode to the bytes they stand for.
pub open spec fn fields_decode(nonce: Seq<u8>, ciphertext: Seq<u8>, signature: Seq<u8>) -> bool {
    &&& stands_for(base64_encoded(nonce), nonce)
    &&& stands_for(base64_encoded(ciphertext), ciphertext)
    &&& stands_for(base64_encoded(signature), signature)
}

/// Signs a ciphertext and makes the frame that carries it.
pub fn sign_and_frame(
    identity: &Identity,
    server_id: ServerId,
    epoch: Epoch,
    nonce: &[u8],
    ciphertext: &[u8],
) -> (frame: Result<ClientMessage, ChatError>)
    ensures
        match frame {
            Ok(frame) => {
                &&& signing_obstacle(*identity) is None
                &&& exists|signature: Seq<u8>|
                    frame@ == #[trigger] signed_frame(
                        server_id,
                        epoch,
                        nonce@,
                        ciphertext@,
                        signature,
                    ) && fields_decode(nonce@, ciphertext@, signature) && well_signed(
                        server_id,
                        epoch,
                        nonce@,
                        ciphertext@,
                        decode_outcome(identity.sig_sk_b64@)->Ok_0,
                        signature,
                    )
            },
            Err(error) => signing_obstacle(*identity) == Some(error@),
        },
{
    let payload = message_signed_payload(&server_id, epoch, nonce, ciphertext);
    let sk = match identity.sig_sk() {
        Ok(sk) => sk,
        Err(error) => {
            return Err(error);
        },
    };
    let signature = match dilithium_sign(&sk, &payload) {
        Ok(signature) => signature,
        Err(error) => {
            return Err(error);
        },
    };
    let frame = ClientMessage::SendMessage {
        server_id,
        epoch,
        nonce: base64_encode(nonce),
        ciphertext: base64_encode(ciphertext),
        signature: base64_encode(&signature),
    };
    assert(frame@ == signed_frame(server_id, epoch, nonce@, ciphertext@, signature@));
    Ok(frame)
}

/// Whether a frame carries `text` as a message of an epoch of a server, sealed
/// under `key` and signed with `sk`.
pub open spec fn carries(
    frame: Request,
    server_id: ServerId,
    epoch: Epoch,
    key: Seq<u8>,
    sk: Seq<u8>,
    text: Seq<char>,
) -> bool {
    exists|nonce: Seq<u8>, ciphertext: Seq<u8>, signature: Seq<u8>|
        frame == #[trigger] signed_frame(server_id, epoch, nonce, ciphertext, signature)
            && fields_decode(nonce, ciphertext, signature) && nonce.len() == NONCE_BYTES
            && seal_outcome(key, nonce, encode_utf8(text)) == Ok::<Seq<u8>, Messages>(ciphertext)
            && open_outcome(key, nonce, ciphertext) == Ok::<Seq<u8>, Messages>(encode_utf8(text))
            && well_signed(server_id, epoch, nonce, ciphertext, sk, signature)
}

/// Seals a text under the current group key of a server, signs it, and hands out
/// the frame for sending.
pub fn send_message_flow(state: &ClientState, server_id: ServerId, plaintext: String) -> (frame:
    Result<ClientMessage, ChatError>)
    ensures
        match frame {
            Ok(frame) => {
                &&& sending_obstacle(state@, server_id, plaintext@) is None
                &&& carries(
                    frame@,
                    server_id,
                    state@.channel(server_id).epoch,
                    state@.channel(server_id).keys[state@.channel(server_id).epoch],
                    decode_outcome(state@.identity->Some_0.sig_sk_b64@)->Ok_0,
                    plaintext@,
                )
            },
            Err(error) => sending_obstacle(state@, server_id, plaintext@) == Some(error@),
        },
{
    let identity = match state.require_identity() {
        Ok(identity) => identity,
        Err(error) => {
            return Err(error);
        },
    };
    let channel = match state.channel(server_id) {
        Some(channel) => channel,
        None => {
            return Err(ChatError::new("you are not in this server".to_string()));
        },
    };
    let epoch: Epoch = channel.epoch;
    let key: GroupKey = match channel.key_at(epoch) {
        Some(key) => key,
        None => {
            return Err(
                ChatError::new(
                    "no group key for current epoch — wait for key distribution".to_string(),
                ),
            );
        },
    };
    let (nonce, ciphertext) = match aes_seal(&key, plaintext.as_str().as_bytes()) {
        Ok(sealed) => sealed,
        Err(error) => {
            return Err(error);
        },
    };
    let frame = match sign_and_frame(identity, server_id, epoch, &nonce, &ciphertext) {
        Ok(frame) => frame,
        Err(error) => {
            return Err(error);
        },
    };
    send(state, frame)
}

/// A text that was sent is read: a client that holds the key it was sealed under,
/// and that knows the sender by a public key that belongs to the signing key (or
/// does not know the sender at all), finds the text with status `ok`, both in the
/// frame that the relay passes on and, from the same bytes, in the history.
pub proof fn law_sent_text_is_read(
    frame: Request,
    server_id: ServerId,
    epoch: Epoch,
    key: Seq<u8>,
    sk: Seq<u8>,
    text: Seq<char>,
    reader: Client,
    sender: UserId,
    message_id: MessageId,
    timestamp: Timestamp,
)
    requires
        carries(frame, server_id, epoch, key, sk, text),
        reader.holds_key(server_id, epoch),
        reader.channel(server_id).keys[epoch] == key,
        reader.channel(server_id).members.contains_key(sender) ==> dilithium_keypair(
            reader.channel(server_id).members[sender].sig_public_key,
            sk,
        ),
    ensures
        frame is SendMessage,
        ({
            let nonce = decode_outcome(frame->SendMessage_nonce);
            let ciphertext = decode_outcome(frame->SendMessage_ciphertext);
            let signature = decode_outcome(frame->SendMessage_signature);
            &&& nonce is Ok
            &&& ciphertext is Ok
            &&& signature is Ok
            &&& reading(
                reader,
                server_id,
                sender,
                epoch,
                nonce->Ok_0,
                ciphertext->Ok_0,
                signature->Ok_0,
            ) == (Reading { plaintext: Some(text), status: "ok"@ })
        }),
        new_message_effects(
            reader,
            server_id,
            message_id,
            sender,
            epoch,
            frame->SendMessage_nonce,
            frame->SendMessage_ciphertext,
            frame->SendMessage_signature,
            timestamp,
        ) == Effects::just(
            Notice::Message(
                ShownMessage {
                    server_id,
                    message_id,
                    sender_id: sender,
                    sender_name: sender_name(reader, server_id, sender),
                    epoch,
                    timestamp,
                    plaintext: Some(text),
                    status: "ok"@,
                },
            ),
        ),
{
    let (nonce, ciphertext, signature) = choose|
        nonce: Seq<u8>,
        ciphertext: Seq<u8>,
        signature: Seq<u8>,
    |
        frame == #[trigger] signed_frame(server_id, epoch, nonce, ciphertext, signature)
            && fields_decode(nonce, ciphertext, signature) && nonce.len() == NONCE_BYTES
            && seal_outcome(key, nonce, encode_utf8(text)) == Ok::<Seq<u8>, Messages>(ciphertext)
            && open_outcome(key, nonce, ciphertext) == Ok::<Seq<u8>, Messages>(encode_utf8(text))
            && well_signed(server_id, epoch, nonce, ciphertext, sk, signature);
    encode_utf8_valid_utf8(text);
    encode_utf8_decode_utf8(text);
}

/// An identity with a Dilithium key pair can sign, and the public key under which
/// it appears as a member belongs to its signing key, so others can verify what it
/// sends. A new identity is such a one, and registration keeps it so.
pub proof fn law_own_signatures_verify(client: Client, identity: Identity, user_id: UserId)
    requires
        client.identity == Some(identity),
        holds_dilithium_keypair(identity),
    ensures
        signing_obstacle(identity) is None,
        own_member(client) matches Ok(me) ==> dilithium_keypair(
            me.sig_public_key,
            decode_outcome(identity.sig_sk_b64@)->Ok_0,
        ),
        holds_dilithium_keypair(renumbered(identity, user_id)),
{
    let renamed = renumbered(identity, user_id);
    let (pk, sk) = choose|pk: Seq<u8>, sk: Seq<u8>| #[trigger]
        dilithium_keypair(pk, sk) && pk.len() == DILITHIUM_PUBLIC_KEY_BYTES && sk.len()
            == DILITHIUM_SECRET_KEY_BYTES && stands_for(identity.sig_pk_b64@, pk) && stands_for(
            identity.sig_sk_b64@,
            sk,
        );
    assert(stands_for(renamed.sig_pk_b64@, pk) && stands_for(renamed.sig_sk_b64@, sk));
}

/// Nobody sends to a server without the key of its current epoch: in particular
/// not a member that has just joined, nor anyone after a disconnect.
pub proof fn law_no_sending_without_key(client: Client, server_id: ServerId, text: Seq<char>)
    requires
        !client.holds_key(server_id, client.channel(server_id).epoch),
    ensures
        sending_obstacle(client, server_id, text) is Some,
{
}

/// Whoever creates a server is its sole member and can send to it: there is a key
/// for the current epoch, so only the identity's signing key, the size of the text
/// or the connection can stand in the way.
pub proof fn law_founder_can_send(
    client: Client,
    server_id: ServerId,
    epoch: Epoch,
    name: Seq<char>,
    me: Member,
    key: Seq<u8>,
    text: Seq<char>,
)
    requires
        own_member(client) == Ok::<Member, Messages>(me),
    ensures
        ({
            let founded = server_founded(client, server_id, epoch, name, me, key);
            &&& founded.channel(server_id).epoch == epoch
            &&& founded.channel(server_id).keys[epoch] == key
            &&& founded.channel(server_id).members[me.user_id] == me
            &&& !client.channels.contains_key(server_id) ==> founded.channel(server_id).members
                == map![me.user_id => me]
            &&& sending_obstacle(founded, server_id, text) is None <==> (encode_utf8(text).len()
                <= MAX_PLAINTEXT_BYTES && signing_obstacle(client.identity->Some_0) is None
                && client.connected)
        }),
{
    assert(Map::<UserId, Member>::empty().insert(me.user_id, me) =~= map![me.user_id => me]);
}

/// Joining a server brings no key: whatever key is held afterwards was held
/// before.
pub proof fn law_joining_brings_no_key(
    client: Client,
    server_id: ServerId,
    epoch: Epoch,
    members: Seq<Member>,
)
    ensures
        server_joined(client, server_id, epoch, members).channel(server_id).keys
            == client.channel(server_id).keys,
        server_joined(client, server_id, epoch, members).channel(server_id).epoch == epoch,
{
    lemma_members_leave_the_rest(client.channel(server_id).at_epoch(epoch), members);
}

/// Adding members changes nothing but the members.
proof fn lemma_members_leave_the_rest(channel: Channel, members: Seq<Member>)
    ensures
        channel.with_members(members).keys == channel.keys,
        channel.with_members(members).epoch == channel.epoch,
    decreases members.len(),
{
    if members.len() > 0 {
        lemma_members_leave_the_rest(channel, members.drop_last());
    }
}

/// Creating, joining, leaving a server and learning of its members keep each
/// member filed under its own identifier.
pub proof fn law_flows_keep_filing(
    client: Client,
    server_id: ServerId,
    epoch: Epoch,
    name: Seq<char>,
    me: Member,
    key: Seq<u8>,
    members: Seq<Member>,
)
    requires
        client.well_filed(),
    ensures
        server_founded(client, server_id, epoch, name, me, key).well_filed(),
        server_joined(client, server_id, epoch, members).well_filed(),
        server_left(client, server_id).well_filed(),
        members_learnt(client, server_id, members).well_filed(),
{
    assert(client.channel(server_id).well_filed());
    law_members_are_filed(client.channel(server_id).at_epoch(epoch), members);
    law_members_are_filed(client.channel(server_id), members);
}

/// Learning of members adds and removes no server: the client knows of the same
/// servers before and after, at the same epochs and with the same keys.
pub proof fn law_listing_members_adds_no_server(
    client: Client,
    server_id: ServerId,
    members: Seq<Member>,
    any: ServerId,
)
    ensures
        members_learnt(client, server_id, members).channels.contains_key(any)
            <==> client.channels.contains_key(any),
        members_learnt(client, server_id, members).channel(any).keys == client.channel(any).keys,
        members_learnt(client, server_id, members).channel(any).epoch == client.channel(any).epoch,
{
    lemma_members_leave_the_rest(client.channel(server_id), members);
}

/// Leaving a server loses its keys and members, and touches no other server.
pub proof fn law_leaving_forgets_the_server(client: Client, server_id: ServerId, other: ServerId)
    ensures
        server_left(client, server_id).channel(server_id) == Channel::unknown(),
        other != server_id ==> server_left(client, server_id).channel(other) == client.channel(
            other,
        ),
{
}

} // verus!
