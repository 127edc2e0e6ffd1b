//! Connections, requests and the frames that arrive.
use vstd::prelude::*;

use crate::client::events::{frame_handled, event_handled, Verdict};
use crate::client::session::{
    rpc_outcome, rpc_over, rpc_started, session_ended, session_opened, Started,
};
use crate::error::Messages;
use crate::protocol::{is_pushed, Epoch, Request, ServerId, ServerMessage};
use crate::state::Client;

verus! {

/// A new session is connected, knows no server and no waiting request, and has
/// another number than the last; identity and request numbers go on.
pub proof fn law_a_new_session_starts_empty(client: Client, server_id: ServerId)
    ensures
        ({
            let after = session_opened(client);
            &&& after.connected
            &&& !after.channels.contains_key(server_id)
            &&& after.pending_rpc is None
            &&& after.session != client.session
            &&& after.identity == client.identity
            &&& after.last_rpc == client.last_rpc
        }),
{
}

/// The end of the current session disconnects, lets no request wait, and takes
/// every key of every server; servers, members, epochs, names, identity and
/// numbers stay. The end of any other session changes nothing.
pub proof fn law_the_end_of_a_session_takes_the_keys(
    client: Client,
    session: u64,
    server_id: ServerId,
    epoch: Epoch,
)
    ensures
        ({
            let after = session_ended(client, session);
            if session == client.session {
                &&& !after.connected
                &&& after.pending_rpc is None
                &&& after.identity == client.identity
                &&& after.session == client.session
                &&& after.last_rpc == client.last_rpc
                &&& after.channels.contains_key(server_id) <==> client.channels.contains_key(
                    server_id,
                )
                &&& client.channels.contains_key(server_id) ==> {
                    &&& !after.channels[server_id].keys.contains_key(epoch)
                    &&& after.channels[server_id].members == client.channels[server_id].members
                    &&& after.channels[server_id].epoch == client.channels[server_id].epoch
                    &&& after.channels[server_id].name == client.channels[server_id].name
                }
            } else {
                after == client
            }
        }),
{
}

/// A request goes out exactly when there is a connection and no other request
/// waits: with its own frame, under a new number, under which it then waits. While
/// another waits it is held back, and without a connection it fails; in both cases
/// nothing changes.
pub proof fn law_when_a_request_goes_out(client: Client, request: Request)
    ensures
        client.connected && client.pending_rpc is None ==> {
            &&& rpc_outcome(client, request) matches Ok(Started::Go { request: number, frame })
                && frame == request && number != client.last_rpc && rpc_started(client) == (Client {
                pending_rpc: Some(number),
                last_rpc: number,
                ..client
            })
        },
        client.connected && client.pending_rpc is Some ==> {
            &&& rpc_outcome(client, request) == Ok::<Started, Messages>(Started::Wait(request))
            &&& rpc_started(client) == client
        },
        !client.connected ==> {
            &&& rpc_outcome(client, request) == Err::<Started, Messages>(seq!["not connected"@])
            &&& rpc_started(client) == client
        },
{
}

/// The end of a request lets exactly that request wait no longer.
pub proof fn law_when_a_request_is_over(client: Client, request: u64)
    ensures
        client.pending_rpc == Some(request) ==> rpc_over(client, request) == (Client {
            pending_rpc: None,
            ..client
        }),
        client.pending_rpc != Some(request) ==> rpc_over(client, request) == client,
{
}

/// What becomes of a frame over the current connection: a pushed one is handled; a
/// reply goes to the waiting request, which waits no longer; with none waiting, an
/// error is shown to the user with its reason, and any other reply is dropped.
/// Over any other connection, nothing becomes of it.
pub proof fn law_what_becomes_of_a_frame(
    client: Client,
    session: u64,
    message: ServerMessage,
    after: Client,
    verdict: Verdict,
)
    requires
        frame_handled(client, session, message, after, verdict),
    ensures
        session != client.session ==> after == client && verdict is Replaced,
        session == client.session && (message is MemberJoined || message is MemberLeft
            || message is KeyMaterial || message is NewMessage) ==> (
        verdict matches Verdict::Event(effects) && event_handled(
            client,
            message,
            after,
            effects,
        )),
        session == client.session && !(message is MemberJoined || message is MemberLeft
            || message is KeyMaterial || message is NewMessage) ==> match client.pending_rpc {
            Some(request) => {
                &&& verdict == Verdict::Reply(request, message)
                &&& after == (Client { pending_rpc: None, ..client })
            },
            None => {
                &&& after == client
                &&& message matches ServerMessage::Error { reason } ==> verdict
                    == Verdict::ClientError(reason@)
                &&& !(message is Error) ==> verdict is Ignored
            },
        },
{
}

/// The frames that the relay pushes are those about members, keys and messages;
/// all others are replies.
pub proof fn law_which_frames_are_pushed(message: ServerMessage)
    ensures
        match message {
            ServerMessage::MemberJoined { .. } => is_pushed(message),
            ServerMessage::MemberLeft { .. } => is_pushed(message),
            ServerMessage::KeyMaterial { .. } => is_pushed(message),
            ServerMessage::NewMessage { .. } => is_pushed(message),
            _ => !is_pushed(message),
        },
{
}

} // verus!
