//! The connection: opening, closing, incoming frames, sending and requests.
//!
//! There is one connection at a time, and at most one request that waits for
//! its reply: replies carry no request number, and the relay never reorders
//! them.
use vstd::prelude::*;

use crate::client::UiConnState;
use crate::error::{outcome, ChatError, Messages};
use crate::protocol::{ClientMessage, Request, ServerMessage};
use crate::state::{
    following, lists_once, next_number, walk, Channel, Client, ClientState,
};
use crate::text::{followed_by, from_utf8, utf8_text};

verus! {

/// A client with a fresh connection: a new session number, no channels, no keys,
/// no open request.
pub open spec fn session_opened(client: Client) -> Client {
    Client {
        channels: Map::empty(),
        connected: true,
        session: next_number(client.session),
        pending_rpc: None,
        ..client
    }
}

/// A client whose connection is gone: every group key is forgotten and no
/// request waits any more.
pub open spec fn session_closed(client: Client) -> Client {
    Client {
        channels: client.channels.map_values(|channel: Channel| channel.without_keys()),
        connected: false,
        pending_rpc: None,
        ..client
    }
}

/// A client that learns that the connection of a session is gone. Only the end
/// of the current session counts.
pub open spec fn session_ended(client: Client, session: u64) -> Client {
    if session == client.session {
        session_closed(client)
    } else {
        client
    }
}

/// What the end of a connection means.
pub enum SessionEnd {
    /// The session has ended. The state of the connection is shown to the user,
    /// and the request that was waiting, if any, gets an answer.
    Ended { shown: UiConnState, answer: Option<(u64, ServerMessage)> },
    /// The connection had been replaced by another before; nothing happens.
    Replaced,
}

impl ClientState {
    /// Starts a session on a new connection, which replaces any earlier one, and
    /// gives its number. Whatever the last session left is dropped: channels and
    /// keys are per session.
    pub fn open_session(&mut self) -> (session: u64)
        ensures
            final(self)@ == session_opened(old(self)@),
            session == final(self)@.session,
    {
        self.connected = true;
        self.session = following(self.session);
        self.channels.clear();
        self.pending_rpc = None;
        assert(self@.channels =~= Map::empty());
        self.session
    }

    /// Forgets the group keys of every channel.
    fn forget_all_keys(&mut self)
        ensures
            final(self)@ == (Client {
                channels: session_closed(old(self)@).channels,
                ..old(self)@
            }),
    {
        let ghost before = self@;
        let order = walk(&self.channels);
        assert(before.channels.dom() =~= self.channels@.dom());
        let mut i: usize = 0;
        while i < order.len()
            invariant
                i <= order.len(),
                lists_once(order@, before.channels.dom()),
                self@ == (Client { channels: self@.channels, ..before }),
                self@.channels.dom() == before.channels.dom(),
                forall|j: int|
                    0 <= j < i ==> self@.channels[#[trigger] order@[j]]
                        == before.channels[order@[j]].without_keys(),
                forall|j: int|
                    i <= j < order@.len() ==> self@.channels[#[trigger] order@[j]]
                        == before.channels[order@[j]],
            decreases order.len() - i,
        {
            proof {
                assert(order@.to_set().contains(order@[i as int]));
            }
            let mut channel = self.take_channel(order[i]);
            channel.forget_keys();
            self.put_channel(order[i], channel);
            assert(self@.channels.dom() =~= before.channels.dom());
            i += 1;
        }
        proof {
            assert forall|id: u128|
                before.channels.contains_key(id) implies #[trigger] self@.channels[id]
                == before.channels[id].without_keys() by {
                assert(order@.to_set().contains(id));
            }
            assert(self@.channels =~= session_closed(before).channels);
        }
    }

    /// Takes in that the connection of a session is gone. If it is the current
    /// session, it ends: the group keys are wiped, and a request that still waits
    /// is answered with an error. The end of a connection that was replaced
    /// changes nothing.
    pub fn close_session(&mut self, session: u64) -> (end: SessionEnd)
        ensures
            final(self)@ == session_ended(old(self)@, session),
            if session == old(self)@.session {
                end matches SessionEnd::Ended { shown, answer } && shown.state@
                    == "disconnected"@ && shown.detail is None && match old(
                    self,
                )@.pending_rpc {
                    Some(request) => answer matches Some((to, ServerMessage::Error { reason }))
                        && to == request && reason@ == "connection closed"@,
                    None => answer is None,
                }
            } else {
                end is Replaced
            },
    {
        if session != self.session {
            return SessionEnd::Replaced;
        }
        self.forget_all_keys();
        self.connected = false;
        let answer = match self.pending_rpc {
            Some(request) => Some(
                (request, ServerMessage::Error { reason: "connection closed".to_string() }),
            ),
            None => None,
        };
        self.pending_rpc = None;
        SessionEnd::Ended { shown: UiConnState::disconnected(), answer }
    }
}

/// The error for a connection that could not be opened.
pub fn connect_failed(url: &str, cause: ChatError) -> (error: ChatError)
    ensures
        error@ == seq!["connecting to "@ + url@] + cause@,
{
    cause.context(followed_by("connecting to ", url))
}

/// What arrived on the socket.
pub enum Frame {
    Text(String),
    Binary(Vec<u8>),
    Ping,
    Pong,
    Close,
    /// Any other frame.
    Other,
    /// Reading failed.
    Failed,
}

/// What to do with what arrived on the socket.
pub enum FrameAction {
    /// Parse this text as a [`ServerMessage`].
    Parse(String),
    /// Go on reading.
    Skip,
    /// Stop reading: the connection is gone.
    Stop,
}

/// Decides what to do with what arrived on the socket. Binary frames count as
/// text; those that are not UTF-8 count as the empty text.
pub fn classify_frame(frame: Frame) -> (action: FrameAction)
    ensures
        match frame {
            Frame::Text(text) => action == FrameAction::Parse(text),
            Frame::Binary(bytes) => action matches FrameAction::Parse(text) && text@ == (
            match utf8_text(bytes@) {
                Some(decoded) => decoded,
                None => Seq::empty(),
            }),
            Frame::Ping | Frame::Pong | Frame::Other => action is Skip,
            Frame::Close | Frame::Failed => action is Stop,
        },
{
    match frame {
        Frame::Text(text) => FrameAction::Parse(text),
        Frame::Binary(bytes) => match from_utf8(bytes) {
            Some(text) => FrameAction::Parse(text),
            None => FrameAction::Parse(String::new()),
        },
        Frame::Ping | Frame::Pong | Frame::Other => FrameAction::Skip,
        Frame::Close | Frame::Failed => FrameAction::Stop,
    }
}

/// Hands out a frame for sending, without waiting for a reply. It can be sent
/// exactly when there is a connection.
pub fn send(state: &ClientState, message: ClientMessage) -> (frame: Result<
    ClientMessage,
    ChatError,
>)
    ensures
        if state@.connected {
            frame == Ok::<ClientMessage, ChatError>(message)
        } else {
            frame matches Err(error) && error@ == seq!["not connected"@]
        },
{
    if state.connected {
        Ok(message)
    } else {
        Err(ChatError::new("not connected".to_string()))
    }
}

/// Reports whether a frame was handed to the connection.
pub fn send_result(handed_over: bool) -> (result: Result<(), ChatError>)
    ensures
        if handed_over {
            result is Ok
        } else {
            result matches Err(error) && error@ == seq!["connection dropped"@]
        },
{
    if handed_over {
        Ok(())
    } else {
        Err(ChatError::new("connection dropped".to_string()))
    }
}

/// How many seconds a request waits for its reply.
pub const RPC_TIMEOUT_SECS: u64 = 15;

/// How a request starts.
#[derive(Debug, PartialEq, Eq)]
pub enum RpcStart {
    /// It has the given number and waits for its reply; send its frame.
    Go { request: u64, frame: ClientMessage },
    /// Another request still waits for its reply. Try again with this frame when
    /// that one is over.
    Wait(ClientMessage),
}

/// What an [`RpcStart`] says.
#[verifier::ext_equal]
pub enum Started {
    Go { request: u64, frame: Request },
    Wait(Request),
}

impl View for RpcStart {
    type V = Started;

    open spec fn view(&self) -> Started {
        match *self {
            RpcStart::Go { request, frame } => Started::Go { request, frame: frame@ },
            RpcStart::Wait(frame) => Started::Wait(frame@),
        }
    }
}

impl Started {
    /// The frame of the request, to be sent now or later.
    pub open spec fn request(self) -> Request {
        match self {
            Started::Go { frame, .. } => frame,
            Started::Wait(frame) => frame,
        }
    }
}

/// Whether a request can start now: there is a connection, and no other request
/// waits.
pub open spec fn rpc_ready(client: Client) -> bool {
    client.connected && client.pending_rpc is None
}

/// The outcome of starting a request.
pub open spec fn rpc_outcome(client: Client, request: Request) -> Result<Started, Messages> {
    if !client.connected {
        Err(seq!["not connected"@])
    } else if client.pending_rpc is Some {
        Ok(Started::Wait(request))
    } else {
        Ok(Started::Go { request: next_number(client.last_rpc), frame: request })
    }
}

/// The client after starting a request.
pub open spec fn rpc_started(client: Client) -> Client {
    if rpc_ready(client) {
        Client {
            pending_rpc: Some(next_number(client.last_rpc)),
            last_rpc: next_number(client.last_rpc),
            ..client
        }
    } else {
        client
    }
}

/// Starts a request: numbers it, marks that it waits for its reply, and hands out
/// the frame for sending. Without a connection, or while another request waits,
/// nothing is started.
pub fn rpc(state: &mut ClientState, message: ClientMessage) -> (started: Result<
    RpcStart,
    ChatError,
>)
    ensures
        outcome(started) == rpc_outcome(old(state)@, message@),
        final(state)@ == rpc_started(old(state)@),
{
    let frame = match send(state, message) {
        Ok(frame) => frame,
        Err(error) => {
            return Err(error);
        },
    };
    if state.pending_rpc.is_some() {
        return Ok(RpcStart::Wait(frame));
    }
    let request: u64 = following(state.last_rpc);
    state.last_rpc = request;
    state.pending_rpc = Some(request);
    Ok(RpcStart::Go { request, frame })
}

/// How the wait for a reply ended.
pub enum RpcWait {
    Replied(ServerMessage),
    TimedOut,
    Cancelled,
    /// The frame could not be sent.
    Unsent(ChatError),
}

/// A client for which the request with the given number is over.
pub open spec fn rpc_over(client: Client, request: u64) -> Client {
    if client.pending_rpc == Some(request) {
        Client { pending_rpc: None, ..client }
    } else {
        client
    }
}

/// Ends a request: gives the reply, or the reason why there is none. However it
/// ended, the request waits no longer; another one that waits is left alone.
pub fn rpc_reply(state: &mut ClientState, request: u64, wait: RpcWait) -> (reply: Result<
    ServerMessage,
    ChatError,
>)
    ensures
        final(state)@ == rpc_over(old(state)@, request),
        match wait {
            RpcWait::Replied(message) => reply == Ok::<ServerMessage, ChatError>(message),
            RpcWait::TimedOut => reply matches Err(error) && error@ == seq!["RPC timeout"@],
            RpcWait::Cancelled => reply matches Err(error) && error@ == seq![
                "RPC channel cancelled"@,
            ],
            RpcWait::Unsent(error) => reply == Err::<ServerMessage, ChatError>(error),
        },
{
    let over = match state.pending_rpc {
        Some(waiting) => waiting == request,
        None => false,
    };
    if over {
        state.pending_rpc = None;
    }
    match wait {
        RpcWait::Replied(message) => Ok(message),
        RpcWait::TimedOut => Err(ChatError::new("RPC timeout".to_string())),
        RpcWait::Cancelled => Err(ChatError::new("RPC channel cancelled".to_string())),
        RpcWait::Unsent(error) => Err(error),
    }
}

/// Turns an error reply of the relay into an error; other replies pass.
pub fn expect_ok(reply: ServerMessage) -> (accepted: Result<ServerMessage, ChatError>)
    ensures
        match reply {
            ServerMessage::Error { reason } => accepted matches Err(error) && error@ == seq![
                "server: "@ + reason@,
            ],
            _ => accepted == Ok::<ServerMessage, ChatError>(reply),
        },
{
    match reply {
        ServerMessage::Error { reason } => Err(
            ChatError::new(followed_by("server: ", reason.as_str())),
        ),
        reply => Ok(reply),
    }
}

/// No group key survives the end of a session, and none the start of one.
pub proof fn law_keys_are_session_only(client: Client, server_id: u128, epoch: u64)
    ensures
        !session_closed(client).holds_key(server_id, epoch),
        !session_opened(client).holds_key(server_id, epoch),
{
}

/// The end of a session leaves the identity and what is known of each server
/// but for the keys; the start of one leaves the identity.
pub proof fn law_sessions_keep_identity(client: Client, server_id: u128)
    ensures
        session_closed(client).identity == client.identity,
        session_opened(client).identity == client.identity,
        session_closed(client).channels.dom() == client.channels.dom(),
        session_closed(client).channel(server_id) == client.channel(server_id).without_keys(),
        client.well_filed() ==> session_closed(client).well_filed(),
        session_opened(client).well_filed(),
{
    assert(session_closed(client).channels.dom() =~= client.channels.dom());
    assert(session_closed(client).channel(server_id) =~= client.channel(
        server_id,
    ).without_keys());
}

/// Without a connection no request starts, and the client stays as it is.
pub proof fn law_requests_need_a_connection(client: Client, request: Request)
    ensures
        rpc_outcome(client, request) is Ok <==> client.connected,
        !client.connected ==> rpc_started(client) == client,
{
}

/// Requests do not overlap: while one waits for its reply no other gets its frame
/// sent, and nothing about the waiting one changes. Once it is over, however it
/// ended, the next can start, under a number of its own.
pub proof fn law_one_request_at_a_time(client: Client, request: Request)
    ensures
        client.pending_rpc is Some ==> rpc_started(client) == client && !(rpc_outcome(
            client,
            request,
        ) matches Ok(Started::Go { .. })),
        ({
            let number = next_number(client.last_rpc);
            rpc_ready(client) ==> {
                &&& number != client.last_rpc
                &&& rpc_outcome(client, request) == Ok::<Started, Messages>(
                    Started::Go { request: number, frame: request },
                )
                &&& rpc_started(client).pending_rpc == Some(number)
                &&& rpc_ready(rpc_over(rpc_started(client), number))
            }
        }),
{
}

/// The end of one request leaves another alone.
pub proof fn law_requests_end_on_their_own(client: Client, request: u64, other: u64)
    requires
        client.pending_rpc == Some(request),
        other != request,
    ensures
        rpc_over(client, other) == client,
        rpc_over(client, request).pending_rpc is None,
{
}

} // verus!
