use pq_chat::client::events::{handle_server_message, Dispatch};
use pq_chat::client::session::{
    classify_frame, connect_failed, expect_ok, rpc, rpc_reply, send, send_result, Frame,
    FrameAction, RpcStart, RpcWait, SessionEnd, RPC_TIMEOUT_SECS,
};
use pq_chat::client::UiConnState;
use pq_chat::commands::{cmd_load_identity, cmd_reset_identity};
use pq_chat::error::ChatError;
use pq_chat::identity::{new_unregistered, Identity};
use pq_chat::protocol::{ClientMessage, MemberInfo, ServerMessage};
use pq_chat::state::{ChannelView, ClientState};

fn member(user_id: u128) -> MemberInfo {
    MemberInfo {
        user_id,
        display_name: format!("user {user_id}"),
        kem_public_key: vec![1],
        sig_public_key: vec![2],
    }
}

fn with_channel() -> ClientState {
    let mut state = ClientState::new();
    let mut channel = ChannelView::default();
    channel.add_member(member(4));
    channel.add_key(1, [1; 32]);
    channel.add_key(2, [2; 32]);
    channel.epoch = 2;
    channel.name = "general".to_string();
    state.channels.insert(10, channel);
    let mut other = ChannelView::default();
    other.add_key(7, [7; 32]);
    state.channels.insert(11, other);
    state
}

fn identity() -> Identity {
    new_unregistered("Alice".to_string())
}

/// The number of a request that starts now.
fn start(state: &mut ClientState, message: ClientMessage) -> u64 {
    match rpc(state, message).unwrap() {
        RpcStart::Go { request, .. } => request,
        RpcStart::Wait(_) => panic!("another request waits"),
    }
}

/// Ends the session and gives the answer to the waiting request.
fn close(state: &mut ClientState, session: u64) -> Option<(u64, ServerMessage)> {
    match state.close_session(session) {
        SessionEnd::Ended { shown, answer } => {
            assert_eq!(shown, UiConnState { state: "disconnected", detail: None });
            answer
        }
        SessionEnd::Replaced => panic!("the session is the current one"),
    }
}

fn error(reason: &str) -> ServerMessage {
    ServerMessage::Error { reason: reason.to_string() }
}

#[test]
fn a_new_state_is_empty() {
    let state = ClientState::new();
    assert!(state.identity.is_none());
    assert!(state.channels.is_empty());
    assert!(!state.connected);
    assert_eq!(state.pending_rpc, None);
    assert_eq!(state.require_identity().err().unwrap().full_text(), "no identity loaded");
    assert!(state.channel(10).is_none());
}

#[test]
fn channels_keep_members_and_keys() {
    let mut channel = ChannelView::default();
    assert_eq!(channel.epoch, 0);
    assert_eq!(channel.name, "");
    channel.add_members(&vec![member(1), member(2), member(1)]);
    assert_eq!(channel.members.len(), 2);
    let mut renamed = member(1);
    renamed.display_name = "late".to_string();
    channel.add_members(&vec![member(1), renamed.clone()]);
    assert_eq!(channel.member(1), Some(&renamed));
    channel.remove_member(1);
    channel.remove_member(99);
    assert!(channel.member(1).is_none());
    assert_eq!(channel.member(2), Some(&member(2)));
    channel.add_key(3, [3; 32]);
    channel.add_key(4, [4; 32]);
    assert_eq!(channel.key_at(3), Some([3; 32]));
    assert_eq!(channel.key_at(5), None);
    channel.forget_keys();
    assert_eq!((channel.key_at(3), channel.key_at(4)), (None, None));
}

#[test]
fn opening_a_session_starts_afresh() {
    let mut state = with_channel();
    state.identity = Some(identity());
    state.pending_rpc = Some(3);
    state.session = 8;
    assert_eq!(state.open_session(), 9);
    assert_eq!(state.session, 9);
    assert!(state.connected);
    assert_eq!(state.pending_rpc, None);
    assert!(state.channels.is_empty());
    assert!(state.identity.is_some());
    state.session = u64::MAX;
    assert_eq!(state.open_session(), 0);
}

#[test]
fn closing_a_session_wipes_the_keys() {
    let mut state = with_channel();
    state.connected = true;
    let session = state.session;
    assert_eq!(close(&mut state, session), None);
    assert!(!state.connected);
    assert_eq!(state.channels.len(), 2);
    assert!(state.channels[&10].keys.is_empty());
    assert!(state.channels[&11].keys.is_empty());
    assert_eq!(state.channels[&10].epoch, 2);
    assert_eq!(state.channels[&10].name, "general");
    assert_eq!(state.channels[&10].member(4), Some(&member(4)));
}

#[test]
fn closing_a_session_answers_the_waiting_request() {
    let mut state = ClientState::new();
    let session = state.open_session();
    let request = start(&mut state, ClientMessage::Ping);
    assert_eq!(close(&mut state, session), Some((request, error("connection closed"))));
    assert_eq!(state.pending_rpc, None);
    assert_eq!(close(&mut state, session), None);
}

#[test]
fn a_replaced_connection_has_no_effect() {
    let mut state = ClientState::new();
    let old = state.open_session();
    let new = state.open_session();
    assert_ne!(old, new);
    let request = start(&mut state, ClientMessage::Ping);
    let mut channel = ChannelView::default();
    channel.add_key(1, [1; 32]);
    state.channels.insert(10, channel);
    for message in [
        ServerMessage::Pong,
        error("late"),
        ServerMessage::MemberJoined { server_id: 10, member: member(5), epoch: 9 },
    ] {
        assert!(matches!(
            handle_server_message(&mut state, old, message),
            Dispatch::Replaced
        ));
    }
    assert!(matches!(state.close_session(old), SessionEnd::Replaced));
    assert!(state.connected);
    assert_eq!(state.pending_rpc, Some(request));
    assert_eq!(state.channels[&10].key_at(1), Some([1; 32]));
    assert_eq!(state.channels[&10].epoch, 0);
    assert!(state.channels[&10].members.is_empty());
    assert!(matches!(
        handle_server_message(&mut state, new, ServerMessage::Pong),
        Dispatch::Reply(_, ServerMessage::Pong)
    ));
}

fn parsed(frame: Frame) -> Option<String> {
    match classify_frame(frame) {
        FrameAction::Parse(text) => Some(text),
        _ => None,
    }
}

#[test]
fn frames_are_sorted() {
    assert_eq!(parsed(Frame::Text("{}".to_string())), Some("{}".to_string()));
    assert_eq!(parsed(Frame::Binary("grüß".as_bytes().to_vec())), Some("grüß".to_string()));
    assert_eq!(parsed(Frame::Binary(vec![0xff, 0xfe])), Some(String::new()));
    assert!(matches!(classify_frame(Frame::Ping), FrameAction::Skip));
    assert!(matches!(classify_frame(Frame::Pong), FrameAction::Skip));
    assert!(matches!(classify_frame(Frame::Other), FrameAction::Skip));
    assert!(matches!(classify_frame(Frame::Close), FrameAction::Stop));
    assert!(matches!(classify_frame(Frame::Failed), FrameAction::Stop));
}

#[test]
fn sending_needs_a_connection() {
    let mut state = ClientState::new();
    assert_eq!(send(&state, ClientMessage::Ping).unwrap_err().full_text(), "not connected");
    assert_eq!(rpc(&mut state, ClientMessage::Ping).unwrap_err().full_text(), "not connected");
    assert_eq!((state.pending_rpc, state.last_rpc), (None, 0));
    state.open_session();
    assert_eq!(send(&state, ClientMessage::Ping).unwrap(), ClientMessage::Ping);
    assert_eq!(state.pending_rpc, None);
    assert_eq!(
        rpc(&mut state, ClientMessage::ListServers).unwrap(),
        RpcStart::Go { request: 1, frame: ClientMessage::ListServers }
    );
    assert_eq!(state.pending_rpc, Some(1));
    assert!(send_result(true).is_ok());
    assert_eq!(send_result(false).unwrap_err().full_text(), "connection dropped");
}

#[test]
fn requests_take_turns() {
    let mut state = ClientState::new();
    state.open_session();
    let first = start(&mut state, ClientMessage::Ping);
    assert_eq!(
        rpc(&mut state, ClientMessage::ListServers).unwrap(),
        RpcStart::Wait(ClientMessage::ListServers)
    );
    assert_eq!(state.pending_rpc, Some(first));
    // The end of a request that is long over does not end the waiting one.
    let _ = rpc_reply(&mut state, first + 7, RpcWait::TimedOut);
    assert_eq!(state.pending_rpc, Some(first));
    let _ = rpc_reply(&mut state, first, RpcWait::TimedOut);
    let second = start(&mut state, ClientMessage::ListServers);
    assert_ne!(first, second);
    state.connected = false;
    assert_eq!(rpc(&mut state, ClientMessage::Ping).unwrap_err().full_text(), "not connected");
    assert_eq!(state.pending_rpc, Some(second));
}

#[test]
fn waits_end_in_a_reply_or_an_error() {
    let mut state = ClientState::new();
    state.open_session();
    let request = start(&mut state, ClientMessage::Ping);
    assert_eq!(
        rpc_reply(&mut state, request, RpcWait::Replied(ServerMessage::Pong)).unwrap(),
        ServerMessage::Pong
    );
    assert_eq!(state.pending_rpc, None);
    let request = start(&mut state, ClientMessage::Ping);
    let ended = rpc_reply(&mut state, request, RpcWait::TimedOut);
    assert_eq!(ended.unwrap_err().full_text(), "RPC timeout");
    assert_eq!(state.pending_rpc, None);
    let request = start(&mut state, ClientMessage::Ping);
    let ended = rpc_reply(&mut state, request, RpcWait::Cancelled);
    assert_eq!(ended.unwrap_err().full_text(), "RPC channel cancelled");
    assert_eq!(state.pending_rpc, None);
    let request = start(&mut state, ClientMessage::Ping);
    let unsent = RpcWait::Unsent(send_result(false).unwrap_err());
    let ended = rpc_reply(&mut state, request, unsent);
    assert_eq!(ended.unwrap_err().full_text(), "connection dropped");
    assert_eq!(state.pending_rpc, None);
    assert_eq!(RPC_TIMEOUT_SECS, 15);
}

#[test]
fn errors_after_a_timeout_reach_the_user() {
    let mut state = ClientState::new();
    let session = state.open_session();
    let request = start(&mut state, ClientMessage::Ping);
    let _ = rpc_reply(&mut state, request, RpcWait::TimedOut);
    match handle_server_message(&mut state, session, error("stale epoch")) {
        Dispatch::ClientError(reason) => assert_eq!(reason, "stale epoch"),
        _ => panic!("an error was expected"),
    }
}

#[test]
fn error_replies_become_errors() {
    assert_eq!(expect_ok(error("no such server")).unwrap_err().full_text(), "server: no such server");
    assert_eq!(expect_ok(ServerMessage::Pong).unwrap(), ServerMessage::Pong);
}

#[test]
fn failed_connections_name_the_url() {
    let cause = ChatError::new("refused".to_string());
    let failed = connect_failed("ws://127.0.0.1:8080", cause);
    assert_eq!(failed.full_text(), "connecting to ws://127.0.0.1:8080: refused");
    assert_eq!(failed.summary(), "connecting to ws://127.0.0.1:8080");
}

#[test]
fn connection_states_are_shown() {
    assert_eq!(
        UiConnState::connecting(),
        UiConnState { state: "connecting", detail: None }
    );
    assert_eq!(
        UiConnState::connected("ws://x".to_string()),
        UiConnState { state: "connected", detail: Some("ws://x".to_string()) }
    );
    assert_eq!(
        UiConnState::disconnected(),
        UiConnState { state: "disconnected", detail: None }
    );
}

#[test]
fn replies_go_to_the_waiting_request() {
    let mut state = ClientState::new();
    let session = state.open_session();
    let request = start(&mut state, ClientMessage::Ping);
    match handle_server_message(&mut state, session, ServerMessage::Pong) {
        Dispatch::Reply(to, message) => assert_eq!((to, message), (request, ServerMessage::Pong)),
        _ => panic!("a reply was expected"),
    }
    assert_eq!(state.pending_rpc, None);
    assert!(matches!(
        handle_server_message(&mut state, session, ServerMessage::Pong),
        Dispatch::Ignored
    ));
    match handle_server_message(&mut state, session, error("stale epoch")) {
        Dispatch::ClientError(reason) => assert_eq!(reason, "stale epoch"),
        _ => panic!("an error was expected"),
    }
    let request = start(&mut state, ClientMessage::Ping);
    match handle_server_message(&mut state, session, error("bad")) {
        Dispatch::Reply(to, message) => assert_eq!((to, message), (request, error("bad"))),
        _ => panic!("a reply was expected"),
    }
}

#[test]
fn pushed_frames_are_no_replies() {
    let left = ServerMessage::MemberLeft { server_id: 1, user_id: 2, epoch: 3 };
    assert!(left.is_event());
    assert!(ServerMessage::MemberJoined { server_id: 1, member: member(2), epoch: 3 }.is_event());
    let key = ServerMessage::KeyMaterial {
        server_id: 1,
        from_user: 2,
        epoch: 3,
        wrapped_key: String::new(),
    };
    assert!(key.is_event());
    assert!(!ServerMessage::Pong.is_event());
    assert!(!error("x").is_event());
    assert!(!ServerMessage::ServerLeft { server_id: 1 }.is_event());
    assert!(!ServerMessage::Registered { user_id: 1 }.is_event());
    let mut state = ClientState::new();
    let session = state.open_session();
    state.identity = Some(identity());
    let request = start(&mut state, ClientMessage::Ping);
    assert!(matches!(handle_server_message(&mut state, session, left), Dispatch::Event(_)));
    assert_eq!(state.pending_rpc, Some(request));
}

#[test]
fn identities_are_loaded_and_reset() {
    let mut state = with_channel();
    state.connected = true;
    assert_eq!(cmd_load_identity(&mut state, None), None);
    assert!(state.identity.is_none());
    let view = cmd_load_identity(&mut state, Some(identity())).unwrap();
    assert_eq!(view.display_name, "Alice");
    assert!(state.identity.is_some());
    cmd_reset_identity(&mut state);
    assert!(state.identity.is_none());
    assert!(state.channels.is_empty());
    assert!(state.connected);
}
