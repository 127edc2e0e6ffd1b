use pq_chat::client::flows::{
    adopt_identity, create_server_flow, create_server_request, found_server, get_history_flow,
    get_history_request, join_server_flow, join_server_request, leave_server_flow,
    leave_server_request, list_members_flow, list_members_request, list_servers_flow,
    list_servers_request, register_flow, register_request, send_message_flow, sign_and_frame,
    Reply,
};
use pq_chat::client::login::{
    answer_challenge, login_begin, login_flow, login_resume, LoginPhase, LoginStep,
};
use pq_chat::client::session::{rpc_reply, RpcStart, RpcWait};
use pq_chat::crypto::dilithium_verify;
use pq_chat::encoding::decode;
use pq_chat::error::ChatError;
use pq_chat::identity::{new_unregistered, Identity};
use pq_chat::protocol::{ClientMessage, MemberInfo, ServerInfo, ServerMessage};
use pq_chat::state::{ChannelView, ClientState};

const SERVER: u128 = 0x5e;

fn alice() -> Identity {
    let mut identity = new_unregistered("Alice".to_string());
    identity.user_id = 1;
    identity
}

fn online(identity: Identity) -> ClientState {
    let mut state = ClientState::new();
    state.open_session();
    state.identity = Some(identity);
    state
}

fn member(user_id: u128, name: &str) -> MemberInfo {
    MemberInfo {
        user_id,
        display_name: name.to_string(),
        kem_public_key: vec![1],
        sig_public_key: vec![2],
    }
}

fn reply(message: ServerMessage) -> Result<Reply, ChatError> {
    Ok(Reply { message, shown: "Shown".to_string() })
}

fn error(reason: &str) -> Result<Reply, ChatError> {
    reply(ServerMessage::Error { reason: reason.to_string() })
}

fn timeout() -> Result<Reply, ChatError> {
    Err(ChatError::new("RPC timeout".to_string()))
}

fn failure<T>(result: Result<T, ChatError>) -> String {
    match result {
        Ok(_) => panic!("an error was expected"),
        Err(error) => error.full_text(),
    }
}

/// The frame of a request that starts now. The request is over at once.
fn asked(state: &mut ClientState, started: Result<RpcStart, ChatError>) -> ClientMessage {
    match started.unwrap() {
        RpcStart::Go { request, frame } => {
            assert_eq!(state.pending_rpc, Some(request));
            let _ = rpc_reply(state, request, RpcWait::Cancelled);
            frame
        }
        RpcStart::Wait(_) => panic!("another request waits"),
    }
}

fn failed(step: LoginStep) -> String {
    match step {
        LoginStep::Failed(error) => error.full_text(),
        _ => panic!("an error was expected"),
    }
}

#[test]
fn requests_say_what_is_asked() {
    let mut state = online(alice());
    let started = create_server_request(&mut state, &"general".to_string());
    assert_eq!(
        asked(&mut state, started),
        ClientMessage::CreateServer { name: "general".to_string() }
    );
    let started = join_server_request(&mut state, 7);
    assert_eq!(asked(&mut state, started), ClientMessage::JoinServer { server_id: 7 });
    let started = leave_server_request(&mut state, 7);
    assert_eq!(asked(&mut state, started), ClientMessage::LeaveServer { server_id: 7 });
    let started = list_servers_request(&mut state);
    assert_eq!(asked(&mut state, started), ClientMessage::ListServers);
    let started = list_members_request(&mut state, 7);
    assert_eq!(asked(&mut state, started), ClientMessage::ListMembers { server_id: 7 });
    let started = get_history_request(&mut state, 7);
    assert_eq!(asked(&mut state, started), ClientMessage::GetHistory { server_id: 7 });
    assert_eq!(state.last_rpc, 6);
}

#[test]
fn requests_wait_for_their_turn() {
    let mut state = online(alice());
    state.pending_rpc = Some(5);
    assert_eq!(
        join_server_request(&mut state, 7).unwrap(),
        RpcStart::Wait(ClientMessage::JoinServer { server_id: 7 })
    );
    assert_eq!(state.pending_rpc, Some(5));
    match login_begin(&mut state) {
        LoginStep::Ask(_, start) => {
            assert_eq!(start, RpcStart::Wait(ClientMessage::AuthBegin { user_id: 1 }))
        }
        _ => panic!("a request was expected"),
    }
}

#[test]
fn requests_need_a_connection() {
    let mut state = ClientState::new();
    assert_eq!(failure(create_server_request(&mut state, &String::new())), "not connected");
    assert_eq!(failure(join_server_request(&mut state, 7)), "not connected");
    assert_eq!(failure(leave_server_request(&mut state, 7)), "not connected");
    assert_eq!(failure(list_servers_request(&mut state)), "not connected");
    assert_eq!(failure(list_members_request(&mut state, 7)), "not connected");
    assert_eq!(failure(get_history_request(&mut state, 7)), "not connected");
    assert_eq!(failure(register_request(&mut state, String::new())), "not connected");
    assert_eq!(state.pending_rpc, None);
}

#[test]
fn registration_sends_the_public_keys() {
    let mut state = ClientState::new();
    state.open_session();
    let (identity, start) = register_request(&mut state, "Alice".to_string()).unwrap();
    let frame = asked(&mut state, Ok(start));
    assert_eq!(
        frame,
        ClientMessage::Register {
            display_name: "Alice".to_string(),
            kem_public_key: identity.kem_pk_b64.clone(),
            sig_public_key: identity.sig_pk_b64.clone(),
        }
    );
    assert_eq!(identity.user_id, 0);
    let secret = identity.sig_sk_b64.clone();
    let identity = register_flow(identity, reply(ServerMessage::Registered { user_id: 12 })).unwrap();
    assert_eq!(identity.user_id, 12);
    assert_eq!(identity.sig_sk_b64, secret);
    assert!(state.identity.is_none());
    adopt_identity(&mut state, identity);
    assert_eq!(state.identity.unwrap().user_id, 12);
}

#[test]
fn registration_can_fail() {
    assert_eq!(failure(register_flow(alice(), timeout())), "RPC timeout");
    assert_eq!(failure(register_flow(alice(), error("taken"))), "server: taken");
    assert_eq!(
        failure(register_flow(alice(), reply(ServerMessage::Pong))),
        "expected Registered, got Shown"
    );
}

#[test]
fn the_creator_of_a_server_can_send() {
    let identity = alice();
    let mut state = online(identity.clone());
    let created = ServerMessage::ServerCreated { server_id: SERVER, epoch: 0 };
    let id = create_server_flow(&mut state, "general".to_string(), reply(created)).unwrap();
    assert_eq!(id, SERVER);
    let channel = &state.channels[&SERVER];
    assert_eq!((channel.epoch, channel.name.as_str()), (0, "general"));
    assert!(channel.key_at(0).is_some());
    assert_eq!(
        channel.member(1),
        Some(&MemberInfo {
            user_id: 1,
            display_name: "Alice".to_string(),
            kem_public_key: identity.kem_pk().unwrap(),
            sig_public_key: identity.sig_pk().unwrap(),
        })
    );
    assert!(send_message_flow(&state, SERVER, "hi".to_string()).is_ok());
}

#[test]
fn creating_a_server_can_fail() {
    let mut state = online(alice());
    let name = || "general".to_string();
    let created = || reply(ServerMessage::ServerCreated { server_id: SERVER, epoch: 0 });
    assert_eq!(failure(create_server_flow(&mut state, name(), timeout())), "RPC timeout");
    assert_eq!(failure(create_server_flow(&mut state, name(), error("no"))), "server: no");
    assert_eq!(
        failure(create_server_flow(&mut state, name(), reply(ServerMessage::Pong))),
        "expected ServerCreated, got Shown"
    );
    state.identity.as_mut().unwrap().sig_pk_b64 = "**".to_string();
    assert_eq!(
        failure(create_server_flow(&mut state, name(), created())),
        "Invalid symbol 42, offset 0."
    );
    state.identity.as_mut().unwrap().kem_pk_b64 = "A".to_string();
    assert_eq!(
        failure(create_server_flow(&mut state, name(), created())),
        "Invalid input length: 1"
    );
    state.identity = None;
    assert_eq!(
        failure(create_server_flow(&mut state, name(), created())),
        "no identity loaded"
    );
    assert!(state.channels.is_empty());
}

#[test]
fn a_founded_server_keeps_the_given_key() {
    let mut state = online(alice());
    assert_eq!(found_server(&mut state, SERVER, 3, "x".to_string(), [5; 32]).unwrap(), SERVER);
    assert_eq!(state.channels[&SERVER].key_at(3), Some([5; 32]));
}

#[test]
fn a_joined_server_has_members_but_no_key() {
    let mut state = online(alice());
    let joined = ServerMessage::ServerJoined {
        server_id: SERVER,
        epoch: 6,
        members: vec![member(2, "Bob"), member(3, "Carol"), member(2, "Robert")],
    };
    join_server_flow(&mut state, reply(joined)).unwrap();
    let channel = &state.channels[&SERVER];
    assert_eq!(channel.epoch, 6);
    assert_eq!(channel.members.len(), 2);
    assert_eq!(channel.member(2), Some(&member(2, "Robert")));
    assert!(channel.keys.is_empty());
    assert_eq!(
        failure(send_message_flow(&state, SERVER, "hi".to_string())),
        "no group key for current epoch — wait for key distribution"
    );
    assert_eq!(failure(join_server_flow(&mut state, error("gone"))), "server: gone");
    assert_eq!(failure(join_server_flow(&mut state, timeout())), "RPC timeout");
    assert_eq!(
        failure(join_server_flow(&mut state, reply(ServerMessage::Pong))),
        "expected ServerJoined, got Shown"
    );
}

#[test]
fn a_left_server_is_forgotten() {
    let mut state = online(alice());
    state.channels.insert(SERVER, ChannelView::default());
    state.channels.insert(7, ChannelView::default());
    assert_eq!(failure(leave_server_flow(&mut state, SERVER, error("no"))), "server: no");
    assert_eq!(failure(leave_server_flow(&mut state, SERVER, timeout())), "RPC timeout");
    assert!(state.channels.contains_key(&SERVER));
    let left = ServerMessage::ServerLeft { server_id: SERVER };
    leave_server_flow(&mut state, SERVER, reply(left)).unwrap();
    assert!(!state.channels.contains_key(&SERVER));
    assert!(state.channels.contains_key(&7));
    leave_server_flow(&mut state, SERVER, reply(ServerMessage::Pong)).unwrap();
}

#[test]
fn servers_are_listed() {
    let server = ServerInfo {
        server_id: 4,
        name: "general".to_string(),
        owner_id: 1,
        member_count: 2,
    };
    let list = ServerMessage::ServerList { servers: vec![server.clone()] };
    assert_eq!(list_servers_flow(reply(list)).unwrap(), vec![server]);
    assert_eq!(failure(list_servers_flow(timeout())), "RPC timeout");
    assert_eq!(failure(list_servers_flow(error("no"))), "server: no");
    assert_eq!(
        failure(list_servers_flow(reply(ServerMessage::Pong))),
        "expected ServerList, got Shown"
    );
}

#[test]
fn listed_members_are_remembered() {
    let mut state = online(alice());
    let list = || {
        reply(ServerMessage::MemberList { server_id: 99, members: vec![member(2, "Bob")] })
    };
    // The list is handed out, but the client is not in the server.
    assert_eq!(list_members_flow(&mut state, SERVER, list()).unwrap(), vec![member(2, "Bob")]);
    assert!(state.channels.is_empty());
    assert_eq!(
        failure(send_message_flow(&state, SERVER, "hi".to_string())),
        "you are not in this server"
    );
    state.channels.insert(SERVER, ChannelView::default());
    assert_eq!(list_members_flow(&mut state, SERVER, list()).unwrap(), vec![member(2, "Bob")]);
    assert_eq!(state.channels[&SERVER].member(2), Some(&member(2, "Bob")));
    assert!(!state.channels.contains_key(&99));
    assert_eq!(failure(list_members_flow(&mut state, 7, timeout())), "RPC timeout");
    assert_eq!(failure(list_members_flow(&mut state, 7, error("no"))), "server: no");
    assert_eq!(
        failure(list_members_flow(&mut state, 7, reply(ServerMessage::Pong))),
        "expected MemberList, got Shown"
    );
    assert!(!state.channels.contains_key(&7));
}

#[test]
fn fetching_a_history_can_fail() {
    let state = online(alice());
    assert_eq!(failure(get_history_flow(&state, SERVER, timeout())), "RPC timeout");
    assert_eq!(failure(get_history_flow(&state, SERVER, error("no"))), "server: no");
    assert_eq!(
        failure(get_history_flow(&state, SERVER, reply(ServerMessage::Pong))),
        "expected History"
    );
}

#[test]
fn sending_fails_in_a_fixed_order() {
    let text = || "hi".to_string();
    let mut state = ClientState::new();
    assert_eq!(failure(send_message_flow(&state, SERVER, text())), "no identity loaded");
    state.identity = Some(alice());
    state.identity.as_mut().unwrap().sig_sk_b64 = "*".to_string();
    assert_eq!(failure(send_message_flow(&state, SERVER, text())), "you are not in this server");
    state.channels.insert(SERVER, ChannelView::default());
    state.channels.get_mut(&SERVER).unwrap().add_key(1, [0; 32]);
    assert_eq!(
        failure(send_message_flow(&state, SERVER, text())),
        "no group key for current epoch — wait for key distribution"
    );
    state.channels.get_mut(&SERVER).unwrap().add_key(0, [0; 32]);
    assert_eq!(
        failure(send_message_flow(&state, SERVER, text())),
        "Invalid symbol 42, offset 0."
    );
    state.identity.as_mut().unwrap().sig_sk_b64 = "AAEC".to_string();
    assert_eq!(
        failure(send_message_flow(&state, SERVER, text())),
        "invalid Dilithium3 secret key: BadLength { name: \"SecretKey\", actual: 3, expected: 4032 }"
    );
    state.identity = Some(alice());
    assert_eq!(failure(send_message_flow(&state, SERVER, text())), "not connected");
    state.connected = true;
    assert!(send_message_flow(&state, SERVER, text()).is_ok());
}

#[test]
fn frames_hold_base64_of_their_parts() {
    match sign_and_frame(&alice(), 3, 9, &[0, 1, 2], &[255]).unwrap() {
        ClientMessage::SendMessage { server_id, epoch, nonce, ciphertext, signature } => {
            assert_eq!((server_id, epoch), (3, 9));
            assert_eq!((nonce.as_str(), ciphertext.as_str()), ("AAEC", "/w=="));
            assert_eq!(decode(&signature).unwrap().len(), 3309);
        }
        other => panic!("no message: {other:?}"),
    }
}

#[test]
fn login_answers_the_challenge() {
    let identity = alice();
    let mut state = online(identity.clone());
    let phase = match login_begin(&mut state) {
        LoginStep::Ask(phase, start) => {
            let frame = asked(&mut state, Ok(start));
            assert_eq!(frame, ClientMessage::AuthBegin { user_id: 1 });
            phase
        }
        _ => panic!("a request was expected"),
    };
    let challenge = reply(ServerMessage::AuthChallenge { nonce: "AAEC".to_string() });
    let phase = match login_flow(&mut state, phase, challenge) {
        LoginStep::Ask(phase, start) => match asked(&mut state, Ok(start)) {
            ClientMessage::AuthFinish { signature } => {
                let signature = decode(&signature).unwrap();
                dilithium_verify(&identity.sig_pk().unwrap(), &[0, 1, 2], &signature).unwrap();
                phase
            }
            other => panic!("no answer: {other:?}"),
        },
        _ => panic!("an answer was expected"),
    };
    match login_flow(&mut state, phase, reply(ServerMessage::Authenticated { user_id: 1 })) {
        LoginStep::Done(done) => assert_eq!(done.user_id, 1),
        _ => panic!("the end was expected"),
    }
}

#[test]
fn an_unknown_user_registers_again_with_the_same_keys() {
    let identity = alice();
    let mut state = online(identity.clone());
    let phase = LoginPhase::Begun(identity.clone());
    let phase = match login_flow(&mut state, phase, error("auth: unknown user 1")) {
        LoginStep::Ask(phase, start) => {
            assert_eq!(
                asked(&mut state, Ok(start)),
                ClientMessage::Register {
                    display_name: "Alice".to_string(),
                    kem_public_key: identity.kem_pk_b64.clone(),
                    sig_public_key: identity.sig_pk_b64.clone(),
                }
            );
            phase
        }
        _ => panic!("a request was expected"),
    };
    let stored = match login_flow(&mut state, phase, reply(ServerMessage::Registered { user_id: 2 })) {
        LoginStep::Store(stored) => stored,
        _ => panic!("an identity was expected"),
    };
    assert_eq!(stored.user_id, 2);
    assert_eq!(stored.sig_sk_b64, identity.sig_sk_b64);
    assert_eq!(stored.kem_sk_b64, identity.kem_sk_b64);
    assert_eq!(state.identity.as_ref().unwrap().user_id, 1);
    let phase = match login_resume(&mut state, stored) {
        LoginStep::Ask(phase, start) => {
            let frame = asked(&mut state, Ok(start));
            assert_eq!(frame, ClientMessage::AuthBegin { user_id: 2 });
            phase
        }
        _ => panic!("a request was expected"),
    };
    assert_eq!(state.identity.as_ref().unwrap().user_id, 2);
    let phase = match login_flow(
        &mut state,
        phase,
        reply(ServerMessage::AuthChallenge { nonce: String::new() }),
    ) {
        LoginStep::Ask(phase, start) => {
            let frame = asked(&mut state, Ok(start));
            assert!(matches!(frame, ClientMessage::AuthFinish { .. }));
            phase
        }
        _ => panic!("an answer was expected"),
    };
    match login_flow(&mut state, phase, reply(ServerMessage::Pong)) {
        LoginStep::Done(done) => assert_eq!(done.user_id, 2),
        _ => panic!("the end was expected"),
    }
}

#[test]
fn login_can_fail() {
    let mut state = ClientState::new();
    assert_eq!(failed(login_begin(&mut state)), "no identity loaded");
    state.identity = Some(alice());
    assert_eq!(failed(login_begin(&mut state)), "not connected");
    assert_eq!(failed(login_resume(&mut state, alice())), "not connected");
    state.open_session();
    let mut step = |phase, reply| failed(login_flow(&mut state, phase, reply));
    assert_eq!(step(LoginPhase::Begun(alice()), timeout()), "RPC timeout");
    assert_eq!(step(LoginPhase::Begun(alice()), error("unknown")), "server: unknown");
    assert_eq!(
        step(LoginPhase::Begun(alice()), reply(ServerMessage::Pong)),
        "expected AuthChallenge, got Shown"
    );
    assert_eq!(
        step(LoginPhase::BegunAgain(alice()), reply(ServerMessage::Pong)),
        "expected AuthChallenge"
    );
    assert_eq!(
        step(LoginPhase::BegunAgain(alice()), error("unknown user")),
        "server: unknown user"
    );
    assert_eq!(
        step(LoginPhase::Reregistering(alice()), error("unknown user")),
        "server: unknown user"
    );
    assert_eq!(
        step(LoginPhase::Reregistering(alice()), reply(ServerMessage::Pong)),
        "expected Registered, got Shown"
    );
    assert_eq!(step(LoginPhase::Answered(alice()), error("bad signature")), "server: bad signature");
    let challenge = |nonce: &str| reply(ServerMessage::AuthChallenge { nonce: nonce.to_string() });
    assert_eq!(
        step(LoginPhase::Begun(alice()), challenge("*")),
        "Invalid symbol 42, offset 0."
    );
    let mut broken = alice();
    broken.sig_sk_b64 = String::new();
    assert_eq!(
        failure(answer_challenge(&broken, "AAEC")),
        "invalid Dilithium3 secret key: BadLength { name: \"SecretKey\", actual: 0, expected: 4032 }"
    );
    assert_eq!(
        step(LoginPhase::Begun(broken), challenge("AAEC")),
        "invalid Dilithium3 secret key: BadLength { name: \"SecretKey\", actual: 0, expected: 4032 }"
    );
}
