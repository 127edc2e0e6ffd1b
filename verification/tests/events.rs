use pq_chat::client::events::{decrypt_and_verify, handle_event, open_key_material, EventOutcome};
use pq_chat::client::flows::{get_history_flow, send_message_flow, Reply};
use pq_chat::client::rekey::{distribute, lowest_entitled, try_rekey_after_membership_change};
use pq_chat::client::{UiEvent, UiMemberChange, UiMessage};
use pq_chat::crypto::{aes_seal_with, dilithium_sign, message_signed_payload, wrap_group_key_for};
use pq_chat::encoding::decode;
use pq_chat::identity::{new_unregistered, Identity};
use pq_chat::protocol::{ClientMessage, MemberInfo, ServerMessage, StoredMessage, Timestamp};
use pq_chat::state::{ChannelView, ClientState};

const SERVER: u128 = 0x5e;
const WHEN: Timestamp = Timestamp { secs: 1_700_000_000, nanos: 5 };

fn person(user_id: u128, name: &str) -> Identity {
    let mut identity = new_unregistered(name.to_string());
    identity.user_id = user_id;
    identity
}

fn info(identity: &Identity) -> MemberInfo {
    MemberInfo {
        user_id: identity.user_id,
        display_name: identity.display_name.clone(),
        kem_public_key: identity.kem_pk().unwrap(),
        sig_public_key: identity.sig_pk().unwrap(),
    }
}

/// A connected client in one server with the given members, at epoch 4, which
/// holds the keys of epochs 2 and 4.
fn client(me: &Identity, members: &[&Identity]) -> ClientState {
    let mut state = ClientState::new();
    state.open_session();
    state.identity = Some(me.clone());
    let mut channel = ChannelView::default();
    for member in members {
        channel.add_member(info(member));
    }
    channel.epoch = 4;
    channel.add_key(2, [2; 32]);
    channel.add_key(4, [4; 32]);
    state.channels.insert(SERVER, channel);
    state
}

/// The frame that the relay makes of a message.
fn relayed(frame: ClientMessage, sender: u128) -> ServerMessage {
    match frame {
        ClientMessage::SendMessage { server_id, epoch, nonce, ciphertext, signature } => {
            ServerMessage::NewMessage {
                server_id,
                message_id: 77,
                sender,
                epoch,
                nonce,
                ciphertext,
                signature,
                timestamp: WHEN,
            }
        }
        other => panic!("no message: {other:?}"),
    }
}

fn shown(outcome: EventOutcome) -> UiMessage {
    assert!(outcome.outbox.frames.is_empty());
    assert!(outcome.outbox.failure.is_none());
    match outcome.ui {
        Some(UiEvent::NewMessage(message)) => message,
        other => panic!("no message: {other:?}"),
    }
}

fn failure(outcome: EventOutcome) -> String {
    assert!(outcome.ui.is_none());
    assert!(outcome.outbox.frames.is_empty());
    outcome.outbox.failure.unwrap().full_text()
}

#[test]
fn a_sent_message_is_read() {
    let (alice, bob) = (person(1, "Alice"), person(2, "Bob"));
    let sender = client(&alice, &[&alice, &bob]);
    let mut reader = client(&bob, &[&alice, &bob]);
    let frame = send_message_flow(&sender, SERVER, "grüß dich".to_string()).unwrap();
    let message = shown(handle_event(&mut reader, relayed(frame, 1)));
    assert_eq!(
        message,
        UiMessage {
            server_id: SERVER,
            message_id: 77,
            sender_id: 1,
            sender_name: "Alice".to_string(),
            epoch: 4,
            timestamp: WHEN,
            plaintext: Some("grüß dich".to_string()),
            status: "ok",
        }
    );
}

#[test]
fn a_sent_message_is_read_from_the_history() {
    let (alice, bob) = (person(1, "Alice"), person(2, "Bob"));
    let sender = client(&alice, &[&alice, &bob]);
    let mut reader = client(&bob, &[&bob]);
    let stored = match send_message_flow(&sender, SERVER, "hello".to_string()).unwrap() {
        ClientMessage::SendMessage { epoch, nonce, ciphertext, signature, .. } => StoredMessage {
            message_id: 5,
            sender: 1,
            epoch,
            nonce: decode(&nonce).unwrap(),
            ciphertext: decode(&ciphertext).unwrap(),
            signature: decode(&signature).unwrap(),
            timestamp: WHEN,
        },
        other => panic!("no message: {other:?}"),
    };
    let mut older = stored.clone();
    older.message_id = 6;
    older.epoch = 3;
    let reply = |messages| {
        Ok(Reply {
            message: ServerMessage::History { server_id: SERVER, messages },
            shown: String::new(),
        })
    };
    let list = get_history_flow(&reader, SERVER, reply(vec![stored.clone(), older.clone()])).unwrap();
    assert_eq!(list.len(), 2);
    assert_eq!((list[0].message_id, list[1].message_id), (5, 6));
    assert_eq!((list[0].status, list[1].status), ("ok", "sealed"));
    assert_eq!(list[0].plaintext, Some("hello".to_string()));
    assert_eq!(list[0].sender_name, "00000000");
    assert_eq!(list[1].plaintext, None);
    let session = reader.session;
    let _ = reader.close_session(session);
    let list = get_history_flow(&reader, SERVER, reply(vec![stored, older])).unwrap();
    assert_eq!((list[0].status, list[1].status), ("sealed", "sealed"));
}

#[test]
fn messages_without_a_key_are_sealed() {
    let alice = person(0xabcdef01_u128 << 96, "Alice");
    let mut state = client(&alice, &[&alice]);
    let read = decrypt_and_verify(&state, 0x99, 7, 4, &[0; 12], &[], &[]);
    assert_eq!(read, (None, "sealed", "00000000".to_string()));
    let read = decrypt_and_verify(&state, SERVER, alice.user_id, 3, &[0; 12], &[], &[]);
    assert_eq!(read, (None, "sealed", "Alice".to_string()));
    state.channels.get_mut(&SERVER).unwrap().remove_member(alice.user_id);
    let read = decrypt_and_verify(&state, SERVER, alice.user_id, 3, &[0; 12], &[], &[]);
    assert_eq!(read, (None, "sealed", "abcdef01".to_string()));
}

#[test]
fn forged_and_damaged_messages_show_no_text() {
    let (alice, bob) = (person(1, "Alice"), person(2, "Bob"));
    let state = client(&bob, &[&alice, &bob]);
    let ciphertext = aes_seal_with(&[4; 32], &[9; 12], b"text").unwrap();
    let payload = message_signed_payload(&SERVER, 4, &[9; 12], &ciphertext);
    let by_alice = dilithium_sign(&alice.sig_sk().unwrap(), &payload).unwrap();
    let by_bob = dilithium_sign(&bob.sig_sk().unwrap(), &payload).unwrap();
    let read = |sender, nonce: &[u8], ciphertext: &[u8], signature: &[u8]| {
        decrypt_and_verify(&state, SERVER, sender, 4, nonce, ciphertext, signature)
    };
    let name = "Alice".to_string();
    assert_eq!(read(1, &[9; 12], &ciphertext, &by_alice), (Some("text".to_string()), "ok", name.clone()));
    assert_eq!(read(1, &[9; 12], &ciphertext, &by_bob), (None, "bad_sig", name.clone()));
    assert_eq!(read(1, &[8; 12], &ciphertext, &by_alice), (None, "bad_sig", name.clone()));
    assert_eq!(read(1, &[9; 12], &ciphertext[1..], &by_alice), (None, "bad_sig", name.clone()));
    assert_eq!(read(1, &[9; 12], &ciphertext, &[]), (None, "bad_sig", name.clone()));

    // Nobody vouches for an unknown sender, so only the key decides.
    let unknown = "00000000".to_string();
    assert_eq!(read(3, &[9; 12], &ciphertext, &[]), (Some("text".to_string()), "ok", unknown.clone()));
    assert_eq!(read(3, &[8; 12], &ciphertext, &[]), (None, "decrypt_failed", unknown.clone()));
    assert_eq!(read(3, &[9; 11], &ciphertext, &[]), (None, "decrypt_failed", unknown.clone()));
    let binary = aes_seal_with(&[4; 32], &[9; 12], &[0xff]).unwrap();
    assert_eq!(read(3, &[9; 12], &binary, &[]), (None, "decrypt_failed", unknown));
}

#[test]
fn fields_that_are_not_base64_are_reported() {
    let alice = person(1, "Alice");
    let mut state = client(&alice, &[&alice]);
    let message = |nonce: &str, ciphertext: &str, signature: &str| ServerMessage::NewMessage {
        server_id: SERVER,
        message_id: 1,
        sender: 1,
        epoch: 4,
        nonce: nonce.to_string(),
        ciphertext: ciphertext.to_string(),
        signature: signature.to_string(),
        timestamp: WHEN,
    };
    let why = "Invalid symbol 42, offset 0.";
    let outcome = handle_event(&mut state, message("*", "*", "*"));
    assert_eq!(outcome.outbox.failure.as_ref().unwrap().summary(), "nonce b64");
    assert_eq!(failure(outcome), format!("nonce b64: {why}"));
    let outcome = handle_event(&mut state, message("", "*", "*"));
    assert_eq!(failure(outcome), format!("ciphertext b64: {why}"));
    let outcome = handle_event(&mut state, message("", "", "*"));
    assert_eq!(failure(outcome), format!("signature b64: {why}"));
}

#[test]
fn a_joining_member_gets_the_new_key() {
    let (alice, bob, carol) = (person(1, "Alice"), person(2, "Bob"), person(3, "Carol"));
    let mut elected = client(&alice, &[&alice, &bob]);
    let joined = |member: MemberInfo| ServerMessage::MemberJoined {
        server_id: SERVER,
        member,
        epoch: 5,
    };
    let outcome = handle_event(&mut elected, joined(info(&carol)));
    assert_eq!(
        outcome.ui,
        Some(UiEvent::MemberChange(UiMemberChange {
            server_id: SERVER,
            user_id: 3,
            display_name: "Carol".to_string(),
            epoch: 5,
            kind: "joined",
        }))
    );
    assert!(outcome.outbox.failure.is_none());
    let channel = &elected.channels[&SERVER];
    assert_eq!(channel.epoch, 5);
    assert_eq!(channel.member(3), Some(&info(&carol)));
    let key = channel.key_at(5).unwrap();
    assert_eq!(channel.key_at(4), Some([4; 32]));
    assert_ne!(key, [4; 32]);

    // One frame for Bob and one for Carol, which opens to the key.
    assert_eq!(outcome.outbox.frames.len(), 2);
    let mut targets = vec![];
    for frame in outcome.outbox.frames {
        match frame {
            ClientMessage::DistributeKey { server_id, target_user_id, epoch, wrapped_key } => {
                assert_eq!((server_id, epoch), (SERVER, 5));
                let target = if target_user_id == 2 { &bob } else { &carol };
                let mut state = ClientState::new();
                state.identity = Some(target.clone());
                let material = ServerMessage::KeyMaterial {
                    server_id,
                    from_user: 1,
                    epoch,
                    wrapped_key: wrapped_key.clone(),
                };
                assert_eq!(open_key_material(&state, &wrapped_key).unwrap(), key);
                let arrived = handle_event(&mut state, material);
                assert_eq!(arrived.ui, Some(UiEvent::KeyRotated { server_id: SERVER, epoch: 5 }));
                assert!(arrived.outbox.frames.is_empty());
                assert_eq!(state.channels[&SERVER].key_at(5), Some(key));
                assert_eq!(state.channels[&SERVER].epoch, 0);
                targets.push(target_user_id);
            }
            other => panic!("no key: {other:?}"),
        }
    }
    targets.sort();
    assert_eq!(targets, vec![2, 3]);

    // Everyone else waits.
    let mut waiting = client(&bob, &[&alice, &bob]);
    let outcome = handle_event(&mut waiting, joined(info(&carol)));
    assert!(outcome.outbox.frames.is_empty());
    assert!(outcome.outbox.failure.is_none());
    assert_eq!(waiting.channels[&SERVER].key_at(5), None);
}

#[test]
fn the_joiner_never_makes_the_key() {
    let (alice, bob) = (person(1, "Alice"), person(2, "Bob"));
    let mut joiner = client(&alice, &[&alice, &bob]);
    let out = try_rekey_after_membership_change(&mut joiner, SERVER, Some(1));
    assert!(out.frames.is_empty());
    assert!(out.failure.is_none());
    let mut earlier = client(&bob, &[&alice, &bob]);
    let out = try_rekey_after_membership_change(&mut earlier, SERVER, Some(1));
    assert_eq!(out.frames.len(), 1);
}

#[test]
fn a_member_without_an_earlier_key_does_not_rekey() {
    let (alice, bob) = (person(1, "Alice"), person(2, "Bob"));
    let mut state = client(&alice, &[&alice, &bob]);
    state.channels.get_mut(&SERVER).unwrap().forget_keys();
    let out = try_rekey_after_membership_change(&mut state, SERVER, None);
    assert!(out.frames.is_empty());
    assert!(out.failure.is_none());
    assert!(state.channels[&SERVER].keys.is_empty());
    state.channels.get_mut(&SERVER).unwrap().add_key(4, [9; 32]);
    state.channels.get_mut(&SERVER).unwrap().add_key(5, [5; 32]);
    let out = try_rekey_after_membership_change(&mut state, SERVER, None);
    assert!(out.frames.is_empty());
    assert!(out.failure.is_none());
    assert_eq!(state.channels[&SERVER].key_at(4), Some([9; 32]));
    state.channels.get_mut(&SERVER).unwrap().add_key(3, [3; 32]);
    let out = try_rekey_after_membership_change(&mut state, SERVER, None);
    assert_eq!(out.frames.len(), 1);
    assert_ne!(state.channels[&SERVER].key_at(4), Some([9; 32]));
    let out = try_rekey_after_membership_change(&mut state, 0x99, None);
    assert!(out.frames.is_empty());
    assert!(!state.channels.contains_key(&0x99));
}

#[test]
fn the_lowest_entitled_member_is_elected() {
    let mut channel = ChannelView::default();
    assert_eq!(lowest_entitled(&channel.members, None), None);
    for id in [9u128, 3, 5, u128::MAX] {
        channel.add_member(MemberInfo {
            user_id: id,
            display_name: String::new(),
            kem_public_key: vec![],
            sig_public_key: vec![],
        });
    }
    assert_eq!(lowest_entitled(&channel.members, None), Some(3));
    assert_eq!(lowest_entitled(&channel.members, Some(3)), Some(5));
    assert_eq!(lowest_entitled(&channel.members, Some(5)), Some(3));
    for id in [9, 3, 5] {
        channel.remove_member(id);
    }
    assert_eq!(lowest_entitled(&channel.members, Some(u128::MAX)), None);
}

#[test]
fn a_leaving_member_is_forgotten_and_the_key_changes() {
    let (alice, bob, carol) = (person(1, "Alice"), person(2, "Bob"), person(3, "Carol"));
    let mut state = client(&bob, &[&alice, &bob, &carol]);
    let left = ServerMessage::MemberLeft { server_id: SERVER, user_id: 1, epoch: 6 };
    let outcome = handle_event(&mut state, left);
    assert_eq!(
        outcome.ui,
        Some(UiEvent::MemberChange(UiMemberChange {
            server_id: SERVER,
            user_id: 1,
            display_name: "00000000-0000-0000-0000-000000000001".to_string(),
            epoch: 6,
            kind: "left",
        }))
    );
    let channel = &state.channels[&SERVER];
    assert!(channel.member(1).is_none());
    assert_eq!(channel.epoch, 6);
    assert!(channel.key_at(6).is_some());
    assert_eq!(outcome.outbox.frames.len(), 1);
    match &outcome.outbox.frames[0] {
        ClientMessage::DistributeKey { target_user_id, epoch, .. } => {
            assert_eq!((*target_user_id, *epoch), (3, 6))
        }
        other => panic!("no key: {other:?}"),
    }
}

#[test]
fn membership_changes_need_an_identity_to_rekey() {
    let alice = person(1, "Alice");
    let mut state = client(&alice, &[&alice]);
    state.identity = None;
    let left = ServerMessage::MemberLeft { server_id: SERVER, user_id: 9, epoch: 6 };
    let outcome = handle_event(&mut state, left);
    assert!(outcome.ui.is_some());
    assert_eq!(outcome.outbox.failure.unwrap().full_text(), "no identity loaded");
    assert_eq!(state.channels[&SERVER].epoch, 6);
}

#[test]
fn distribution_stops_at_the_first_obstacle() {
    let (alice, bob, carol) = (person(1, "Alice"), person(2, "Bob"), person(3, "Carol"));
    let mut broken = info(&bob);
    broken.kem_public_key = vec![1, 2];
    let state = client(&alice, &[&alice]);
    let members = vec![info(&carol), info(&alice), broken, info(&carol)];
    let out = distribute(&state, SERVER, 8, &[1; 32], 1, &members);
    assert_eq!(out.frames.len(), 1);
    let error = out.failure.unwrap();
    assert_eq!(error.summary(), "wrapping for 00000000-0000-0000-0000-000000000002");
    assert_eq!(
        error.full_text(),
        "wrapping for 00000000-0000-0000-0000-000000000002: invalid recipient Kyber pubkey: \
         BadLength { name: \"PublicKey\", actual: 2, expected: 1184 }"
    );
    let mut offline = client(&alice, &[&alice]);
    let session = offline.session;
    let _ = offline.close_session(session);
    let out = distribute(&offline, SERVER, 8, &[1; 32], 1, &members);
    assert!(out.frames.is_empty());
    assert_eq!(out.failure.unwrap().full_text(), "not connected");
    let out = distribute(&offline, SERVER, 8, &[1; 32], 3, &vec![info(&carol)]);
    assert!(out.frames.is_empty());
    assert!(out.failure.is_none());
}

#[test]
fn bad_key_material_is_reported() {
    let (alice, bob) = (person(1, "Alice"), person(2, "Bob"));
    let mut state = client(&alice, &[&alice]);
    let material = |wrapped_key: &str| ServerMessage::KeyMaterial {
        server_id: SERVER,
        from_user: 2,
        epoch: 9,
        wrapped_key: wrapped_key.to_string(),
    };
    let outcome = handle_event(&mut state, material("*"));
    assert_eq!(failure(outcome), "wrapped_key b64: Invalid symbol 42, offset 0.");
    let outcome = handle_event(&mut state, material("AAEC"));
    assert_eq!(
        failure(outcome),
        "unwrapping group key: wrapped envelope wrong size: got 3, expected 1120"
    );
    assert_eq!(state.channels[&SERVER].key_at(9), None);
    state.identity.as_mut().unwrap().kem_sk_b64 = "*".to_string();
    let outcome = handle_event(&mut state, material("AAEC"));
    assert_eq!(failure(outcome), "Invalid symbol 42, offset 0.");
    state.identity = None;
    let outcome = handle_event(&mut state, material("AAEC"));
    assert_eq!(failure(outcome), "no identity loaded");

    // A key that was wrapped for somebody else opens to nothing useful.
    let wrapped = wrap_group_key_for(&bob.kem_pk().unwrap(), &[6; 32]).unwrap();
    assert_ne!(
        pq_chat::crypto::unwrap_group_key(&alice.kem_sk().unwrap(), &wrapped).unwrap(),
        [6; 32]
    );
}

#[test]
fn events_leave_other_channels_alone() {
    let (alice, bob) = (person(1, "Alice"), person(2, "Bob"));
    let mut state = client(&alice, &[&alice]);
    let mut other = ChannelView::default();
    other.add_key(4, [8; 32]);
    other.epoch = 4;
    state.channels.insert(0x0b, other);
    let joined = ServerMessage::MemberJoined { server_id: SERVER, member: info(&bob), epoch: 5 };
    let _ = handle_event(&mut state, joined);
    assert_eq!(state.channels[&SERVER].keys.len(), 3);
    assert_eq!(state.channels[&0x0b].epoch, 4);
    assert_eq!(state.channels[&0x0b].key_at(4), Some([8; 32]));
    assert_eq!(state.channels[&0x0b].key_at(5), None);
    assert!(state.channels[&0x0b].members.is_empty());
    assert!(state.connected);
}

#[test]
fn messages_change_nothing() {
    let (alice, bob) = (person(1, "Alice"), person(2, "Bob"));
    let sender = client(&alice, &[&alice, &bob]);
    let mut reader = client(&bob, &[&alice, &bob]);
    for text in ["", "one", "two"] {
        let frame = send_message_flow(&sender, SERVER, text.to_string()).unwrap();
        let message = shown(handle_event(&mut reader, relayed(frame, 1)));
        assert_eq!((message.plaintext.as_deref(), message.status), (Some(text), "ok"));
    }
    assert_eq!(reader.channels.len(), 1);
    assert_eq!(reader.channels[&SERVER].keys.len(), 2);
    assert_eq!(reader.channels[&SERVER].members.len(), 2);
}
