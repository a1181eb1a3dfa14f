//! End-to-end relay scenarios: login, echo over the socket state machine,
//! the offline queue, sender validation, files, TURN, the reaper, and
//! account deletion.

use privmsg::errors::AppError;
use privmsg::handlers;
use privmsg::models::{
    AcknowledgeMessagesRequest, AdminKeyRequest, CreateUserRequest, LoginRequest, MessageEnvelope,
    MessageType, UpdateProfileRequest, WsClientMessage, WsServerMessage,
};
use privmsg::registry::WebSocketManager;
use privmsg::session::{handle_client_frame, handle_close, SocketState};
use privmsg::storage::Storage;
use tokio::sync::mpsc::{unbounded_channel, UnboundedReceiver, UnboundedSender};

const NOW: i64 = 1_700_000_000;
const MASTER: &str = "test-master-key";
const TTL_HOURS: i64 = 168;

fn make_user(storage: &mut Storage, user_id: &str) -> String {
    let resp = handlers::create_user(
        storage,
        &CreateUserRequest {
            admin_key: MASTER.to_string(),
            user_id: Some(user_id.to_string()),
        },
        MASTER,
        NOW,
    )
    .unwrap();
    resp.access_key
}

fn login_user(storage: &mut Storage, user_id: &str, access_key: &str) -> (String, String) {
    let resp = handlers::login(
        storage,
        &LoginRequest {
            user_id: user_id.to_string(),
            access_key: access_key.to_string(),
            device_name: "Desktop".to_string(),
            device_type: "linux".to_string(),
            device_public_key: "pubkey".to_string(),
        },
        NOW,
    )
    .unwrap();
    (resp.token, resp.device_id)
}

struct Socket {
    state: SocketState,
    tx: UnboundedSender<WsServerMessage>,
    rx: UnboundedReceiver<WsServerMessage>,
}

fn open_socket() -> Socket {
    let (tx, rx) = unbounded_channel();
    Socket {
        state: SocketState::Unauth,
        tx,
        rx,
    }
}

fn authenticate(
    socket: &mut Socket,
    storage: &mut Storage,
    registry: &mut WebSocketManager,
    token: &str,
) -> Vec<WsServerMessage> {
    handle_client_frame(
        &mut socket.state,
        storage,
        registry,
        &socket.tx,
        WsClientMessage::Authenticate {
            token: token.to_string(),
        },
        NOW,
        TTL_HOURS,
    )
    .replies
}

fn text_envelope(message_id: &str, sender: &str, recipient: &str) -> MessageEnvelope {
    MessageEnvelope {
        message_id: message_id.to_string(),
        sender_id: sender.to_string(),
        recipient_id: recipient.to_string(),
        recipient_device_id: None,
        encrypted_content: "b64ciphertext".to_string(),
        message_type: MessageType::Text,
        timestamp: NOW * 1000,
    }
}

#[test]
fn scenario_login_round_trip() {
    let mut storage = Storage::new();
    let key = make_user(&mut storage, "U1");

    let resp = handlers::login(
        &mut storage,
        &LoginRequest {
            user_id: "U1".to_string(),
            access_key: key.clone(),
            device_name: "Desktop".to_string(),
            device_type: "linux".to_string(),
            device_public_key: "pub".to_string(),
        },
        NOW,
    )
    .unwrap();
    assert!(!resp.token.is_empty());
    assert!(!resp.device_id.is_empty());
    assert!(resp.expires_at > NOW);
    assert_eq!(resp.user.user_id, "U1");

    let err = handlers::login(
        &mut storage,
        &LoginRequest {
            user_id: "U1".to_string(),
            access_key: "wrong".to_string(),
            device_name: "Desktop".to_string(),
            device_type: "linux".to_string(),
            device_public_key: "pub".to_string(),
        },
        NOW,
    )
    .unwrap_err();
    assert_eq!(err.http_status(), 401);
    assert_eq!(err.code(), "INVALID_CREDENTIALS");
}

#[test]
fn scenario_echo_over_socket() {
    let mut storage = Storage::new();
    let mut registry = WebSocketManager::new();
    let k1 = make_user(&mut storage, "U1");
    let k2 = make_user(&mut storage, "U2");
    let (t1, _d1) = login_user(&mut storage, "U1", &k1);
    let (t2, _d2) = login_user(&mut storage, "U2", &k2);

    let mut s1 = open_socket();
    let mut s2 = open_socket();
    let r1 = authenticate(&mut s1, &mut storage, &mut registry, &t1);
    assert!(matches!(r1[0], WsServerMessage::Authenticated { .. }));
    let r2 = authenticate(&mut s2, &mut storage, &mut registry, &t2);
    assert!(matches!(r2[0], WsServerMessage::Authenticated { .. }));

    let outcome = handle_client_frame(
        &mut s1.state,
        &mut storage,
        &mut registry,
        &s1.tx,
        WsClientMessage::Message(text_envelope("m1", "U1", "U2")),
        NOW,
        TTL_HOURS,
    );
    // d2 receives exactly that envelope.
    match s2.rx.try_recv().unwrap() {
        WsServerMessage::Message(env) => {
            assert_eq!(env.message_id, "m1");
            assert_eq!(env.sender_id, "U1");
            assert_eq!(env.recipient_id, "U2");
            assert_eq!(env.encrypted_content, "b64ciphertext");
        }
        other => panic!("expected a message frame, got {:?}", other),
    }
    // d1 receives the ack for m1.
    match &outcome.replies[0] {
        WsServerMessage::Acknowledged { message_ids } => {
            assert_eq!(message_ids.len(), 1);
            assert_eq!(message_ids[0], "m1");
        }
        other => panic!("expected an ack, got {:?}", other),
    }
    // The spool holds one row until d2 acknowledges.
    assert_eq!(storage.count_pending_messages(), 1);
    handle_client_frame(
        &mut s2.state,
        &mut storage,
        &mut registry,
        &s2.tx,
        WsClientMessage::Acknowledge {
            message_ids: vec!["m1".to_string()],
        },
        NOW,
        TTL_HOURS,
    );
    assert_eq!(storage.count_pending_messages(), 0);
}

#[test]
fn scenario_offline_queue() {
    let mut storage = Storage::new();
    let mut registry = WebSocketManager::new();
    let k1 = make_user(&mut storage, "U1");
    let k2 = make_user(&mut storage, "U2");
    let (t1, _d1) = login_user(&mut storage, "U1", &k1);
    let (t2, _d2) = login_user(&mut storage, "U2", &k2);

    let mut s1 = open_socket();
    authenticate(&mut s1, &mut storage, &mut registry, &t1);

    // U2 is offline; two messages go to the spool, in order.
    for id in ["m1", "m2"] {
        handle_client_frame(
            &mut s1.state,
            &mut storage,
            &mut registry,
            &s1.tx,
            WsClientMessage::Message(text_envelope(id, "U1", "U2")),
            NOW,
            TTL_HOURS,
        );
    }
    assert_eq!(storage.count_pending_messages(), 2);

    // U2 connects: authentication replays m1 then m2.
    let mut s2 = open_socket();
    let replies = authenticate(&mut s2, &mut storage, &mut registry, &t2);
    assert_eq!(replies.len(), 3);
    assert!(matches!(replies[0], WsServerMessage::Authenticated { .. }));
    match (&replies[1], &replies[2]) {
        (WsServerMessage::Message(e1), WsServerMessage::Message(e2)) => {
            assert_eq!(e1.message_id, "m1");
            assert_eq!(e2.message_id, "m2");
        }
        other => panic!("expected two replayed messages, got {:?}", other),
    }

    // Rows leave the spool only on acknowledgement.
    assert_eq!(storage.count_pending_messages(), 2);
    handle_client_frame(
        &mut s2.state,
        &mut storage,
        &mut registry,
        &s2.tx,
        WsClientMessage::Acknowledge {
            message_ids: vec!["m1".to_string(), "m2".to_string()],
        },
        NOW,
        TTL_HOURS,
    );
    assert_eq!(storage.count_pending_messages(), 0);
}

#[test]
fn scenario_invalid_sender() {
    let mut storage = Storage::new();
    let mut registry = WebSocketManager::new();
    let k1 = make_user(&mut storage, "U1");
    let k2 = make_user(&mut storage, "U2");
    let (t1, _d1) = login_user(&mut storage, "U1", &k1);
    let (t2, _d2) = login_user(&mut storage, "U2", &k2);

    let mut s1 = open_socket();
    let mut s2 = open_socket();
    authenticate(&mut s1, &mut storage, &mut registry, &t1);
    authenticate(&mut s2, &mut storage, &mut registry, &t2);

    let outcome = handle_client_frame(
        &mut s1.state,
        &mut storage,
        &mut registry,
        &s1.tx,
        WsClientMessage::Message(text_envelope("m1", "U3", "U2")),
        NOW,
        TTL_HOURS,
    );
    match &outcome.replies[0] {
        WsServerMessage::Error { code, .. } => assert_eq!(code, "INVALID_SENDER"),
        other => panic!("expected an error frame, got {:?}", other),
    }
    assert_eq!(storage.count_pending_messages(), 0);
    assert!(s2.rx.try_recv().is_err());
}

#[test]
fn scenario_multi_device_echo() {
    let mut storage = Storage::new();
    let mut registry = WebSocketManager::new();
    let k1 = make_user(&mut storage, "U1");
    let k2 = make_user(&mut storage, "U2");
    let (ta, _da) = login_user(&mut storage, "U1", &k1);
    let (tb, db) = login_user(&mut storage, "U1", &k1);
    let (t2, _d2) = login_user(&mut storage, "U2", &k2);

    let mut sa = open_socket();
    let mut sb = open_socket();
    let mut s2 = open_socket();
    authenticate(&mut sa, &mut storage, &mut registry, &ta);
    authenticate(&mut sb, &mut storage, &mut registry, &tb);
    authenticate(&mut s2, &mut storage, &mut registry, &t2);

    let outcome = handle_client_frame(
        &mut sa.state,
        &mut storage,
        &mut registry,
        &sa.tx,
        WsClientMessage::Message(text_envelope("m1", "U1", "U2")),
        NOW,
        TTL_HOURS,
    );
    // The sender's other device sees the message; the sender sees only the ack.
    assert_eq!(outcome.echo_targets, vec![db.clone()]);
    assert!(matches!(
        sb.rx.try_recv(),
        Ok(WsServerMessage::Message(_))
    ));
    assert!(sa.rx.try_recv().is_err());
    assert!(matches!(
        &outcome.replies[0],
        WsServerMessage::Acknowledged { .. }
    ));
    assert!(matches!(s2.rx.try_recv(), Ok(WsServerMessage::Message(_))));
}

#[test]
fn scenario_socket_close_and_presence() {
    let mut storage = Storage::new();
    let mut registry = WebSocketManager::new();
    let k1 = make_user(&mut storage, "U1");
    let k2 = make_user(&mut storage, "U2");
    let (t1, _d1) = login_user(&mut storage, "U1", &k1);
    let (t2, _d2) = login_user(&mut storage, "U2", &k2);

    let mut s1 = open_socket();
    let mut s2 = open_socket();
    authenticate(&mut s1, &mut storage, &mut registry, &t1);
    authenticate(&mut s2, &mut storage, &mut registry, &t2);

    // Ping answers pong.
    let out = handle_client_frame(
        &mut s1.state,
        &mut storage,
        &mut registry,
        &s1.tx,
        WsClientMessage::Ping,
        NOW,
        TTL_HOURS,
    );
    assert!(matches!(out.replies[0], WsServerMessage::Pong));

    // Closing U1's last socket broadcasts the offline notice to others.
    let targets = handle_close(&mut s1.state, &mut storage, &mut registry, NOW);
    assert!(matches!(s1.state, SocketState::Closed));
    assert_eq!(targets.len(), 1);
    assert!(!registry.is_user_online("U1"));
    assert!(matches!(
        s2.rx.try_recv(),
        Ok(WsServerMessage::UserOffline { .. })
    ));
}

#[test]
fn scenario_file_upload_download() {
    let mut storage = Storage::new();
    let key = make_user(&mut storage, "U1");
    let (_t, d1) = login_user(&mut storage, "U1", &key);
    let auth = handlers::AuthUser {
        user_id: "U1".to_string(),
        device_id: d1,
    };

    let resp = handlers::upload_file(
        &mut storage,
        &auth,
        "hello.txt",
        5,
        "text/plain",
        "H",
        100,
        72,
        NOW,
    )
    .unwrap();
    assert!(resp.expires_at > NOW);

    let meta = handlers::download_file(&mut storage, &auth, &resp.file_id, NOW).unwrap();
    assert_eq!(meta.encryption_key_hash, "H");
    assert_eq!(meta.mime_type, "text/plain");
    assert_eq!(meta.file_size, 5);
    assert_eq!(meta.download_count, 0);
    // The stored row's counter went up by one.
    let after = handlers::download_file(&mut storage, &auth, &resp.file_id, NOW).unwrap();
    assert_eq!(after.download_count, 1);

    // Deleting as somebody else is forbidden.
    let other = handlers::AuthUser {
        user_id: "U2".to_string(),
        device_id: "dx".to_string(),
    };
    let err = handlers::delete_file(&mut storage, &other, &resp.file_id, NOW).unwrap_err();
    assert_eq!(err.http_status(), 403);

    // Oversize uploads and a missing key hash are rejected.
    let too_large =
        handlers::upload_file(&mut storage, &auth, "big", 200 * 1024 * 1024, "x", "H", 100, 72, NOW)
            .unwrap_err();
    assert_eq!(too_large.http_status(), 413);
    let no_hash =
        handlers::upload_file(&mut storage, &auth, "f", 5, "x", "", 100, 72, NOW).unwrap_err();
    assert_eq!(no_hash.http_status(), 400);
}

#[test]
fn scenario_turn_credentials() {
    let auth = handlers::AuthUser {
        user_id: "U1".to_string(),
        device_id: "d1".to_string(),
    };
    let urls = vec!["turn:t.example.com:3478".to_string()];
    let a = handlers::get_turn_credentials(&auth, true, &urls, "u", "s", "password", 3600, 1000);
    let b = handlers::get_turn_credentials(&auth, true, &urls, "u", "s", "password", 3600, 1000);
    assert_eq!(a.username, "4600:u");
    assert_eq!(a.username, b.username);
    assert_eq!(a.credential, b.credential);
    assert_eq!(a.ttl, 3600);
    assert_eq!(a.urls, urls);

    let off = handlers::get_turn_credentials(&auth, false, &urls, "u", "s", "password", 3600, 1000);
    assert!(off.urls.is_empty());
    assert_eq!(off.ttl, 0);
}

#[test]
fn scenario_reaper_idempotent() {
    let mut storage = Storage::new();
    let mut registry = WebSocketManager::new();
    let k1 = make_user(&mut storage, "U1");
    let k2 = make_user(&mut storage, "U2");
    let (t1, _d1) = login_user(&mut storage, "U1", &k1);
    let _ = make_user(&mut storage, "U3");
    login_user(&mut storage, "U2", &k2);

    let mut s1 = open_socket();
    authenticate(&mut s1, &mut storage, &mut registry, &t1);
    handle_client_frame(
        &mut s1.state,
        &mut storage,
        &mut registry,
        &s1.tx,
        WsClientMessage::Message(text_envelope("m1", "U1", "U2")),
        NOW,
        TTL_HOURS,
    );

    // First pass removes nothing: nothing is expired yet.
    let (msgs, files) = storage.cleanup_expired(NOW);
    assert_eq!((msgs, files), (0, 0));
    let pending_before = storage.count_pending_messages();
    // A second pass on the quiescent store changes nothing.
    let (msgs2, files2) = storage.cleanup_expired(NOW);
    assert_eq!((msgs2, files2), (0, 0));
    assert_eq!(storage.count_pending_messages(), pending_before);

    // Past the message TTL, the spool row is reaped.
    let later = NOW + TTL_HOURS * 3600;
    let (msgs3, _files3) = storage.cleanup_expired(later);
    assert_eq!(msgs3, 1);
    assert_eq!(storage.count_pending_messages(), 0);
}

#[test]
fn scenario_delete_user_cascades() {
    let mut storage = Storage::new();
    let mut registry = WebSocketManager::new();
    let k1 = make_user(&mut storage, "U1");
    let (t1, _d1) = login_user(&mut storage, "U1", &k1);
    let mut s1 = open_socket();
    authenticate(&mut s1, &mut storage, &mut registry, &t1);
    // Consume the authenticated reply.
    assert!(matches!(
        s1.rx.try_recv(),
        Err(tokio::sync::mpsc::error::TryRecvError::Empty)
    ));

    assert!(storage.validate_session(&t1, NOW).is_some());

    let targets = handlers::delete_user(
        &mut storage,
        &registry,
        "U1",
        &AdminKeyRequest {
            admin_key: MASTER.to_string(),
        },
        MASTER,
    )
    .unwrap();
    assert_eq!(targets.len(), 1);
    match s1.rx.try_recv().unwrap() {
        WsServerMessage::Error { code, .. } => assert_eq!(code, "ACCOUNT_DELETED"),
        other => panic!("expected the deletion notice, got {:?}", other),
    }
    // Every token of the user is rejected afterwards.
    assert!(storage.validate_session(&t1, NOW).is_none());
    assert!(storage.get_user("U1").is_none());

    // The wrong master key is refused.
    let err = handlers::delete_user(
        &mut storage,
        &registry,
        "U1",
        &AdminKeyRequest {
            admin_key: "nope".to_string(),
        },
        MASTER,
    )
    .unwrap_err();
    assert_eq!(err.http_status(), 403);
}

#[test]
fn scenario_sessions_and_profiles() {
    let mut storage = Storage::new();
    let key = make_user(&mut storage, "U1");
    let (t1, d1) = login_user(&mut storage, "U1", &key);

    // Bearer authentication resolves to the session's user and device.
    let auth = handlers::authenticate_request(&mut storage, &t1, NOW).unwrap();
    assert_eq!(auth.user_id, "U1");
    assert_eq!(auth.device_id, d1);
    assert!(handlers::authenticate_request(&mut storage, "bogus", NOW).is_err());

    // Refresh rotates the token and invalidates the old one.
    let refreshed = handlers::refresh_token(
        &mut storage,
        &privmsg::models::RefreshTokenRequest { token: t1.clone() },
        NOW,
    )
    .unwrap();
    assert!(storage.validate_session(&t1, NOW).is_none());
    assert!(storage.validate_session(&refreshed.token, NOW).is_some());

    // Profile updates keep absent fields.
    let auth2 = handlers::AuthUser {
        user_id: "U1".to_string(),
        device_id: d1.clone(),
    };
    let p = handlers::update_profile(
        &mut storage,
        &auth2,
        &UpdateProfileRequest {
            display_name: Some("Neo".to_string()),
            avatar_file_id: None,
            public_key: Some("pk".to_string()),
        },
    )
    .unwrap();
    assert_eq!(p.display_name.as_deref(), Some("Neo"));
    assert_eq!(p.public_key.as_deref(), Some("pk"));
    assert!(p.avatar_file_id.is_none());

    let me = handlers::get_current_user(&storage, &auth2).unwrap();
    assert_eq!(me.display_name.as_deref(), Some("Neo"));

    // A second device can be removed, the current one cannot.
    let (_t2, d2) = login_user(&mut storage, "U1", &key);
    let devices = handlers::list_devices(&storage, &auth2).unwrap();
    assert_eq!(devices.len(), 2);
    let mut registry = WebSocketManager::new();
    let err =
        handlers::remove_device(&mut storage, &mut registry, &auth2, &d1).unwrap_err();
    assert_eq!(err.http_status(), 400);
    handlers::remove_device(&mut storage, &mut registry, &auth2, &d2).unwrap();
    assert_eq!(handlers::list_devices(&storage, &auth2).unwrap().len(), 1);

    // Deactivation invalidates every session of the user.
    storage.deactivate_user("U1");
    assert!(storage.validate_session(&refreshed.token, NOW).is_none());
    let gone = handlers::get_user(&storage, &auth2, "U1").unwrap_err();
    assert_eq!(gone.http_status(), 404);
}

#[test]
fn scenario_pending_fetch_and_ack() {
    let mut storage = Storage::new();
    let mut registry = WebSocketManager::new();
    let k1 = make_user(&mut storage, "U1");
    let k2 = make_user(&mut storage, "U2");
    let (t1, _d1) = login_user(&mut storage, "U1", &k1);
    let (_t2, d2) = login_user(&mut storage, "U2", &k2);

    let mut s1 = open_socket();
    authenticate(&mut s1, &mut storage, &mut registry, &t1);
    handle_client_frame(
        &mut s1.state,
        &mut storage,
        &mut registry,
        &s1.tx,
        WsClientMessage::Message(text_envelope("m9", "U1", "U2")),
        NOW,
        TTL_HOURS,
    );

    let auth2 = handlers::AuthUser {
        user_id: "U2".to_string(),
        device_id: d2,
    };
    let pending = handlers::get_pending_messages(&storage, &auth2, NOW).unwrap();
    assert_eq!(pending.len(), 1);
    assert_eq!(pending[0].message_id, "m9");
    assert_eq!(pending[0].message_type, MessageType::Text);

    let n = handlers::acknowledge_messages(
        &mut storage,
        &auth2,
        &AcknowledgeMessagesRequest {
            message_ids: vec!["m9".to_string()],
        },
    )
    .unwrap();
    assert_eq!(n, 1);
    assert_eq!(storage.count_pending_messages(), 0);
}

#[test]
fn scenario_stats() {
    let mut storage = Storage::new();
    let registry = WebSocketManager::new();
    make_user(&mut storage, "U1");
    make_user(&mut storage, "U2");
    storage.deactivate_user("U2");

    let stats = handlers::get_stats(
        &storage,
        &registry,
        &AdminKeyRequest {
            admin_key: MASTER.to_string(),
        },
        MASTER,
    )
    .unwrap();
    assert_eq!(stats.total_users, 2);
    assert_eq!(stats.active_users, 1);
    assert_eq!(stats.online_users, 0);
    assert_eq!(stats.pending_messages, 0);
    assert_eq!(stats.stored_files, 0);
    assert_eq!(stats.storage_used_bytes, 0);

    let err = handlers::get_stats(
        &storage,
        &registry,
        &AdminKeyRequest {
            admin_key: "x".to_string(),
        },
        MASTER,
    )
    .unwrap_err();
    assert_eq!(err.code(), "FORBIDDEN");
}

#[test]
fn scenario_duplicate_user_and_message() {
    let mut storage = Storage::new();
    make_user(&mut storage, "U1");
    let err = handlers::create_user(
        &mut storage,
        &CreateUserRequest {
            admin_key: MASTER.to_string(),
            user_id: Some("U1".to_string()),
        },
        MASTER,
        NOW,
    )
    .unwrap_err();
    assert_eq!(err.http_status(), 409);

    // A duplicate message id is a hard error at the store.
    let env = text_envelope("dup", "U1", "U2");
    storage.store_pending_message(&env, TTL_HOURS, NOW).unwrap();
    let e = storage
        .store_pending_message(&env, TTL_HOURS, NOW)
        .unwrap_err();
    assert!(matches!(e, AppError::Database(_)));
    assert_eq!(storage.count_pending_messages(), 1);
}

#[test]
fn scenario_typing_presence_call_signal() {
    let mut storage = Storage::new();
    let mut registry = WebSocketManager::new();
    let k1 = make_user(&mut storage, "U1");
    let k2 = make_user(&mut storage, "U2");
    let (t1, _d1) = login_user(&mut storage, "U1", &k1);
    let (t2, d2) = login_user(&mut storage, "U2", &k2);

    let mut s1 = open_socket();
    let mut s2 = open_socket();
    authenticate(&mut s1, &mut storage, &mut registry, &t1);
    authenticate(&mut s2, &mut storage, &mut registry, &t2);

    // Typing is forwarded to the recipient's devices and never stored.
    let out = handle_client_frame(
        &mut s1.state,
        &mut storage,
        &mut registry,
        &s1.tx,
        WsClientMessage::Typing {
            recipient_id: "U2".to_string(),
            is_typing: true,
        },
        NOW,
        TTL_HOURS,
    );
    assert!(out.replies.is_empty());
    assert_eq!(out.recipient_targets, vec![d2.clone()]);
    match s2.rx.try_recv().unwrap() {
        WsServerMessage::Typing { user_id, is_typing } => {
            assert_eq!(user_id, "U1");
            assert!(is_typing);
        }
        other => panic!("expected a typing frame, got {:?}", other),
    }
    assert_eq!(storage.count_pending_messages(), 0);

    // Presence goes to every other user's connection, not back to self.
    let out = handle_client_frame(
        &mut s1.state,
        &mut storage,
        &mut registry,
        &s1.tx,
        WsClientMessage::Presence {
            status: privmsg::models::PresenceStatus::Away,
        },
        NOW,
        TTL_HOURS,
    );
    assert_eq!(out.recipient_targets, vec![d2.clone()]);
    assert!(matches!(
        s2.rx.try_recv(),
        Ok(WsServerMessage::Presence { .. })
    ));
    assert!(s1.rx.try_recv().is_err());

    // A call signal with the right sender is forwarded; a forged one is
    // dropped without a reply.
    let signal = privmsg::models::CallSignal {
        call_id: "c1".to_string(),
        sender_id: "U1".to_string(),
        recipient_id: "U2".to_string(),
        signal_type: privmsg::models::CallSignalType::Offer,
        payload: "sdp".to_string(),
    };
    let out = handle_client_frame(
        &mut s1.state,
        &mut storage,
        &mut registry,
        &s1.tx,
        WsClientMessage::CallSignal(signal.clone()),
        NOW,
        TTL_HOURS,
    );
    assert_eq!(out.recipient_targets, vec![d2.clone()]);
    assert!(matches!(
        s2.rx.try_recv(),
        Ok(WsServerMessage::CallSignal(_))
    ));
    let forged = privmsg::models::CallSignal {
        sender_id: "U2".to_string(),
        ..signal
    };
    let out = handle_client_frame(
        &mut s1.state,
        &mut storage,
        &mut registry,
        &s1.tx,
        WsClientMessage::CallSignal(forged),
        NOW,
        TTL_HOURS,
    );
    assert!(out.replies.is_empty());
    assert!(out.recipient_targets.is_empty());
    assert!(s2.rx.try_recv().is_err());
}

#[test]
fn scenario_default_config() {
    let config = privmsg::config::Config::default();
    assert_eq!(config.server.port, 9443);
    assert_eq!(config.storage.max_message_age_hours, 168);
    assert_eq!(config.storage.max_file_age_hours, 72);
    assert_eq!(config.storage.cleanup_interval_minutes, 60);
    assert!(config.tls.is_none());
    assert!(config.turn.enabled);
    assert_eq!(config.turn.ttl_seconds, 86400);
    assert_eq!(config.limits.max_file_size_mb, 100);
    assert_eq!(config.limits.max_pending_messages, 10000);
}
