//! The per-socket relay state machine: a socket is unauthenticated until a
//! valid bearer token arrives, then authenticated as one (user, device), and
//! finally closed. Each client frame maps to replies on the socket's own
//! channel plus fanout through the registry and changes to the store.
//!
//! On entry to the authenticated state, every pending envelope for the
//! (user, device) is replayed in creation order; rows leave the spool only
//! on acknowledgement.

use vstd::prelude::*;

verus! {

use crate::encoding::str_eq;
use crate::crypto::key_hash_of;
use crate::models::{
    WsClientMessage,
    WsServerMessage,
    MessageEnvelope,
    MessageType,
    PendingMessage,
    clone_opt_string,
    message_type_of,
};
use crate::registry::{
    WebSocketManager,
    connections_without_device,
    user_device_ids,
    other_device_ids,
    other_users_device_ids,
};
use crate::storage::{Storage, pending_for, pending_without_ids, spec_spooled};

/// Relies on tokio's mpsc UnboundedSender::clone: another handle to the same
/// channel; nothing about the channel is promised here.
pub assume_specification<T>[ <tokio::sync::mpsc::UnboundedSender<T> as Clone>::clone ](
    s: &tokio::sync::mpsc::UnboundedSender<T>,
) -> tokio::sync::mpsc::UnboundedSender<T>;

/// The lifecycle of one socket.
pub enum SocketState {
    Unauth,
    Authed { user_id: String, device_id: String },
    Closed,
}

impl SocketState {
    /// The authenticated user id; empty unless authenticated.
    pub open spec fn auth_user(self) -> Seq<char> {
        match self {
            SocketState::Authed { user_id, .. } => user_id@,
            _ => Seq::empty(),
        }
    }

    /// The authenticated device id; empty unless authenticated.
    pub open spec fn auth_device(self) -> Seq<char> {
        match self {
            SocketState::Authed { device_id, .. } => device_id@,
            _ => Seq::empty(),
        }
    }
}

/// What one frame produced: replies for the socket itself, the recipient
/// devices targeted, and the sender's other devices targeted (echo).
pub struct FrameOutcome {
    pub replies: Vec<WsServerMessage>,
    pub recipient_targets: Vec<String>,
    pub echo_targets: Vec<String>,
}

/// Whether a reply replays a spool row: a message frame carrying the row's
/// fields, typed by its stored tag, stamped with its creation time.
pub open spec fn reply_matches_pending(reply: WsServerMessage, row: PendingMessage) -> bool {
    match reply {
        WsServerMessage::Message(env) => {
            &&& env.message_id@ == row.message_id@
            &&& env.sender_id@ == row.sender_id@
            &&& env.recipient_id@ == row.recipient_id@
            &&& env.recipient_device_id == row.recipient_device_id
            &&& env.encrypted_content@ == row.encrypted_content@
            &&& env.message_type == message_type_of(row.message_type@)
            &&& env.timestamp == row.created_at
        },
        _ => false,
    }
}

/// Nothing changed: the socket state, the store, and the registry.
pub open spec fn untouched(
    s0: SocketState,
    s1: SocketState,
    st0: Storage,
    st1: Storage,
    rg0: WebSocketManager,
    rg1: WebSocketManager,
) -> bool {
    s1 == s0 && st1 == st0 && rg1 == rg0
}

/// Nothing was sent anywhere.
pub open spec fn silent(r: FrameOutcome) -> bool {
    r.replies@.len() == 0 && r.recipient_targets@.len() == 0 && r.echo_targets@.len() == 0
}

/// Dispatch one client frame against the socket's state, the store, and the
/// registry. Replies belong on this socket's own channel; fanout to other
/// sockets has already been enqueued and is reported as targeted device ids.
pub fn handle_client_frame(
    state: &mut SocketState,
    storage: &mut Storage,
    registry: &mut WebSocketManager,
    sender: &tokio::sync::mpsc::UnboundedSender<WsServerMessage>,
    frame: WsClientMessage,
    now: i64,
    message_ttl_hours: i64,
) -> (r: FrameOutcome)
    requires
        old(storage).wf(),
        old(registry).wf(),
        0 <= message_ttl_hours,
        0 <= now,
        now + message_ttl_hours * 3600 <= i64::MAX,
        old(storage).next_pending_id < i64::MAX,
    ensures
        final(storage).wf(),
        final(registry).wf(),
        (*old(state)) is Closed ==> untouched(
            *old(state),
            *final(state),
            *old(storage),
            *final(storage),
            *old(registry),
            *final(registry),
        ) && silent(r),
        (frame matches WsClientMessage::Ping ==> (!((*old(state)) is Closed) ==> untouched(
            *old(state),
            *final(state),
            *old(storage),
            *final(storage),
            *old(registry),
            *final(registry),
        ) && r.replies@.len() == 1 && r.replies@[0] is Pong && r.recipient_targets@.len() == 0
            && r.echo_targets@.len() == 0)),
        (frame matches WsClientMessage::Authenticate { token } ==> (!((*old(state)) is Closed) ==> {
            if old(storage).spec_session_live(token@, now) {
                let sess = old(storage).spec_session(key_hash_of(token@));
                let pend = pending_for(
                    old(storage).pending@,
                    sess.user_id@,
                    Some(sess.device_id@),
                    now,
                );
                &&& *final(storage) == *old(storage)
                &&& (*final(state)) is Authed
                &&& (*final(state)).auth_user() == sess.user_id@
                &&& (*final(state)).auth_device() == sess.device_id@
                &&& final(registry).connections@ == connections_without_device(
                    old(registry).connections@,
                    sess.device_id@,
                ).push(final(registry).connections@.last())
                &&& final(registry).connections@.last().user_id@ == sess.user_id@
                &&& final(registry).connections@.last().device_id@ == sess.device_id@
                &&& r.replies@.len() == 1 + pend.len()
                &&& (r.replies@[0] matches WsServerMessage::Authenticated { user_id, device_id }
                    && user_id@ == sess.user_id@ && device_id@ == sess.device_id@)
                &&& forall|k: int|
                    0 <= k < pend.len() ==> reply_matches_pending(
                        #[trigger] r.replies@[k + 1],
                        pend[k],
                    )
                &&& r.recipient_targets@.len() == 0
                &&& r.echo_targets@.len() == 0
            } else {
                &&& untouched(
                    *old(state),
                    *final(state),
                    *old(storage),
                    *final(storage),
                    *old(registry),
                    *final(registry),
                )
                &&& r.replies@.len() == 1
                &&& (r.replies@[0] matches WsServerMessage::Error { code, .. } && code@
                    == "AUTH_FAILED"@)
                &&& r.recipient_targets@.len() == 0
                &&& r.echo_targets@.len() == 0
            }
        })),
        (frame matches WsClientMessage::Message(envelope) ==> (!((*old(state)) is Closed) ==> {
            if !((*old(state)) is Authed) {
                untouched(
                    *old(state),
                    *final(state),
                    *old(storage),
                    *final(storage),
                    *old(registry),
                    *final(registry),
                ) && silent(r)
            } else if envelope.sender_id@ != (*old(state)).auth_user() {
                &&& untouched(
                    *old(state),
                    *final(state),
                    *old(storage),
                    *final(storage),
                    *old(registry),
                    *final(registry),
                )
                &&& r.replies@.len() == 1
                &&& (r.replies@[0] matches WsServerMessage::Error { code, .. } && code@
                    == "INVALID_SENDER"@)
                &&& r.recipient_targets@.len() == 0
                &&& r.echo_targets@.len() == 0
            } else {
                &&& *final(state) == *old(state)
                &&& *final(registry) == *old(registry)
                &&& (if old(storage).spec_has_pending(envelope.message_id@) {
                    *final(storage) == *old(storage)
                } else {
                    spec_spooled(
                        *old(storage),
                        *final(storage),
                        envelope,
                        message_ttl_hours,
                        now,
                    )
                })
                &&& (if old(registry).spec_user_online(envelope.recipient_id@) {
                    match envelope.recipient_device_id {
                        Some(d) => {
                            &&& r.recipient_targets@.len() == (if old(registry).spec_has_conn(
                                d@,
                            ) {
                                1int
                            } else {
                                0int
                            })
                            &&& (old(registry).spec_has_conn(d@)
                                ==> r.recipient_targets@[0]@ == d@)
                        },
                        None => r.recipient_targets@ == user_device_ids(
                            old(registry).connections@,
                            envelope.recipient_id@,
                        ),
                    }
                } else {
                    r.recipient_targets@.len() == 0
                })
                &&& r.echo_targets@ == other_device_ids(
                    old(registry).connections@,
                    (*old(state)).auth_user(),
                    (*old(state)).auth_device(),
                )
                &&& r.replies@.len() == 1
                &&& (r.replies@[0] matches WsServerMessage::Acknowledged { message_ids }
                    && message_ids@.len() == 1 && message_ids@[0]@ == envelope.message_id@)
            }
        })),
        (frame matches WsClientMessage::Acknowledge { message_ids } ==> (!((*old(state)) is Closed)
            ==> {
            &&& *final(state) == *old(state)
            &&& *final(registry) == *old(registry)
            &&& final(storage).pending@ == pending_without_ids(
                old(storage).pending@,
                message_ids@,
            )
            &&& final(storage).users == old(storage).users
            &&& final(storage).devices == old(storage).devices
            &&& final(storage).sessions == old(storage).sessions
            &&& final(storage).files == old(storage).files
            &&& r.replies@.len() == 1
            &&& (r.replies@[0] matches WsServerMessage::Acknowledged { message_ids: out } && out@
                == message_ids@)
            &&& r.recipient_targets@.len() == 0
            &&& r.echo_targets@.len() == 0
        })),
        (frame matches WsClientMessage::Typing { recipient_id, is_typing } ==> (!((*old(state))
            is Closed) ==> {
            if (*old(state)) is Authed {
                &&& untouched(
                    *old(state),
                    *final(state),
                    *old(storage),
                    *final(storage),
                    *old(registry),
                    *final(registry),
                )
                &&& r.replies@.len() == 0
                &&& r.recipient_targets@ == user_device_ids(
                    old(registry).connections@,
                    recipient_id@,
                )
                &&& r.echo_targets@.len() == 0
            } else {
                untouched(
                    *old(state),
                    *final(state),
                    *old(storage),
                    *final(storage),
                    *old(registry),
                    *final(registry),
                ) && silent(r)
            }
        })),
        (frame matches WsClientMessage::Presence { status } ==> (!((*old(state)) is Closed) ==> {
            if (*old(state)) is Authed {
                &&& untouched(
                    *old(state),
                    *final(state),
                    *old(storage),
                    *final(storage),
                    *old(registry),
                    *final(registry),
                )
                &&& r.replies@.len() == 0
                &&& r.recipient_targets@ == other_users_device_ids(
                    old(registry).connections@,
                    (*old(state)).auth_user(),
                )
                &&& r.echo_targets@.len() == 0
            } else {
                untouched(
                    *old(state),
                    *final(state),
                    *old(storage),
                    *final(storage),
                    *old(registry),
                    *final(registry),
                ) && silent(r)
            }
        })),
        (frame matches WsClientMessage::CallSignal(signal) ==> (!((*old(state)) is Closed) ==> {
            if (*old(state)) is Authed && signal.sender_id@ == (*old(state)).auth_user() {
                &&& untouched(
                    *old(state),
                    *final(state),
                    *old(storage),
                    *final(storage),
                    *old(registry),
                    *final(registry),
                )
                &&& r.replies@.len() == 0
                &&& r.recipient_targets@ == user_device_ids(
                    old(registry).connections@,
                    signal.recipient_id@,
                )
                &&& r.echo_targets@.len() == 0
            } else {
                untouched(
                    *old(state),
                    *final(state),
                    *old(storage),
                    *final(storage),
                    *old(registry),
                    *final(registry),
                ) && silent(r)
            }
        })),
{
    let mut outcome = FrameOutcome {
        replies: Vec::new(),
        recipient_targets: Vec::new(),
        echo_targets: Vec::new(),
    };
    if let SocketState::Closed = state {
        return outcome;
    }
    match frame {
        WsClientMessage::Ping => {
            outcome.replies.push(WsServerMessage::Pong);
        },
        WsClientMessage::Authenticate { token } => {
            match storage.validate_session(token.as_str(), now) {
                Some(sess) => {
                    *state = SocketState::Authed {
                        user_id: sess.user_id.clone(),
                        device_id: sess.device_id.clone(),
                    };
                    registry.register(
                        sess.user_id.as_str(),
                        sess.device_id.as_str(),
                        sender.clone(),
                    );
                    outcome.replies.push(
                        WsServerMessage::Authenticated {
                            user_id: sess.user_id.clone(),
                            device_id: sess.device_id.clone(),
                        },
                    );
                    let pending = storage.get_pending_messages(
                        sess.user_id.as_str(),
                        Some(sess.device_id.as_str()),
                        now,
                    );
                    let np = pending.len();
                    let ghost first = outcome.replies@[0];
                    let mut k: usize = 0;
                    while k < np
                        invariant
                            np == pending@.len(),
                            k <= np,
                            outcome.replies@.len() == 1 + k,
                            outcome.replies@[0] == first,
                            outcome.recipient_targets@.len() == 0,
                            outcome.echo_targets@.len() == 0,
                            forall|m: int|
                                0 <= m < k ==> reply_matches_pending(
                                    #[trigger] outcome.replies@[m + 1],
                                    pending@[m],
                                ),
                        decreases np - k,
                    {
                        let env = MessageEnvelope {
                            message_id: pending[k].message_id.clone(),
                            sender_id: pending[k].sender_id.clone(),
                            recipient_id: pending[k].recipient_id.clone(),
                            recipient_device_id: clone_opt_string(
                                &pending[k].recipient_device_id,
                            ),
                            encrypted_content: pending[k].encrypted_content.clone(),
                            message_type: MessageType::from_string(
                                pending[k].message_type.as_str(),
                            ),
                            timestamp: pending[k].created_at,
                        };
                        outcome.replies.push(WsServerMessage::Message(env));
                        k = k + 1;
                    }
                },
                None => {
                    outcome.replies.push(
                        WsServerMessage::Error {
                            code: "AUTH_FAILED".to_owned(),
                            message: "Invalid or expired token".to_owned(),
                        },
                    );
                },
            }
        },
        WsClientMessage::Message(envelope) => {
            let authed: Option<(String, String)> = match &*state {
                SocketState::Authed { user_id, device_id } => Some(
                    (user_id.clone(), device_id.clone()),
                ),
                _ => None,
            };
            match authed {
                None => (),
                Some((uid, did)) => {
                    if !str_eq(envelope.sender_id.as_str(), uid.as_str()) {
                        outcome.replies.push(
                            WsServerMessage::Error {
                                code: "INVALID_SENDER".to_owned(),
                                message: "Sender ID mismatch".to_owned(),
                            },
                        );
                    } else {
                        if registry.is_user_online(envelope.recipient_id.as_str()) {
                            match &envelope.recipient_device_id {
                                Some(d) => {
                                    let sent = registry.send_to_device(
                                        d.as_str(),
                                        WsServerMessage::Message(envelope.clone()),
                                    );
                                    if sent {
                                        outcome.recipient_targets.push(d.clone());
                                    }
                                },
                                None => {
                                    outcome.recipient_targets = registry.send_to_user(
                                        envelope.recipient_id.as_str(),
                                        &WsServerMessage::Message(envelope.clone()),
                                    );
                                },
                            }
                        }
                        let _stored = storage.store_pending_message(
                            &envelope,
                            message_ttl_hours,
                            now,
                        );
                        outcome.echo_targets = registry.send_to_other_devices(
                            uid.as_str(),
                            did.as_str(),
                            &WsServerMessage::Message(envelope.clone()),
                        );
                        let mut acked: Vec<String> = Vec::new();
                        acked.push(envelope.message_id.clone());
                        outcome.replies.push(
                            WsServerMessage::Acknowledged { message_ids: acked },
                        );
                    }
                },
            }
        },
        WsClientMessage::Acknowledge { message_ids } => {
            storage.delete_pending_messages(&message_ids);
            outcome.replies.push(WsServerMessage::Acknowledged { message_ids });
        },
        WsClientMessage::Typing { recipient_id, is_typing } => {
            let authed_user: Option<String> = match &*state {
                SocketState::Authed { user_id, .. } => Some(user_id.clone()),
                _ => None,
            };
            match authed_user {
                Some(uid) => {
                    outcome.recipient_targets = registry.send_to_user(
                        recipient_id.as_str(),
                        &WsServerMessage::Typing { user_id: uid, is_typing },
                    );
                },
                None => (),
            }
        },
        WsClientMessage::Presence { status } => {
            let authed_user: Option<String> = match &*state {
                SocketState::Authed { user_id, .. } => Some(user_id.clone()),
                _ => None,
            };
            match authed_user {
                Some(uid) => {
                    let message = WsServerMessage::Presence { user_id: uid.clone(), status };
                    outcome.recipient_targets = registry.broadcast_to_others(
                        uid.as_str(),
                        &message,
                    );
                },
                None => (),
            }
        },
        WsClientMessage::CallSignal(signal) => {
            let authed_user: Option<String> = match &*state {
                SocketState::Authed { user_id, .. } => Some(user_id.clone()),
                _ => None,
            };
            match authed_user {
                Some(uid) => {
                    if str_eq(signal.sender_id.as_str(), uid.as_str()) {
                        let recipient = signal.recipient_id.clone();
                        outcome.recipient_targets = registry.send_to_user(
                            recipient.as_str(),
                            &WsServerMessage::CallSignal(signal),
                        );
                    }
                },
                None => (),
            }
        },
    }
    outcome
}

/// Close a socket: an authenticated one leaves the registry, the user's
/// last-seen time is refreshed, and — when that was the user's last live
/// device — every other user's connection is told the user went offline.
/// Returns the device ids the offline notice was enqueued on.
pub fn handle_close(
    state: &mut SocketState,
    storage: &mut Storage,
    registry: &mut WebSocketManager,
    now: i64,
) -> (r: Vec<String>)
    requires
        old(storage).wf(),
        old(registry).wf(),
    ensures
        final(storage).wf(),
        final(registry).wf(),
        (*final(state)) is Closed,
        !((*old(state)) is Authed) ==> *final(storage) == *old(storage) && *final(registry) == *old(
            registry,
        ) && r@.len() == 0,
        (*old(state)) is Authed ==> {
            let u = (*old(state)).auth_user();
            let d = (*old(state)).auth_device();
            &&& final(registry).connections@ == connections_without_device(
                old(registry).connections@,
                d,
            )
            &&& final(storage).devices == old(storage).devices
            &&& final(storage).sessions == old(storage).sessions
            &&& final(storage).pending == old(storage).pending
            &&& final(storage).files == old(storage).files
            &&& (!old(storage).spec_has_user(u) ==> final(storage).users == old(storage).users)
            &&& (old(storage).spec_has_user(u) ==> final(storage).users@ == old(
                storage,
            ).users@.update(
                old(storage).spec_user_idx(u),
                crate::models::User { last_seen_at: Some(now), ..old(storage).spec_user(u) },
            ))
            &&& (final(registry).spec_user_online(u) ==> r@.len() == 0)
            &&& (!final(registry).spec_user_online(u) ==> r@ == other_users_device_ids(
                final(registry).connections@,
                u,
            ))
        },
{
    let authed: Option<(String, String)> = match &*state {
        SocketState::Authed { user_id, device_id } => Some((user_id.clone(), device_id.clone())),
        _ => None,
    };
    *state = SocketState::Closed;
    match authed {
        None => Vec::new(),
        Some((uid, did)) => {
            registry.unregister(did.as_str());
            storage.update_user_last_seen(uid.as_str(), now);
            if !registry.is_user_online(uid.as_str()) {
                let message = WsServerMessage::UserOffline { user_id: uid.clone() };
                registry.broadcast_to_others(uid.as_str(), &message)
            } else {
                Vec::new()
            }
        },
    }
}

} // verus!
