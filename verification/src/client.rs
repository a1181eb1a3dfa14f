//! The client side's plain data: connection settings with their URL
//! builders, the authenticated session, messages and conversations as the
//! client stores them, call bookkeeping, and TURN credentials as received.

use vstd::prelude::*;

verus! {

use vstd::string::StringExecFns;
use crate::encoding::{dec_of, decimal_string, string_push};

/// Where the client connects.
#[derive(Debug)]
pub struct ClientConfig {
    pub server_host: String,
    pub server_port: u16,
    pub use_tls: bool,
}

/// The HTTP base URL of a configuration:
/// "http(s)://{host}:{port}".
pub open spec fn http_url_of(host: Seq<char>, port: u16, use_tls: bool) -> Seq<char> {
    (if use_tls {
        "https"@
    } else {
        "http"@
    }) + "://"@ + host + seq![':'] + dec_of(port as nat)
}

/// The WebSocket URL of a configuration:
/// "ws(s)://{host}:{port}/ws".
pub open spec fn ws_url_of(host: Seq<char>, port: u16, use_tls: bool) -> Seq<char> {
    (if use_tls {
        "wss"@
    } else {
        "ws"@
    }) + "://"@ + host + seq![':'] + dec_of(port as nat) + "/ws"@
}

impl ClientConfig {
    pub fn new(host: &str, port: u16, use_tls: bool) -> (r: Self)
        ensures
            r.server_host@ == host@,
            r.server_port == port,
            r.use_tls == use_tls,
    {
        ClientConfig { server_host: host.to_owned(), server_port: port, use_tls }
    }

    /// The base URL for HTTP requests.
    pub fn http_url(&self) -> (r: String)
        ensures
            r@ == http_url_of(self.server_host@, self.server_port, self.use_tls),
    {
        let mut r = if self.use_tls {
            String::from_str("https")
        } else {
            String::from_str("http")
        };
        r.append("://");
        r.append(self.server_host.as_str());
        string_push(&mut r, ':');
        let port = decimal_string(self.server_port as u64);
        r.append(port.as_str());
        proof {
            assert(r@ =~= http_url_of(self.server_host@, self.server_port, self.use_tls));
        }
        r
    }

    /// The URL for the WebSocket upgrade.
    pub fn ws_url(&self) -> (r: String)
        ensures
            r@ == ws_url_of(self.server_host@, self.server_port, self.use_tls),
    {
        let mut r = if self.use_tls {
            String::from_str("wss")
        } else {
            String::from_str("ws")
        };
        r.append("://");
        r.append(self.server_host.as_str());
        string_push(&mut r, ':');
        let port = decimal_string(self.server_port as u64);
        r.append(port.as_str());
        r.append("/ws");
        proof {
            assert(r@ =~= ws_url_of(self.server_host@, self.server_port, self.use_tls));
        }
        r
    }
}

/// The bearer session a login granted.
#[derive(Debug)]
pub struct AuthSession {
    pub token: String,
    pub device_id: String,
    pub user_id: String,
    pub expires_at: i64,
}

/// Another user as the client sees them.
#[derive(Debug)]
pub struct User {
    pub user_id: String,
    pub display_name: Option<String>,
    pub avatar_file_id: Option<String>,
    pub public_key: Option<String>,
    pub last_seen_at: Option<i64>,
}

/// The kind of content a client message carries.
#[derive(Clone, Copy, PartialEq, Eq, Structural, Debug)]
pub enum MessageType {
    Text,
    Voice,
    Video,
    Image,
    File,
}

/// Where a client message stands in its life.
#[derive(Clone, Copy, PartialEq, Eq, Structural, Debug)]
pub enum MessageStatus {
    Pending,
    Sent,
    Delivered,
    Read,
    Failed,
}

/// An attachment riding on a message.
#[derive(Debug)]
pub struct Attachment {
    pub file_id: String,
    pub file_name: String,
    pub file_size: i64,
    pub duration_ms: Option<i64>,
    pub width: Option<i32>,
    pub height: Option<i32>,
    pub encryption_key: Option<String>,
    pub local_path: Option<String>,
    pub mime_type: String,
}

/// A message as the client stores it, already decrypted.
#[derive(Debug)]
pub struct Message {
    pub message_id: String,
    pub conversation_id: String,
    pub sender_id: String,
    pub message_type: MessageType,
    pub content: String,
    pub timestamp: i64,
    pub status: MessageStatus,
    pub attachment: Option<Attachment>,
    pub is_outgoing: bool,
}

/// The wire wrapper around an encrypted payload, as the client sends and
/// receives it.
#[derive(Debug)]
pub struct MessageEnvelope {
    pub message_id: String,
    pub sender_id: String,
    pub recipient_id: String,
    pub recipient_device_id: Option<String>,
    pub encrypted_content: String,
    pub message_type: String,
    pub timestamp: i64,
}

/// One conversation in the client's list.
#[derive(Debug)]
pub struct Conversation {
    pub id: String,
    pub peer_id: String,
    pub peer_name: Option<String>,
    pub peer_avatar: Option<String>,
    pub last_message: Option<String>,
    pub last_message_time: Option<i64>,
    pub unread_count: i32,
    pub is_muted: bool,
    pub is_pinned: bool,
}

/// Whether a call carries audio alone or audio and video.
#[derive(Clone, Copy, PartialEq, Eq, Structural, Debug)]
pub enum CallType {
    Audio,
    Video,
}

/// Where a call stands in its life.
#[derive(Clone, Copy, PartialEq, Eq, Structural, Debug)]
pub enum CallState {
    Idle,
    Outgoing,
    Incoming,
    Connecting,
    Connected,
    Ended,
}

/// One call's bookkeeping.
#[derive(Debug)]
pub struct CallInfo {
    pub call_id: String,
    pub peer_id: String,
    pub call_type: CallType,
    pub state: CallState,
    pub is_outgoing: bool,
    pub started_at: Option<i64>,
    pub ended_at: Option<i64>,
}

/// A call-signalling frame as the client sends and receives it.
#[derive(Debug)]
pub struct CallSignal {
    pub call_id: String,
    pub sender_id: String,
    pub recipient_id: String,
    pub signal_type: String,
    pub payload: String,
}

/// TURN credentials as received from the relay.
#[derive(Debug)]
pub struct TurnCredentials {
    pub urls: Vec<String>,
    pub username: String,
    pub credential: String,
}

/// Events the client's socket reader surfaces to the application.
#[derive(Debug)]
pub enum WsEvent {
    Connected,
    Disconnected,
    Message(MessageEnvelope),
    CallSignal(CallSignal),
    Typing { user_id: String, is_typing: bool },
    Presence { user_id: String, status: String },
}

/// A message row as the client application displays it.
#[derive(Debug)]
pub struct ChatMessage {
    pub message_id: String,
    pub conversation_id: String,
    pub sender_id: String,
    pub message_type: MessageType,
    pub content: String,
    pub timestamp: i64,
    pub status: MessageStatus,
    pub attachment: Option<Attachment>,
    pub is_outgoing: bool,
}

/// Desktop notification preferences.
#[derive(Debug)]
pub struct NotificationConfig {
    pub enabled: bool,
    pub sound: bool,
    pub preview: bool,
}

} // verus!
