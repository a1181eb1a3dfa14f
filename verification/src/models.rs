//! Data models of the relay server: users, devices, sessions, pending
//! envelopes, file metadata, and the WebSocket frame vocabulary.
//!
//! Timestamps are epoch seconds held as `i64`; callers supply the clock.

use vstd::prelude::*;

verus! {

use crate::encoding::str_eq;

/// Clone helper for optional strings, preserving the value exactly.
pub fn clone_opt_string(o: &Option<String>) -> (r: Option<String>)
    ensures
        r == *o,
{
    match o {
        Some(s) => Some(s.clone()),
        None => None,
    }
}

/// Clone helper for string vectors, preserving the sequence exactly.
pub fn clone_vec_string(v: &Vec<String>) -> (r: Vec<String>)
    ensures
        r@ == v@,
{
    let mut r: Vec<String> = Vec::new();
    let n = v.len();
    let mut i: usize = 0;
    while i < n
        invariant
            n == v@.len(),
            i <= n,
            r@ =~= v@.take(i as int),
        decreases n - i,
    {
        r.push(v[i].clone());
        proof {
            assert(v@.take(i + 1) =~= v@.take(i as int).push(v@[i as int]));
        }
        i = i + 1;
    }
    proof {
        assert(v@.take(n as int) =~= v@);
    }
    r
}

/// A registered user row.
#[derive(Debug)]
pub struct User {
    pub user_id: String,
    pub key_hash: String,
    pub display_name: Option<String>,
    pub avatar_file_id: Option<String>,
    pub public_key: Option<String>,
    pub created_at: i64,
    pub last_seen_at: Option<i64>,
    pub is_active: bool,
}

impl Clone for User {
    fn clone(&self) -> (r: Self)
        ensures
            r == *self,
    {
        User {
            user_id: self.user_id.clone(),
            key_hash: self.key_hash.clone(),
            display_name: clone_opt_string(&self.display_name),
            avatar_file_id: clone_opt_string(&self.avatar_file_id),
            public_key: clone_opt_string(&self.public_key),
            created_at: self.created_at,
            last_seen_at: self.last_seen_at,
            is_active: self.is_active,
        }
    }
}

/// The public view of a user, as returned by profile endpoints.
#[derive(Debug)]
pub struct UserProfile {
    pub user_id: String,
    pub display_name: Option<String>,
    pub avatar_file_id: Option<String>,
    pub public_key: Option<String>,
    pub last_seen_at: Option<i64>,
}

impl UserProfile {
    /// The profile a user row projects to.
    pub open spec fn spec_of_user(u: User) -> UserProfile {
        UserProfile {
            user_id: u.user_id,
            display_name: u.display_name,
            avatar_file_id: u.avatar_file_id,
            public_key: u.public_key,
            last_seen_at: u.last_seen_at,
        }
    }

    pub fn of_user(u: &User) -> (r: Self)
        ensures
            r == UserProfile::spec_of_user(*u),
    {
        UserProfile {
            user_id: u.user_id.clone(),
            display_name: clone_opt_string(&u.display_name),
            avatar_file_id: clone_opt_string(&u.avatar_file_id),
            public_key: clone_opt_string(&u.public_key),
            last_seen_at: u.last_seen_at,
        }
    }
}

/// A device registered at login, owned by a user.
#[derive(Debug)]
pub struct Device {
    pub device_id: String,
    pub user_id: String,
    pub device_name: String,
    pub device_type: String,
    pub push_token: Option<String>,
    pub public_key: String,
    pub created_at: i64,
    pub last_active_at: i64,
}

impl Clone for Device {
    fn clone(&self) -> (r: Self)
        ensures
            r == *self,
    {
        Device {
            device_id: self.device_id.clone(),
            user_id: self.user_id.clone(),
            device_name: self.device_name.clone(),
            device_type: self.device_type.clone(),
            push_token: clone_opt_string(&self.push_token),
            public_key: self.public_key.clone(),
            created_at: self.created_at,
            last_active_at: self.last_active_at,
        }
    }
}

/// A bearer session row; the token is stored hashed.
#[derive(Debug)]
pub struct Session {
    pub token_hash: String,
    pub user_id: String,
    pub device_id: String,
    pub created_at: i64,
    pub expires_at: i64,
    pub is_valid: bool,
}

impl Clone for Session {
    fn clone(&self) -> (r: Self)
        ensures
            r == *self,
    {
        Session {
            token_hash: self.token_hash.clone(),
            user_id: self.user_id.clone(),
            device_id: self.device_id.clone(),
            created_at: self.created_at,
            expires_at: self.expires_at,
            is_valid: self.is_valid,
        }
    }
}

/// The kind of payload an envelope carries.
#[derive(Clone, Copy, PartialEq, Eq, Structural, Debug)]
pub enum MessageType {
    Text,
    Voice,
    Video,
    File,
    Image,
    CallSignal,
    KeyExchange,
    ReadReceipt,
    TypingIndicator,
    DeviceSync,
}

/// The wire tag of a message type.
pub open spec fn message_type_str(t: MessageType) -> Seq<char> {
    match t {
        MessageType::Text => "text"@,
        MessageType::Voice => "voice"@,
        MessageType::Video => "video"@,
        MessageType::File => "file"@,
        MessageType::Image => "image"@,
        MessageType::CallSignal => "call_signal"@,
        MessageType::KeyExchange => "key_exchange"@,
        MessageType::ReadReceipt => "read_receipt"@,
        MessageType::TypingIndicator => "typing_indicator"@,
        MessageType::DeviceSync => "device_sync"@,
    }
}

/// The message type a wire tag parses to; unknown tags fall back to text.
pub open spec fn message_type_of(s: Seq<char>) -> MessageType {
    if s == "voice"@ {
        MessageType::Voice
    } else if s == "video"@ {
        MessageType::Video
    } else if s == "file"@ {
        MessageType::File
    } else if s == "image"@ {
        MessageType::Image
    } else if s == "call_signal"@ {
        MessageType::CallSignal
    } else if s == "key_exchange"@ {
        MessageType::KeyExchange
    } else if s == "read_receipt"@ {
        MessageType::ReadReceipt
    } else if s == "typing_indicator"@ {
        MessageType::TypingIndicator
    } else if s == "device_sync"@ {
        MessageType::DeviceSync
    } else {
        MessageType::Text
    }
}

impl MessageType {
    pub fn to_string(&self) -> (r: String)
        ensures
            r@ == message_type_str(*self),
    {
        match self {
            MessageType::Text => "text".to_owned(),
            MessageType::Voice => "voice".to_owned(),
            MessageType::Video => "video".to_owned(),
            MessageType::File => "file".to_owned(),
            MessageType::Image => "image".to_owned(),
            MessageType::CallSignal => "call_signal".to_owned(),
            MessageType::KeyExchange => "key_exchange".to_owned(),
            MessageType::ReadReceipt => "read_receipt".to_owned(),
            MessageType::TypingIndicator => "typing_indicator".to_owned(),
            MessageType::DeviceSync => "device_sync".to_owned(),
        }
    }

    pub fn from_string(s: &str) -> (r: MessageType)
        ensures
            r == message_type_of(s@),
    {
        if str_eq(s, "voice") {
            MessageType::Voice
        } else if str_eq(s, "video") {
            MessageType::Video
        } else if str_eq(s, "file") {
            MessageType::File
        } else if str_eq(s, "image") {
            MessageType::Image
        } else if str_eq(s, "call_signal") {
            MessageType::CallSignal
        } else if str_eq(s, "key_exchange") {
            MessageType::KeyExchange
        } else if str_eq(s, "read_receipt") {
            MessageType::ReadReceipt
        } else if str_eq(s, "typing_indicator") {
            MessageType::TypingIndicator
        } else if str_eq(s, "device_sync") {
            MessageType::DeviceSync
        } else {
            MessageType::Text
        }
    }
}

/// A pending envelope row in the spool.
#[derive(Debug)]
pub struct PendingMessage {
    pub id: i64,
    pub message_id: String,
    pub sender_id: String,
    pub recipient_id: String,
    pub recipient_device_id: Option<String>,
    pub encrypted_content: String,
    pub message_type: String,
    pub created_at: i64,
    pub expires_at: i64,
}

impl Clone for PendingMessage {
    fn clone(&self) -> (r: Self)
        ensures
            r == *self,
    {
        PendingMessage {
            id: self.id,
            message_id: self.message_id.clone(),
            sender_id: self.sender_id.clone(),
            recipient_id: self.recipient_id.clone(),
            recipient_device_id: clone_opt_string(&self.recipient_device_id),
            encrypted_content: self.encrypted_content.clone(),
            message_type: self.message_type.clone(),
            created_at: self.created_at,
            expires_at: self.expires_at,
        }
    }
}

/// The wire wrapper around an encrypted payload: ids, routing fields,
/// opaque ciphertext, and a timestamp chosen by the sender.
#[derive(Debug)]
pub struct MessageEnvelope {
    pub message_id: String,
    pub sender_id: String,
    pub recipient_id: String,
    pub recipient_device_id: Option<String>,
    pub encrypted_content: String,
    pub message_type: MessageType,
    pub timestamp: i64,
}

impl Clone for MessageEnvelope {
    fn clone(&self) -> (r: Self)
        ensures
            r == *self,
    {
        MessageEnvelope {
            message_id: self.message_id.clone(),
            sender_id: self.sender_id.clone(),
            recipient_id: self.recipient_id.clone(),
            recipient_device_id: clone_opt_string(&self.recipient_device_id),
            encrypted_content: self.encrypted_content.clone(),
            message_type: self.message_type,
            timestamp: self.timestamp,
        }
    }
}

/// A file metadata row; the payload bytes live outside, addressed by id.
#[derive(Debug)]
pub struct FileMetadata {
    pub file_id: String,
    pub uploader_id: String,
    pub file_name: String,
    pub file_size: i64,
    pub mime_type: String,
    pub encryption_key_hash: String,
    pub created_at: i64,
    pub expires_at: i64,
    pub download_count: i32,
}

impl Clone for FileMetadata {
    fn clone(&self) -> (r: Self)
        ensures
            r == *self,
    {
        FileMetadata {
            file_id: self.file_id.clone(),
            uploader_id: self.uploader_id.clone(),
            file_name: self.file_name.clone(),
            file_size: self.file_size,
            mime_type: self.mime_type.clone(),
            encryption_key_hash: self.encryption_key_hash.clone(),
            created_at: self.created_at,
            expires_at: self.expires_at,
            download_count: self.download_count,
        }
    }
}

/// The response of the upload endpoint.
#[derive(Debug)]
pub struct FileUploadResponse {
    pub file_id: String,
    pub upload_url: Option<String>,
    pub expires_at: i64,
}

/// A presence status a client reports.
#[derive(Clone, Copy, PartialEq, Eq, Structural, Debug)]
pub enum PresenceStatus {
    Online,
    Away,
    Offline,
}

/// The signalling step of a call.
#[derive(Clone, Copy, PartialEq, Eq, Structural, Debug)]
pub enum CallSignalType {
    Offer,
    Answer,
    IceCandidate,
    Hangup,
    Busy,
    Ringing,
    Accepted,
    Rejected,
}

/// A call-signalling frame relayed between peers.
#[derive(Debug)]
pub struct CallSignal {
    pub call_id: String,
    pub sender_id: String,
    pub recipient_id: String,
    pub signal_type: CallSignalType,
    pub payload: String,
}

impl Clone for CallSignal {
    fn clone(&self) -> (r: Self)
        ensures
            r == *self,
    {
        CallSignal {
            call_id: self.call_id.clone(),
            sender_id: self.sender_id.clone(),
            recipient_id: self.recipient_id.clone(),
            signal_type: self.signal_type,
            payload: self.payload.clone(),
        }
    }
}

/// A frame a client sends over the WebSocket.
#[derive(Debug)]
pub enum WsClientMessage {
    Authenticate { token: String },
    Message(MessageEnvelope),
    Acknowledge { message_ids: Vec<String> },
    Typing { recipient_id: String, is_typing: bool },
    Presence { status: PresenceStatus },
    CallSignal(CallSignal),
    Ping,
}

/// Whether two server frames carry the same content. Equality everywhere,
/// except that acknowledgement frames compare their id vectors by contents.
pub open spec fn wsm_equiv(a: WsServerMessage, b: WsServerMessage) -> bool {
    match (a, b) {
        (
            WsServerMessage::Acknowledged { message_ids: x },
            WsServerMessage::Acknowledged { message_ids: y },
        ) => x@ == y@,
        _ => a == b,
    }
}

/// A frame the server sends to a client.
#[derive(Debug)]
pub enum WsServerMessage {
    Authenticated { user_id: String, device_id: String },
    Error { code: String, message: String },
    Message(MessageEnvelope),
    Acknowledged { message_ids: Vec<String> },
    Typing { user_id: String, is_typing: bool },
    Presence { user_id: String, status: PresenceStatus },
    CallSignal(CallSignal),
    Pong,
    UserOnline { user_id: String },
    UserOffline { user_id: String },
}

impl Clone for WsServerMessage {
    fn clone(&self) -> (r: Self)
        ensures
            wsm_equiv(*self, r),
            !(self is Acknowledged) ==> r == *self,
    {
        match self {
            WsServerMessage::Authenticated { user_id, device_id } => WsServerMessage::Authenticated {
                user_id: user_id.clone(),
                device_id: device_id.clone(),
            },
            WsServerMessage::Error { code, message } => WsServerMessage::Error {
                code: code.clone(),
                message: message.clone(),
            },
            WsServerMessage::Message(env) => WsServerMessage::Message(env.clone()),
            WsServerMessage::Acknowledged { message_ids } => WsServerMessage::Acknowledged {
                message_ids: clone_vec_string(message_ids),
            },
            WsServerMessage::Typing { user_id, is_typing } => WsServerMessage::Typing {
                user_id: user_id.clone(),
                is_typing: *is_typing,
            },
            WsServerMessage::Presence { user_id, status } => WsServerMessage::Presence {
                user_id: user_id.clone(),
                status: *status,
            },
            WsServerMessage::CallSignal(sig) => WsServerMessage::CallSignal(sig.clone()),
            WsServerMessage::Pong => WsServerMessage::Pong,
            WsServerMessage::UserOnline { user_id } => WsServerMessage::UserOnline {
                user_id: user_id.clone(),
            },
            WsServerMessage::UserOffline { user_id } => WsServerMessage::UserOffline {
                user_id: user_id.clone(),
            },
        }
    }
}

/// The body of a login request.
#[derive(Debug)]
pub struct LoginRequest {
    pub user_id: String,
    pub access_key: String,
    pub device_name: String,
    pub device_type: String,
    pub device_public_key: String,
}

/// The response of a successful login.
#[derive(Debug)]
pub struct LoginResponse {
    pub token: String,
    pub device_id: String,
    pub expires_at: i64,
    pub user: UserProfile,
}

/// The body of a token refresh request.
#[derive(Debug)]
pub struct RefreshTokenRequest {
    pub token: String,
}

/// The response of a successful token refresh.
#[derive(Debug)]
pub struct RefreshTokenResponse {
    pub token: String,
    pub expires_at: i64,
}

/// The body of a profile update; absent fields stay unchanged.
#[derive(Debug)]
pub struct UpdateProfileRequest {
    pub display_name: Option<String>,
    pub avatar_file_id: Option<String>,
    pub public_key: Option<String>,
}

/// The body of a message acknowledgement.
#[derive(Debug)]
pub struct AcknowledgeMessagesRequest {
    pub message_ids: Vec<String>,
}

/// The response of the TURN credentials endpoint.
#[derive(Debug)]
pub struct TurnCredentialsResponse {
    pub urls: Vec<String>,
    pub username: String,
    pub credential: String,
    pub credential_type: String,
    pub ttl: u64,
}

/// The body of an admin user-creation request.
#[derive(Debug)]
pub struct CreateUserRequest {
    pub admin_key: String,
    pub user_id: Option<String>,
}

/// The response of an admin user creation: the one-time plaintext key.
#[derive(Debug)]
pub struct CreateUserResponse {
    pub user_id: String,
    pub access_key: String,
}

/// The body of an admin request that carries only the master key.
#[derive(Debug)]
pub struct AdminKeyRequest {
    pub admin_key: String,
}

/// Server statistics reported to the admin.
#[derive(Debug)]
pub struct ServerStats {
    pub total_users: i64,
    pub active_users: i64,
    pub online_users: i64,
    pub pending_messages: i64,
    pub stored_files: i64,
    pub storage_used_bytes: i64,
}

} // verus!
