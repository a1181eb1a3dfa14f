//! The HTTP surface over the store and the registry: authentication,
//! profiles, devices, the pending spool, files, TURN credentials, and the
//! admin surface gated by the master key.
//!
//! Each function is the compute half of one endpoint: request bodies arrive
//! as plain values, the clock arrives as `now` (epoch seconds), and the
//! transport (routing, headers, multipart, disk) stays outside.

use vstd::prelude::*;

verus! {

use vstd::utf8::encode_utf8;
use crate::encoding::str_eq;
use crate::crypto::{
    key_hash_of,
    hash_access_key,
    generate_access_key,
    generate_session_token,
    generate_user_id,
    generate_turn_credentials,
    turn_username_of,
    hmac_sha1_of,
};
use crate::encoding::b64std_of;
use crate::errors::AppError;
use crate::models::{
    UserProfile,
    Device,
    Session,
    PendingMessage,
    MessageEnvelope,
    MessageType,
    FileMetadata,
    FileUploadResponse,
    LoginRequest,
    LoginResponse,
    RefreshTokenRequest,
    RefreshTokenResponse,
    UpdateProfileRequest,
    AcknowledgeMessagesRequest,
    TurnCredentialsResponse,
    CreateUserRequest,
    CreateUserResponse,
    AdminKeyRequest,
    ServerStats,
    WsServerMessage,
    message_type_of,
    clone_opt_string,
    clone_vec_string,
};
use crate::registry::{WebSocketManager, user_device_ids};
use crate::storage::{
    Storage,
    pending_for,
    pending_without_ids,
    users_without,
    devices_without_user,
    sessions_without_user,
    pending_without_sender,
    files_without_uploader,
    devices_of,
    files_without,
    sessions_invalidated_for_device,
    clamp_to_i64,
    sum_file_sizes,
    active_user_pred,
};

/// How long a freshly minted session lives, in hours (thirty days).
pub const SESSION_TTL_HOURS: i64 = 720;

/// The authenticated caller of a request: the session's user and device.
#[derive(Debug)]
pub struct AuthUser {
    pub user_id: String,
    pub device_id: String,
}

/// Whether the login credentials are accepted: the user exists, is active,
/// and the access key hashes to the stored hash.
pub open spec fn spec_credentials_ok(s: Storage, user_id: Seq<char>, access_key: Seq<char>) -> bool {
    &&& s.spec_has_user(user_id)
    &&& s.spec_user(user_id).is_active
    &&& s.spec_user(user_id).key_hash@ == key_hash_of(access_key)
}

/// Whether an envelope carries a spool row's content.
pub open spec fn envelope_matches_pending(env: MessageEnvelope, row: PendingMessage) -> bool {
    &&& env.message_id@ == row.message_id@
    &&& env.sender_id@ == row.sender_id@
    &&& env.recipient_id@ == row.recipient_id@
    &&& env.recipient_device_id == row.recipient_device_id
    &&& env.encrypted_content@ == row.encrypted_content@
    &&& env.message_type == message_type_of(row.message_type@)
    &&& env.timestamp == row.created_at
}

/// Resolve a bearer token to its user and device; a live session also
/// refreshes the device's activity and the user's last-seen timestamps.
pub fn authenticate_request(storage: &mut Storage, token: &str, now: i64) -> (r: Result<
    AuthUser,
    AppError,
>)
    requires
        old(storage).wf(),
    ensures
        final(storage).wf(),
        r is Ok <==> old(storage).spec_session_live(token@, now),
        r is Err ==> ((r->Err_0) is Unauthorized) && *final(storage) == *old(storage),
        r is Ok ==> {
            let sess = old(storage).spec_session(key_hash_of(token@));
            &&& r.unwrap().user_id@ == sess.user_id@
            &&& r.unwrap().device_id@ == sess.device_id@
            &&& final(storage).sessions == old(storage).sessions
            &&& final(storage).pending == old(storage).pending
            &&& final(storage).files == old(storage).files
            &&& (!old(storage).spec_has_device(sess.device_id@) ==> final(storage).devices == old(
                storage,
            ).devices)
            &&& (old(storage).spec_has_device(sess.device_id@) ==> final(storage).devices@ == old(
                storage,
            ).devices@.update(
                old(storage).spec_device_idx(sess.device_id@),
                Device { last_active_at: now, ..old(storage).spec_device(sess.device_id@) },
            ))
            &&& (!old(storage).spec_has_user(sess.user_id@) ==> final(storage).users == old(
                storage,
            ).users)
            &&& (old(storage).spec_has_user(sess.user_id@) ==> final(storage).users@ == old(
                storage,
            ).users@.update(
                old(storage).spec_user_idx(sess.user_id@),
                crate::models::User {
                    last_seen_at: Some(now),
                    ..old(storage).spec_user(sess.user_id@)
                },
            ))
        },
{
    match storage.validate_session(token, now) {
        Some(sess) => {
            storage.update_device_activity(sess.device_id.as_str(), now);
            storage.update_user_last_seen(sess.user_id.as_str(), now);
            Ok(AuthUser { user_id: sess.user_id, device_id: sess.device_id })
        },
        None => Err(AppError::Unauthorized),
    }
}

/// Log a user in: verify the credentials, register a device, and mint a
/// session token that expires thirty days from `now`.
pub fn login(storage: &mut Storage, req: &LoginRequest, now: i64) -> (r: Result<
    LoginResponse,
    AppError,
>)
    requires
        old(storage).wf(),
        0 <= now,
        now + SESSION_TTL_HOURS * 3600 <= i64::MAX,
    ensures
        final(storage).wf(),
        !spec_credentials_ok(*old(storage), req.user_id@, req.access_key@) <==> (r is Err && ((
        r->Err_0) is InvalidCredentials)),
        r is Err ==> ((r->Err_0) is InvalidCredentials) || ((r->Err_0) is Database),
        !spec_credentials_ok(*old(storage), req.user_id@, req.access_key@) ==> *final(storage)
            == *old(storage),
        r is Ok ==> {
            let resp = r.unwrap();
            &&& resp.expires_at == now + SESSION_TTL_HOURS * 3600
            &&& resp.token@.len() == 43
            &&& final(storage).spec_session_live(resp.token@, now)
            &&& final(storage).spec_session(key_hash_of(resp.token@)).user_id@ == req.user_id@
            &&& final(storage).spec_session(key_hash_of(resp.token@)).device_id@
                == resp.device_id@
            &&& final(storage).spec_session(key_hash_of(resp.token@)).expires_at == now + SESSION_TTL_HOURS * 3600
            &&& final(storage).spec_has_device(resp.device_id@)
            &&& final(storage).spec_device(resp.device_id@).user_id@ == req.user_id@
            &&& final(storage).spec_device(resp.device_id@).device_name@ == req.device_name@
            &&& final(storage).spec_device(resp.device_id@).device_type@ == req.device_type@
            &&& final(storage).spec_device(resp.device_id@).public_key@
                == req.device_public_key@
            &&& resp.user == UserProfile::spec_of_user(old(storage).spec_user(req.user_id@))
            &&& final(storage).users@ == old(storage).users@.update(
                old(storage).spec_user_idx(req.user_id@),
                crate::models::User {
                    last_seen_at: Some(now),
                    ..old(storage).spec_user(req.user_id@)
                },
            )
            &&& final(storage).pending == old(storage).pending
            &&& final(storage).files == old(storage).files
        },
{
    if !storage.verify_user_credentials(req.user_id.as_str(), req.access_key.as_str()) {
        return Err(AppError::InvalidCredentials);
    }
    let user = match storage.get_user(req.user_id.as_str()) {
        Some(u) => u,
        None => {
            return Err(AppError::InvalidCredentials);
        },
    };
    let device_id = match storage.create_device(
        req.user_id.as_str(),
        req.device_name.as_str(),
        req.device_type.as_str(),
        req.device_public_key.as_str(),
        now,
    ) {
        Ok(d) => d,
        Err(e) => {
            return Err(e);
        },
    };
    let token = generate_session_token();
    let expires_at = match storage.create_session(
        req.user_id.as_str(),
        device_id.as_str(),
        token.as_str(),
        SESSION_TTL_HOURS,
        now,
    ) {
        Ok(e) => e,
        Err(e) => {
            return Err(e);
        },
    };
    let profile = UserProfile::of_user(&user);
    let ghost mid = *storage;
    storage.update_user_last_seen(req.user_id.as_str(), now);
    proof {
        let i = old(storage).spec_user_idx(req.user_id@);
        assert(mid.users@[i].user_id@ == req.user_id@);
        mid.lemma_user_idx(i);
    }
    Ok(LoginResponse { token, device_id, expires_at, user: profile })
}

/// Rotate a session token: the old session is invalidated and a new one is
/// minted for the same user and device.
pub fn refresh_token(storage: &mut Storage, req: &RefreshTokenRequest, now: i64) -> (r: Result<
    RefreshTokenResponse,
    AppError,
>)
    requires
        old(storage).wf(),
        0 <= now,
        now + SESSION_TTL_HOURS * 3600 <= i64::MAX,
    ensures
        final(storage).wf(),
        !old(storage).spec_session_live(req.token@, now) <==> (r is Err && ((r->Err_0)
            is Unauthorized)),
        r is Err ==> ((r->Err_0) is Unauthorized) || ((r->Err_0) is Database),
        !old(storage).spec_session_live(req.token@, now) ==> *final(storage) == *old(storage),
        r is Ok ==> {
            let resp = r.unwrap();
            let sess = old(storage).spec_session(key_hash_of(req.token@));
            &&& resp.expires_at == now + SESSION_TTL_HOURS * 3600
            &&& resp.token@.len() == 43
            &&& final(storage).spec_session_live(resp.token@, now)
            &&& final(storage).spec_session(key_hash_of(resp.token@)).user_id@ == sess.user_id@
            &&& final(storage).spec_session(key_hash_of(resp.token@)).device_id@
                == sess.device_id@
            &&& final(storage).spec_has_session(key_hash_of(req.token@)) && !final(storage).spec_session(key_hash_of(req.token@)).is_valid
            &&& final(storage).sessions@ == old(storage).sessions@.update(
                old(storage).spec_session_idx(key_hash_of(req.token@)),
                Session { is_valid: false, ..old(storage).spec_session(key_hash_of(req.token@)) },
            ).push(final(storage).sessions@.last())
            &&& final(storage).users == old(storage).users
            &&& final(storage).devices == old(storage).devices
            &&& final(storage).pending == old(storage).pending
            &&& final(storage).files == old(storage).files
        },
{
    let sess = match storage.validate_session(req.token.as_str(), now) {
        Some(s) => s,
        None => {
            return Err(AppError::Unauthorized);
        },
    };
    storage.invalidate_session(req.token.as_str());
    let ghost mid = *storage;
    let new_token = generate_session_token();
    let expires_at = match storage.create_session(
        sess.user_id.as_str(),
        sess.device_id.as_str(),
        new_token.as_str(),
        SESSION_TTL_HOURS,
        now,
    ) {
        Ok(e) => e,
        Err(e) => {
            return Err(e);
        },
    };
    proof {
        let th_old = key_hash_of(req.token@);
        let th_new = key_hash_of(new_token@);
        let i = old(storage).spec_session_idx(th_old);
        assert(mid.sessions@[i].token_hash@ == th_old);
        mid.lemma_session_idx(i);
        if th_old == th_new {
            assert(mid.spec_has_session(th_new));
            assert(false);
        }
        assert(storage.sessions@[i].token_hash@ == th_old);
        storage.lemma_session_idx(i);
        assert(!storage.spec_session(th_old).is_valid);
        storage.lemma_session_idx(storage.sessions@.len() - 1);
    }
    Ok(RefreshTokenResponse { token: new_token, expires_at })
}

/// Log out. The relay keeps no per-request token here; the session dies by
/// expiry or refresh, so logging out succeeds without touching the store.
pub fn logout(auth: &AuthUser) -> (r: Result<bool, AppError>)
    ensures
        r is Ok && r.unwrap() == true,
{
    Ok(true)
}

/// The caller's own profile.
pub fn get_current_user(storage: &Storage, auth: &AuthUser) -> (r: Result<UserProfile, AppError>)
    requires
        storage.wf(),
    ensures
        r is Ok <==> storage.spec_has_user(auth.user_id@),
        r is Err ==> ((r->Err_0) is NotFound),
        r is Ok ==> r.unwrap() == UserProfile::spec_of_user(storage.spec_user(auth.user_id@)),
{
    match storage.get_user(auth.user_id.as_str()) {
        Some(u) => Ok(UserProfile::of_user(&u)),
        None => Err(AppError::NotFound("User not found".to_owned())),
    }
}

/// Another user's profile; an inactive user reads as absent.
pub fn get_user(storage: &Storage, auth: &AuthUser, user_id: &str) -> (r: Result<
    UserProfile,
    AppError,
>)
    requires
        storage.wf(),
    ensures
        r is Ok <==> (storage.spec_has_user(user_id@) && storage.spec_user(user_id@).is_active),
        r is Err ==> ((r->Err_0) is NotFound),
        r is Ok ==> r.unwrap() == UserProfile::spec_of_user(storage.spec_user(user_id@)),
{
    match storage.get_user(user_id) {
        Some(u) => {
            if u.is_active {
                Ok(UserProfile::of_user(&u))
            } else {
                Err(AppError::NotFound("User not found".to_owned()))
            }
        },
        None => Err(AppError::NotFound("User not found".to_owned())),
    }
}

/// Update the caller's profile fields that are provided; returns the
/// profile as stored afterwards.
pub fn update_profile(storage: &mut Storage, auth: &AuthUser, req: &UpdateProfileRequest) -> (r:
    Result<UserProfile, AppError>)
    requires
        old(storage).wf(),
    ensures
        final(storage).wf(),
        r is Ok <==> old(storage).spec_has_user(auth.user_id@),
        r is Err ==> ((r->Err_0) is NotFound) && *final(storage) == *old(storage),
        r is Ok ==> {
            let u1 = final(storage).spec_user(auth.user_id@);
            let u0 = old(storage).spec_user(auth.user_id@);
            &&& final(storage).spec_has_user(auth.user_id@)
            &&& r.unwrap() == UserProfile::spec_of_user(u1)
            &&& u1.user_id == u0.user_id
            &&& u1.key_hash == u0.key_hash
            &&& u1.is_active == u0.is_active
            &&& (match req.display_name {
                Some(d) => u1.display_name is Some && u1.display_name.unwrap()@ == d@,
                None => u1.display_name == u0.display_name,
            })
            &&& (match req.avatar_file_id {
                Some(a) => u1.avatar_file_id is Some && u1.avatar_file_id.unwrap()@ == a@,
                None => u1.avatar_file_id == u0.avatar_file_id,
            })
            &&& (match req.public_key {
                Some(p) => u1.public_key is Some && u1.public_key.unwrap()@ == p@,
                None => u1.public_key == u0.public_key,
            })
            &&& final(storage).devices == old(storage).devices
            &&& final(storage).sessions == old(storage).sessions
            &&& final(storage).pending == old(storage).pending
            &&& final(storage).files == old(storage).files
        },
{
    let dn: Option<&str> = match &req.display_name {
        Some(d) => Some(d.as_str()),
        None => None,
    };
    let av: Option<&str> = match &req.avatar_file_id {
        Some(a) => Some(a.as_str()),
        None => None,
    };
    let pk: Option<&str> = match &req.public_key {
        Some(p) => Some(p.as_str()),
        None => None,
    };
    storage.update_user_profile(auth.user_id.as_str(), dn, av, pk);
    proof {
        if old(storage).spec_has_user(auth.user_id@) {
            let i = old(storage).spec_user_idx(auth.user_id@);
            storage.lemma_user_idx(i);
        }
    }
    match storage.get_user(auth.user_id.as_str()) {
        Some(u) => Ok(UserProfile::of_user(&u)),
        None => Err(AppError::NotFound("User not found".to_owned())),
    }
}

/// The caller's registered devices.
pub fn list_devices(storage: &Storage, auth: &AuthUser) -> (r: Result<Vec<Device>, AppError>)
    ensures
        r is Ok,
        r.unwrap()@ == devices_of(storage.devices@, auth.user_id@),
{
    Ok(storage.list_user_devices(auth.user_id.as_str()))
}

/// Remove one of the caller's devices; the current device cannot remove
/// itself, and a live socket of the device is unregistered.
pub fn remove_device(
    storage: &mut Storage,
    registry: &mut WebSocketManager,
    auth: &AuthUser,
    device_id: &str,
) -> (r: Result<bool, AppError>)
    requires
        old(storage).wf(),
        old(registry).wf(),
    ensures
        final(storage).wf(),
        final(registry).wf(),
        !old(storage).spec_has_device(device_id@) ==> r is Err && ((r->Err_0) is NotFound)
            && *final(storage) == *old(storage) && *final(registry) == *old(registry),
        (old(storage).spec_has_device(device_id@) && old(storage).spec_device(
            device_id@,
        ).user_id@ != auth.user_id@) ==> r is Err && ((r->Err_0) is Forbidden) && *final(storage)
            == *old(storage) && *final(registry) == *old(registry),
        (old(storage).spec_has_device(device_id@) && old(storage).spec_device(
            device_id@,
        ).user_id@ == auth.user_id@ && device_id@ == auth.device_id@) ==> r is Err && ((r->Err_0)
            is BadRequest) && *final(storage) == *old(storage) && *final(registry) == *old(registry),
        (old(storage).spec_has_device(device_id@) && old(storage).spec_device(
            device_id@,
        ).user_id@ == auth.user_id@ && device_id@ != auth.device_id@) ==> r is Ok && final(storage).devices@ == crate::storage::devices_without(old(storage).devices@, device_id@)
            && sessions_invalidated_for_device(
            old(storage).sessions@,
            final(storage).sessions@,
            device_id@,
        ) && final(storage).users == old(storage).users && final(storage).pending == old(storage).pending && final(storage).files == old(storage).files && final(registry).connections@
            == crate::registry::connections_without_device(old(registry).connections@, device_id@),
{
    let device = match storage.get_device(device_id) {
        Some(d) => d,
        None => {
            return Err(AppError::NotFound("Device not found".to_owned()));
        },
    };
    if !str_eq(device.user_id.as_str(), auth.user_id.as_str()) {
        return Err(AppError::Forbidden);
    }
    if str_eq(device_id, auth.device_id.as_str()) {
        return Err(AppError::BadRequest("Cannot remove current device".to_owned()));
    }
    storage.delete_device(device_id);
    registry.unregister(device_id);
    Ok(true)
}

/// The caller's pending envelopes, oldest first.
pub fn get_pending_messages(storage: &Storage, auth: &AuthUser, now: i64) -> (r: Result<
    Vec<MessageEnvelope>,
    AppError,
>)
    ensures
        r is Ok,
        ({
            let pend = pending_for(
                storage.pending@,
                auth.user_id@,
                Some(auth.device_id@),
                now,
            );
            &&& r.unwrap()@.len() == pend.len()
            &&& forall|k: int|
                0 <= k < pend.len() ==> envelope_matches_pending(
                    #[trigger] r.unwrap()@[k],
                    pend[k],
                )
        }),
{
    let pending = storage.get_pending_messages(
        auth.user_id.as_str(),
        Some(auth.device_id.as_str()),
        now,
    );
    let mut out: Vec<MessageEnvelope> = Vec::new();
    let n = pending.len();
    let mut i: usize = 0;
    while i < n
        invariant
            n == pending@.len(),
            i <= n,
            out@.len() == i,
            forall|k: int|
                0 <= k < i ==> envelope_matches_pending(#[trigger] out@[k], pending@[k]),
        decreases n - i,
    {
        let env = MessageEnvelope {
            message_id: pending[i].message_id.clone(),
            sender_id: pending[i].sender_id.clone(),
            recipient_id: pending[i].recipient_id.clone(),
            recipient_device_id: clone_opt_string(&pending[i].recipient_device_id),
            encrypted_content: pending[i].encrypted_content.clone(),
            message_type: MessageType::from_string(pending[i].message_type.as_str()),
            timestamp: pending[i].created_at,
        };
        out.push(env);
        i = i + 1;
    }
    Ok(out)
}

/// Acknowledge received envelopes: they leave the spool; returns how many
/// ids the request listed.
pub fn acknowledge_messages(
    storage: &mut Storage,
    auth: &AuthUser,
    req: &AcknowledgeMessagesRequest,
) -> (r: Result<usize, AppError>)
    requires
        old(storage).wf(),
    ensures
        final(storage).wf(),
        r is Ok && r.unwrap() == req.message_ids@.len(),
        final(storage).pending@ == pending_without_ids(old(storage).pending@, req.message_ids@),
        final(storage).users == old(storage).users,
        final(storage).devices == old(storage).devices,
        final(storage).sessions == old(storage).sessions,
        final(storage).files == old(storage).files,
{
    storage.delete_pending_messages(&req.message_ids);
    Ok(req.message_ids.len())
}

/// Record an uploaded file's metadata: the size must stay within the limit,
/// the key hash must be present, and the row expires `file_ttl_hours` from
/// `now`. The payload bytes are the blob store's business.
pub fn upload_file(
    storage: &mut Storage,
    auth: &AuthUser,
    file_name: &str,
    file_size: u64,
    mime_type: &str,
    encryption_key_hash: &str,
    max_file_size_mb: u64,
    file_ttl_hours: i64,
    now: i64,
) -> (r: Result<FileUploadResponse, AppError>)
    requires
        old(storage).wf(),
        max_file_size_mb * 1024 * 1024 <= u64::MAX,
        0 <= file_ttl_hours,
        0 <= now,
        now + file_ttl_hours * 3600 <= i64::MAX,
        file_size <= i64::MAX,
    ensures
        final(storage).wf(),
        file_size > max_file_size_mb * 1024 * 1024 <==> (r is Err && ((r->Err_0)
            is FileTooLarge)),
        (file_size <= max_file_size_mb * 1024 * 1024 && encryption_key_hash@.len() == 0) <==> (r
            is Err && ((r->Err_0) is BadRequest)),
        r is Err ==> ((r->Err_0) is FileTooLarge) || ((r->Err_0) is BadRequest) || ((r->Err_0)
            is Database),
        r is Err ==> *final(storage) == *old(storage),
        r is Ok ==> {
            let resp = r.unwrap();
            &&& resp.expires_at == now + file_ttl_hours * 3600
            &&& resp.upload_url is None
            &&& final(storage).spec_has_file(resp.file_id@)
            &&& final(storage).spec_file(resp.file_id@) == (FileMetadata {
                file_id: final(storage).spec_file(resp.file_id@).file_id,
                uploader_id: final(storage).spec_file(resp.file_id@).uploader_id,
                file_name: final(storage).spec_file(resp.file_id@).file_name,
                file_size: file_size as i64,
                mime_type: final(storage).spec_file(resp.file_id@).mime_type,
                encryption_key_hash: final(storage).spec_file(resp.file_id@).encryption_key_hash,
                created_at: now,
                expires_at: (now + file_ttl_hours * 3600) as i64,
                download_count: 0,
            })
            &&& final(storage).spec_file(resp.file_id@).uploader_id@ == auth.user_id@
            &&& final(storage).spec_file(resp.file_id@).file_name@ == file_name@
            &&& final(storage).spec_file(resp.file_id@).mime_type@ == mime_type@
            &&& final(storage).spec_file(resp.file_id@).encryption_key_hash@
                == encryption_key_hash@
            &&& final(storage).users == old(storage).users
            &&& final(storage).devices == old(storage).devices
            &&& final(storage).sessions == old(storage).sessions
            &&& final(storage).pending == old(storage).pending
        },
{
    if file_size > max_file_size_mb * 1024 * 1024 {
        return Err(AppError::FileTooLarge);
    }
    if encryption_key_hash.is_empty() {
        return Err(AppError::BadRequest("encryption_key_hash required".to_owned()));
    }
    let file_id = match storage.create_file_metadata(
        auth.user_id.as_str(),
        file_name,
        file_size as i64,
        mime_type,
        encryption_key_hash,
        file_ttl_hours,
        now,
    ) {
        Ok(f) => f,
        Err(e) => {
            return Err(e);
        },
    };
    proof {
        storage.lemma_file_idx(storage.files@.len() - 1);
    }
    Ok(FileUploadResponse { file_id, upload_url: None, expires_at: now + file_ttl_hours * 3600 })
}

/// Look up a file for download: a live row is returned and its download
/// counter is bumped; an absent or expired row reads as not found.
pub fn download_file(storage: &mut Storage, auth: &AuthUser, file_id: &str, now: i64) -> (r: Result<
    FileMetadata,
    AppError,
>)
    requires
        old(storage).wf(),
    ensures
        final(storage).wf(),
        r is Ok <==> (old(storage).spec_has_file(file_id@) && old(storage).spec_file(
            file_id@,
        ).expires_at > now),
        r is Err ==> ((r->Err_0) is NotFound) && *final(storage) == *old(storage),
        r is Ok ==> {
            let row = old(storage).spec_file(file_id@);
            &&& r.unwrap() == row
            &&& final(storage).files@ == old(storage).files@.update(
                old(storage).spec_file_idx(file_id@),
                FileMetadata {
                    download_count: if row.download_count < i32::MAX {
                        (row.download_count + 1) as i32
                    } else {
                        i32::MAX
                    },
                    ..row
                },
            )
            &&& final(storage).users == old(storage).users
            &&& final(storage).devices == old(storage).devices
            &&& final(storage).sessions == old(storage).sessions
            &&& final(storage).pending == old(storage).pending
        },
{
    let metadata = match storage.get_file_metadata(file_id, now) {
        Some(m) => m,
        None => {
            return Err(AppError::NotFound("File not found".to_owned()));
        },
    };
    storage.increment_download_count(file_id);
    Ok(metadata)
}

/// Delete a file's metadata; only its uploader may.
pub fn delete_file(storage: &mut Storage, auth: &AuthUser, file_id: &str, now: i64) -> (r: Result<
    bool,
    AppError,
>)
    requires
        old(storage).wf(),
    ensures
        final(storage).wf(),
        !(old(storage).spec_has_file(file_id@) && old(storage).spec_file(file_id@).expires_at
            > now) ==> r is Err && ((r->Err_0) is NotFound) && *final(storage) == *old(storage),
        (old(storage).spec_has_file(file_id@) && old(storage).spec_file(file_id@).expires_at > now
            && old(storage).spec_file(file_id@).uploader_id@ != auth.user_id@) ==> r is Err && ((
        r->Err_0) is Forbidden) && *final(storage) == *old(storage),
        (old(storage).spec_has_file(file_id@) && old(storage).spec_file(file_id@).expires_at > now
            && old(storage).spec_file(file_id@).uploader_id@ == auth.user_id@) ==> r is Ok
            && final(storage).files@ == files_without(old(storage).files@, file_id@) && final(storage).users == old(storage).users && final(storage).devices == old(storage).devices && final(storage).sessions == old(storage).sessions && final(storage).pending == old(storage).pending,
{
    let metadata = match storage.get_file_metadata(file_id, now) {
        Some(m) => m,
        None => {
            return Err(AppError::NotFound("File not found".to_owned()));
        },
    };
    if !str_eq(metadata.uploader_id.as_str(), auth.user_id.as_str()) {
        return Err(AppError::Forbidden);
    }
    storage.delete_file_metadata(file_id);
    Ok(true)
}

/// Mint TURN credentials from the relay's TURN settings: the username is
/// "{now + ttl}:{username}" and the credential its HMAC-SHA1 under the
/// shared secret, standard base64. A disabled TURN section yields an empty
/// response.
pub fn get_turn_credentials(
    auth: &AuthUser,
    enabled: bool,
    urls: &Vec<String>,
    username: &str,
    credential: &str,
    credential_type: &str,
    ttl_seconds: u64,
    now: u64,
) -> (r: TurnCredentialsResponse)
    requires
        now + ttl_seconds <= u64::MAX,
    ensures
        !enabled ==> r.urls@.len() == 0 && r.username@.len() == 0 && r.credential@.len() == 0
            && r.ttl == 0,
        enabled ==> {
            &&& r.urls@ == urls@
            &&& r.username@ == turn_username_of((now + ttl_seconds) as u64, username@)
            &&& r.credential@ == b64std_of(
                hmac_sha1_of(encode_utf8(credential@), encode_utf8(r.username@)),
            )
            &&& r.credential@.len() == 28
            &&& r.credential_type@ == credential_type@
            &&& r.ttl == ttl_seconds
        },
{
    if !enabled {
        return TurnCredentialsResponse {
            urls: Vec::new(),
            username: String::new(),
            credential: String::new(),
            credential_type: String::new(),
            ttl: 0,
        };
    }
    let (turn_username, turn_credential) = generate_turn_credentials(
        username,
        credential,
        ttl_seconds,
        now,
    );
    TurnCredentialsResponse {
        urls: clone_vec_string(urls),
        username: turn_username,
        credential: turn_credential,
        credential_type: credential_type.to_owned(),
        ttl: ttl_seconds,
    }
}

/// Whether the provided admin key equals the configured master key.
pub fn verify_admin_key(provided: &str, expected: &str) -> (r: Result<bool, AppError>)
    ensures
        r is Ok <==> provided@ == expected@,
        r is Err ==> ((r->Err_0) is Forbidden),
{
    if str_eq(provided, expected) {
        Ok(true)
    } else {
        Err(AppError::Forbidden)
    }
}

/// Create a user (admin only): the id is the requested one or freshly
/// generated, and the one-time plaintext access key is returned; only its
/// hash is stored.
pub fn create_user(storage: &mut Storage, req: &CreateUserRequest, master_key: &str, now: i64) -> (r:
    Result<CreateUserResponse, AppError>)
    requires
        old(storage).wf(),
    ensures
        final(storage).wf(),
        req.admin_key@ != master_key@ <==> (r is Err && ((r->Err_0) is Forbidden)),
        req.admin_key@ != master_key@ ==> *final(storage) == *old(storage),
        r is Err ==> ((r->Err_0) is Forbidden) || ((r->Err_0) is UserAlreadyExists),
        (req.admin_key@ == master_key@ && req.user_id is Some && old(storage).spec_has_user(
            req.user_id.unwrap()@,
        )) ==> r is Err && ((r->Err_0) is UserAlreadyExists) && *final(storage) == *old(storage),
        (req.admin_key@ == master_key@ && req.user_id is Some && !old(storage).spec_has_user(
            req.user_id.unwrap()@,
        )) ==> r is Ok && r.unwrap().user_id@ == req.user_id.unwrap()@,
        r is Ok ==> {
            let resp = r.unwrap();
            &&& resp.access_key@.len() == 43
            &&& !old(storage).spec_has_user(resp.user_id@)
            &&& final(storage).spec_has_user(resp.user_id@)
            &&& final(storage).spec_user(resp.user_id@).key_hash@ == key_hash_of(
                resp.access_key@,
            )
            &&& final(storage).spec_user(resp.user_id@).is_active
            &&& final(storage).users@.len() == old(storage).users@.len() + 1
            &&& final(storage).devices == old(storage).devices
            &&& final(storage).sessions == old(storage).sessions
            &&& final(storage).pending == old(storage).pending
            &&& final(storage).files == old(storage).files
        },
{
    if !str_eq(req.admin_key.as_str(), master_key) {
        return Err(AppError::Forbidden);
    }
    let user_id = match &req.user_id {
        Some(u) => u.clone(),
        None => generate_user_id(),
    };
    let access_key = generate_access_key();
    let key_hash = hash_access_key(access_key.as_str());
    match storage.create_user(user_id.as_str(), key_hash.as_str(), now) {
        Ok(_) => {
            proof {
                storage.lemma_user_idx(storage.users@.len() - 1);
            }
            Ok(CreateUserResponse { user_id, access_key })
        },
        Err(e) => Err(AppError::UserAlreadyExists),
    }
}

/// Delete a user (admin only): live sockets of the user are told the
/// account is gone (the targeted device ids are returned), then the user
/// and everything it owns are removed.
pub fn delete_user(
    storage: &mut Storage,
    registry: &WebSocketManager,
    user_id: &str,
    req: &AdminKeyRequest,
    master_key: &str,
) -> (r: Result<Vec<String>, AppError>)
    requires
        old(storage).wf(),
    ensures
        final(storage).wf(),
        req.admin_key@ != master_key@ <==> r is Err,
        r is Err ==> ((r->Err_0) is Forbidden) && *final(storage) == *old(storage),
        r is Ok ==> {
            &&& r.unwrap()@ == user_device_ids(registry.connections@, user_id@)
            &&& final(storage).users@ == users_without(old(storage).users@, user_id@)
            &&& final(storage).devices@ == devices_without_user(old(storage).devices@, user_id@)
            &&& final(storage).sessions@ == sessions_without_user(
                old(storage).sessions@,
                user_id@,
            )
            &&& final(storage).pending@ == pending_without_sender(
                old(storage).pending@,
                user_id@,
            )
            &&& final(storage).files@ == files_without_uploader(old(storage).files@, user_id@)
            &&& !final(storage).spec_has_user(user_id@)
        },
{
    if !str_eq(req.admin_key.as_str(), master_key) {
        return Err(AppError::Forbidden);
    }
    let notice = WsServerMessage::Error {
        code: "ACCOUNT_DELETED".to_owned(),
        message: "Your account has been deleted".to_owned(),
    };
    let targeted = registry.send_to_user(user_id, &notice);
    storage.delete_user(user_id);
    Ok(targeted)
}

/// Server statistics (admin only); the registry supplies the live count.
pub fn get_stats(
    storage: &Storage,
    registry: &WebSocketManager,
    req: &AdminKeyRequest,
    master_key: &str,
) -> (r: Result<ServerStats, AppError>)
    requires
        storage.wf(),
    ensures
        req.admin_key@ != master_key@ <==> r is Err,
        r is Err ==> ((r->Err_0) is Forbidden),
        r is Ok ==> {
            let stats = r.unwrap();
            &&& stats.total_users == clamp_to_i64(storage.users@.len() as int)
            &&& stats.active_users == clamp_to_i64(
                storage.users@.filter(active_user_pred()).len() as int,
            )
            &&& stats.online_users == clamp_to_i64(
                registry.connections@.map_values(
                    |c: crate::registry::Connection| c.user_id@,
                ).to_set().len() as int,
            )
            &&& stats.pending_messages == clamp_to_i64(storage.pending@.len() as int)
            &&& stats.stored_files == clamp_to_i64(storage.files@.len() as int)
            &&& stats.storage_used_bytes == clamp_to_i64(sum_file_sizes(storage.files@))
        },
{
    if !str_eq(req.admin_key.as_str(), master_key) {
        return Err(AppError::Forbidden);
    }
    let online = registry.online_user_count();
    let online_i64: i64 = if online as u64 > i64::MAX as u64 {
        i64::MAX
    } else {
        online as i64
    };
    Ok(storage.get_stats(online_i64))
}

} // verus!
