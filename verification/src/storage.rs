//! The durable state of the relay: users, devices, sessions, the spool of
//! pending envelopes, and file metadata.
//!
//! Rows live in vectors keyed by their unique string ids; the spool is kept
//! sorted by creation time so that pending fetches return envelopes oldest
//! first. Callers supply the clock (`now`, epoch seconds).

use vstd::prelude::*;

verus! {

use crate::encoding::str_eq;
use crate::crypto::{key_hash_of, hash_access_key};
use crate::errors::AppError;
use crate::models::{User, Device, Session, PendingMessage, FileMetadata, MessageEnvelope,
    ServerStats, message_type_str};

/// Whether user rows carry pairwise distinct ids.
pub open spec fn user_ids_unique(s: Seq<User>) -> bool {
    forall|i: int, j: int| 0 <= i < j < s.len() ==> s[i].user_id@ != s[j].user_id@
}

/// Whether device rows carry pairwise distinct ids.
pub open spec fn device_ids_unique(s: Seq<Device>) -> bool {
    forall|i: int, j: int| 0 <= i < j < s.len() ==> s[i].device_id@ != s[j].device_id@
}

/// Whether session rows carry pairwise distinct token hashes.
pub open spec fn token_hashes_unique(s: Seq<Session>) -> bool {
    forall|i: int, j: int| 0 <= i < j < s.len() ==> s[i].token_hash@ != s[j].token_hash@
}

/// Whether pending rows carry pairwise distinct message ids.
pub open spec fn message_ids_unique(s: Seq<PendingMessage>) -> bool {
    forall|i: int, j: int| 0 <= i < j < s.len() ==> s[i].message_id@ != s[j].message_id@
}

/// Whether file rows carry pairwise distinct ids.
pub open spec fn file_ids_unique(s: Seq<FileMetadata>) -> bool {
    forall|i: int, j: int| 0 <= i < j < s.len() ==> s[i].file_id@ != s[j].file_id@
}

/// Whether the spool is sorted by creation time, oldest first.
pub open spec fn spool_sorted(s: Seq<PendingMessage>) -> bool {
    forall|i: int, j: int| 0 <= i < j < s.len() ==> s[i].created_at <= s[j].created_at
}


/// Every element of a filtered sequence comes from the original.
pub proof fn lemma_filter_elem_from<A>(s: Seq<A>, p: spec_fn(A) -> bool, k: int)
    requires
        0 <= k < s.filter(p).len(),
    ensures
        exists|m: int| 0 <= m < s.len() && s[m] == s.filter(p)[k],
    decreases s.len(),
{
    reveal(Seq::filter);
    if s.len() > 0 {
        let dl = s.drop_last();
        if p(s.last()) && k == s.filter(p).len() - 1 {
            assert(s[s.len() - 1] == s.filter(p)[k]);
        } else {
            lemma_filter_elem_from(dl, p, k);
            let m = choose|m: int| 0 <= m < dl.len() && dl[m] == dl.filter(p)[k];
            assert(s[m] == s.filter(p)[k]);
        }
    }
}

/// Filtering keeps keys pairwise distinct.
pub proof fn lemma_filter_distinct_by<A>(
    s: Seq<A>,
    p: spec_fn(A) -> bool,
    key: spec_fn(A) -> Seq<char>,
)
    requires
        forall|i: int, j: int| 0 <= i < j < s.len() ==> key(s[i]) != key(s[j]),
    ensures
        forall|i: int, j: int|
            0 <= i < j < s.filter(p).len() ==> key(s.filter(p)[i]) != key(s.filter(p)[j]),
    decreases s.len(),
{
    reveal(Seq::filter);
    if s.len() > 0 {
        let dl = s.drop_last();
        assert(forall|i: int, j: int| 0 <= i < j < dl.len() ==> key(dl[i]) != key(dl[j]));
        lemma_filter_distinct_by(dl, p, key);
        if p(s.last()) {
            assert forall|i: int| 0 <= i < dl.filter(p).len() implies key(dl.filter(p)[i]) != key(
                s.last(),
            ) by {
                lemma_filter_elem_from(dl, p, i);
                let m = choose|m: int| 0 <= m < dl.len() && dl[m] == dl.filter(p)[i];
                assert(key(s[m]) != key(s[s.len() - 1]));
            }
        }
    }
}

/// Filtering keeps a sequence sorted under a measure.
pub proof fn lemma_filter_sorted_by<A>(s: Seq<A>, p: spec_fn(A) -> bool, meas: spec_fn(A) -> int)
    requires
        forall|i: int, j: int| 0 <= i < j < s.len() ==> meas(s[i]) <= meas(s[j]),
    ensures
        forall|i: int, j: int|
            0 <= i < j < s.filter(p).len() ==> meas(s.filter(p)[i]) <= meas(s.filter(p)[j]),
    decreases s.len(),
{
    reveal(Seq::filter);
    if s.len() > 0 {
        let dl = s.drop_last();
        assert(forall|i: int, j: int| 0 <= i < j < dl.len() ==> meas(dl[i]) <= meas(dl[j]));
        lemma_filter_sorted_by(dl, p, meas);
        if p(s.last()) {
            assert forall|i: int| 0 <= i < dl.filter(p).len() implies meas(dl.filter(p)[i]) <= meas(
                s.last(),
            ) by {
                lemma_filter_elem_from(dl, p, i);
                let m = choose|m: int| 0 <= m < dl.len() && dl[m] == dl.filter(p)[i];
                assert(meas(s[m]) <= meas(s[s.len() - 1]));
            }
        }
    }
}

/// Filtering keeps every element below an integer bound on a measure.
pub proof fn lemma_filter_bounded_by<A>(
    s: Seq<A>,
    p: spec_fn(A) -> bool,
    meas: spec_fn(A) -> int,
    bound: int,
)
    requires
        forall|i: int| 0 <= i < s.len() ==> meas(s[i]) < bound,
    ensures
        forall|i: int| 0 <= i < s.filter(p).len() ==> meas(s.filter(p)[i]) < bound,
{
    assert forall|i: int| 0 <= i < s.filter(p).len() implies meas(s.filter(p)[i]) < bound by {
        lemma_filter_elem_from(s, p, i);
        let m = choose|m: int| 0 <= m < s.len() && s[m] == s.filter(p)[i];
        assert(meas(s[m]) < bound);
    }
}

/// A filter whose predicate holds everywhere keeps the sequence unchanged.
pub proof fn lemma_filter_all<A>(s: Seq<A>, p: spec_fn(A) -> bool)
    requires
        forall|i: int| 0 <= i < s.len() ==> p(#[trigger] s[i]),
    ensures
        s.filter(p) == s,
    decreases s.len(),
{
    reveal(Seq::filter);
    if s.len() == 0 {
        assert(s.filter(p) =~= s);
    } else {
        lemma_filter_all(s.drop_last(), p);
        assert(s.filter(p) =~= s);
    }
}

/// The predicate keeping user rows whose id differs from the given one.
pub open spec fn keep_user_pred(id: Seq<char>) -> spec_fn(User) -> bool {
    |u: User| u.user_id@ != id
}

/// User rows with the given id removed.
pub open spec fn users_without(s: Seq<User>, id: Seq<char>) -> Seq<User> {
    s.filter(keep_user_pred(id))
}

/// The predicate keeping device rows not owned by the given user.
pub open spec fn keep_device_pred(user_id: Seq<char>) -> spec_fn(Device) -> bool {
    |d: Device| d.user_id@ != user_id
}

/// Device rows of the given user removed.
pub open spec fn devices_without_user(s: Seq<Device>, user_id: Seq<char>) -> Seq<Device> {
    s.filter(keep_device_pred(user_id))
}

/// The predicate keeping session rows not owned by the given user.
pub open spec fn keep_session_pred(user_id: Seq<char>) -> spec_fn(Session) -> bool {
    |x: Session| x.user_id@ != user_id
}

/// Session rows of the given user removed.
pub open spec fn sessions_without_user(s: Seq<Session>, user_id: Seq<char>) -> Seq<Session> {
    s.filter(keep_session_pred(user_id))
}

/// The predicate keeping pending rows not sent by the given user.
pub open spec fn keep_pending_pred(sender_id: Seq<char>) -> spec_fn(PendingMessage) -> bool {
    |m: PendingMessage| m.sender_id@ != sender_id
}

/// Pending rows sent by the given user removed.
pub open spec fn pending_without_sender(
    s: Seq<PendingMessage>,
    sender_id: Seq<char>,
) -> Seq<PendingMessage> {
    s.filter(keep_pending_pred(sender_id))
}

/// The predicate keeping file rows not uploaded by the given user.
pub open spec fn keep_file_pred(uploader_id: Seq<char>) -> spec_fn(FileMetadata) -> bool {
    |f: FileMetadata| f.uploader_id@ != uploader_id
}

/// File rows uploaded by the given user removed.
pub open spec fn files_without_uploader(
    s: Seq<FileMetadata>,
    uploader_id: Seq<char>,
) -> Seq<FileMetadata> {
    s.filter(keep_file_pred(uploader_id))
}

/// The predicate keeping device rows whose id differs from the given one.
pub open spec fn keep_device_id_pred(id: Seq<char>) -> spec_fn(Device) -> bool {
    |d: Device| d.device_id@ != id
}

/// Device rows with the given id removed.
pub open spec fn devices_without(s: Seq<Device>, id: Seq<char>) -> Seq<Device> {
    s.filter(keep_device_id_pred(id))
}

/// The predicate keeping device rows owned by the given user.
pub open spec fn devices_of_pred(user_id: Seq<char>) -> spec_fn(Device) -> bool {
    |d: Device| d.user_id@ == user_id
}

/// The device rows of a user, in insertion order.
pub open spec fn devices_of(s: Seq<Device>, user_id: Seq<char>) -> Seq<Device> {
    s.filter(devices_of_pred(user_id))
}

/// The predicate selecting spool rows visible to a fetch: right recipient,
/// not expired, and — when a device is given — either untargeted or targeted
/// at that device. A fetch without a device sees every device's rows.
pub open spec fn pending_visible_pred(
    user: Seq<char>,
    device: Option<Seq<char>>,
    now: i64,
) -> spec_fn(PendingMessage) -> bool {
    |m: PendingMessage|
        m.recipient_id@ == user && m.expires_at > now && (device is None
            || m.recipient_device_id is None || m.recipient_device_id.unwrap()@
            == device.unwrap())
}

/// The spool rows a fetch returns, oldest first.
pub open spec fn pending_for(
    s: Seq<PendingMessage>,
    user: Seq<char>,
    device: Option<Seq<char>>,
    now: i64,
) -> Seq<PendingMessage> {
    s.filter(pending_visible_pred(user, device, now))
}

/// Whether an id occurs in a list of ids.
pub open spec fn id_in(ids: Seq<String>, id: Seq<char>) -> bool {
    exists|i: int| 0 <= i < ids.len() && ids[i]@ == id
}

/// The predicate keeping spool rows whose message id is not listed.
pub open spec fn keep_unacked_pred(ids: Seq<String>) -> spec_fn(PendingMessage) -> bool {
    |m: PendingMessage| !id_in(ids, m.message_id@)
}

/// Spool rows with the listed message ids removed.
pub open spec fn pending_without_ids(
    s: Seq<PendingMessage>,
    ids: Seq<String>,
) -> Seq<PendingMessage> {
    s.filter(keep_unacked_pred(ids))
}

/// The predicate keeping file rows whose id differs from the given one.
pub open spec fn keep_file_id_pred(id: Seq<char>) -> spec_fn(FileMetadata) -> bool {
    |f: FileMetadata| f.file_id@ != id
}

/// File rows with the given id removed.
pub open spec fn files_without(s: Seq<FileMetadata>, id: Seq<char>) -> Seq<FileMetadata> {
    s.filter(keep_file_id_pred(id))
}

/// The predicate keeping spool rows that are not yet expired at `now`.
pub open spec fn keep_live_pending_pred(now: i64) -> spec_fn(PendingMessage) -> bool {
    |m: PendingMessage| m.expires_at > now
}

/// The predicate keeping file rows that are not yet expired at `now`.
pub open spec fn keep_live_file_pred(now: i64) -> spec_fn(FileMetadata) -> bool {
    |f: FileMetadata| f.expires_at > now
}

/// The predicate keeping session rows that are valid and not expired.
pub open spec fn keep_live_session_pred(now: i64) -> spec_fn(Session) -> bool {
    |x: Session| x.expires_at > now && x.is_valid
}

/// The total size of the stored files.
pub open spec fn sum_file_sizes(s: Seq<FileMetadata>) -> int
    decreases s.len(),
{
    if s.len() == 0 {
        0
    } else {
        sum_file_sizes(s.drop_last()) + s.last().file_size
    }
}

/// An integer clamped to the i64 range from above.
pub open spec fn clamp_to_i64(n: int) -> int {
    if n > i64::MAX {
        i64::MAX as int
    } else {
        n
    }
}

/// The spool after an envelope was stored at `now` with the given ttl: one
/// row was inserted after every row created at or before `now` and before
/// every later row, carrying the envelope's fields, the next row id, and an
/// expiry `ttl_hours` after `now`.
pub open spec fn spec_spooled(
    s0: Storage,
    s1: Storage,
    envelope: MessageEnvelope,
    ttl_hours: i64,
    now: i64,
) -> bool {
    &&& s1.next_pending_id == s0.next_pending_id + 1
    &&& exists|pos: int|
        0 <= pos <= s0.pending@.len() && (forall|j: int|
            0 <= j < pos ==> s0.pending@[j].created_at <= now) && (forall|j: int|
            pos <= j < s0.pending@.len() ==> s0.pending@[j].created_at > now) && s1.pending@
            == s0.pending@.insert(
            pos,
            PendingMessage {
                id: s0.next_pending_id,
                message_id: s1.pending@[pos].message_id,
                sender_id: s1.pending@[pos].sender_id,
                recipient_id: s1.pending@[pos].recipient_id,
                recipient_device_id: envelope.recipient_device_id,
                encrypted_content: s1.pending@[pos].encrypted_content,
                message_type: s1.pending@[pos].message_type,
                created_at: now,
                expires_at: (now + ttl_hours * 3600) as i64,
            },
        ) && s1.pending@[pos].message_id@ == envelope.message_id@ && s1.pending@[pos].sender_id@
            == envelope.sender_id@ && s1.pending@[pos].recipient_id@ == envelope.recipient_id@
            && s1.pending@[pos].encrypted_content@ == envelope.encrypted_content@
            && s1.pending@[pos].message_type@ == message_type_str(envelope.message_type)
}

/// The second sequence invalidates exactly the first's sessions of a user.
pub open spec fn sessions_invalidated_for_user(
    s0: Seq<Session>,
    s1: Seq<Session>,
    user_id: Seq<char>,
) -> bool {
    &&& s1.len() == s0.len()
    &&& forall|m: int|
        0 <= m < s0.len() ==> s1[m] == (if s0[m].user_id@ == user_id {
            Session { is_valid: false, ..s0[m] }
        } else {
            s0[m]
        })
}

/// The second sequence invalidates exactly the first's sessions of a device.
pub open spec fn sessions_invalidated_for_device(
    s0: Seq<Session>,
    s1: Seq<Session>,
    device_id: Seq<char>,
) -> bool {
    &&& s1.len() == s0.len()
    &&& forall|m: int|
        0 <= m < s0.len() ==> s1[m] == (if s0[m].device_id@ == device_id {
            Session { is_valid: false, ..s0[m] }
        } else {
            s0[m]
        })
}

/// The durable state of the relay.
pub struct Storage {
    pub users: Vec<User>,
    pub devices: Vec<Device>,
    pub sessions: Vec<Session>,
    pub pending: Vec<PendingMessage>,
    pub files: Vec<FileMetadata>,
    pub next_pending_id: i64,
}

impl Storage {
    /// Well-formedness: ids are unique per table, the spool is sorted by
    /// creation time, spool row ids stay below the next id, and file sizes
    /// are non-negative.
    pub open spec fn wf(self) -> bool {
        &&& user_ids_unique(self.users@)
        &&& device_ids_unique(self.devices@)
        &&& token_hashes_unique(self.sessions@)
        &&& message_ids_unique(self.pending@)
        &&& file_ids_unique(self.files@)
        &&& spool_sorted(self.pending@)
        &&& forall|i: int| 0 <= i < self.pending@.len() ==> self.pending@[i].id
            < self.next_pending_id
        &&& forall|i: int| 0 <= i < self.files@.len() ==> self.files@[i].file_size >= 0
    }

    pub open spec fn spec_has_user(self, id: Seq<char>) -> bool {
        exists|i: int| 0 <= i < self.users@.len() && self.users@[i].user_id@ == id
    }

    pub open spec fn spec_user_idx(self, id: Seq<char>) -> int {
        choose|i: int| 0 <= i < self.users@.len() && self.users@[i].user_id@ == id
    }

    /// The unique user row with this id.
    pub open spec fn spec_user(self, id: Seq<char>) -> User {
        self.users@[self.spec_user_idx(id)]
    }

    pub open spec fn spec_has_device(self, id: Seq<char>) -> bool {
        exists|i: int| 0 <= i < self.devices@.len() && self.devices@[i].device_id@ == id
    }

    pub open spec fn spec_device_idx(self, id: Seq<char>) -> int {
        choose|i: int| 0 <= i < self.devices@.len() && self.devices@[i].device_id@ == id
    }

    /// The unique device row with this id.
    pub open spec fn spec_device(self, id: Seq<char>) -> Device {
        self.devices@[self.spec_device_idx(id)]
    }

    pub open spec fn spec_has_session(self, token_hash: Seq<char>) -> bool {
        exists|i: int| 0 <= i < self.sessions@.len() && self.sessions@[i].token_hash@ == token_hash
    }

    pub open spec fn spec_session_idx(self, token_hash: Seq<char>) -> int {
        choose|i: int|
            0 <= i < self.sessions@.len() && self.sessions@[i].token_hash@ == token_hash
    }

    /// The unique session row with this token hash.
    pub open spec fn spec_session(self, token_hash: Seq<char>) -> Session {
        self.sessions@[self.spec_session_idx(token_hash)]
    }

    /// Whether a bearer token is accepted at `now`: its hash row exists, is
    /// valid, and is not expired.
    pub open spec fn spec_session_live(self, token: Seq<char>, now: i64) -> bool {
        &&& self.spec_has_session(key_hash_of(token))
        &&& self.spec_session(key_hash_of(token)).is_valid
        &&& self.spec_session(key_hash_of(token)).expires_at > now
    }

    pub open spec fn spec_has_pending(self, message_id: Seq<char>) -> bool {
        exists|i: int| 0 <= i < self.pending@.len() && self.pending@[i].message_id@ == message_id
    }

    pub open spec fn spec_has_file(self, id: Seq<char>) -> bool {
        exists|i: int| 0 <= i < self.files@.len() && self.files@[i].file_id@ == id
    }

    pub open spec fn spec_file_idx(self, id: Seq<char>) -> int {
        choose|i: int| 0 <= i < self.files@.len() && self.files@[i].file_id@ == id
    }

    /// The unique file row with this id.
    pub open spec fn spec_file(self, id: Seq<char>) -> FileMetadata {
        self.files@[self.spec_file_idx(id)]
    }

    /// An index that holds a user id is the chosen one.
    pub proof fn lemma_user_idx(self, i: int)
        requires
            user_ids_unique(self.users@),
            0 <= i < self.users@.len(),
        ensures
            self.spec_has_user(self.users@[i].user_id@),
            self.spec_user_idx(self.users@[i].user_id@) == i,
    {
        let id = self.users@[i].user_id@;
        assert(self.spec_has_user(id));
        let j = self.spec_user_idx(id);
        if j != i {
            if j < i {
                assert(self.users@[j].user_id@ != self.users@[i].user_id@);
            } else {
                assert(self.users@[i].user_id@ != self.users@[j].user_id@);
            }
        }
    }

    /// An index that holds a device id is the chosen one.
    pub proof fn lemma_device_idx(self, i: int)
        requires
            device_ids_unique(self.devices@),
            0 <= i < self.devices@.len(),
        ensures
            self.spec_has_device(self.devices@[i].device_id@),
            self.spec_device_idx(self.devices@[i].device_id@) == i,
    {
        let id = self.devices@[i].device_id@;
        assert(self.spec_has_device(id));
        let j = self.spec_device_idx(id);
        if j != i {
            if j < i {
                assert(self.devices@[j].device_id@ != self.devices@[i].device_id@);
            } else {
                assert(self.devices@[i].device_id@ != self.devices@[j].device_id@);
            }
        }
    }

    /// An index that holds a token hash is the chosen one.
    pub proof fn lemma_session_idx(self, i: int)
        requires
            token_hashes_unique(self.sessions@),
            0 <= i < self.sessions@.len(),
        ensures
            self.spec_has_session(self.sessions@[i].token_hash@),
            self.spec_session_idx(self.sessions@[i].token_hash@) == i,
    {
        let id = self.sessions@[i].token_hash@;
        assert(self.spec_has_session(id));
        let j = self.spec_session_idx(id);
        if j != i {
            if j < i {
                assert(self.sessions@[j].token_hash@ != self.sessions@[i].token_hash@);
            } else {
                assert(self.sessions@[i].token_hash@ != self.sessions@[j].token_hash@);
            }
        }
    }

    /// An index that holds a file id is the chosen one.
    pub proof fn lemma_file_idx(self, i: int)
        requires
            file_ids_unique(self.files@),
            0 <= i < self.files@.len(),
        ensures
            self.spec_has_file(self.files@[i].file_id@),
            self.spec_file_idx(self.files@[i].file_id@) == i,
    {
        let id = self.files@[i].file_id@;
        assert(self.spec_has_file(id));
        let j = self.spec_file_idx(id);
        if j != i {
            if j < i {
                assert(self.files@[j].file_id@ != self.files@[i].file_id@);
            } else {
                assert(self.files@[i].file_id@ != self.files@[j].file_id@);
            }
        }
    }

    /// An empty store.
    pub fn new() -> (r: Storage)
        ensures
            r.wf(),
            r.users@.len() == 0,
            r.devices@.len() == 0,
            r.sessions@.len() == 0,
            r.pending@.len() == 0,
            r.files@.len() == 0,
            r.next_pending_id == 1,
    {
        Storage {
            users: Vec::new(),
            devices: Vec::new(),
            sessions: Vec::new(),
            pending: Vec::new(),
            files: Vec::new(),
            next_pending_id: 1,
        }
    }

    fn find_user(&self, user_id: &str) -> (r: Option<usize>)
        ensures
            match r {
                Some(i) => 0 <= i < self.users@.len() && self.users@[i as int].user_id@
                    == user_id@,
                None => !self.spec_has_user(user_id@),
            },
    {
        let n = self.users.len();
        let mut i: usize = 0;
        while i < n
            invariant
                n == self.users@.len(),
                i <= n,
                forall|j: int| 0 <= j < i ==> self.users@[j].user_id@ != user_id@,
            decreases n - i,
        {
            if str_eq(self.users[i].user_id.as_str(), user_id) {
                return Some(i);
            }
            i = i + 1;
        }
        None
    }

    /// Insert a user row with the given key hash; the id must be fresh.
    pub fn create_user(&mut self, user_id: &str, key_hash: &str, now: i64) -> (r: Result<
        (),
        AppError,
    >)
        requires
            old(self).wf(),
        ensures
            final(self).wf(),
            final(self).devices == old(self).devices,
            final(self).sessions == old(self).sessions,
            final(self).pending == old(self).pending,
            final(self).files == old(self).files,
            final(self).next_pending_id == old(self).next_pending_id,
            old(self).spec_has_user(user_id@) ==> r is Err && ((r->Err_0) matches
                AppError::UserAlreadyExists) && final(self).users == old(self).users,
            !old(self).spec_has_user(user_id@) ==> r is Ok && final(self).users@.len() == old(self).users@.len()
                + 1 && final(self).users@ == old(self).users@.push(
                User {
                    user_id: final(self).users@.last().user_id,
                    key_hash: final(self).users@.last().key_hash,
                    display_name: None,
                    avatar_file_id: None,
                    public_key: None,
                    created_at: now,
                    last_seen_at: None,
                    is_active: true,
                },
            ) && final(self).users@.last().user_id@ == user_id@ && final(self).users@.last().key_hash@
                == key_hash@,
    {
        if self.find_user(user_id).is_some() {
            return Err(AppError::UserAlreadyExists);
        }
        let row = User {
            user_id: user_id.to_owned(),
            key_hash: key_hash.to_owned(),
            display_name: None,
            avatar_file_id: None,
            public_key: None,
            created_at: now,
            last_seen_at: None,
            is_active: true,
        };
        self.users.push(row);
        proof {
            assert forall|i: int, j: int|
                0 <= i < j < self.users@.len() implies self.users@[i].user_id@
                != self.users@[j].user_id@ by {
                if j == self.users@.len() - 1 {
                    assert(!old(self).spec_has_user(user_id@));
                }
            }
        }
        Ok(())
    }

    /// The user row with this id, if any.
    pub fn get_user(&self, user_id: &str) -> (r: Option<User>)
        requires
            self.wf(),
        ensures
            r is Some <==> self.spec_has_user(user_id@),
            r is Some ==> r.unwrap() == self.spec_user(user_id@),
    {
        match self.find_user(user_id) {
            Some(i) => {
                proof {
                    self.lemma_user_idx(i as int);
                }
                Some(self.users[i].clone())
            },
            None => None,
        }
    }

    /// Whether the user exists, is active, and the access key matches the
    /// stored hash.
    pub fn verify_user_credentials(&self, user_id: &str, access_key: &str) -> (r: bool)
        requires
            self.wf(),
        ensures
            r == (self.spec_has_user(user_id@) && self.spec_user(user_id@).is_active
                && self.spec_user(user_id@).key_hash@ == key_hash_of(access_key@)),
    {
        match self.find_user(user_id) {
            Some(i) => {
                proof {
                    self.lemma_user_idx(i as int);
                }
                if self.users[i].is_active {
                    crate::crypto::verify_access_key(access_key, self.users[i].key_hash.as_str())
                } else {
                    false
                }
            },
            None => false,
        }
    }

    /// Refresh the user's last-seen timestamp, if the user exists.
    pub fn update_user_last_seen(&mut self, user_id: &str, now: i64)
        requires
            old(self).wf(),
        ensures
            final(self).wf(),
            final(self).devices == old(self).devices,
            final(self).sessions == old(self).sessions,
            final(self).pending == old(self).pending,
            final(self).files == old(self).files,
            final(self).next_pending_id == old(self).next_pending_id,
            !old(self).spec_has_user(user_id@) ==> final(self).users == old(self).users,
            old(self).spec_has_user(user_id@) ==> final(self).users@ == old(self).users@.update(
                old(self).spec_user_idx(user_id@),
                User { last_seen_at: Some(now), ..old(self).spec_user(user_id@) },
            ),
    {
        match self.find_user(user_id) {
            Some(i) => {
                proof {
                    self.lemma_user_idx(i as int);
                }
                self.users[i].last_seen_at = Some(now);
                proof {
                    assert(user_ids_unique(self.users@)) by {
                        assert(forall|k: int|
                            0 <= k < self.users@.len() ==> self.users@[k].user_id@ == old(self).users@[k].user_id@);
                    }
                }
            },
            None => (),
        }
    }

    /// Update the profile fields that are provided; absent fields stay.
    pub fn update_user_profile(
        &mut self,
        user_id: &str,
        display_name: Option<&str>,
        avatar_file_id: Option<&str>,
        public_key: Option<&str>,
    )
        requires
            old(self).wf(),
        ensures
            final(self).wf(),
            final(self).devices == old(self).devices,
            final(self).sessions == old(self).sessions,
            final(self).pending == old(self).pending,
            final(self).files == old(self).files,
            final(self).next_pending_id == old(self).next_pending_id,
            !old(self).spec_has_user(user_id@) ==> final(self).users == old(self).users,
            old(self).spec_has_user(user_id@) ==> {
                let i = old(self).spec_user_idx(user_id@);
                let u0 = old(self).spec_user(user_id@);
                let u1 = final(self).users@[i];
                &&& final(self).users@ == old(self).users@.update(i, u1)
                &&& u1.user_id == u0.user_id
                &&& u1.key_hash == u0.key_hash
                &&& u1.created_at == u0.created_at
                &&& u1.last_seen_at == u0.last_seen_at
                &&& u1.is_active == u0.is_active
                &&& match display_name {
                    Some(d) => u1.display_name is Some && u1.display_name.unwrap()@ == d@,
                    None => u1.display_name == u0.display_name,
                }
                &&& match avatar_file_id {
                    Some(a) => u1.avatar_file_id is Some && u1.avatar_file_id.unwrap()@ == a@,
                    None => u1.avatar_file_id == u0.avatar_file_id,
                }
                &&& match public_key {
                    Some(p) => u1.public_key is Some && u1.public_key.unwrap()@ == p@,
                    None => u1.public_key == u0.public_key,
                }
            },
    {
        let i = match self.find_user(user_id) {
            Some(i) => i,
            None => {
                return ;
            },
        };
        proof {
            self.lemma_user_idx(i as int);
        }
        match display_name {
            Some(d) => {
                self.users[i].display_name = Some(d.to_owned());
            },
            None => (),
        }
        match avatar_file_id {
            Some(a) => {
                self.users[i].avatar_file_id = Some(a.to_owned());
            },
            None => (),
        }
        match public_key {
            Some(p) => {
                self.users[i].public_key = Some(p.to_owned());
            },
            None => (),
        }
        proof {
            assert(self.users@ =~= old(self).users@.update(i as int, self.users@[i as int]));
            assert(user_ids_unique(self.users@)) by {
                assert(forall|k: int|
                    0 <= k < self.users@.len() ==> self.users@[k].user_id@ == old(self).users@[k].user_id@);
            }
        }
    }

    /// Mark a user inactive and invalidate every session of that user.
    pub fn deactivate_user(&mut self, user_id: &str)
        requires
            old(self).wf(),
        ensures
            final(self).wf(),
            final(self).devices == old(self).devices,
            final(self).pending == old(self).pending,
            final(self).files == old(self).files,
            final(self).next_pending_id == old(self).next_pending_id,
            !old(self).spec_has_user(user_id@) ==> final(self).users == old(self).users,
            old(self).spec_has_user(user_id@) ==> final(self).users@ == old(self).users@.update(
                old(self).spec_user_idx(user_id@),
                User { is_active: false, ..old(self).spec_user(user_id@) },
            ),
            sessions_invalidated_for_user(old(self).sessions@, final(self).sessions@, user_id@),
    {
        match self.find_user(user_id) {
            Some(i) => {
                proof {
                    self.lemma_user_idx(i as int);
                }
                self.users[i].is_active = false;
                proof {
                    assert(self.users@ =~= old(self).users@.update(
                        i as int,
                        User { is_active: false, ..old(self).spec_user(user_id@) },
                    ));
                    assert(user_ids_unique(self.users@)) by {
                        assert(forall|k: int|
                            0 <= k < self.users@.len() ==> self.users@[k].user_id@ == old(self).users@[k].user_id@);
                    }
                }
            },
            None => (),
        }
        let n = self.sessions.len();
        let mut k: usize = 0;
        while k < n
            invariant
                n == self.sessions@.len(),
                k <= n,
                forall|m: int|
                    0 <= m < k ==> self.sessions@[m] == (if old(self).sessions@[m].user_id@
                        == user_id@ {
                        Session { is_valid: false, ..old(self).sessions@[m] }
                    } else {
                        old(self).sessions@[m]
                    }),
                forall|m: int| k <= m < n ==> self.sessions@[m] == old(self).sessions@[m],
                !old(self).spec_has_user(user_id@) ==> self.users == old(self).users,
                old(self).spec_has_user(user_id@) ==> self.users@ == old(self).users@.update(
                    old(self).spec_user_idx(user_id@),
                    User { is_active: false, ..old(self).spec_user(user_id@) },
                ),
                self.devices == old(self).devices,
                self.pending == old(self).pending,
                self.files == old(self).files,
                self.next_pending_id == old(self).next_pending_id,
                user_ids_unique(self.users@),
            decreases n - k,
        {
            if str_eq(self.sessions[k].user_id.as_str(), user_id) {
                self.sessions[k].is_valid = false;
            }
            k = k + 1;
        }
        proof {
            assert(token_hashes_unique(self.sessions@)) by {
                assert(forall|m: int|
                    0 <= m < self.sessions@.len() ==> self.sessions@[m].token_hash@ == old(self).sessions@[m].token_hash@);
            }
        }
    }

    /// All user rows, in insertion order.
    pub fn list_users(&self) -> (r: Vec<User>)
        ensures
            r@ == self.users@,
    {
        let mut r: Vec<User> = Vec::new();
        let n = self.users.len();
        let mut i: usize = 0;
        while i < n
            invariant
                n == self.users@.len(),
                i <= n,
                r@ =~= self.users@.take(i as int),
            decreases n - i,
        {
            r.push(self.users[i].clone());
            proof {
                assert(self.users@.take(i + 1) =~= self.users@.take(i as int).push(
                    self.users@[i as int],
                ));
            }
            i = i + 1;
        }
        proof {
            assert(self.users@.take(n as int) =~= self.users@);
        }
        r
    }

    /// Delete a user and cascade: the user's devices and sessions, the
    /// envelopes it sent, and the files it uploaded all go.
    pub fn delete_user(&mut self, user_id: &str)
        requires
            old(self).wf(),
        ensures
            final(self).wf(),
            final(self).users@ == users_without(old(self).users@, user_id@),
            final(self).devices@ == devices_without_user(old(self).devices@, user_id@),
            final(self).sessions@ == sessions_without_user(old(self).sessions@, user_id@),
            final(self).pending@ == pending_without_sender(old(self).pending@, user_id@),
            final(self).files@ == files_without_uploader(old(self).files@, user_id@),
            final(self).next_pending_id == old(self).next_pending_id,
            !final(self).spec_has_user(user_id@),
    {
        let ghost pu = keep_user_pred(user_id@);
        let mut kept_users: Vec<User> = Vec::new();
        let nu = self.users.len();
        let mut i: usize = 0;
        while i < nu
            invariant
                nu == self.users@.len(),
                i <= nu,
                pu == keep_user_pred(user_id@),
                kept_users@ =~= self.users@.take(i as int).filter(pu),
            decreases nu - i,
        {
            proof {
                reveal(Seq::filter);
                assert(self.users@.take(i + 1).drop_last() =~= self.users@.take(i as int));
            }
            if !str_eq(self.users[i].user_id.as_str(), user_id) {
                kept_users.push(self.users[i].clone());
            }
            i = i + 1;
        }
        proof {
            assert(self.users@.take(nu as int) =~= self.users@);
        }
        let ghost pd = keep_device_pred(user_id@);
        let mut kept_devices: Vec<Device> = Vec::new();
        let nd = self.devices.len();
        let mut j: usize = 0;
        while j < nd
            invariant
                nd == self.devices@.len(),
                j <= nd,
                pd == keep_device_pred(user_id@),
                kept_devices@ =~= self.devices@.take(j as int).filter(pd),
            decreases nd - j,
        {
            proof {
                reveal(Seq::filter);
                assert(self.devices@.take(j + 1).drop_last() =~= self.devices@.take(j as int));
            }
            if !str_eq(self.devices[j].user_id.as_str(), user_id) {
                kept_devices.push(self.devices[j].clone());
            }
            j = j + 1;
        }
        proof {
            assert(self.devices@.take(nd as int) =~= self.devices@);
        }
        let ghost ps = keep_session_pred(user_id@);
        let mut kept_sessions: Vec<Session> = Vec::new();
        let ns = self.sessions.len();
        let mut k: usize = 0;
        while k < ns
            invariant
                ns == self.sessions@.len(),
                k <= ns,
                ps == keep_session_pred(user_id@),
                kept_sessions@ =~= self.sessions@.take(k as int).filter(ps),
            decreases ns - k,
        {
            proof {
                reveal(Seq::filter);
                assert(self.sessions@.take(k + 1).drop_last() =~= self.sessions@.take(k as int));
            }
            if !str_eq(self.sessions[k].user_id.as_str(), user_id) {
                kept_sessions.push(self.sessions[k].clone());
            }
            k = k + 1;
        }
        proof {
            assert(self.sessions@.take(ns as int) =~= self.sessions@);
        }
        let ghost pp = keep_pending_pred(user_id@);
        let mut kept_pending: Vec<PendingMessage> = Vec::new();
        let np = self.pending.len();
        let mut m: usize = 0;
        while m < np
            invariant
                np == self.pending@.len(),
                m <= np,
                pp == keep_pending_pred(user_id@),
                kept_pending@ =~= self.pending@.take(m as int).filter(pp),
            decreases np - m,
        {
            proof {
                reveal(Seq::filter);
                assert(self.pending@.take(m + 1).drop_last() =~= self.pending@.take(m as int));
            }
            if !str_eq(self.pending[m].sender_id.as_str(), user_id) {
                kept_pending.push(self.pending[m].clone());
            }
            m = m + 1;
        }
        proof {
            assert(self.pending@.take(np as int) =~= self.pending@);
        }
        let ghost pf = keep_file_pred(user_id@);
        let mut kept_files: Vec<FileMetadata> = Vec::new();
        let nf = self.files.len();
        let mut q: usize = 0;
        while q < nf
            invariant
                nf == self.files@.len(),
                q <= nf,
                pf == keep_file_pred(user_id@),
                kept_files@ =~= self.files@.take(q as int).filter(pf),
            decreases nf - q,
        {
            proof {
                reveal(Seq::filter);
                assert(self.files@.take(q + 1).drop_last() =~= self.files@.take(q as int));
            }
            if !str_eq(self.files[q].uploader_id.as_str(), user_id) {
                kept_files.push(self.files[q].clone());
            }
            q = q + 1;
        }
        proof {
            assert(self.files@.take(nf as int) =~= self.files@);
        }
        proof {
            lemma_filter_distinct_by(old(self).users@, pu, |u: User| u.user_id@);
            lemma_filter_distinct_by(old(self).devices@, pd, |d: Device| d.device_id@);
            lemma_filter_distinct_by(old(self).sessions@, ps, |x: Session| x.token_hash@);
            lemma_filter_distinct_by(old(self).pending@, pp, |x: PendingMessage| x.message_id@);
            lemma_filter_distinct_by(old(self).files@, pf, |f: FileMetadata| f.file_id@);
            lemma_filter_sorted_by(old(self).pending@, pp, |x: PendingMessage| x.created_at as int);
            lemma_filter_bounded_by(
                old(self).pending@,
                pp,
                |x: PendingMessage| x.id as int,
                old(self).next_pending_id as int,
            );
            lemma_filter_bounded_by(
                old(self).files@,
                pf,
                |f: FileMetadata| -f.file_size as int,
                1,
            );
        }
        self.users = kept_users;
        self.devices = kept_devices;
        self.sessions = kept_sessions;
        self.pending = kept_pending;
        self.files = kept_files;
        proof {
            if self.spec_has_user(user_id@) {
                let w = self.spec_user_idx(user_id@);
                lemma_filter_elem_from(old(self).users@, pu, w);
            }
        }
    }

    fn find_device(&self, device_id: &str) -> (r: Option<usize>)
        ensures
            match r {
                Some(i) => 0 <= i < self.devices@.len() && self.devices@[i as int].device_id@
                    == device_id@,
                None => !self.spec_has_device(device_id@),
            },
    {
        let n = self.devices.len();
        let mut i: usize = 0;
        while i < n
            invariant
                n == self.devices@.len(),
                i <= n,
                forall|j: int| 0 <= j < i ==> self.devices@[j].device_id@ != device_id@,
            decreases n - i,
        {
            if str_eq(self.devices[i].device_id.as_str(), device_id) {
                return Some(i);
            }
            i = i + 1;
        }
        None
    }

    fn find_session(&self, token_hash: &str) -> (r: Option<usize>)
        ensures
            match r {
                Some(i) => 0 <= i < self.sessions@.len() && self.sessions@[i as int].token_hash@
                    == token_hash@,
                None => !self.spec_has_session(token_hash@),
            },
    {
        let n = self.sessions.len();
        let mut i: usize = 0;
        while i < n
            invariant
                n == self.sessions@.len(),
                i <= n,
                forall|j: int| 0 <= j < i ==> self.sessions@[j].token_hash@ != token_hash@,
            decreases n - i,
        {
            if str_eq(self.sessions[i].token_hash.as_str(), token_hash) {
                return Some(i);
            }
            i = i + 1;
        }
        None
    }

    /// Register a device for a user under a freshly generated id. Fails only
    /// if the generated id collides with an existing row.
    pub fn create_device(
        &mut self,
        user_id: &str,
        device_name: &str,
        device_type: &str,
        public_key: &str,
        now: i64,
    ) -> (r: Result<String, AppError>)
        requires
            old(self).wf(),
        ensures
            final(self).wf(),
            final(self).users == old(self).users,
            final(self).sessions == old(self).sessions,
            final(self).pending == old(self).pending,
            final(self).files == old(self).files,
            final(self).next_pending_id == old(self).next_pending_id,
            r is Err ==> final(self).devices == old(self).devices && (r->Err_0) is Database,
            r is Ok ==> !old(self).spec_has_device(r.unwrap()@) && final(self).devices@ == old(self).devices@.push(final(self).devices@.last()) && final(self).devices@.last() == (Device {
                device_id: final(self).devices@.last().device_id,
                user_id: final(self).devices@.last().user_id,
                device_name: final(self).devices@.last().device_name,
                device_type: final(self).devices@.last().device_type,
                push_token: None,
                public_key: final(self).devices@.last().public_key,
                created_at: now,
                last_active_at: now,
            }) && final(self).devices@.last().device_id@ == r.unwrap()@ && final(self).devices@.last().user_id@ == user_id@ && final(self).devices@.last().device_name@
                == device_name@ && final(self).devices@.last().device_type@ == device_type@ && final(self).devices@.last().public_key@ == public_key@,
    {
        let device_id = crate::crypto::generate_device_id();
        if self.find_device(device_id.as_str()).is_some() {
            return Err(AppError::Database("device id collision".to_owned()));
        }
        let row = Device {
            device_id: device_id.clone(),
            user_id: user_id.to_owned(),
            device_name: device_name.to_owned(),
            device_type: device_type.to_owned(),
            push_token: None,
            public_key: public_key.to_owned(),
            created_at: now,
            last_active_at: now,
        };
        self.devices.push(row);
        proof {
            assert forall|i: int, j: int|
                0 <= i < j < self.devices@.len() implies self.devices@[i].device_id@
                != self.devices@[j].device_id@ by {
                if j == self.devices@.len() - 1 {
                    assert(!old(self).spec_has_device(device_id@));
                }
            }
        }
        Ok(device_id)
    }

    /// The device row with this id, if any.
    pub fn get_device(&self, device_id: &str) -> (r: Option<Device>)
        requires
            self.wf(),
        ensures
            r is Some <==> self.spec_has_device(device_id@),
            r is Some ==> r.unwrap() == self.spec_device(device_id@),
    {
        match self.find_device(device_id) {
            Some(i) => {
                proof {
                    self.lemma_device_idx(i as int);
                }
                Some(self.devices[i].clone())
            },
            None => None,
        }
    }

    /// The devices of a user, in insertion order.
    pub fn list_user_devices(&self, user_id: &str) -> (r: Vec<Device>)
        ensures
            r@ == devices_of(self.devices@, user_id@),
    {
        let ghost p = devices_of_pred(user_id@);
        let mut r: Vec<Device> = Vec::new();
        let n = self.devices.len();
        let mut i: usize = 0;
        while i < n
            invariant
                n == self.devices@.len(),
                i <= n,
                p == devices_of_pred(user_id@),
                r@ =~= self.devices@.take(i as int).filter(p),
            decreases n - i,
        {
            proof {
                reveal(Seq::filter);
                assert(self.devices@.take(i + 1).drop_last() =~= self.devices@.take(i as int));
            }
            if str_eq(self.devices[i].user_id.as_str(), user_id) {
                r.push(self.devices[i].clone());
            }
            i = i + 1;
        }
        proof {
            assert(self.devices@.take(n as int) =~= self.devices@);
        }
        r
    }

    /// Refresh a device's last-active timestamp, if the device exists.
    pub fn update_device_activity(&mut self, device_id: &str, now: i64)
        requires
            old(self).wf(),
        ensures
            final(self).wf(),
            final(self).users == old(self).users,
            final(self).sessions == old(self).sessions,
            final(self).pending == old(self).pending,
            final(self).files == old(self).files,
            final(self).next_pending_id == old(self).next_pending_id,
            !old(self).spec_has_device(device_id@) ==> final(self).devices == old(self).devices,
            old(self).spec_has_device(device_id@) ==> final(self).devices@ == old(self).devices@.update(
                old(self).spec_device_idx(device_id@),
                Device { last_active_at: now, ..old(self).spec_device(device_id@) },
            ),
    {
        match self.find_device(device_id) {
            Some(i) => {
                proof {
                    self.lemma_device_idx(i as int);
                }
                self.devices[i].last_active_at = now;
                proof {
                    assert(self.devices@ =~= old(self).devices@.update(
                        i as int,
                        Device { last_active_at: now, ..old(self).spec_device(device_id@) },
                    ));
                    assert(device_ids_unique(self.devices@)) by {
                        assert(forall|k: int|
                            0 <= k < self.devices@.len() ==> self.devices@[k].device_id@ == old(self).devices@[k].device_id@);
                    }
                }
            },
            None => (),
        }
    }

    /// Remove a device: its sessions are invalidated first, then the row goes.
    pub fn delete_device(&mut self, device_id: &str)
        requires
            old(self).wf(),
        ensures
            final(self).wf(),
            final(self).users == old(self).users,
            final(self).pending == old(self).pending,
            final(self).files == old(self).files,
            final(self).next_pending_id == old(self).next_pending_id,
            sessions_invalidated_for_device(old(self).sessions@, final(self).sessions@, device_id@),
            final(self).devices@ == devices_without(old(self).devices@, device_id@),
            !final(self).spec_has_device(device_id@),
    {
        let n = self.sessions.len();
        let mut k: usize = 0;
        while k < n
            invariant
                n == self.sessions@.len(),
                k <= n,
                forall|m: int|
                    0 <= m < k ==> self.sessions@[m] == (if old(self).sessions@[m].device_id@
                        == device_id@ {
                        Session { is_valid: false, ..old(self).sessions@[m] }
                    } else {
                        old(self).sessions@[m]
                    }),
                forall|m: int| k <= m < n ==> self.sessions@[m] == old(self).sessions@[m],
                self.users == old(self).users,
                self.devices == old(self).devices,
                self.pending == old(self).pending,
                self.files == old(self).files,
                self.next_pending_id == old(self).next_pending_id,
            decreases n - k,
        {
            if str_eq(self.sessions[k].device_id.as_str(), device_id) {
                self.sessions[k].is_valid = false;
            }
            k = k + 1;
        }
        proof {
            assert(token_hashes_unique(self.sessions@)) by {
                assert(forall|m: int|
                    0 <= m < self.sessions@.len() ==> self.sessions@[m].token_hash@ == old(self).sessions@[m].token_hash@);
            }
        }
        let ghost pd = keep_device_id_pred(device_id@);
        let mut kept: Vec<Device> = Vec::new();
        let nd = self.devices.len();
        let mut i: usize = 0;
        while i < nd
            invariant
                nd == self.devices@.len(),
                i <= nd,
                pd == keep_device_id_pred(device_id@),
                kept@ =~= self.devices@.take(i as int).filter(pd),
                self.devices == old(self).devices,
                self.users == old(self).users,
                self.pending == old(self).pending,
                self.files == old(self).files,
                self.next_pending_id == old(self).next_pending_id,
                sessions_invalidated_for_device(old(self).sessions@, self.sessions@, device_id@),
                token_hashes_unique(self.sessions@),
            decreases nd - i,
        {
            proof {
                reveal(Seq::filter);
                assert(self.devices@.take(i + 1).drop_last() =~= self.devices@.take(i as int));
            }
            if !str_eq(self.devices[i].device_id.as_str(), device_id) {
                kept.push(self.devices[i].clone());
            }
            i = i + 1;
        }
        proof {
            assert(self.devices@.take(nd as int) =~= self.devices@);
            lemma_filter_distinct_by(old(self).devices@, pd, |d: Device| d.device_id@);
        }
        self.devices = kept;
        proof {
            if self.spec_has_device(device_id@) {
                let w = self.spec_device_idx(device_id@);
                lemma_filter_elem_from(old(self).devices@, pd, w);
            }
        }
    }

    /// Mint a session row for a user and device: the token is stored hashed
    /// and expires `ttl_hours` after `now`. Fails only if the token hash
    /// collides with an existing row.
    pub fn create_session(
        &mut self,
        user_id: &str,
        device_id: &str,
        token: &str,
        ttl_hours: i64,
        now: i64,
    ) -> (r: Result<i64, AppError>)
        requires
            old(self).wf(),
            0 <= ttl_hours,
            0 <= now,
            now + ttl_hours * 3600 <= i64::MAX,
        ensures
            final(self).wf(),
            final(self).users == old(self).users,
            final(self).devices == old(self).devices,
            final(self).pending == old(self).pending,
            final(self).files == old(self).files,
            final(self).next_pending_id == old(self).next_pending_id,
            r is Err <==> old(self).spec_has_session(key_hash_of(token@)),
            r is Err ==> final(self).sessions == old(self).sessions && (r->Err_0) is Database,
            r is Ok ==> !old(self).spec_has_session(key_hash_of(token@)) && r.unwrap() == now
                + ttl_hours * 3600 && final(self).sessions@ == old(self).sessions@.push(
                final(self).sessions@.last(),
            ) && final(self).sessions@.last() == (Session {
                token_hash: final(self).sessions@.last().token_hash,
                user_id: final(self).sessions@.last().user_id,
                device_id: final(self).sessions@.last().device_id,
                created_at: now,
                expires_at: (now + ttl_hours * 3600) as i64,
                is_valid: true,
            }) && final(self).sessions@.last().token_hash@ == key_hash_of(token@) && final(self).sessions@.last().user_id@ == user_id@ && final(self).sessions@.last().device_id@
                == device_id@,
    {
        let token_hash = hash_access_key(token);
        if self.find_session(token_hash.as_str()).is_some() {
            return Err(AppError::Database("token hash collision".to_owned()));
        }
        let expires_at = now + ttl_hours * 3600;
        let row = Session {
            token_hash,
            user_id: user_id.to_owned(),
            device_id: device_id.to_owned(),
            created_at: now,
            expires_at,
            is_valid: true,
        };
        self.sessions.push(row);
        proof {
            assert forall|i: int, j: int|
                0 <= i < j < self.sessions@.len() implies self.sessions@[i].token_hash@
                != self.sessions@[j].token_hash@ by {
                if j == self.sessions@.len() - 1 {
                    assert(!old(self).spec_has_session(key_hash_of(token@)));
                }
            }
        }
        Ok(expires_at)
    }

    /// The session a bearer token grants at `now`: present exactly when the
    /// token's hash row exists, is valid, and is not expired.
    pub fn validate_session(&self, token: &str, now: i64) -> (r: Option<Session>)
        requires
            self.wf(),
        ensures
            r is Some <==> self.spec_session_live(token@, now),
            r is Some ==> r.unwrap() == self.spec_session(key_hash_of(token@)),
    {
        let token_hash = hash_access_key(token);
        match self.find_session(token_hash.as_str()) {
            Some(i) => {
                proof {
                    self.lemma_session_idx(i as int);
                }
                if self.sessions[i].is_valid && self.sessions[i].expires_at > now {
                    Some(self.sessions[i].clone())
                } else {
                    None
                }
            },
            None => None,
        }
    }

    /// Invalidate the session of this token, if its hash row exists.
    pub fn invalidate_session(&mut self, token: &str)
        requires
            old(self).wf(),
        ensures
            final(self).wf(),
            final(self).users == old(self).users,
            final(self).devices == old(self).devices,
            final(self).pending == old(self).pending,
            final(self).files == old(self).files,
            final(self).next_pending_id == old(self).next_pending_id,
            !old(self).spec_has_session(key_hash_of(token@)) ==> final(self).sessions == old(self).sessions,
            old(self).spec_has_session(key_hash_of(token@)) ==> final(self).sessions@ == old(self).sessions@.update(
                old(self).spec_session_idx(key_hash_of(token@)),
                Session { is_valid: false, ..old(self).spec_session(key_hash_of(token@)) },
            ),
    {
        let token_hash = hash_access_key(token);
        match self.find_session(token_hash.as_str()) {
            Some(i) => {
                proof {
                    self.lemma_session_idx(i as int);
                }
                self.sessions[i].is_valid = false;
                proof {
                    assert(self.sessions@ =~= old(self).sessions@.update(
                        i as int,
                        Session {
                            is_valid: false,
                            ..old(self).spec_session(key_hash_of(token@))
                        },
                    ));
                    assert(token_hashes_unique(self.sessions@)) by {
                        assert(forall|k: int|
                            0 <= k < self.sessions@.len() ==> self.sessions@[k].token_hash@ == old(self).sessions@[k].token_hash@);
                    }
                }
            },
            None => (),
        }
    }

    /// Invalidate every session of a user.
    pub fn invalidate_all_user_sessions(&mut self, user_id: &str)
        requires
            old(self).wf(),
        ensures
            final(self).wf(),
            final(self).users == old(self).users,
            final(self).devices == old(self).devices,
            final(self).pending == old(self).pending,
            final(self).files == old(self).files,
            final(self).next_pending_id == old(self).next_pending_id,
            sessions_invalidated_for_user(old(self).sessions@, final(self).sessions@, user_id@),
    {
        let n = self.sessions.len();
        let mut k: usize = 0;
        while k < n
            invariant
                n == self.sessions@.len(),
                k <= n,
                forall|m: int|
                    0 <= m < k ==> self.sessions@[m] == (if old(self).sessions@[m].user_id@
                        == user_id@ {
                        Session { is_valid: false, ..old(self).sessions@[m] }
                    } else {
                        old(self).sessions@[m]
                    }),
                forall|m: int| k <= m < n ==> self.sessions@[m] == old(self).sessions@[m],
                self.users == old(self).users,
                self.devices == old(self).devices,
                self.pending == old(self).pending,
                self.files == old(self).files,
                self.next_pending_id == old(self).next_pending_id,
            decreases n - k,
        {
            if str_eq(self.sessions[k].user_id.as_str(), user_id) {
                self.sessions[k].is_valid = false;
            }
            k = k + 1;
        }
        proof {
            assert(token_hashes_unique(self.sessions@)) by {
                assert(forall|m: int|
                    0 <= m < self.sessions@.len() ==> self.sessions@[m].token_hash@ == old(self).sessions@[m].token_hash@);
            }
        }
    }

    fn find_pending(&self, message_id: &str) -> (r: Option<usize>)
        ensures
            match r {
                Some(i) => 0 <= i < self.pending@.len() && self.pending@[i as int].message_id@
                    == message_id@,
                None => !self.spec_has_pending(message_id@),
            },
    {
        let n = self.pending.len();
        let mut i: usize = 0;
        while i < n
            invariant
                n == self.pending@.len(),
                i <= n,
                forall|j: int| 0 <= j < i ==> self.pending@[j].message_id@ != message_id@,
            decreases n - i,
        {
            if str_eq(self.pending[i].message_id.as_str(), message_id) {
                return Some(i);
            }
            i = i + 1;
        }
        None
    }

    /// Spool an envelope for later delivery: the row expires `ttl_hours`
    /// after `now` and is placed so the spool stays sorted by creation time
    /// (after every row created at or before `now`). A duplicate message id
    /// is rejected.
    pub fn store_pending_message(&mut self, envelope: &MessageEnvelope, ttl_hours: i64, now: i64) -> (r:
        Result<(), AppError>)
        requires
            old(self).wf(),
            0 <= ttl_hours,
            0 <= now,
            now + ttl_hours * 3600 <= i64::MAX,
            old(self).next_pending_id < i64::MAX,
        ensures
            final(self).wf(),
            final(self).users == old(self).users,
            final(self).devices == old(self).devices,
            final(self).sessions == old(self).sessions,
            final(self).files == old(self).files,
            old(self).spec_has_pending(envelope.message_id@) ==> r is Err && ((r->Err_0)
                is Database) && final(self).pending == old(self).pending && final(self).next_pending_id == old(self).next_pending_id,
            !old(self).spec_has_pending(envelope.message_id@) ==> r is Ok && spec_spooled(
                *old(self),
                *final(self),
                *envelope,
                ttl_hours,
                now,
            ),
    {
        if self.find_pending(envelope.message_id.as_str()).is_some() {
            return Err(AppError::Database("duplicate message id".to_owned()));
        }
        let n = self.pending.len();
        let mut pos: usize = 0;
        while pos < n && self.pending[pos].created_at <= now
            invariant
                n == self.pending@.len(),
                pos <= n,
                forall|j: int| 0 <= j < pos ==> self.pending@[j].created_at <= now,
            decreases n - pos,
        {
            pos = pos + 1;
        }
        proof {
            assert forall|j: int|
                pos <= j < self.pending@.len() implies self.pending@[j].created_at > now by {
                if j > pos {
                    assert(self.pending@[pos as int].created_at <= self.pending@[j].created_at);
                }
            }
        }
        let row = PendingMessage {
            id: self.next_pending_id,
            message_id: envelope.message_id.clone(),
            sender_id: envelope.sender_id.clone(),
            recipient_id: envelope.recipient_id.clone(),
            recipient_device_id: crate::models::clone_opt_string(&envelope.recipient_device_id),
            encrypted_content: envelope.encrypted_content.clone(),
            message_type: envelope.message_type.to_string(),
            created_at: now,
            expires_at: now + ttl_hours * 3600,
        };
        self.pending.insert(pos, row);
        self.next_pending_id = self.next_pending_id + 1;
        proof {
            let p = self.pending@;
            let o = old(self).pending@;
            assert forall|i: int, j: int| 0 <= i < j < p.len() implies p[i].message_id@
                != p[j].message_id@ by {
                if i == pos {
                    assert(!old(self).spec_has_pending(envelope.message_id@));
                    assert(p[j] == o[j - 1]);
                } else if j == pos {
                    assert(!old(self).spec_has_pending(envelope.message_id@));
                    assert(p[i] == o[i]);
                } else {
                    let i0: int = if i < pos { i } else { i - 1 };
                    let j0: int = if j < pos { j } else { j - 1 };
                    assert(p[i] == o[i0] && p[j] == o[j0]);
                    assert(o[i0].message_id@ != o[j0].message_id@);
                }
            }
            assert forall|i: int, j: int| 0 <= i < j < p.len() implies p[i].created_at
                <= p[j].created_at by {
                if i == pos {
                    assert(p[j] == o[j - 1]);
                } else if j == pos {
                    assert(p[i] == o[i]);
                } else {
                    let i0: int = if i < pos { i } else { i - 1 };
                    let j0: int = if j < pos { j } else { j - 1 };
                    assert(p[i] == o[i0] && p[j] == o[j0]);
                }
            }
            assert forall|i: int| 0 <= i < p.len() implies p[i].id < self.next_pending_id by {
                if i != pos {
                    let i0: int = if i < pos { i } else { i - 1 };
                    assert(p[i] == o[i0]);
                }
            }
            if !old(self).spec_has_pending(envelope.message_id@) {
                let pz = pos as int;
                assert(p[pz] == PendingMessage {
                    id: old(self).next_pending_id,
                    message_id: p[pz].message_id,
                    sender_id: p[pz].sender_id,
                    recipient_id: p[pz].recipient_id,
                    recipient_device_id: envelope.recipient_device_id,
                    encrypted_content: p[pz].encrypted_content,
                    message_type: p[pz].message_type,
                    created_at: now,
                    expires_at: (now + ttl_hours * 3600) as i64,
                });
                assert(0 <= pz <= o.len() && (forall|j: int|
                    0 <= j < pz ==> o[j].created_at <= now) && (forall|j: int|
                    pz <= j < o.len() ==> o[j].created_at > now) && p == o.insert(
                    pz,
                    PendingMessage {
                        id: old(self).next_pending_id,
                        message_id: p[pz].message_id,
                        sender_id: p[pz].sender_id,
                        recipient_id: p[pz].recipient_id,
                        recipient_device_id: envelope.recipient_device_id,
                        encrypted_content: p[pz].encrypted_content,
                        message_type: p[pz].message_type,
                        created_at: now,
                        expires_at: (now + ttl_hours * 3600) as i64,
                    },
                ));
            }
        }
        Ok(())
    }

    /// The pending envelopes visible to a recipient (optionally narrowed to
    /// one device), oldest first.
    pub fn get_pending_messages(&self, user_id: &str, device_id: Option<&str>, now: i64) -> (r:
        Vec<PendingMessage>)
        ensures
            r@ == pending_for(
                self.pending@,
                user_id@,
                match device_id {
                    Some(d) => Some(d@),
                    None => None,
                },
                now,
            ),
    {
        let ghost dview: Option<Seq<char>> = match device_id {
            Some(d) => Some(d@),
            None => None,
        };
        let ghost p = pending_visible_pred(user_id@, dview, now);
        let mut r: Vec<PendingMessage> = Vec::new();
        let n = self.pending.len();
        let mut i: usize = 0;
        while i < n
            invariant
                n == self.pending@.len(),
                i <= n,
                p == pending_visible_pred(user_id@, dview, now),
                dview == match device_id {
                    Some(d) => Some(d@),
                    None => None,
                },
                r@ =~= self.pending@.take(i as int).filter(p),
            decreases n - i,
        {
            proof {
                reveal(Seq::filter);
                assert(self.pending@.take(i + 1).drop_last() =~= self.pending@.take(i as int));
            }
            let row = &self.pending[i];
            let mut visible = str_eq(row.recipient_id.as_str(), user_id) && row.expires_at > now;
            if visible {
                match (device_id, &row.recipient_device_id) {
                    (Some(d), Some(rd)) => {
                        visible = str_eq(rd.as_str(), d);
                    },
                    _ => (),
                }
            }
            if visible {
                r.push(self.pending[i].clone());
            }
            i = i + 1;
        }
        proof {
            assert(self.pending@.take(n as int) =~= self.pending@);
        }
        r
    }

    /// Remove the spool rows whose message ids are listed (acknowledge).
    pub fn delete_pending_messages(&mut self, message_ids: &Vec<String>)
        requires
            old(self).wf(),
        ensures
            final(self).wf(),
            final(self).users == old(self).users,
            final(self).devices == old(self).devices,
            final(self).sessions == old(self).sessions,
            final(self).files == old(self).files,
            final(self).next_pending_id == old(self).next_pending_id,
            final(self).pending@ == pending_without_ids(old(self).pending@, message_ids@),
    {
        let ghost p = keep_unacked_pred(message_ids@);
        let mut kept: Vec<PendingMessage> = Vec::new();
        let n = self.pending.len();
        let mut i: usize = 0;
        while i < n
            invariant
                n == self.pending@.len(),
                i <= n,
                p == keep_unacked_pred(message_ids@),
                kept@ =~= self.pending@.take(i as int).filter(p),
            decreases n - i,
        {
            proof {
                reveal(Seq::filter);
                assert(self.pending@.take(i + 1).drop_last() =~= self.pending@.take(i as int));
            }
            if !contains_id(message_ids, self.pending[i].message_id.as_str()) {
                kept.push(self.pending[i].clone());
            }
            i = i + 1;
        }
        proof {
            assert(self.pending@.take(n as int) =~= self.pending@);
            lemma_filter_distinct_by(old(self).pending@, p, |x: PendingMessage| x.message_id@);
            lemma_filter_sorted_by(old(self).pending@, p, |x: PendingMessage| x.created_at as int);
            lemma_filter_bounded_by(
                old(self).pending@,
                p,
                |x: PendingMessage| x.id as int,
                old(self).next_pending_id as int,
            );
        }
        self.pending = kept;
    }

    /// How many envelopes sit in the spool.
    pub fn count_pending_messages(&self) -> (r: usize)
        ensures
            r == self.pending@.len(),
    {
        self.pending.len()
    }

    fn find_file(&self, file_id: &str) -> (r: Option<usize>)
        ensures
            match r {
                Some(i) => 0 <= i < self.files@.len() && self.files@[i as int].file_id@
                    == file_id@,
                None => !self.spec_has_file(file_id@),
            },
    {
        let n = self.files.len();
        let mut i: usize = 0;
        while i < n
            invariant
                n == self.files@.len(),
                i <= n,
                forall|j: int| 0 <= j < i ==> self.files@[j].file_id@ != file_id@,
            decreases n - i,
        {
            if str_eq(self.files[i].file_id.as_str(), file_id) {
                return Some(i);
            }
            i = i + 1;
        }
        None
    }

    /// Record file metadata under a freshly generated id; the row expires
    /// `ttl_hours` after `now`. Fails only if the generated id collides.
    pub fn create_file_metadata(
        &mut self,
        uploader_id: &str,
        file_name: &str,
        file_size: i64,
        mime_type: &str,
        encryption_key_hash: &str,
        ttl_hours: i64,
        now: i64,
    ) -> (r: Result<String, AppError>)
        requires
            old(self).wf(),
            file_size >= 0,
            0 <= ttl_hours,
            0 <= now,
            now + ttl_hours * 3600 <= i64::MAX,
        ensures
            final(self).wf(),
            final(self).users == old(self).users,
            final(self).devices == old(self).devices,
            final(self).sessions == old(self).sessions,
            final(self).pending == old(self).pending,
            final(self).next_pending_id == old(self).next_pending_id,
            r is Err ==> final(self).files == old(self).files && ((r->Err_0) is Database),
            r is Ok ==> !old(self).spec_has_file(r.unwrap()@) && final(self).files@ == old(self).files@.push(final(self).files@.last()) && final(self).files@.last() == (FileMetadata {
                file_id: final(self).files@.last().file_id,
                uploader_id: final(self).files@.last().uploader_id,
                file_name: final(self).files@.last().file_name,
                file_size: file_size,
                mime_type: final(self).files@.last().mime_type,
                encryption_key_hash: final(self).files@.last().encryption_key_hash,
                created_at: now,
                expires_at: (now + ttl_hours * 3600) as i64,
                download_count: 0,
            }) && final(self).files@.last().file_id@ == r.unwrap()@ && final(self).files@.last().uploader_id@ == uploader_id@ && final(self).files@.last().file_name@
                == file_name@ && final(self).files@.last().mime_type@ == mime_type@ && final(self).files@.last().encryption_key_hash@ == encryption_key_hash@,
    {
        let file_id = crate::crypto::generate_file_id();
        if self.find_file(file_id.as_str()).is_some() {
            return Err(AppError::Database("file id collision".to_owned()));
        }
        let row = FileMetadata {
            file_id: file_id.clone(),
            uploader_id: uploader_id.to_owned(),
            file_name: file_name.to_owned(),
            file_size,
            mime_type: mime_type.to_owned(),
            encryption_key_hash: encryption_key_hash.to_owned(),
            created_at: now,
            expires_at: now + ttl_hours * 3600,
            download_count: 0,
        };
        self.files.push(row);
        proof {
            assert forall|i: int, j: int|
                0 <= i < j < self.files@.len() implies self.files@[i].file_id@
                != self.files@[j].file_id@ by {
                if j == self.files@.len() - 1 {
                    assert(!old(self).spec_has_file(file_id@));
                }
            }
        }
        Ok(file_id)
    }

    /// The file row with this id, if it exists and is not expired at `now`.
    pub fn get_file_metadata(&self, file_id: &str, now: i64) -> (r: Option<FileMetadata>)
        requires
            self.wf(),
        ensures
            r is Some <==> (self.spec_has_file(file_id@) && self.spec_file(file_id@).expires_at
                > now),
            r is Some ==> r.unwrap() == self.spec_file(file_id@),
    {
        match self.find_file(file_id) {
            Some(i) => {
                proof {
                    self.lemma_file_idx(i as int);
                }
                if self.files[i].expires_at > now {
                    Some(self.files[i].clone())
                } else {
                    None
                }
            },
            None => None,
        }
    }

    /// Bump a file's download counter (saturating at the counter's maximum).
    pub fn increment_download_count(&mut self, file_id: &str)
        requires
            old(self).wf(),
        ensures
            final(self).wf(),
            final(self).users == old(self).users,
            final(self).devices == old(self).devices,
            final(self).sessions == old(self).sessions,
            final(self).pending == old(self).pending,
            final(self).next_pending_id == old(self).next_pending_id,
            !old(self).spec_has_file(file_id@) ==> final(self).files == old(self).files,
            old(self).spec_has_file(file_id@) ==> final(self).files@ == old(self).files@.update(
                old(self).spec_file_idx(file_id@),
                FileMetadata {
                    download_count: if old(self).spec_file(file_id@).download_count < i32::MAX {
                        (old(self).spec_file(file_id@).download_count + 1) as i32
                    } else {
                        i32::MAX
                    },
                    ..old(self).spec_file(file_id@)
                },
            ),
    {
        match self.find_file(file_id) {
            Some(i) => {
                proof {
                    self.lemma_file_idx(i as int);
                }
                if self.files[i].download_count < i32::MAX {
                    self.files[i].download_count = self.files[i].download_count + 1;
                }
                proof {
                    assert(self.files@ =~= old(self).files@.update(
                        i as int,
                        FileMetadata {
                            download_count: if old(self).spec_file(
                                file_id@,
                            ).download_count < i32::MAX {
                                (old(self).spec_file(file_id@).download_count + 1) as i32
                            } else {
                                i32::MAX
                            },
                            ..old(self).spec_file(file_id@)
                        },
                    ));
                    assert(file_ids_unique(self.files@)) by {
                        assert(forall|k: int|
                            0 <= k < self.files@.len() ==> self.files@[k].file_id@ == old(self).files@[k].file_id@);
                    }
                    assert(forall|k: int|
                        0 <= k < self.files@.len() ==> self.files@[k].file_size == old(self).files@[k].file_size);
                }
            },
            None => (),
        }
    }

    /// Remove a file's metadata row. The uploader check is the caller's.
    pub fn delete_file_metadata(&mut self, file_id: &str)
        requires
            old(self).wf(),
        ensures
            final(self).wf(),
            final(self).users == old(self).users,
            final(self).devices == old(self).devices,
            final(self).sessions == old(self).sessions,
            final(self).pending == old(self).pending,
            final(self).next_pending_id == old(self).next_pending_id,
            final(self).files@ == files_without(old(self).files@, file_id@),
            !final(self).spec_has_file(file_id@),
    {
        let ghost p = keep_file_id_pred(file_id@);
        let mut kept: Vec<FileMetadata> = Vec::new();
        let n = self.files.len();
        let mut i: usize = 0;
        while i < n
            invariant
                n == self.files@.len(),
                i <= n,
                p == keep_file_id_pred(file_id@),
                kept@ =~= self.files@.take(i as int).filter(p),
            decreases n - i,
        {
            proof {
                reveal(Seq::filter);
                assert(self.files@.take(i + 1).drop_last() =~= self.files@.take(i as int));
            }
            if !str_eq(self.files[i].file_id.as_str(), file_id) {
                kept.push(self.files[i].clone());
            }
            i = i + 1;
        }
        proof {
            assert(self.files@.take(n as int) =~= self.files@);
            lemma_filter_distinct_by(old(self).files@, p, |f: FileMetadata| f.file_id@);
            lemma_filter_bounded_by(old(self).files@, p, |f: FileMetadata| -f.file_size as int, 1);
        }
        self.files = kept;
        proof {
            if self.spec_has_file(file_id@) {
                let w = self.spec_file_idx(file_id@);
                lemma_filter_elem_from(old(self).files@, p, w);
            }
        }
    }

    /// How many file rows are stored.
    pub fn count_files(&self) -> (r: usize)
        ensures
            r == self.files@.len(),
    {
        self.files.len()
    }

    /// The total size of the stored files, clamped to the i64 range.
    pub fn get_total_file_size(&self) -> (r: i64)
        requires
            self.wf(),
        ensures
            r == clamp_to_i64(sum_file_sizes(self.files@)),
    {
        let mut acc: i128 = 0;
        let n = self.files.len();
        let mut i: usize = 0;
        proof {
            assert(self.files@.take(0) =~= Seq::<FileMetadata>::empty());
        }
        while i < n
            invariant
                self.wf(),
                n == self.files@.len(),
                i <= n,
                acc == sum_file_sizes(self.files@.take(i as int)),
                0 <= acc <= (i as int) * (i64::MAX as int),
            decreases n - i,
        {
            proof {
                assert(self.files@.take(i + 1).drop_last() =~= self.files@.take(i as int));
                assert(self.files@[i as int].file_size >= 0);
            }
            acc = acc + self.files[i].file_size as i128;
            i = i + 1;
        }
        proof {
            assert(self.files@.take(n as int) =~= self.files@);
        }
        if acc > i64::MAX as i128 {
            i64::MAX
        } else {
            acc as i64
        }
    }

    /// One reaper pass at `now`: expired envelopes go, expired files go, and
    /// sessions that are expired or invalid go. Returns how many envelopes
    /// and how many files were removed.
    pub fn cleanup_expired(&mut self, now: i64) -> (r: (usize, usize))
        requires
            old(self).wf(),
        ensures
            final(self).wf(),
            final(self).users == old(self).users,
            final(self).devices == old(self).devices,
            final(self).next_pending_id == old(self).next_pending_id,
            final(self).pending@ == old(self).pending@.filter(keep_live_pending_pred(now)),
            final(self).files@ == old(self).files@.filter(keep_live_file_pred(now)),
            final(self).sessions@ == old(self).sessions@.filter(keep_live_session_pred(now)),
            r.0 == old(self).pending@.len() - final(self).pending@.len(),
            r.1 == old(self).files@.len() - final(self).files@.len(),
    {
        let ghost pp = keep_live_pending_pred(now);
        let mut kept_pending: Vec<PendingMessage> = Vec::new();
        let np = self.pending.len();
        let mut i: usize = 0;
        while i < np
            invariant
                np == self.pending@.len(),
                i <= np,
                pp == keep_live_pending_pred(now),
                kept_pending@ =~= self.pending@.take(i as int).filter(pp),
            decreases np - i,
        {
            proof {
                reveal(Seq::filter);
                assert(self.pending@.take(i + 1).drop_last() =~= self.pending@.take(i as int));
            }
            if self.pending[i].expires_at > now {
                kept_pending.push(self.pending[i].clone());
            }
            i = i + 1;
        }
        proof {
            assert(self.pending@.take(np as int) =~= self.pending@);
        }
        let ghost pf = keep_live_file_pred(now);
        let mut kept_files: Vec<FileMetadata> = Vec::new();
        let nf = self.files.len();
        let mut j: usize = 0;
        while j < nf
            invariant
                nf == self.files@.len(),
                j <= nf,
                pf == keep_live_file_pred(now),
                kept_files@ =~= self.files@.take(j as int).filter(pf),
            decreases nf - j,
        {
            proof {
                reveal(Seq::filter);
                assert(self.files@.take(j + 1).drop_last() =~= self.files@.take(j as int));
            }
            if self.files[j].expires_at > now {
                kept_files.push(self.files[j].clone());
            }
            j = j + 1;
        }
        proof {
            assert(self.files@.take(nf as int) =~= self.files@);
        }
        let ghost ps = keep_live_session_pred(now);
        let mut kept_sessions: Vec<Session> = Vec::new();
        let ns = self.sessions.len();
        let mut k: usize = 0;
        while k < ns
            invariant
                ns == self.sessions@.len(),
                k <= ns,
                ps == keep_live_session_pred(now),
                kept_sessions@ =~= self.sessions@.take(k as int).filter(ps),
            decreases ns - k,
        {
            proof {
                reveal(Seq::filter);
                assert(self.sessions@.take(k + 1).drop_last() =~= self.sessions@.take(k as int));
            }
            if self.sessions[k].expires_at > now && self.sessions[k].is_valid {
                kept_sessions.push(self.sessions[k].clone());
            }
            k = k + 1;
        }
        proof {
            assert(self.sessions@.take(ns as int) =~= self.sessions@);
            lemma_filter_distinct_by(
                old(self).pending@,
                pp,
                |x: PendingMessage| x.message_id@,
            );
            lemma_filter_sorted_by(old(self).pending@, pp, |x: PendingMessage| x.created_at as int);
            lemma_filter_bounded_by(
                old(self).pending@,
                pp,
                |x: PendingMessage| x.id as int,
                old(self).next_pending_id as int,
            );
            lemma_filter_distinct_by(old(self).files@, pf, |f: FileMetadata| f.file_id@);
            lemma_filter_bounded_by(old(self).files@, pf, |f: FileMetadata| -f.file_size as int, 1);
            lemma_filter_distinct_by(old(self).sessions@, ps, |x: Session| x.token_hash@);
            old(self).pending@.lemma_filter_len(pp);
            old(self).files@.lemma_filter_len(pf);
        }
        let removed_pending = np - kept_pending.len();
        let removed_files = nf - kept_files.len();
        self.pending = kept_pending;
        self.files = kept_files;
        self.sessions = kept_sessions;
        (removed_pending, removed_files)
    }

    /// Counts for the admin: totals, actives, the spool, files and bytes.
    /// The live connection count is the registry's and is passed in.
    pub fn get_stats(&self, online_users: i64) -> (r: ServerStats)
        requires
            self.wf(),
        ensures
            r.total_users == clamp_to_i64(self.users@.len() as int),
            r.active_users == clamp_to_i64(self.users@.filter(active_user_pred()).len() as int),
            r.online_users == online_users,
            r.pending_messages == clamp_to_i64(self.pending@.len() as int),
            r.stored_files == clamp_to_i64(self.files@.len() as int),
            r.storage_used_bytes == clamp_to_i64(sum_file_sizes(self.files@)),
    {
        let ghost p = active_user_pred();
        let mut active: usize = 0;
        let n = self.users.len();
        let mut i: usize = 0;
        while i < n
            invariant
                n == self.users@.len(),
                i <= n,
                p == active_user_pred(),
                active == self.users@.take(i as int).filter(p).len(),
                active <= i,
            decreases n - i,
        {
            proof {
                reveal(Seq::filter);
                assert(self.users@.take(i + 1).drop_last() =~= self.users@.take(i as int));
                self.users@.take(i + 1).lemma_filter_len(p);
            }
            if self.users[i].is_active {
                active = active + 1;
            }
            i = i + 1;
        }
        proof {
            assert(self.users@.take(n as int) =~= self.users@);
        }
        ServerStats {
            total_users: clamp_usize_to_i64(self.users.len()),
            active_users: clamp_usize_to_i64(active),
            online_users,
            pending_messages: clamp_usize_to_i64(self.pending.len()),
            stored_files: clamp_usize_to_i64(self.files.len()),
            storage_used_bytes: self.get_total_file_size(),
        }
    }
}

/// The predicate selecting active user rows.
pub open spec fn active_user_pred() -> spec_fn(User) -> bool {
    |u: User| u.is_active
}

/// A count clamped into the i64 range.
fn clamp_usize_to_i64(n: usize) -> (r: i64)
    ensures
        r == clamp_to_i64(n as int),
{
    if n as u64 > i64::MAX as u64 {
        i64::MAX
    } else {
        n as i64
    }
}

/// Ordered delivery: what a pending fetch returns is sorted by creation
/// time, oldest first — the spool is sorted and filtering keeps order.
pub proof fn lemma_pending_fetch_ordered(
    s: Storage,
    user: Seq<char>,
    device: Option<Seq<char>>,
    now: i64,
)
    requires
        s.wf(),
    ensures
        forall|i: int, j: int|
            0 <= i < j < pending_for(s.pending@, user, device, now).len() ==> pending_for(
                s.pending@,
                user,
                device,
                now,
            )[i].created_at <= pending_for(s.pending@, user, device, now)[j].created_at,
{
    lemma_filter_sorted_by(
        s.pending@,
        pending_visible_pred(user, device, now),
        |x: PendingMessage| x.created_at as int,
    );
}

/// Offline delivery: an envelope spooled at `now` is visible to its
/// recipient's fetches (for the targeted device, or any fetch when
/// untargeted) until it expires.
pub proof fn lemma_spooled_visible(
    s0: Storage,
    s1: Storage,
    envelope: MessageEnvelope,
    ttl_hours: i64,
    now: i64,
    fetch_now: i64,
    device: Option<Seq<char>>,
)
    requires
        spec_spooled(s0, s1, envelope, ttl_hours, now),
        0 <= ttl_hours,
        0 <= now,
        now + ttl_hours * 3600 <= i64::MAX,
        fetch_now < now + ttl_hours * 3600,
        envelope.recipient_device_id is None || device is None || (
        envelope.recipient_device_id.unwrap()@ == device.unwrap()),
    ensures
        exists|k: int|
            0 <= k < pending_for(s1.pending@, envelope.recipient_id@, device, fetch_now).len()
                && #[trigger] pending_for(
                s1.pending@,
                envelope.recipient_id@,
                device,
                fetch_now,
            )[k].message_id@ == envelope.message_id@,
{
    let p = pending_visible_pred(envelope.recipient_id@, device, fetch_now);
    let pos = choose|pos: int|
        0 <= pos <= s0.pending@.len() && (forall|j: int|
            0 <= j < pos ==> s0.pending@[j].created_at <= now) && (forall|j: int|
            pos <= j < s0.pending@.len() ==> s0.pending@[j].created_at > now) && s1.pending@
            == s0.pending@.insert(
            pos,
            PendingMessage {
                id: s0.next_pending_id,
                message_id: s1.pending@[pos].message_id,
                sender_id: s1.pending@[pos].sender_id,
                recipient_id: s1.pending@[pos].recipient_id,
                recipient_device_id: envelope.recipient_device_id,
                encrypted_content: s1.pending@[pos].encrypted_content,
                message_type: s1.pending@[pos].message_type,
                created_at: now,
                expires_at: (now + ttl_hours * 3600) as i64,
            },
        ) && s1.pending@[pos].message_id@ == envelope.message_id@ && s1.pending@[pos].sender_id@
            == envelope.sender_id@ && s1.pending@[pos].recipient_id@ == envelope.recipient_id@
            && s1.pending@[pos].encrypted_content@ == envelope.encrypted_content@
            && s1.pending@[pos].message_type@ == message_type_str(envelope.message_type);
    assert(p(s1.pending@[pos]));
    s1.pending@.lemma_filter_contains(p, pos);
    let row = s1.pending@[pos];
    let filtered = s1.pending@.filter(p);
    assert(filtered.contains(row));
    let k = choose|k: int| 0 <= k < filtered.len() && filtered[k] == row;
    assert(pending_for(s1.pending@, envelope.recipient_id@, device, fetch_now) == filtered);
    assert(0 <= k < pending_for(s1.pending@, envelope.recipient_id@, device, fetch_now).len()
        && pending_for(s1.pending@, envelope.recipient_id@, device, fetch_now)[k].message_id@
        == envelope.message_id@);
}

/// Retention: a spool row whose message id was not acknowledged survives an
/// acknowledgement — rows leave the spool only by their own ack (or expiry).
pub proof fn lemma_unacked_stays(s: Seq<PendingMessage>, ids: Seq<String>, k: int)
    requires
        0 <= k < s.len(),
        !id_in(ids, s[k].message_id@),
    ensures
        pending_without_ids(s, ids).contains(s[k]),
{
    let p = keep_unacked_pred(ids);
    assert(p(s[k]));
    s.lemma_filter_contains(p, k);
}

/// Reaper idempotence: on a quiescent store — nothing expired, no invalid
/// session — one reaper pass changes nothing and removes nothing.
pub proof fn lemma_reaper_idempotent(s: Storage, now: i64)
    requires
        forall|i: int| 0 <= i < s.pending@.len() ==> #[trigger] s.pending@[i].expires_at > now,
        forall|i: int| 0 <= i < s.files@.len() ==> #[trigger] s.files@[i].expires_at > now,
        forall|i: int|
            0 <= i < s.sessions@.len() ==> #[trigger] s.sessions@[i].expires_at > now
                && s.sessions@[i].is_valid,
    ensures
        s.pending@.filter(keep_live_pending_pred(now)) == s.pending@,
        s.files@.filter(keep_live_file_pred(now)) == s.files@,
        s.sessions@.filter(keep_live_session_pred(now)) == s.sessions@,
{
    assert(forall|i: int|
        0 <= i < s.pending@.len() ==> keep_live_pending_pred(now)(#[trigger] s.pending@[i]));
    lemma_filter_all(s.pending@, keep_live_pending_pred(now));
    assert(forall|i: int|
        0 <= i < s.files@.len() ==> keep_live_file_pred(now)(#[trigger] s.files@[i]));
    lemma_filter_all(s.files@, keep_live_file_pred(now));
    assert(forall|i: int|
        0 <= i < s.sessions@.len() ==> keep_live_session_pred(now)(#[trigger] s.sessions@[i]));
    lemma_filter_all(s.sessions@, keep_live_session_pred(now));
}

/// Account deletion kills access: after a user's sessions are removed by
/// deletion, no token whose session belonged to that user validates.
pub proof fn lemma_delete_user_rejects_sessions(
    s0: Storage,
    s1: Storage,
    user_id: Seq<char>,
    token: Seq<char>,
    now: i64,
)
    requires
        s0.wf(),
        s1.sessions@ == sessions_without_user(s0.sessions@, user_id),
        s0.spec_has_session(crate::crypto::key_hash_of(token)),
        s0.spec_session(crate::crypto::key_hash_of(token)).user_id@ == user_id,
    ensures
        !s1.spec_session_live(token, now),
{
    let th = crate::crypto::key_hash_of(token);
    let p = keep_session_pred(user_id);
    if s1.spec_has_session(th) {
        let j = s1.spec_session_idx(th);
        assert(0 <= j < s1.sessions@.len() && s1.sessions@[j].token_hash@ == th);
        lemma_filter_elem_from(s0.sessions@, p, j);
        let m = choose|m: int|
            0 <= m < s0.sessions@.len() && s0.sessions@[m] == s1.sessions@[j];
        s0.sessions@.lemma_filter_pred(p, j);
        s0.lemma_session_idx(m);
        assert(s0.sessions@[m].user_id@ == user_id);
        assert(false);
    }
}

/// Whether the id occurs in the list.
fn contains_id(ids: &Vec<String>, id: &str) -> (r: bool)
    ensures
        r == id_in(ids@, id@),
{
    let n = ids.len();
    let mut i: usize = 0;
    while i < n
        invariant
            n == ids@.len(),
            i <= n,
            forall|j: int| 0 <= j < i ==> ids@[j]@ != id@,
        decreases n - i,
    {
        if str_eq(ids[i].as_str(), id) {
            return true;
        }
        i = i + 1;
    }
    false
}

} // verus!
