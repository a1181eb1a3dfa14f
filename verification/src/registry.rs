//! The live connection registry: which devices are connected, owned by which
//! user, and with which outbound channel. Fanout enqueues a copy of a frame
//! on every targeted device's channel and reports the targeted device ids;
//! a failed enqueue (the socket's writer is gone) is tolerated.
//!
//! A device id maps to at most one live connection: registering a device
//! that is already present displaces the prior entry.

use vstd::prelude::*;

verus! {

use crate::encoding::str_eq;
use crate::models::{WsServerMessage, PresenceStatus};
use crate::storage::{lemma_filter_all, lemma_filter_elem_from};

/// Declares tokio's mpsc UnboundedSender so connections can hold one; the
/// value is opaque here.
#[verifier::external_type_specification]
#[verifier::external_body]
#[verifier::reject_recursive_types(T)]
pub struct ExUnboundedSender<T>(tokio::sync::mpsc::UnboundedSender<T>);

/// Relies on tokio's mpsc UnboundedSender::send: enqueues the message for
/// the receiving task; returns whether the receiver was still there. Nothing
/// more is promised of the channel's state.
#[verifier::external_body]
fn ws_send(
    sender: &tokio::sync::mpsc::UnboundedSender<WsServerMessage>,
    message: WsServerMessage,
) -> (r: bool) {
    sender.send(message).is_ok()
}

/// One live socket: its authenticated user, its device, and the channel the
/// socket's writer task drains.
pub struct Connection {
    pub user_id: String,
    pub device_id: String,
    pub sender: tokio::sync::mpsc::UnboundedSender<WsServerMessage>,
}

/// The predicate selecting a user's connections.
pub open spec fn conns_of_pred(user_id: Seq<char>) -> spec_fn(Connection) -> bool {
    |c: Connection| c.user_id@ == user_id
}

/// A user's connections, oldest registration first.
pub open spec fn connections_of(s: Seq<Connection>, user_id: Seq<char>) -> Seq<Connection> {
    s.filter(conns_of_pred(user_id))
}

/// The predicate keeping connections whose device differs from the given one.
pub open spec fn keep_conn_pred(device_id: Seq<char>) -> spec_fn(Connection) -> bool {
    |c: Connection| c.device_id@ != device_id
}

/// Connections with the given device removed.
pub open spec fn connections_without_device(
    s: Seq<Connection>,
    device_id: Seq<char>,
) -> Seq<Connection> {
    s.filter(keep_conn_pred(device_id))
}

/// The predicate selecting a user's connections except one device.
pub open spec fn other_devices_pred(
    user_id: Seq<char>,
    exclude_device_id: Seq<char>,
) -> spec_fn(Connection) -> bool {
    |c: Connection| c.user_id@ == user_id && c.device_id@ != exclude_device_id
}

/// The device id of a connection.
pub open spec fn conn_device() -> spec_fn(Connection) -> String {
    |c: Connection| c.device_id
}

/// The device ids of a user's connections, oldest registration first.
pub open spec fn user_device_ids(s: Seq<Connection>, user_id: Seq<char>) -> Seq<String> {
    connections_of(s, user_id).map_values(conn_device())
}

/// The device ids of a user's connections except one device.
pub open spec fn other_device_ids(
    s: Seq<Connection>,
    user_id: Seq<char>,
    exclude_device_id: Seq<char>,
) -> Seq<String> {
    s.filter(other_devices_pred(user_id, exclude_device_id)).map_values(conn_device())
}

/// The predicate selecting connections of every user but one.
pub open spec fn not_user_pred(user_id: Seq<char>) -> spec_fn(Connection) -> bool {
    |c: Connection| c.user_id@ != user_id
}

/// The device ids of every connection not owned by the given user.
pub open spec fn other_users_device_ids(s: Seq<Connection>, user_id: Seq<char>) -> Seq<String> {
    s.filter(not_user_pred(user_id)).map_values(conn_device())
}

/// Whether device ids are pairwise distinct.
pub open spec fn conn_devices_unique(s: Seq<Connection>) -> bool {
    forall|i: int, j: int| 0 <= i < j < s.len() ==> s[i].device_id@ != s[j].device_id@
}

/// Removing the only index holding a device equals filtering that device out.
proof fn lemma_remove_one_is_filter(s: Seq<Connection>, i: int, d: Seq<char>)
    requires
        conn_devices_unique(s),
        0 <= i < s.len(),
        s[i].device_id@ == d,
    ensures
        s.remove(i) == connections_without_device(s, d),
    decreases s.len(),
{
    reveal(Seq::filter);
    let p = keep_conn_pred(d);
    if i == s.len() - 1 {
        let dl = s.drop_last();
        assert(forall|j: int| 0 <= j < dl.len() ==> p(#[trigger] dl[j]));
        lemma_filter_all(dl, p);
        assert(s.remove(i) =~= dl);
    } else {
        let dl = s.drop_last();
        assert(conn_devices_unique(dl));
        lemma_remove_one_is_filter(dl, i, d);
        assert(s.remove(i) =~= dl.remove(i).push(s.last()));
        assert(s.filter(p) == dl.filter(p).push(s.last()));
    }
}

/// Manages every live WebSocket connection.
pub struct WebSocketManager {
    pub connections: Vec<Connection>,
}

impl WebSocketManager {
    /// Well-formedness: a device id appears at most once.
    pub open spec fn wf(self) -> bool {
        conn_devices_unique(self.connections@)
    }

    pub open spec fn spec_has_conn(self, device_id: Seq<char>) -> bool {
        exists|i: int|
            0 <= i < self.connections@.len() && self.connections@[i].device_id@ == device_id
    }

    pub open spec fn spec_conn_idx(self, device_id: Seq<char>) -> int {
        choose|i: int|
            0 <= i < self.connections@.len() && self.connections@[i].device_id@ == device_id
    }

    /// The unique connection of a device.
    pub open spec fn spec_conn(self, device_id: Seq<char>) -> Connection {
        self.connections@[self.spec_conn_idx(device_id)]
    }

    /// Whether the user has at least one live connection.
    pub open spec fn spec_user_online(self, user_id: Seq<char>) -> bool {
        exists|i: int|
            0 <= i < self.connections@.len() && self.connections@[i].user_id@ == user_id
    }

    /// An index that holds a device id is the chosen one.
    pub proof fn lemma_conn_idx(self, i: int)
        requires
            self.wf(),
            0 <= i < self.connections@.len(),
        ensures
            self.spec_has_conn(self.connections@[i].device_id@),
            self.spec_conn_idx(self.connections@[i].device_id@) == i,
    {
        let id = self.connections@[i].device_id@;
        assert(self.spec_has_conn(id));
        let j = self.spec_conn_idx(id);
        if j != i {
            if j < i {
                assert(self.connections@[j].device_id@ != self.connections@[i].device_id@);
            } else {
                assert(self.connections@[i].device_id@ != self.connections@[j].device_id@);
            }
        }
    }

    fn find_conn(&self, device_id: &str) -> (r: Option<usize>)
        ensures
            match r {
                Some(i) => 0 <= i < self.connections@.len()
                    && self.connections@[i as int].device_id@ == device_id@,
                None => !self.spec_has_conn(device_id@),
            },
    {
        let n = self.connections.len();
        let mut i: usize = 0;
        while i < n
            invariant
                n == self.connections@.len(),
                i <= n,
                forall|j: int| 0 <= j < i ==> self.connections@[j].device_id@ != device_id@,
            decreases n - i,
        {
            if str_eq(self.connections[i].device_id.as_str(), device_id) {
                return Some(i);
            }
            i = i + 1;
        }
        None
    }

    /// An empty registry.
    pub fn new() -> (r: WebSocketManager)
        ensures
            r.wf(),
            r.connections@.len() == 0,
    {
        WebSocketManager { connections: Vec::new() }
    }

    /// Register a connection; a prior entry for the same device is displaced.
    pub fn register(
        &mut self,
        user_id: &str,
        device_id: &str,
        sender: tokio::sync::mpsc::UnboundedSender<WsServerMessage>,
    )
        requires
            old(self).wf(),
        ensures
            final(self).wf(),
            final(self).connections@ == connections_without_device(
                old(self).connections@,
                device_id@,
            ).push(final(self).connections@.last()),
            final(self).connections@.last().user_id@ == user_id@,
            final(self).connections@.last().device_id@ == device_id@,
            final(self).connections@.last().sender == sender,
            final(self).spec_has_conn(device_id@),
            final(self).spec_conn(device_id@) == final(self).connections@.last(),
    {
        match self.find_conn(device_id) {
            Some(i) => {
                let _displaced = self.connections.remove(i);
                proof {
                    lemma_remove_one_is_filter(old(self).connections@, i as int, device_id@);
                }
            },
            None => {
                proof {
                    let p = keep_conn_pred(device_id@);
                    assert(forall|j: int|
                        0 <= j < self.connections@.len() ==> p(#[trigger] self.connections@[j]));
                    lemma_filter_all(self.connections@, p);
                }
            },
        }
        let ghost mid = self.connections@;
        let conn = Connection {
            user_id: user_id.to_owned(),
            device_id: device_id.to_owned(),
            sender,
        };
        self.connections.push(conn);
        proof {
            assert forall|a: int, b: int|
                0 <= a < b < self.connections@.len() implies self.connections@[a].device_id@
                != self.connections@[b].device_id@ by {
                if b == self.connections@.len() - 1 {
                    lemma_filter_elem_from(old(self).connections@, keep_conn_pred(device_id@), a);
                }
            }
            self.lemma_conn_idx(self.connections@.len() - 1);
        }
    }

    /// Remove a device's connection, if it is present.
    pub fn unregister(&mut self, device_id: &str)
        requires
            old(self).wf(),
        ensures
            final(self).wf(),
            final(self).connections@ == connections_without_device(
                old(self).connections@,
                device_id@,
            ),
            !final(self).spec_has_conn(device_id@),
    {
        match self.find_conn(device_id) {
            Some(i) => {
                let _removed = self.connections.remove(i);
                proof {
                    lemma_remove_one_is_filter(old(self).connections@, i as int, device_id@);
                }
            },
            None => {
                proof {
                    let p = keep_conn_pred(device_id@);
                    assert(forall|j: int|
                        0 <= j < self.connections@.len() ==> p(#[trigger] self.connections@[j]));
                    lemma_filter_all(self.connections@, p);
                }
            },
        }
        proof {
            let p = keep_conn_pred(device_id@);
            assert forall|a: int, b: int|
                0 <= a < b < self.connections@.len() implies self.connections@[a].device_id@
                != self.connections@[b].device_id@ by {
                lemma_filter_elem_from(old(self).connections@, p, a);
                lemma_filter_elem_from(old(self).connections@, p, b);
                let ma = choose|m: int|
                    0 <= m < old(self).connections@.len() && old(self).connections@[m]
                        == old(self).connections@.filter(p)[a];
                let mb = choose|m: int|
                    0 <= m < old(self).connections@.len() && old(self).connections@[m]
                        == old(self).connections@.filter(p)[b];
                if ma == mb {
                    assert(old(self).connections@.filter(p)[a].device_id@ == old(
                        self,
                    ).connections@.filter(p)[b].device_id@);
                    crate::storage::lemma_filter_distinct_by(
                        old(self).connections@,
                        p,
                        |c: Connection| c.device_id@,
                    );
                }
            }
            if self.spec_has_conn(device_id@) {
                let w = self.spec_conn_idx(device_id@);
                old(self).connections@.lemma_filter_pred(p, w);
            }
        }
    }

    /// Whether a user has any live connection.
    pub fn is_user_online(&self, user_id: &str) -> (r: bool)
        ensures
            r == self.spec_user_online(user_id@),
    {
        let n = self.connections.len();
        let mut i: usize = 0;
        while i < n
            invariant
                n == self.connections@.len(),
                i <= n,
                forall|j: int| 0 <= j < i ==> self.connections@[j].user_id@ != user_id@,
            decreases n - i,
        {
            if str_eq(self.connections[i].user_id.as_str(), user_id) {
                return true;
            }
            i = i + 1;
        }
        false
    }

    /// How many distinct users are online.
    pub fn online_user_count(&self) -> (r: usize)
        ensures
            r == self.connections@.map_values(|c: Connection| c.user_id@).to_set().len(),
    {
        let ghost ids = self.connections@.map_values(|c: Connection| c.user_id@);
        let mut count: usize = 0;
        let ghost mut seen = Set::<Seq<char>>::empty();
        let n = self.connections.len();
        let mut i: usize = 0;
        while i < n
            invariant
                n == self.connections@.len(),
                i <= n,
                ids == self.connections@.map_values(|c: Connection| c.user_id@),
                seen =~= ids.take(i as int).to_set(),
                seen.finite(),
                count == seen.len(),
                count <= i,
            decreases n - i,
        {
            let mut already: bool = false;
            let mut j: usize = 0;
            while j < i
                invariant
                    i < n,
                    n == self.connections@.len(),
                    j <= i,
                    already <==> exists|m: int|
                        0 <= m < j && self.connections@[m].user_id@
                            == self.connections@[i as int].user_id@,
                decreases i - j,
            {
                if str_eq(
                    self.connections[j].user_id.as_str(),
                    self.connections[i].user_id.as_str(),
                ) {
                    already = true;
                }
                j = j + 1;
            }
            proof {
                let u = self.connections@[i as int].user_id@;
                let t1 = ids.take(i + 1);
                let t0 = ids.take(i as int);
                assert(t1.to_set() =~= t0.to_set().insert(u)) by {
                    assert forall|e: Seq<char>|
                        t1.to_set().contains(e) implies t0.to_set().insert(u).contains(e) by {
                        let m = choose|m: int| 0 <= m < t1.len() && t1[m] == e;
                        if m < i {
                            assert(t0[m] == e);
                            assert(t0.contains(e));
                        }
                    }
                    assert forall|e: Seq<char>|
                        t0.to_set().insert(u).contains(e) implies t1.to_set().contains(e) by {
                        if e == u {
                            assert(t1[i as int] == e);
                            assert(t1.contains(e));
                        } else {
                            let m = choose|m: int| 0 <= m < t0.len() && t0[m] == e;
                            assert(t1[m] == e);
                            assert(t1.contains(e));
                        }
                    }
                }
                assert(already <==> seen.contains(u)) by {
                    if already {
                        let m = choose|m: int|
                            0 <= m < i && self.connections@[m].user_id@ == u;
                        assert(t0[m] == u);
                        assert(t0.contains(u));
                    } else {
                        if seen.contains(u) {
                            let m = choose|m: int| 0 <= m < t0.len() && t0[m] == u;
                            assert(self.connections@[m].user_id@ == u);
                        }
                    }
                }
                seen = seen.insert(u);
            }
            if !already {
                count = count + 1;
            }
            i = i + 1;
        }
        proof {
            assert(ids.take(n as int) =~= ids);
        }
        count
    }

    /// The device ids of a user's live connections.
    pub fn get_user_devices(&self, user_id: &str) -> (r: Vec<String>)
        ensures
            r@ == user_device_ids(self.connections@, user_id@),
    {
        let ghost p = conns_of_pred(user_id@);
        let mut r: Vec<String> = Vec::new();
        let n = self.connections.len();
        let mut i: usize = 0;
        while i < n
            invariant
                n == self.connections@.len(),
                i <= n,
                p == conns_of_pred(user_id@),
                r@ =~= self.connections@.take(i as int).filter(p).map_values(conn_device()),
            decreases n - i,
        {
            proof {
                reveal(Seq::filter);
                assert(self.connections@.take(i + 1).drop_last() =~= self.connections@.take(
                    i as int,
                ));
            }
            if str_eq(self.connections[i].user_id.as_str(), user_id) {
                r.push(self.connections[i].device_id.clone());
            }
            i = i + 1;
        }
        proof {
            assert(self.connections@.take(n as int) =~= self.connections@);
        }
        r
    }

    /// Enqueue a copy of the frame on every connection of the user; returns
    /// the device ids targeted, oldest registration first.
    pub fn send_to_user(&self, user_id: &str, message: &WsServerMessage) -> (r: Vec<String>)
        ensures
            r@ == user_device_ids(self.connections@, user_id@),
    {
        let ghost p = conns_of_pred(user_id@);
        let mut r: Vec<String> = Vec::new();
        let n = self.connections.len();
        let mut i: usize = 0;
        while i < n
            invariant
                n == self.connections@.len(),
                i <= n,
                p == conns_of_pred(user_id@),
                r@ =~= self.connections@.take(i as int).filter(p).map_values(conn_device()),
            decreases n - i,
        {
            proof {
                reveal(Seq::filter);
                assert(self.connections@.take(i + 1).drop_last() =~= self.connections@.take(
                    i as int,
                ));
            }
            if str_eq(self.connections[i].user_id.as_str(), user_id) {
                ws_send(&self.connections[i].sender, message.clone());
                r.push(self.connections[i].device_id.clone());
            }
            i = i + 1;
        }
        proof {
            assert(self.connections@.take(n as int) =~= self.connections@);
        }
        r
    }

    /// Enqueue the frame on one device's connection; returns whether the
    /// device was connected.
    pub fn send_to_device(&self, device_id: &str, message: WsServerMessage) -> (r: bool)
        requires
            self.wf(),
        ensures
            r == self.spec_has_conn(device_id@),
    {
        match self.find_conn(device_id) {
            Some(i) => {
                ws_send(&self.connections[i].sender, message);
                true
            },
            None => false,
        }
    }

    /// Enqueue a copy of the frame on every connection of the user except
    /// one device; returns the device ids targeted.
    pub fn send_to_other_devices(
        &self,
        user_id: &str,
        exclude_device_id: &str,
        message: &WsServerMessage,
    ) -> (r: Vec<String>)
        ensures
            r@ == other_device_ids(self.connections@, user_id@, exclude_device_id@),
    {
        let ghost p = other_devices_pred(user_id@, exclude_device_id@);
        let mut r: Vec<String> = Vec::new();
        let n = self.connections.len();
        let mut i: usize = 0;
        while i < n
            invariant
                n == self.connections@.len(),
                i <= n,
                p == other_devices_pred(user_id@, exclude_device_id@),
                r@ =~= self.connections@.take(i as int).filter(p).map_values(conn_device()),
            decreases n - i,
        {
            proof {
                reveal(Seq::filter);
                assert(self.connections@.take(i + 1).drop_last() =~= self.connections@.take(
                    i as int,
                ));
            }
            if str_eq(self.connections[i].user_id.as_str(), user_id) && !str_eq(
                self.connections[i].device_id.as_str(),
                exclude_device_id,
            ) {
                ws_send(&self.connections[i].sender, message.clone());
                r.push(self.connections[i].device_id.clone());
            }
            i = i + 1;
        }
        proof {
            assert(self.connections@.take(n as int) =~= self.connections@);
        }
        r
    }

    /// The user id of a connection.
    pub open spec fn conn_user() -> spec_fn(Connection) -> String {
        |c: Connection| c.user_id
    }

    /// The user id of every live connection, in registration order; a user
    /// with several devices appears once per device.
    pub fn get_online_users(&self) -> (r: Vec<String>)
        ensures
            r@ == self.connections@.map_values(Self::conn_user()),
    {
        let ghost f = Self::conn_user();
        let mut r: Vec<String> = Vec::new();
        let n = self.connections.len();
        let mut i: usize = 0;
        while i < n
            invariant
                n == self.connections@.len(),
                i <= n,
                f == Self::conn_user(),
                r@ =~= self.connections@.take(i as int).map_values(f),
            decreases n - i,
        {
            r.push(self.connections[i].user_id.clone());
            proof {
                assert(self.connections@.take(i + 1).map_values(f) =~= self.connections@.take(
                    i as int,
                ).map_values(f).push(f(self.connections@[i as int])));
            }
            i = i + 1;
        }
        proof {
            assert(self.connections@.take(n as int) =~= self.connections@);
        }
        r
    }

    /// Enqueue a copy of the frame on every connection not owned by this
    /// user; returns the device ids targeted.
    pub fn broadcast_to_others(&self, user_id: &str, message: &WsServerMessage) -> (r: Vec<
        String,
    >)
        ensures
            r@ == other_users_device_ids(self.connections@, user_id@),
    {
        let ghost p = not_user_pred(user_id@);
        let mut r: Vec<String> = Vec::new();
        let n = self.connections.len();
        let mut i: usize = 0;
        while i < n
            invariant
                n == self.connections@.len(),
                i <= n,
                p == not_user_pred(user_id@),
                r@ =~= self.connections@.take(i as int).filter(p).map_values(conn_device()),
            decreases n - i,
        {
            proof {
                reveal(Seq::filter);
                assert(self.connections@.take(i + 1).drop_last() =~= self.connections@.take(
                    i as int,
                ));
            }
            if !str_eq(self.connections[i].user_id.as_str(), user_id) {
                ws_send(&self.connections[i].sender, message.clone());
                r.push(self.connections[i].device_id.clone());
            }
            i = i + 1;
        }
        proof {
            assert(self.connections@.take(n as int) =~= self.connections@);
        }
        r
    }

    /// Tell each listed contact that this user's presence changed; returns,
    /// per contact in order, the device ids targeted.
    pub fn broadcast_presence(
        &self,
        user_id: &str,
        status: PresenceStatus,
        contact_ids: &Vec<String>,
    ) -> (r: Vec<Vec<String>>)
        ensures
            r@.len() == contact_ids@.len(),
            forall|k: int|
                0 <= k < r@.len() ==> r@[k]@ == user_device_ids(
                    self.connections@,
                    contact_ids@[k]@,
                ),
    {
        let message = WsServerMessage::Presence { user_id: user_id.to_owned(), status };
        let mut r: Vec<Vec<String>> = Vec::new();
        let n = contact_ids.len();
        let mut i: usize = 0;
        while i < n
            invariant
                n == contact_ids@.len(),
                i <= n,
                r@.len() == i,
                forall|k: int|
                    0 <= k < i ==> r@[k]@ == user_device_ids(
                        self.connections@,
                        contact_ids@[k]@,
                    ),
            decreases n - i,
        {
            let targeted = self.send_to_user(contact_ids[i].as_str(), &message);
            r.push(targeted);
            i = i + 1;
        }
        r
    }

    /// Tell each listed contact that this user came online; returns, per
    /// contact in order, the device ids targeted.
    pub fn broadcast_user_online(&self, user_id: &str, contact_ids: &Vec<String>) -> (r: Vec<
        Vec<String>,
    >)
        ensures
            r@.len() == contact_ids@.len(),
            forall|k: int|
                0 <= k < r@.len() ==> r@[k]@ == user_device_ids(
                    self.connections@,
                    contact_ids@[k]@,
                ),
    {
        let message = WsServerMessage::UserOnline { user_id: user_id.to_owned() };
        let mut r: Vec<Vec<String>> = Vec::new();
        let n = contact_ids.len();
        let mut i: usize = 0;
        while i < n
            invariant
                n == contact_ids@.len(),
                i <= n,
                r@.len() == i,
                forall|k: int|
                    0 <= k < i ==> r@[k]@ == user_device_ids(
                        self.connections@,
                        contact_ids@[k]@,
                    ),
            decreases n - i,
        {
            let targeted = self.send_to_user(contact_ids[i].as_str(), &message);
            r.push(targeted);
            i = i + 1;
        }
        r
    }

    /// Tell each listed contact that this user went offline; returns, per
    /// contact in order, the device ids targeted.
    pub fn broadcast_user_offline(&self, user_id: &str, contact_ids: &Vec<String>) -> (r: Vec<
        Vec<String>,
    >)
        ensures
            r@.len() == contact_ids@.len(),
            forall|k: int|
                0 <= k < r@.len() ==> r@[k]@ == user_device_ids(
                    self.connections@,
                    contact_ids@[k]@,
                ),
    {
        let message = WsServerMessage::UserOffline { user_id: user_id.to_owned() };
        let mut r: Vec<Vec<String>> = Vec::new();
        let n = contact_ids.len();
        let mut i: usize = 0;
        while i < n
            invariant
                n == contact_ids@.len(),
                i <= n,
                r@.len() == i,
                forall|k: int|
                    0 <= k < i ==> r@[k]@ == user_device_ids(
                        self.connections@,
                        contact_ids@[k]@,
                    ),
            decreases n - i,
        {
            let targeted = self.send_to_user(contact_ids[i].as_str(), &message);
            r.push(targeted);
            i = i + 1;
        }
        r
    }
}

/// Session displacement: after a device registers twice, the registry holds
/// exactly one connection for that device — the one registered second — so a
/// targeted send reaches only the later channel.
pub proof fn lemma_session_displacement(
    r0: WebSocketManager,
    r1: WebSocketManager,
    r2: WebSocketManager,
    device_id: Seq<char>,
)
    requires
        r0.wf(),
        r1.wf(),
        r2.wf(),
        r1.connections@ == connections_without_device(r0.connections@, device_id).push(
            r1.connections@.last(),
        ),
        r1.connections@.last().device_id@ == device_id,
        r2.connections@ == connections_without_device(r1.connections@, device_id).push(
            r2.connections@.last(),
        ),
        r2.connections@.last().device_id@ == device_id,
    ensures
        r2.spec_has_conn(device_id),
        r2.spec_conn(device_id) == r2.connections@.last(),
        forall|i: int|
            0 <= i < r2.connections@.len() - 1 ==> r2.connections@[i].device_id@ != device_id,
{
    r2.lemma_conn_idx(r2.connections@.len() - 1);
    let p = keep_conn_pred(device_id);
    assert forall|i: int|
        0 <= i < r2.connections@.len() - 1 implies r2.connections@[i].device_id@ != device_id by {
        r1.connections@.lemma_filter_pred(p, i);
    }
}

/// Multi-device echo: when a sender's envelope is echoed, every OTHER live
/// device of the sender is targeted, and the originating device never is.
pub proof fn lemma_multi_device_echo(
    conns: Seq<Connection>,
    user_id: Seq<char>,
    device_id: Seq<char>,
    i: int,
)
    requires
        0 <= i < conns.len(),
        conns[i].user_id@ == user_id,
        conns[i].device_id@ != device_id,
    ensures
        other_device_ids(conns, user_id, device_id).contains(conns[i].device_id),
        forall|k: int|
            0 <= k < other_device_ids(conns, user_id, device_id).len() ==> #[trigger] other_device_ids(
                conns,
                user_id,
                device_id,
            )[k]@ != device_id,
{
    let p = other_devices_pred(user_id, device_id);
    let filtered = conns.filter(p);
    assert(p(conns[i]));
    conns.lemma_filter_contains(p, i);
    let m = choose|m: int| 0 <= m < filtered.len() && filtered[m] == conns[i];
    assert(filtered.map_values(conn_device())[m] == conns[i].device_id);
    assert(other_device_ids(conns, user_id, device_id).contains(conns[i].device_id));
    assert forall|k: int|
        0 <= k < other_device_ids(conns, user_id, device_id).len() implies #[trigger] other_device_ids(
        conns,
        user_id,
        device_id,
    )[k]@ != device_id by {
        conns.lemma_filter_pred(p, k);
        assert(other_device_ids(conns, user_id, device_id)[k] == filtered[k].device_id);
    }
}

} // verus!
