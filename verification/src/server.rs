//! The server's side of a chat: who is connected, and how each client message is answered.
//!
//! Connections are named by a number that the caller gives each one; the registry keeps at
//! most one member per connection.

use vstd::prelude::*;
use core::ops::Range;
use crate::crypto::{ed25519_public, ed25519_verifies, verify_signature};
use crate::definitions::{
    Channel, ClientHandshakeStart, ClientTextMessage, PublicKey, ServerRequestMessages, ServerStatus,
    ServerTextMessage, TextNetworkMessage, UserOverview, UserStatus, UserStatusChange, copy_bytes,
};
use crate::peers::same_key;
use crate::text::{trim, trimmed};
use vstd::utf8::encode_utf8;

verus! {

/// What the server knows of a connected user, as plain values.
pub struct MemberView {
    pub username: Seq<char>,
    pub public_key: Seq<u8>,
    pub address: Seq<char>,
    pub roles: Seq<u8>,
    pub status: UserStatus,
    pub session_id: Seq<char>,
}

/// A connected, authenticated user.
#[derive(Debug)]
pub struct Member {
    pub username: String,
    pub public_key: PublicKey,
    pub address: String,
    pub roles: Vec<u8>,
    pub status: UserStatus,
    /// The token that lets the user upload files.
    pub session_id: String,
}

impl View for Member {
    type V = MemberView;

    open spec fn view(&self) -> MemberView {
        MemberView {
            username: self.username@,
            public_key: self.public_key@,
            address: self.address@,
            roles: self.roles@,
            status: self.status,
            session_id: self.session_id@,
        }
    }
}

/// The member that a completed handshake admits: online, with no roles yet.
pub fn member_from_join(join: ClientHandshakeStart, session_id: String) -> (m: Member)
    ensures
        m.username == join.username,
        m.public_key == join.public_key,
        m.address == join.address,
        m.roles@.len() == 0,
        m.status == UserStatus::Online,
        m.session_id == session_id,
{
    Member {
        username: join.username,
        public_key: join.public_key,
        address: join.address,
        roles: Vec::new(),
        status: UserStatus::Online,
        session_id,
    }
}

/// The overview shows exactly what the member record holds.
pub open spec fn shows_member(o: UserOverview, m: MemberView) -> bool {
    &&& o.public_key@ == m.public_key
    &&& o.address@ == m.address
    &&& o.username@ == m.username
    &&& o.roles@ == m.roles
    &&& o.status == m.status
}

/// The connected users of a server, by connection.
#[derive(Debug)]
pub struct Registry {
    entries: Vec<(u64, Member)>,
}

impl View for Registry {
    type V = Map<u64, MemberView>;

    closed spec fn view(&self) -> Map<u64, MemberView> {
        Map::new(
            |c: u64| exists|i: int| 0 <= i < self.entries@.len() && self.entries@[i].0 == c,
            |c: u64|
                self.entries@[choose|i: int| 0 <= i < self.entries@.len() && self.entries@[i].0 == c].1@,
        )
    }
}

impl Registry {
    /// No connection occurs twice.
    pub closed spec fn wf(&self) -> bool {
        forall|i: int, j: int|
            0 <= i < self.entries@.len() && 0 <= j < self.entries@.len() && i != j
                ==> self.entries@[i].0 != self.entries@[j].0
    }

    /// The connections in the order in which the registry walks them.
    pub closed spec fn order(&self) -> Seq<u64> {
        self.entries@.map_values(|e: (u64, Member)| e.0)
    }

    proof fn lemma_view(&self, i: int)
        requires
            self.wf(),
            0 <= i < self.entries@.len(),
        ensures
            self@.contains_key(self.entries@[i].0),
            self@[self.entries@[i].0] == self.entries@[i].1@,
    {
        let k = self.entries@[i].0;
        assert(exists|j: int| 0 <= j < self.entries@.len() && self.entries@[j].0 == k);
        let c = choose|j: int| 0 <= j < self.entries@.len() && self.entries@[j].0 == k;
        assert(c == i);
    }

    /// The walking order holds each connection of the registry once.
    pub proof fn lemma_order(&self)
        requires
            self.wf(),
        ensures
            self.order().no_duplicates(),
            self.order().to_set() == self@.dom(),
            self@.dom().finite(),
            self@.len() == self.order().len(),
    {
        let keys = self.order();
        assert forall|k: u64| self@.dom().contains(k) <==> keys.to_set().contains(k) by {
            if self@.dom().contains(k) {
                let j = choose|j: int| 0 <= j < self.entries@.len() && self.entries@[j].0 == k;
                assert(keys[j] == k);
            }
            if keys.contains(k) {
                let j = choose|j: int| 0 <= j < keys.len() && keys[j] == k;
                assert(self.entries@[j].0 == k);
            }
        }
        assert(self@.dom() =~= keys.to_set());
        assert forall|i: int, j: int| 0 <= i < keys.len() && 0 <= j < keys.len() && i != j
            implies keys[i] != keys[j] by {}
        assert(keys.no_duplicates());
        keys.unique_seq_to_set();
    }

    /// A registry with nobody in it.
    pub fn new() -> (r: Registry)
        ensures
            r.wf(),
            r@ == Map::<u64, MemberView>::empty(),
    {
        let r = Registry { entries: Vec::new() };
        assert(r@ =~= Map::<u64, MemberView>::empty());
        r
    }

    fn position(&self, conn: u64) -> (i: Option<usize>)
        requires
            self.wf(),
        ensures
            match i {
                Some(i) => i < self.entries@.len() && self.entries@[i as int].0 == conn,
                None => !self@.contains_key(conn),
            },
    {
        let mut i: usize = 0;
        while i < self.entries.len()
            invariant
                i <= self.entries@.len(),
                forall|k: int| 0 <= k < i ==> self.entries@[k].0 != conn,
            decreases self.entries@.len() - i,
        {
            if self.entries[i].0 == conn {
                return Some(i);
            }
            i = i + 1;
        }
        None
    }

    /// The number of connected members.
    pub fn len(&self) -> (n: usize)
        requires
            self.wf(),
        ensures
            n == self@.len(),
    {
        proof {
            self.lemma_order();
        }
        self.entries.len()
    }

    /// The member on a connection, if there is one.
    pub fn get(&self, conn: u64) -> (m: Option<&Member>)
        requires
            self.wf(),
        ensures
            match m {
                Some(m) => self@.contains_key(conn) && m@ == self@[conn],
                None => !self@.contains_key(conn),
            },
    {
        match self.position(conn) {
            Some(i) => {
                proof {
                    self.lemma_view(i as int);
                }
                Some(&self.entries[i].1)
            },
            None => None,
        }
    }

    proof fn lemma_updated(old_r: &Registry, new_r: &Registry, i: int, conn: u64, mv: MemberView)
        requires
            old_r.wf(),
            0 <= i < old_r.entries@.len(),
            old_r.entries@[i].0 == conn,
            new_r.entries@.len() == old_r.entries@.len(),
            new_r.entries@[i].0 == conn,
            new_r.entries@[i].1@ == mv,
            forall|j: int| 0 <= j < old_r.entries@.len() && j != i ==> new_r.entries@[j] == old_r.entries@[j],
        ensures
            new_r.wf(),
            new_r@ == old_r@.insert(conn, mv),
    {
        assert(new_r.wf()) by {
            assert forall|a: int, b: int|
                0 <= a < new_r.entries@.len() && 0 <= b < new_r.entries@.len() && a != b
                    implies new_r.entries@[a].0 != new_r.entries@[b].0 by {
                assert(old_r.entries@[a].0 == new_r.entries@[a].0);
                assert(old_r.entries@[b].0 == new_r.entries@[b].0);
            }
        }
        assert forall|k: u64| #![auto] new_r@.contains_key(k) <==> old_r@.insert(conn, mv).contains_key(k) by {
            if old_r@.contains_key(k) {
                let j = choose|j: int| 0 <= j < old_r.entries@.len() && old_r.entries@[j].0 == k;
                assert(new_r.entries@[j].0 == k);
            }
            if new_r@.contains_key(k) {
                let j = choose|j: int| 0 <= j < new_r.entries@.len() && new_r.entries@[j].0 == k;
                assert(old_r.entries@[j].0 == k);
            }
        }
        assert forall|k: u64| #[trigger] new_r@.contains_key(k) implies new_r@[k] == old_r@.insert(conn, mv)[k] by {
            let j = choose|j: int| 0 <= j < new_r.entries@.len() && new_r.entries@[j].0 == k;
            new_r.lemma_view(j);
            if j != i {
                old_r.lemma_view(j);
            }
        }
        assert(new_r@ =~= old_r@.insert(conn, mv));
    }

    /// Records `member` on connection `conn`, replacing an earlier member of it.
    pub fn join(&mut self, conn: u64, member: Member)
        requires
            old(self).wf(),
        ensures
            final(self).wf(),
            final(self)@ == old(self)@.insert(conn, member@),
    {
        let ghost mv = member@;
        match self.position(conn) {
            Some(i) => {
                self.entries.set(i, (conn, member));
                proof {
                    Registry::lemma_updated(old(self), self, i as int, conn, mv);
                }
            },
            None => {
                self.entries.push((conn, member));
                proof {
                    let n = old(self).entries@.len() as int;
                    assert(self.wf()) by {
                        assert forall|a: int, b: int|
                            0 <= a < self.entries@.len() && 0 <= b < self.entries@.len() && a != b
                                implies self.entries@[a].0 != self.entries@[b].0 by {
                            if a == n {
                                assert(!old(self)@.contains_key(conn));
                                if self.entries@[b].0 == conn {
                                    assert(old(self).entries@[b].0 == conn);
                                }
                            } else if b == n {
                                if self.entries@[a].0 == conn {
                                    assert(old(self).entries@[a].0 == conn);
                                }
                            }
                        }
                    }
                    assert forall|k: u64| #![auto] self@.contains_key(k) <==> old(self)@.insert(conn, mv).contains_key(k) by {
                        if old(self)@.contains_key(k) {
                            let j = choose|j: int| 0 <= j < old(self).entries@.len() && old(self).entries@[j].0 == k;
                            assert(self.entries@[j].0 == k);
                        }
                        if k == conn {
                            assert(self.entries@[n].0 == k);
                        }
                        if self@.contains_key(k) && k != conn {
                            let j = choose|j: int| 0 <= j < self.entries@.len() && self.entries@[j].0 == k;
                            assert(old(self).entries@[j].0 == k);
                        }
                    }
                    assert forall|k: u64| #[trigger] self@.contains_key(k) implies self@[k] == old(self)@.insert(conn, mv)[k] by {
                        let j = choose|j: int| 0 <= j < self.entries@.len() && self.entries@[j].0 == k;
                        self.lemma_view(j);
                        if j != n {
                            old(self).lemma_view(j);
                        }
                    }
                    assert(self@ =~= old(self)@.insert(conn, mv));
                }
            },
        }
    }

    /// Takes the member of a connection out of the registry and hands it back.
    pub fn leave(&mut self, conn: u64) -> (m: Option<Member>)
        requires
            old(self).wf(),
        ensures
            final(self).wf(),
            final(self)@ == old(self)@.remove(conn),
            match m {
                Some(m) => old(self)@.contains_key(conn) && m@ == old(self)@[conn],
                None => !old(self)@.contains_key(conn),
            },
    {
        match self.position(conn) {
            Some(i) => {
                proof {
                    old(self).lemma_view(i as int);
                }
                let (_, m) = self.entries.remove(i);
                proof {
                    let oe = old(self).entries@;
                    assert forall|j: int| 0 <= j < self.entries@.len() implies #[trigger] self.entries@[j]
                        == oe[if j < i { j } else { j + 1 }] by {}
                    assert(self.wf()) by {
                        assert forall|a: int, b: int|
                            0 <= a < self.entries@.len() && 0 <= b < self.entries@.len() && a != b
                                implies self.entries@[a].0 != self.entries@[b].0 by {
                            let oa = if a < i { a } else { a + 1 };
                            let ob = if b < i { b } else { b + 1 };
                            assert(self.entries@[a] == oe[oa]);
                            assert(self.entries@[b] == oe[ob]);
                        }
                    }
                    assert forall|k: u64| #![auto] self@.contains_key(k) <==> old(self)@.remove(conn).contains_key(k) by {
                        if old(self)@.contains_key(k) && k != conn {
                            let j = choose|j: int| 0 <= j < oe.len() && oe[j].0 == k;
                            assert(j != i);
                            let nj = if j < i { j } else { j - 1 };
                            assert(self.entries@[nj] == oe[j]);
                        }
                        if self@.contains_key(k) {
                            let j = choose|j: int| 0 <= j < self.entries@.len() && self.entries@[j].0 == k;
                            let oj = if j < i { j } else { j + 1 };
                            assert(self.entries@[j] == oe[oj]);
                            assert(oj != i);
                        }
                    }
                    assert forall|k: u64| #[trigger] self@.contains_key(k) implies self@[k] == old(self)@.remove(conn)[k] by {
                        let j = choose|j: int| 0 <= j < self.entries@.len() && self.entries@[j].0 == k;
                        let oj = if j < i { j } else { j + 1 };
                        assert(self.entries@[j] == oe[oj]);
                        self.lemma_view(j);
                        old(self).lemma_view(oj);
                    }
                    assert(self@ =~= old(self)@.remove(conn));
                }
                Some(m)
            },
            None => {
                assert(self@ =~= old(self)@.remove(conn));
                None
            },
        }
    }

    /// Sets the status of the member on a connection; an unknown connection changes
    /// nothing.
    pub fn set_status(&mut self, conn: u64, status: UserStatus)
        requires
            old(self).wf(),
        ensures
            final(self).wf(),
            old(self)@.contains_key(conn) ==> final(self)@ == old(self)@.insert(
                conn,
                MemberView { status, ..old(self)@[conn] },
            ),
            !old(self)@.contains_key(conn) ==> final(self)@ == old(self)@,
    {
        match self.position(conn) {
            Some(i) => {
                proof {
                    old(self).lemma_view(i as int);
                }
                let (c, mut m) = self.entries.remove(i);
                m.status = status;
                self.entries.insert(i, (c, m));
                proof {
                    assert(self.entries@ =~= old(self).entries@.update(i as int, (c, m)));
                    Registry::lemma_updated(
                        old(self),
                        self,
                        i as int,
                        conn,
                        MemberView { status, ..old(self)@[conn] },
                    );
                }
            },
            None => {},
        }
    }

    /// The connections of all members but the one on `conn`, each once.
    pub fn others(&self, conn: u64) -> (cs: Vec<u64>)
        requires
            self.wf(),
        ensures
            cs@.no_duplicates(),
            cs@.to_set() == self@.dom().remove(conn),
    {
        let mut cs: Vec<u64> = Vec::new();
        let mut i: usize = 0;
        while i < self.entries.len()
            invariant
                self.wf(),
                i <= self.entries@.len(),
                cs@.no_duplicates(),
                forall|c: u64| cs@.contains(c) <==> exists|j: int|
                    0 <= j < i && self.entries@[j].0 == c && c != conn,
            decreases self.entries@.len() - i,
        {
            let c = self.entries[i].0;
            let ghost before = cs@;
            if c != conn {
                proof {
                    if before.contains(c) {
                        let j = choose|j: int| 0 <= j < i && self.entries@[j].0 == c && c != conn;
                        assert(self.entries@[j].0 == self.entries@[i as int].0);
                    }
                }
                cs.push(c);
                proof {
                    assert forall|x: u64| cs@.contains(x) <==> exists|j: int|
                        0 <= j < i + 1 && self.entries@[j].0 == x && x != conn by {
                        if cs@.contains(x) {
                            let k = choose|k: int| 0 <= k < cs@.len() && cs@[k] == x;
                            if k < before.len() {
                                assert(before[k] == x);
                                assert(before.contains(x));
                            } else {
                                assert(self.entries@[i as int].0 == x);
                            }
                        }
                        if exists|j: int| 0 <= j < i + 1 && self.entries@[j].0 == x && x != conn {
                            let j = choose|j: int| 0 <= j < i + 1 && self.entries@[j].0 == x && x != conn;
                            if j < i {
                                assert(before.contains(x));
                                let k = choose|k: int| 0 <= k < before.len() && before[k] == x;
                                assert(cs@[k] == x);
                            } else {
                                assert(cs@[before.len() as int] == x);
                            }
                        }
                    }
                }
            } else {
                proof {
                    assert forall|x: u64| cs@.contains(x) <==> exists|j: int|
                        0 <= j < i + 1 && self.entries@[j].0 == x && x != conn by {
                        if exists|j: int| 0 <= j < i + 1 && self.entries@[j].0 == x && x != conn {
                            let j = choose|j: int| 0 <= j < i + 1 && self.entries@[j].0 == x && x != conn;
                            assert(j < i);
                        }
                    }
                }
            }
            i = i + 1;
        }
        proof {
            assert forall|c: u64| #![auto] cs@.to_set().contains(c) <==> self@.dom().remove(conn).contains(c) by {
                if self@.dom().contains(c) && c != conn {
                    let j = choose|j: int| 0 <= j < self.entries@.len() && self.entries@[j].0 == c;
                    assert(exists|j: int| 0 <= j < i && self.entries@[j].0 == c && c != conn);
                }
                if cs@.contains(c) {
                    let j = choose|j: int| 0 <= j < i && self.entries@[j].0 == c && c != conn;
                    self.lemma_view(j);
                }
            }
            assert(cs@.to_set() =~= self@.dom().remove(conn));
        }
        cs
    }

    /// The connections of all members, each once.
    pub fn everyone(&self) -> (cs: Vec<u64>)
        requires
            self.wf(),
        ensures
            cs@.no_duplicates(),
            cs@.to_set() == self@.dom(),
            cs@ == self.order(),
    {
        let mut cs: Vec<u64> = Vec::new();
        let mut i: usize = 0;
        while i < self.entries.len()
            invariant
                i <= self.entries@.len(),
                cs@ == self.order().take(i as int),
            decreases self.entries@.len() - i,
        {
            cs.push(self.entries[i].0);
            proof {
                assert(self.order().take(i + 1) =~= self.order().take(i as int).push(self.entries@[i as int].0));
            }
            i = i + 1;
        }
        proof {
            assert(self.order().take(i as int) =~= self.order());
            self.lemma_order();
        }
        cs
    }

    /// What the server tells a joining client of each member, in the registry's order.
    pub fn overview(&self) -> (users: Vec<UserOverview>)
        requires
            self.wf(),
        ensures
            users@.len() == self.order().len(),
            forall|i: int| 0 <= i < users@.len() ==> shows_member(#[trigger] users@[i], self@[self.order()[i]]),
    {
        let mut users: Vec<UserOverview> = Vec::new();
        let mut i: usize = 0;
        while i < self.entries.len()
            invariant
                self.wf(),
                i <= self.entries@.len(),
                users@.len() == i,
                forall|k: int| 0 <= k < i ==> shows_member(#[trigger] users@[k], self.entries@[k].1@),
            decreases self.entries@.len() - i,
        {
            let m = &self.entries[i].1;
            users.push(
                UserOverview {
                    public_key: m.public_key,
                    address: m.address.clone(),
                    username: m.username.clone(),
                    roles: copy_bytes(&m.roles),
                    status: m.status,
                },
            );
            i = i + 1;
        }
        proof {
            assert forall|k: int| 0 <= k < users@.len() implies shows_member(#[trigger] users@[k], self@[self.order()[k]]) by {
                self.lemma_view(k);
            }
        }
        users
    }

    /// The connection of the member with this public key, if one is connected. When
    /// several are, any of them may be given.
    pub fn find_key(&self, key: &PublicKey) -> (c: Option<u64>)
        requires
            self.wf(),
        ensures
            match c {
                Some(c) => self@.contains_key(c) && self@[c].public_key == key@,
                None => forall|c: u64| #[trigger] self@.contains_key(c) ==> self@[c].public_key != key@,
            },
    {
        let mut i: usize = 0;
        while i < self.entries.len()
            invariant
                self.wf(),
                i <= self.entries@.len(),
                forall|j: int| 0 <= j < i ==> self.entries@[j].1.public_key@ != key@,
            decreases self.entries@.len() - i,
        {
            if same_key(&self.entries[i].1.public_key, key) {
                proof {
                    self.lemma_view(i as int);
                }
                return Some(self.entries[i].0);
            }
            i = i + 1;
        }
        proof {
            assert forall|c: u64| #[trigger] self@.contains_key(c) implies self@[c].public_key != key@ by {
                let j = choose|j: int| 0 <= j < self.entries@.len() && self.entries@[j].0 == c;
                self.lemma_view(j);
            }
        }
        None
    }

    /// The public key of the member holding this session token, if any. When several
    /// do, any of their keys may be given.
    pub fn session_owner(&self, session_id: &String) -> (k: Option<PublicKey>)
        requires
            self.wf(),
        ensures
            match k {
                Some(k) => exists|c: u64| #[trigger] self@.contains_key(c) && self@[c].session_id
                    == session_id@ && self@[c].public_key == k@,
                None => forall|c: u64| #[trigger] self@.contains_key(c) ==> self@[c].session_id
                    != session_id@,
            },
    {
        let mut i: usize = 0;
        while i < self.entries.len()
            invariant
                self.wf(),
                i <= self.entries@.len(),
                forall|j: int| 0 <= j < i ==> self.entries@[j].1.session_id@ != session_id@,
            decreases self.entries@.len() - i,
        {
            if self.entries[i].1.session_id == *session_id {
                proof {
                    self.lemma_view(i as int);
                    assert(self@.contains_key(self.entries@[i as int].0));
                }
                return Some(self.entries[i].1.public_key);
            }
            i = i + 1;
        }
        proof {
            assert forall|c: u64| #[trigger] self@.contains_key(c) implies self@[c].session_id != session_id@ by {
                let j = choose|j: int| 0 <= j < self.entries@.len() && self.entries@[j].0 == c;
                self.lemma_view(j);
            }
        }
        None
    }

    /// The status shown for a public key: that of a connected member with the key, or
    /// offline when none is connected.
    pub fn status_of(&self, key: &PublicKey) -> (s: UserStatus)
        requires
            self.wf(),
        ensures
            s == UserStatus::Offline <== forall|c: u64| #[trigger] self@.contains_key(c) ==> self@[c].public_key != key@,
            s != UserStatus::Offline ==> exists|c: u64| #[trigger] self@.contains_key(c) && self@[c].public_key == key@ && self@[c].status == s,
            (exists|c: u64| #[trigger] self@.contains_key(c) && self@[c].public_key == key@) ==> exists|c: u64|
                #[trigger] self@.contains_key(c) && self@[c].public_key == key@ && self@[c].status == s,
    {
        match self.find_key(key) {
            Some(c) => {
                let m = self.get(c);
                match m {
                    Some(m) => m.status,
                    None => UserStatus::Offline,
                }
            },
            None => UserStatus::Offline,
        }
    }
}


/// What the server must do after a client's message.
#[derive(Debug)]
pub enum ConnectionAction {
    /// Nothing more.
    Nothing,
    /// The signature does not check out: drop the message.
    Rejected,
    /// Store `message` in `channel` and send it to each connection of `recipients`.
    Relay { message: ServerTextMessage, channel: Channel, recipients: Vec<u64> },
    /// Look up the messages of `channel` in `range` (counted back from the newest) and send
    /// them to the asking connection.
    Fetch { range: Range<u64>, channel: Channel },
}

/// The alert that tells the other members that a user came online.
pub fn join_alert(public_key: PublicKey) -> (m: TextNetworkMessage)
    ensures
        m matches TextNetworkMessage::UserStatusChange(c) && c.public_key == public_key && c.status
            == UserStatus::Online,
{
    TextNetworkMessage::UserStatusChange(UserStatusChange { public_key, status: UserStatus::Online })
}

/// The answer to a request for messages.
pub fn requested_messages(messages: Vec<ServerTextMessage>) -> (m: TextNetworkMessage)
    ensures
        m matches TextNetworkMessage::ServerRequestMessages(r) && r.messages == messages,
{
    TextNetworkMessage::ServerRequestMessages(ServerRequestMessages { messages })
}

/// The welcome a client gets after joining: the server's name and channels, the members
/// connected now, and the latest messages of the default channel.
pub fn welcome(
    registry: &Registry,
    name: String,
    message_channels: Vec<Channel>,
    default_channel: Channel,
    voice_channels: Vec<Channel>,
    messages: Vec<ServerTextMessage>,
) -> (m: TextNetworkMessage)
    requires
        registry.wf(),
    ensures
        m matches TextNetworkMessage::ServerStatus(st) && {
            &&& st.name == name
            &&& st.message_channels == message_channels
            &&& st.default_channel == default_channel
            &&& st.voice_channels == voice_channels
            &&& st.messages == messages
            &&& st.users@.len() == registry.order().len()
            &&& forall|i: int| 0 <= i < st.users@.len() ==> shows_member(
                #[trigger] st.users@[i],
                registry@[registry.order()[i]],
            )
        },
{
    let users = registry.overview();
    TextNetworkMessage::ServerStatus(
        ServerStatus { name, users, message_channels, default_channel, voice_channels, messages },
    )
}

/// What the server does with a message from the client on connection `conn` whose
/// handshake proved the key `sender`, at `now`: `before` and `after` are the registry
/// around it and `action` what the caller must do.
pub open spec fn client_message_answered(
    before: Map<u64, MemberView>,
    after: Map<u64, MemberView>,
    conn: u64,
    sender: Seq<u8>,
    msg: TextNetworkMessage,
    now: i64,
    action: ConnectionAction,
) -> bool {
    match msg {
        TextNetworkMessage::ClientText(t) => {
            &&& after == before
            &&& if ed25519_verifies(sender, encode_utf8(t.plaintext@), t.signed_message@) {
                &&& action matches ConnectionAction::Relay { message, channel, recipients }
                &&& message.plaintext@ == trimmed(t.plaintext@)
                &&& message.sender@ == sender
                &&& message.timestamp == now
                &&& message.channel_id == t.channel.id
                &&& channel == t.channel
                &&& recipients@.no_duplicates()
                &&& recipients@.to_set() == before.dom()
            } else {
                action is Rejected
            }
        },
        TextNetworkMessage::ChangeUserStatus(c) => {
            &&& action is Nothing
            &&& before.contains_key(conn) ==> after == before.insert(
                conn,
                MemberView { status: c.status, ..before[conn] },
            )
            &&& !before.contains_key(conn) ==> after == before
        },
        TextNetworkMessage::ClientRequestMessages(r) => {
            &&& after == before
            &&& action matches ConnectionAction::Fetch { range, channel }
            &&& range == r.range
            &&& channel == r.channel
        },
        _ => action is Nothing && after == before,
    }
}

/// Answers a message from the client on connection `conn`, whose handshake proved the key
/// `sender`, at `now` (seconds since the UNIX epoch). A chat message whose signature checks
/// out under `sender` is relayed, trimmed and stamped, to every member (the sender too); a
/// status change updates the sender's member; a request for messages asks for a look-up;
/// anything else is ignored.
pub fn answer_client_message(
    registry: &mut Registry,
    conn: u64,
    sender: &PublicKey,
    msg: TextNetworkMessage,
    now: i64,
) -> (action: ConnectionAction)
    requires
        old(registry).wf(),
    ensures
        final(registry).wf(),
        client_message_answered(old(registry)@, final(registry)@, conn, sender@, msg, now, action),

{
    match msg {
        TextNetworkMessage::ClientText(t) => {
            if !verify_signature(t.plaintext.as_str(), &t.signed_message, sender) {
                return ConnectionAction::Rejected;
            }
            let message = ServerTextMessage {
                plaintext: trim(t.plaintext.as_str()),
                sender: *sender,
                channel_id: t.channel.id,
                timestamp: now,
            };
            let recipients = registry.everyone();
            ConnectionAction::Relay { message, channel: t.channel, recipients }
        },
        TextNetworkMessage::ChangeUserStatus(c) => {
            registry.set_status(conn, c.status);
            ConnectionAction::Nothing
        },
        TextNetworkMessage::ClientRequestMessages(r) => {
            ConnectionAction::Fetch { range: r.range, channel: r.channel }
        },
        _ => ConnectionAction::Nothing,
    }
}

/// Why a kick could not be carried out.
#[derive(Clone, Copy, Debug, PartialEq, Eq, Structural)]
pub enum KickError {
    /// No connected member has the key.
    RecipientNotFound,
}

/// The connection of the member that a kick request names by public key.
pub fn kick_target(registry: &Registry, recipient: &PublicKey) -> (res: Result<u64, KickError>)
    requires
        registry.wf(),
    ensures
        match res {
            Ok(c) => registry@.contains_key(c) && registry@[c].public_key == recipient@,
            Err(e) => e == KickError::RecipientNotFound && forall|c: u64| #[trigger] registry@.contains_key(c)
                ==> registry@[c].public_key != recipient@,
        },
{
    match registry.find_key(recipient) {
        Some(c) => Ok(c),
        None => Err(KickError::RecipientNotFound),
    }
}

/// A member who joins on a new connection and then leaves it leaves the registry as it
/// was.
pub proof fn law_leave_undoes_join(before: Map<u64, MemberView>, conn: u64, member: MemberView)
    requires
        !before.contains_key(conn),
    ensures
        before.insert(conn, member).remove(conn) == before,
{
    assert(before.insert(conn, member).remove(conn) =~= before);
}


/// A chat line that an honest client signs is relayed: where the key that the connection's
/// handshake proved is the public key of the secret the client signs with, and the
/// signature verifies under it (as the client's signing gives), the server stores and
/// sends the trimmed text to every member and leaves the registry as it was.
pub proof fn law_honest_chat_is_relayed(
    secret: Seq<u8>,
    t: ClientTextMessage,
    before: Map<u64, MemberView>,
    after: Map<u64, MemberView>,
    conn: u64,
    now: i64,
    action: ConnectionAction,
)
    requires
        ed25519_verifies(ed25519_public(secret), encode_utf8(t.plaintext@), t.signed_message@),
        client_message_answered(
            before,
            after,
            conn,
            ed25519_public(secret),
            TextNetworkMessage::ClientText(t),
            now,
            action,
        ),
    ensures
        after == before,
        action matches ConnectionAction::Relay { message, channel, recipients } && message.plaintext@
            == trimmed(t.plaintext@) && message.sender@ == ed25519_public(secret) && channel == t.channel
            && recipients@.to_set() == before.dom(),
{
}

/// The server relays a chat message only when its signature checks out under the key the
/// sender proved, and then to every connected member, trimmed, stamped with now, from the
/// sender and for the channel it names; a message whose signature fails is rejected. A
/// chat message changes no member.
pub proof fn law_only_signed_messages_are_relayed(
    before: Map<u64, MemberView>,
    after: Map<u64, MemberView>,
    conn: u64,
    sender: Seq<u8>,
    t: ClientTextMessage,
    now: i64,
    action: ConnectionAction,
)
    requires
        client_message_answered(before, after, conn, sender, TextNetworkMessage::ClientText(t), now, action),
    ensures
        after == before,
        action is Relay <==> ed25519_verifies(sender, encode_utf8(t.plaintext@), t.signed_message@),
        !(action is Relay) ==> action is Rejected,
        action matches ConnectionAction::Relay { message, channel, recipients } ==> {
            &&& message.sender@ == sender
            &&& message.timestamp == now
            &&& message.channel_id == t.channel.id
            &&& channel == t.channel
            &&& message.plaintext@ == trimmed(t.plaintext@)
            &&& forall|c: u64| before.contains_key(c) <==> #[trigger] recipients@.contains(c)
            &&& recipients@.no_duplicates()
        },
{
    match action {
        ConnectionAction::Relay { message, channel, recipients } => {
            assert forall|c: u64| before.contains_key(c) <==> #[trigger] recipients@.contains(c) by {
                assert(recipients@.to_set().contains(c) == recipients@.contains(c));
            }
        },
        _ => {},
    }
}

/// A status change from a client sets the status of that connection's member and leaves
/// the rest of it, and every other member, as they were.
pub proof fn law_status_change_updates_the_sender(
    before: Map<u64, MemberView>,
    after: Map<u64, MemberView>,
    conn: u64,
    sender: Seq<u8>,
    msg: TextNetworkMessage,
    now: i64,
    action: ConnectionAction,
)
    requires
        msg is ChangeUserStatus,
        client_message_answered(before, after, conn, sender, msg, now, action),
    ensures
        action is Nothing,
        after.dom() == before.dom(),
        before.contains_key(conn) ==> after[conn].status == msg->ChangeUserStatus_0.status
            && after[conn].username == before[conn].username && after[conn].public_key
            == before[conn].public_key && after[conn].session_id == before[conn].session_id,
        forall|c: u64| c != conn && #[trigger] before.contains_key(c) ==> after[c] == before[c],
{
}

} // verus!
