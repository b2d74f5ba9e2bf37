//! The users a client knows, keyed by public key.

use vstd::prelude::*;
use crate::definitions::{Peer, PublicKey, UserStatus};

verus! {

/// What a peer record says, as plain values.
pub struct PeerView {
    pub username: Seq<char>,
    pub address: Seq<char>,
    pub roles: Seq<u8>,
    pub status: UserStatus,
}

impl View for Peer {
    type V = PeerView;

    open spec fn view(&self) -> PeerView {
        PeerView {
            username: self.username@,
            address: self.address@,
            roles: self.roles@,
            status: self.status,
        }
    }
}

/// Two public keys are the same key when their bytes are equal.
pub fn same_key(a: &PublicKey, b: &PublicKey) -> (same: bool)
    ensures
        same == (a@ == b@),
{
    let mut i: usize = 0;
    while i < 32
        invariant
            i <= 32,
            a@.len() == 32,
            b@.len() == 32,
            forall|k: int| 0 <= k < i ==> a@[k] == b@[k],
        decreases 32 - i,
    {
        if a[i] != b[i] {
            return false;
        }
        i = i + 1;
    }
    assert(a@ =~= b@);
    true
}

/// The peers a client knows: at most one record per public key.
#[derive(Debug)]
pub struct PeerMap {
    entries: Vec<(PublicKey, Peer)>,
}

impl View for PeerMap {
    type V = Map<Seq<u8>, PeerView>;

    closed spec fn view(&self) -> Map<Seq<u8>, PeerView> {
        Map::new(
            |k: Seq<u8>| exists|i: int| 0 <= i < self.entries@.len() && self.entries@[i].0@ == k,
            |k: Seq<u8>|
                self.entries@[choose|i: int|
                    0 <= i < self.entries@.len() && self.entries@[i].0@ == k].1@,
        )
    }
}

impl PeerMap {
    /// No key occurs twice.
    pub closed spec fn wf(&self) -> bool {
        forall|i: int, j: int|
            0 <= i < self.entries@.len() && 0 <= j < self.entries@.len() && i != j
                ==> self.entries@[i].0@ != self.entries@[j].0@
    }

    /// The number of peers.
    pub closed spec fn spec_len(&self) -> nat {
        self.entries@.len()
    }

    proof fn lemma_view(&self, i: int)
        requires
            self.wf(),
            0 <= i < self.entries@.len(),
        ensures
            self@.contains_key(self.entries@[i].0@),
            self@[self.entries@[i].0@] == self.entries@[i].1@,
    {
        let k = self.entries@[i].0@;
        assert(exists|j: int| 0 <= j < self.entries@.len() && self.entries@[j].0@ == k);
        let c = choose|j: int| 0 <= j < self.entries@.len() && self.entries@[j].0@ == k;
        assert(c == i);
    }

    proof fn lemma_len(&self)
        requires
            self.wf(),
        ensures
            self@.dom().finite(),
            self@.len() == self.spec_len(),
        decreases self.entries@.len(),
    {
        let keys = self.entries@.map_values(|e: (PublicKey, Peer)| e.0@);
        assert forall|k: Seq<u8>| self@.dom().contains(k) <==> keys.to_set().contains(k) by {
            if self@.dom().contains(k) {
                let j = choose|j: int| 0 <= j < self.entries@.len() && self.entries@[j].0@ == k;
                assert(keys[j] == k);
            }
            if keys.contains(k) {
                let j = choose|j: int| 0 <= j < keys.len() && keys[j] == k;
                assert(self.entries@[j].0@ == k);
            }
        }
        assert(self@.dom() =~= keys.to_set());
        assert forall|i: int, j: int| 0 <= i < keys.len() && 0 <= j < keys.len() && i != j
            implies keys[i] != keys[j] by {}
        assert(keys.no_duplicates());
        keys.unique_seq_to_set();
    }

    /// An empty map.
    pub fn new() -> (m: PeerMap)
        ensures
            m.wf(),
            m@ == Map::<Seq<u8>, PeerView>::empty(),
    {
        let m = PeerMap { entries: Vec::new() };
        assert(m@ =~= Map::<Seq<u8>, PeerView>::empty());
        m
    }

    fn position(&self, key: &PublicKey) -> (i: Option<usize>)
        requires
            self.wf(),
        ensures
            match i {
                Some(i) => i < self.entries@.len() && self.entries@[i as int].0@ == key@,
                None => !self@.contains_key(key@),
            },
    {
        let mut i: usize = 0;
        while i < self.entries.len()
            invariant
                i <= self.entries@.len(),
                forall|k: int| 0 <= k < i ==> self.entries@[k].0@ != key@,
            decreases self.entries@.len() - i,
        {
            if same_key(&self.entries[i].0, key) {
                return Some(i);
            }
            i = i + 1;
        }
        None
    }

    /// The number of peers.
    pub fn len(&self) -> (n: usize)
        requires
            self.wf(),
        ensures
            n == self@.len(),
    {
        proof {
            self.lemma_len();
        }
        self.entries.len()
    }

    /// The record of a key, if the key is known.
    pub fn get(&self, key: &PublicKey) -> (p: Option<&Peer>)
        requires
            self.wf(),
        ensures
            match p {
                Some(p) => self@.contains_key(key@) && p@ == self@[key@],
                None => !self@.contains_key(key@),
            },
    {
        match self.position(key) {
            Some(i) => {
                proof {
                    self.lemma_view(i as int);
                }
                Some(&self.entries[i].1)
            },
            None => None,
        }
    }

    /// Records `peer` under `key`, replacing an earlier record of that key.
    pub fn insert(&mut self, key: PublicKey, peer: Peer)
        requires
            old(self).wf(),
        ensures
            final(self).wf(),
            final(self)@ == old(self)@.insert(key@, peer@),
    {
        let ghost pv = peer@;
        match self.position(&key) {
            Some(i) => {
                self.entries.set(i, (key, peer));
                proof {
                    assert forall|k: Seq<u8>| #![auto] self@.contains_key(k) <==> old(self)@.insert(key@, pv).contains_key(k) by {
                        if old(self)@.contains_key(k) {
                            let j = choose|j: int| 0 <= j < old(self).entries@.len() && old(self).entries@[j].0@ == k;
                            assert(self.entries@[j].0@ == k);
                        }
                        if self@.contains_key(k) && k != key@ {
                            let j = choose|j: int| 0 <= j < self.entries@.len() && self.entries@[j].0@ == k;
                            assert(old(self).entries@[j].0@ == k);
                        }
                    }
                    assert forall|k: Seq<u8>| #[trigger] self@.contains_key(k) implies self@[k] == old(self)@.insert(key@, pv)[k] by {
                        let j = choose|j: int| 0 <= j < self.entries@.len() && self.entries@[j].0@ == k;
                        self.lemma_view(j);
                        if j != i {
                            old(self).lemma_view(j);
                        }
                    }
                    assert(self@ =~= old(self)@.insert(key@, pv));
                }
            },
            None => {
                self.entries.push((key, peer));
                proof {
                    let n = old(self).entries@.len() as int;
                    assert forall|k: Seq<u8>| #![auto] self@.contains_key(k) <==> old(self)@.insert(key@, pv).contains_key(k) by {
                        if old(self)@.contains_key(k) {
                            let j = choose|j: int| 0 <= j < old(self).entries@.len() && old(self).entries@[j].0@ == k;
                            assert(self.entries@[j].0@ == k);
                        }
                        if k == key@ {
                            assert(self.entries@[n].0@ == k);
                        }
                        if self@.contains_key(k) && k != key@ {
                            let j = choose|j: int| 0 <= j < self.entries@.len() && self.entries@[j].0@ == k;
                            assert(old(self).entries@[j].0@ == k);
                        }
                    }
                    assert forall|k: Seq<u8>| #[trigger] self@.contains_key(k) implies self@[k] == old(self)@.insert(key@, pv)[k] by {
                        let j = choose|j: int| 0 <= j < self.entries@.len() && self.entries@[j].0@ == k;
                        self.lemma_view(j);
                        if j != n {
                            old(self).lemma_view(j);
                        }
                    }
                    assert(self@ =~= old(self)@.insert(key@, pv));
                }
            },
        }
    }

    /// Sets the status of the peer with `key`; an unknown key changes nothing.
    pub fn set_status(&mut self, key: &PublicKey, status: UserStatus)
        requires
            old(self).wf(),
        ensures
            final(self).wf(),
            old(self)@.contains_key(key@) ==> final(self)@ == old(self)@.insert(
                key@,
                PeerView { status, ..old(self)@[key@] },
            ),
            !old(self)@.contains_key(key@) ==> final(self)@ == old(self)@,
    {
        match self.position(key) {
            Some(i) => {
                proof {
                    old(self).lemma_view(i as int);
                }
                let (k, mut p) = self.entries.remove(i);
                p.status = status;
                self.entries.insert(i, (k, p));
                proof {
                    let pv = PeerView { status, ..old(self)@[key@] };
                    assert(self.entries@ =~= old(self).entries@.update(i as int, (k, p)));
                    assert forall|k2: Seq<u8>| #![auto] self@.contains_key(k2) <==> old(self)@.insert(key@, pv).contains_key(k2) by {
                        if old(self)@.contains_key(k2) {
                            let j = choose|j: int| 0 <= j < old(self).entries@.len() && old(self).entries@[j].0@ == k2;
                            assert(self.entries@[j].0@ == k2);
                        }
                        if self@.contains_key(k2) {
                            let j = choose|j: int| 0 <= j < self.entries@.len() && self.entries@[j].0@ == k2;
                            assert(old(self).entries@[j].0@ == k2);
                        }
                    }
                    assert forall|k2: Seq<u8>| #[trigger] self@.contains_key(k2) implies self@[k2] == old(self)@.insert(key@, pv)[k2] by {
                        let j = choose|j: int| 0 <= j < self.entries@.len() && self.entries@[j].0@ == k2;
                        self.lemma_view(j);
                        if j != i {
                            old(self).lemma_view(j);
                        }
                    }
                    assert(self@ =~= old(self)@.insert(key@, pv));
                }
            },
            None => {},
        }
    }

    /// The key of some peer named `username`, if there is one. When several peers share
    /// the name, any of them may be given.
    pub fn find_by_username(&self, username: &String) -> (k: Option<PublicKey>)
        requires
            self.wf(),
        ensures
            match k {
                Some(k) => self@.contains_key(k@) && self@[k@].username == username@,
                None => forall|key: Seq<u8>|
                    #[trigger] self@.contains_key(key) ==> self@[key].username != username@,
            },
    {
        let mut i: usize = 0;
        while i < self.entries.len()
            invariant
                self.wf(),
                i <= self.entries@.len(),
                forall|j: int| 0 <= j < i ==> self.entries@[j].1.username@ != username@,
            decreases self.entries@.len() - i,
        {
            if self.entries[i].1.username == *username {
                proof {
                    self.lemma_view(i as int);
                }
                return Some(self.entries[i].0);
            }
            i = i + 1;
        }
        proof {
            assert forall|key: Seq<u8>| #[trigger] self@.contains_key(key) implies self@[key].username
                != username@ by {
                let j = choose|j: int| 0 <= j < self.entries@.len() && self.entries@[j].0@ == key;
                self.lemma_view(j);
            }
        }
        None
    }

    /// All records, each key once, in no particular order.
    pub fn entries(&self) -> (e: &Vec<(PublicKey, Peer)>)
        requires
            self.wf(),
        ensures
            e@.len() == self@.len(),
            forall|i: int|
                0 <= i < e@.len() ==> self@.contains_key((#[trigger] e@[i]).0@) && self@[e@[i].0@]
                    == e@[i].1@,
            forall|key: Seq<u8>|
                #[trigger] self@.contains_key(key) ==> exists|i: int|
                    0 <= i < e@.len() && e@[i].0@ == key,
            forall|i: int, j: int|
                0 <= i < e@.len() && 0 <= j < e@.len() && i != j ==> (#[trigger] e@[i]).0@ != (
                #[trigger] e@[j]).0@,
    {
        proof {
            self.lemma_len();
            assert forall|i: int| 0 <= i < self.entries@.len() implies self@.contains_key(
                (#[trigger] self.entries@[i]).0@,
            ) && self@[self.entries@[i].0@] == self.entries@[i].1@ by {
                self.lemma_view(i);
            }
        }
        &self.entries
    }
}

} // verus!
