//! What the terminal client computes for its screens: the masked password, the height of
//! the account list, how far the chat scrolls, and the order of the user list.

use vstd::prelude::*;
use crate::definitions::{Peer, PublicKey, UserStatus};
use crate::peers::{PeerMap, PeerView};
use crate::text::{chars_of, push_char};

verus! {

/// A password as the login screen shows it: one `*` for each of its bytes.
pub fn masked(byte_len: usize) -> (s: String)
    ensures
        s@.len() == byte_len,
        forall|i: int| 0 <= i < byte_len ==> #[trigger] s@[i] == '*',
{
    let mut s = String::new();
    let mut i: usize = 0;
    while i < byte_len
        invariant
            i <= byte_len,
            s@.len() == i,
            forall|k: int| 0 <= k < i ==> #[trigger] s@[k] == '*',
        decreases byte_len - i,
    {
        push_char(&mut s, '*');
        i = i + 1;
    }
    s
}

/// The rows the account list of the login screen takes: its entries (the count taken
/// as 16 bits), kept between one and five, and two rows of border.
pub fn account_list_height(accounts: usize) -> (h: u16)
    ensures
        h == (if accounts % 65536 < 1 {
            1
        } else if accounts % 65536 > 5 {
            5
        } else {
            accounts % 65536
        }) + 2,
{
    let n = (accounts % 65536) as u16;
    let rows: u16 = if n < 1 {
        1
    } else if n > 5 {
        5
    } else {
        n
    };
    rows + 2
}

/// How many lines the chat scrolls so that its last lines show in `height` rows (the
/// count taken as 16 bits).
pub fn scroll_offset(lines: usize, height: usize) -> (s: u16)
    ensures
        lines > height ==> s == (lines - height) % 65536,
        lines <= height ==> s == 0,
{
    if lines > height {
        ((lines - height) % 65536) as u16
    } else {
        0
    }
}

/// Texts in order by code point, a prefix before its continuations (the order of `str`).
pub open spec fn text_le(a: Seq<char>, b: Seq<char>) -> bool
    decreases a.len(),
{
    if a.len() == 0 {
        true
    } else if b.len() == 0 {
        false
    } else if a[0] != b[0] {
        (a[0] as u32) < (b[0] as u32)
    } else {
        text_le(a.drop_first(), b.drop_first())
    }
}

/// Of two texts one comes first or they tie.
pub proof fn lemma_text_le_total(a: Seq<char>, b: Seq<char>)
    ensures
        text_le(a, b) || text_le(b, a),
    decreases a.len(),
{
    if a.len() > 0 && b.len() > 0 {
        if a[0] == b[0] {
            lemma_text_le_total(a.drop_first(), b.drop_first());
        } else {
            vstd::utf8::char_u32_cast(a[0], a[0] as u32);
            vstd::utf8::char_u32_cast(b[0], b[0] as u32);
        }
    }
}

/// The order of texts is transitive.
pub proof fn lemma_text_le_transitive(a: Seq<char>, b: Seq<char>, c: Seq<char>)
    requires
        text_le(a, b),
        text_le(b, c),
    ensures
        text_le(a, c),
    decreases a.len(),
{
    if a.len() > 0 && b.len() > 0 && c.len() > 0 && a[0] == b[0] && b[0] == c[0] {
        lemma_text_le_transitive(a.drop_first(), b.drop_first(), c.drop_first());
    }
}

/// Whether one text comes before another or ties with it, as `<=` on `str` tells.
pub fn text_le_exec(a: &str, b: &str) -> (le: bool)
    ensures
        le == text_le(a@, b@),
{
    let x = chars_of(a);
    let y = chars_of(b);
    let mut i: usize = 0;
    proof {
        assert(a@.skip(0) =~= a@);
        assert(b@.skip(0) =~= b@);
    }
    while i < x.len() && i < y.len() && x[i] == y[i]
        invariant
            x@ == a@,
            y@ == b@,
            i <= x@.len(),
            i <= y@.len(),
            text_le(a@, b@) == text_le(a@.skip(i as int), b@.skip(i as int)),
        decreases x@.len() - i,
    {
        proof {
            assert(a@.skip(i as int).drop_first() =~= a@.skip(i + 1));
            assert(b@.skip(i as int).drop_first() =~= b@.skip(i + 1));
        }
        i = i + 1;
    }
    if i == x.len() {
        true
    } else if i == y.len() {
        false
    } else {
        proof {
            assert(a@.skip(i as int)[0] == x@[i as int]);
            assert(b@.skip(i as int)[0] == y@[i as int]);
        }
        (x[i] as u32) < (y[i] as u32)
    }
}

/// A user shows as online unless its status is offline.
pub open spec fn shows_online(p: PeerView) -> bool {
    p.status != UserStatus::Offline
}

/// The user list's order: online users before offline ones, then by username.
pub open spec fn listed_no_later(a: PeerView, b: PeerView) -> bool {
    if shows_online(a) != shows_online(b) {
        shows_online(a)
    } else {
        text_le(a.username, b.username)
    }
}

proof fn lemma_listed_transitive(a: PeerView, b: PeerView, c: PeerView)
    requires
        listed_no_later(a, b),
        listed_no_later(b, c),
    ensures
        listed_no_later(a, c),
{
    if shows_online(a) == shows_online(b) && shows_online(b) == shows_online(c) {
        lemma_text_le_transitive(a.username, b.username, c.username);
    }
}

fn listed_no_later_exec(a: &Peer, b: &Peer) -> (r: bool)
    ensures
        r == listed_no_later(a@, b@),
{
    let ao = a.status != UserStatus::Offline;
    let bo = b.status != UserStatus::Offline;
    if ao != bo {
        ao
    } else {
        text_le_exec(a.username.as_str(), b.username.as_str())
    }
}

/// The users of the side panel, each with its key: every known user once, online users
/// first, then by username.
pub fn users_in_order(peers: &PeerMap) -> (users: Vec<(PublicKey, Peer)>)
    requires
        peers.wf(),
    ensures
        users@.len() == peers@.len(),
        forall|i: int|
            0 <= i < users@.len() ==> peers@.contains_key((#[trigger] users@[i]).0@) && peers@[users@[i].0@]
                == users@[i].1@,
        forall|i: int, j: int|
            0 <= i < users@.len() && 0 <= j < users@.len() && i != j ==> (#[trigger] users@[i]).0@
                != (#[trigger] users@[j]).0@,
        forall|i: int, j: int|
            0 <= i < j < users@.len() ==> listed_no_later((#[trigger] users@[i]).1@, (#[trigger] users@[j]).1@),
{
    let e = peers.entries();
    let mut v: Vec<(PublicKey, Peer)> = Vec::new();
    let mut k: usize = 0;
    while k < e.len()
        invariant
            k <= e@.len(),
            v@.len() == k,
            forall|t: int| 0 <= t < k ==> (#[trigger] v@[t]).0 == e@[t].0 && v@[t].1@ == e@[t].1@,
        decreases e@.len() - k,
    {
        v.push((e[k].0, e[k].1.duplicate()));
        k = k + 1;
    }
    let n = v.len();
    let ghost mut perm: Seq<int> = Seq::new(n as nat, |t: int| t);
    let mut i: usize = 1;
    while i < n
        invariant
            n == v@.len() == e@.len(),
            1 <= i || n == 0,
            i <= n || n == 0,
            perm.len() == n,
            forall|t: int| 0 <= t < n ==> 0 <= #[trigger] perm[t] < n,
            forall|s: int, t: int| 0 <= s < n && 0 <= t < n && s != t ==> #[trigger] perm[s] != #[trigger] perm[t],
            forall|t: int| 0 <= t < n ==> (#[trigger] v@[t]).0 == e@[perm[t]].0 && v@[t].1@ == e@[perm[t]].1@,
            forall|a: int, b: int| 0 <= a < b < i && b < n ==> listed_no_later((#[trigger] v@[a]).1@, (#[trigger] v@[b]).1@),
        decreases n - i,
    {
        let mut j: usize = i;
        while j > 0 && !listed_no_later_exec(&v[j - 1].1, &v[j].1)
            invariant
                n == v@.len() == e@.len(),
                0 <= j <= i < n,
                perm.len() == n,
                forall|t: int| 0 <= t < n ==> 0 <= #[trigger] perm[t] < n,
                forall|s: int, t: int| 0 <= s < n && 0 <= t < n && s != t ==> #[trigger] perm[s] != #[trigger] perm[t],
                forall|t: int| 0 <= t < n ==> (#[trigger] v@[t]).0 == e@[perm[t]].0 && v@[t].1@ == e@[perm[t]].1@,
                forall|a: int, b: int|
                    0 <= a < b <= i && a != j && b != j ==> listed_no_later((#[trigger] v@[a]).1@, (#[trigger] v@[b]).1@),
                forall|b: int| j < b <= i ==> listed_no_later(v@[j as int].1@, (#[trigger] v@[b]).1@),
            decreases j,
        {
            proof {
                lemma_text_le_total(v@[j - 1].1.username@, v@[j as int].1.username@);
            }
            let ghost old_v = v@;
            let right = v.remove(j);
            v.insert(j - 1, right);
            proof {
                assert(v@ =~= old_v.update(j - 1, old_v[j as int]).update(j as int, old_v[j - 1]));
                perm = perm.update(j - 1, perm[j as int]).update(j as int, perm[j - 1]);
                assert forall|a: int, b: int|
                    0 <= a < b <= i && a != j - 1 && b != j - 1 implies listed_no_later(
                    (#[trigger] v@[a]).1@,
                    (#[trigger] v@[b]).1@,
                ) by {
                    if b == j {
                        assert(v@[b] == old_v[j - 1]);
                        assert(v@[a] == old_v[a]);
                    } else if a == j {
                        assert(v@[a] == old_v[j - 1]);
                        assert(v@[b] == old_v[b]);
                    } else {
                        assert(v@[a] == old_v[a]);
                        assert(v@[b] == old_v[b]);
                    }
                }
                assert forall|b: int| j - 1 < b <= i implies listed_no_later(
                    v@[j - 1].1@,
                    (#[trigger] v@[b]).1@,
                ) by {
                    assert(v@[j - 1] == old_v[j as int]);
                    if b > j {
                        assert(v@[b] == old_v[b]);
                    }
                }
                assert forall|s: int, t: int| 0 <= s < n && 0 <= t < n && s != t implies #[trigger] perm[s]
                    != #[trigger] perm[t] by {}
            }
            j = j - 1;
        }
        proof {
            assert forall|a: int, b: int| 0 <= a < b < i + 1 && b < n implies listed_no_later(
                (#[trigger] v@[a]).1@,
                (#[trigger] v@[b]).1@,
            ) by {
                if b == j {
                    if j > 0 {
                        if a < j - 1 {
                            lemma_listed_transitive(v@[a].1@, v@[j - 1].1@, v@[j as int].1@);
                        }
                    }
                } else if a == j {
                } else {
                }
            }
        }
        i = i + 1;
    }
    proof {
        assert forall|t: int| 0 <= t < n implies peers@.contains_key((#[trigger] v@[t]).0@) && peers@[v@[t].0@]
            == v@[t].1@ by {
            let p = perm[t];
            assert(e@[p].0@ == v@[t].0@);
        }
        assert forall|s: int, t: int| 0 <= s < n && 0 <= t < n && s != t implies (#[trigger] v@[s]).0@
            != (#[trigger] v@[t]).0@ by {
            assert(perm[s] != perm[t]);
            assert(v@[s].0 == e@[perm[s]].0);
            assert(v@[t].0 == e@[perm[t]].0);
        }
    }
    v
}

} // verus!
