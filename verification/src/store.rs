//! What the server reads from and writes to its database, apart from the queries
//! themselves: the window of a message request, the rows taken back as messages and
//! roles, and the overview of a stored user.

use vstd::prelude::*;
use core::ops::Range;
use crate::crypto::{ed25519_point_valid, point_is_valid};
use crate::definitions::{PublicKey, RolePermissions, ServerTextMessage, UserOverview, UserStatus};
use crate::server::Registry;

verus! {

/// The `LIMIT` and `OFFSET` of the query for a range of messages counted back from the
/// newest, or `None` for a range that ends before it starts (which asks for nothing).
pub fn message_window(range: &Range<u64>) -> (w: Option<(u64, u64)>)
    ensures
        range.end < range.start ==> w is None,
        range.start <= range.end ==> w == Some(((range.end - range.start) as u64, range.start)),
{
    if range.end < range.start {
        None
    } else {
        Some((range.end - range.start, range.start))
    }
}

/// A stored message as the query gives it back.
#[derive(Clone, Debug)]
pub struct MessageRow {
    pub plaintext: String,
    pub sender: Vec<u8>,
    pub timestamp: i64,
}

/// Why stored rows could not be read back.
#[derive(Clone, Copy, Debug, PartialEq, Eq, Structural)]
pub enum RowError {
    /// A stored sender key has this many bytes instead of 32.
    KeyLength(usize),
    /// A stored sender key is not a point of the curve.
    InvalidKey,
    /// A role id does not fit in a byte.
    RoleTooLarge(u64),
}

/// The row holds a usable sender key.
pub open spec fn row_ok(r: MessageRow) -> bool {
    r.sender@.len() == 32 && ed25519_point_valid(r.sender@)
}

/// The error that the first unusable row gives.
pub open spec fn row_error(r: MessageRow) -> RowError {
    if r.sender@.len() != 32 {
        RowError::KeyLength(r.sender@.len() as usize)
    } else {
        RowError::InvalidKey
    }
}

/// The message a usable row stands for, in the channel `channel_id`.
pub open spec fn row_message(m: ServerTextMessage, r: MessageRow, channel_id: u64) -> bool {
    &&& m.plaintext == r.plaintext
    &&& m.sender@ == r.sender@
    &&& m.timestamp == r.timestamp
    &&& m.channel_id == channel_id
}

fn key_of_row(sender: &Vec<u8>) -> (res: Result<PublicKey, RowError>)
    ensures
        match res {
            Ok(k) => sender@.len() == 32 && ed25519_point_valid(sender@) && k@ == sender@,
            Err(e) => !(sender@.len() == 32 && ed25519_point_valid(sender@)) && e == if sender@.len()
                != 32 {
                RowError::KeyLength(sender@.len() as usize)
            } else {
                RowError::InvalidKey
            },
        },
{
    if sender.len() != 32 {
        return Err(RowError::KeyLength(sender.len()));
    }
    let mut key = [0u8; 32];
    let mut i: usize = 0;
    while i < 32
        invariant
            sender@.len() == 32,
            i <= 32,
            forall|k: int| 0 <= k < i ==> key@[k] == sender@[k],
        decreases 32 - i,
    {
        key[i] = sender[i];
        i = i + 1;
    }
    assert(key@ =~= sender@);
    if !point_is_valid(&key) {
        return Err(RowError::InvalidKey);
    }
    Ok(key)
}

/// The messages of rows that the query gave newest first, oldest first, all in channel
/// `channel_id`; the first row (in query order) without a usable sender key makes it fail.
pub fn messages_from_rows(rows: &Vec<MessageRow>, channel_id: u64) -> (res: Result<
    Vec<ServerTextMessage>,
    RowError,
>)
    ensures
        match res {
            Ok(ms) => {
                &&& forall|i: int| 0 <= i < rows@.len() ==> row_ok(#[trigger] rows@[i])
                &&& ms@.len() == rows@.len()
                &&& forall|i: int|
                    0 <= i < ms@.len() ==> row_message(
                        #[trigger] ms@[i],
                        rows@[rows@.len() - 1 - i],
                        channel_id,
                    )
            },
            Err(e) => exists|b: int|
                0 <= b < rows@.len() && !row_ok(#[trigger] rows@[b]) && (forall|j: int|
                    0 <= j < b ==> row_ok(#[trigger] rows@[j])) && e == row_error(rows@[b]),
        },
{
    let mut forward: Vec<ServerTextMessage> = Vec::new();
    let mut i: usize = 0;
    while i < rows.len()
        invariant
            i <= rows@.len(),
            forward@.len() == i,
            forall|j: int| 0 <= j < i ==> row_ok(#[trigger] rows@[j]),
            forall|j: int| 0 <= j < i ==> row_message(#[trigger] forward@[j], rows@[j], channel_id),
        decreases rows@.len() - i,
    {
        let row = &rows[i];
        match key_of_row(&row.sender) {
            Ok(sender) => {
                forward.push(
                    ServerTextMessage {
                        plaintext: row.plaintext.clone(),
                        sender,
                        channel_id,
                        timestamp: row.timestamp,
                    },
                );
            },
            Err(e) => {
                proof {
                    assert(!row_ok(rows@[i as int]));
                }
                return Err(e);
            },
        }
        i = i + 1;
    }
    let mut ms: Vec<ServerTextMessage> = Vec::new();
    let n = forward.len();
    let mut k: usize = n;
    while k > 0
        invariant
            k <= n == forward@.len() == rows@.len(),
            ms@.len() == n - k,
            forall|j: int| 0 <= j < rows@.len() ==> row_ok(#[trigger] rows@[j]),
            forall|j: int| 0 <= j < n ==> row_message(#[trigger] forward@[j], rows@[j], channel_id),
            forall|j: int|
                0 <= j < ms@.len() ==> row_message(#[trigger] ms@[j], rows@[rows@.len() - 1 - j], channel_id),
        decreases k,
    {
        k = k - 1;
        ms.push(forward[k].duplicate());
    }
    Ok(ms)
}

/// The role ids of a user as bytes; an id that does not fit in a byte is an error
/// rather than a wrapped value.
pub fn role_ids(ids: &Vec<u64>) -> (res: Result<Vec<u8>, RowError>)
    ensures
        match res {
            Ok(rs) => rs@.len() == ids@.len() && (forall|i: int|
                0 <= i < ids@.len() ==> ids@[i] < 256 && #[trigger] rs@[i] == ids@[i]),
            Err(e) => exists|b: int|
                0 <= b < ids@.len() && #[trigger] ids@[b] >= 256 && (forall|j: int| 0 <= j < b ==> ids@[j]
                    < 256) && e == RowError::RoleTooLarge(ids@[b]),
        },
{
    let mut rs: Vec<u8> = Vec::new();
    let mut i: usize = 0;
    while i < ids.len()
        invariant
            i <= ids@.len(),
            rs@.len() == i,
            forall|j: int| 0 <= j < i ==> #[trigger] ids@[j] < 256 && rs@[j] == ids@[j],
        decreases ids@.len() - i,
    {
        let id = ids[i];
        if id >= 256 {
            proof {
                assert(ids@[i as int] >= 256);
            }
            return Err(RowError::RoleTooLarge(id));
        }
        let b = id as u8;
        assert(b as u64 == id) by (bit_vector)
            requires
                id < 256,
                b == id as u8,
        ;
        rs.push(b);
        i = i + 1;
    }
    Ok(rs)
}

/// Whether the roles of a user grant a permission, given for each of the user's roles the
/// stored `can_kick` flag (granted where it is 1).
pub fn grants_permission(can_kick: &Vec<i64>, permission: RolePermissions) -> (ok: bool)
    ensures
        ok == match permission {
            RolePermissions::Kick => exists|i: int| 0 <= i < can_kick@.len() && #[trigger] can_kick@[i] == 1,
        },
{
    let mut i: usize = 0;
    while i < can_kick.len()
        invariant
            i <= can_kick@.len(),
            forall|j: int| 0 <= j < i ==> #[trigger] can_kick@[j] != 1,
        decreases can_kick@.len() - i,
    {
        match permission {
            RolePermissions::Kick => {
                if can_kick[i] == 1 {
                    return true;
                }
            },
        }
        i = i + 1;
    }
    false
}

/// The overview of a stored user. Where the user's home server gave a profile, the
/// overview carries the stored home address and the profile's username; otherwise an
/// empty address and the name `Anonymous`. The status is that of a connected member with
/// the key, or offline.
pub fn user_overview(
    public_key: PublicKey,
    home_address: String,
    profile_username: Option<String>,
    roles: Vec<u8>,
    registry: &Registry,
) -> (u: UserOverview)
    requires
        registry.wf(),
    ensures
        u.public_key == public_key,
        u.roles == roles,
        match profile_username {
            Some(name) => u.address == home_address && u.username == name,
            None => u.address@.len() == 0 && u.username@ == "Anonymous"@,
        },
        (forall|c: u64| #[trigger] registry@.contains_key(c) ==> registry@[c].public_key != public_key@)
            ==> u.status == UserStatus::Offline,
        (exists|c: u64| #[trigger] registry@.contains_key(c) && registry@[c].public_key == public_key@)
            ==> exists|c: u64|
            #[trigger] registry@.contains_key(c) && registry@[c].public_key == public_key@
                && registry@[c].status == u.status,
{
    let status = registry.status_of(&public_key);
    match profile_username {
        Some(name) => UserOverview { public_key, address: home_address, username: name, roles, status },
        None => UserOverview {
            public_key,
            address: String::new(),
            username: String::from_str("Anonymous"),
            roles,
            status,
        },
    }
}

} // verus!
