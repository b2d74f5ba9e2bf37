//! The messages and records of the Pluton protocol.
//!
//! Public keys are kept as their 32 compressed bytes and signatures as their 64 bytes;
//! two keys are the same key exactly when their bytes are equal.

use vstd::prelude::*;
use core::ops::Range;

pub mod authentication;
pub mod home;

pub use authentication::{
    ClientAuthMessage, ClientHandshakeFinal, ClientHandshakeStart, ClientSessionResume,
    HandshakeError, HandshakeStatus, ServerChallenge, ServerResponse,
};

verus! {

/// Version of the protocol that this library speaks.
pub const VERSION: u32 = 1;

/// The compressed bytes of an Ed25519 public key.
pub type PublicKey = [u8; 32];

/// The bytes of an Ed25519 signature.
pub type SignatureBytes = [u8; 64];

/// The bytes of an Ed25519 secret key.
pub type SecretKey = [u8; 32];

/// A text or voice channel of a server.
#[derive(Clone, Debug)]
pub struct Channel {
    pub id: u64,
    pub name: String,
}

impl Channel {
    /// A field-by-field copy.
    pub fn duplicate(&self) -> (c: Channel)
        ensures
            c == *self,
    {
        Channel { id: self.id, name: self.name.clone() }
    }
}

/// The presence a user shows to others.
#[derive(Clone, Copy, Debug, PartialEq, Eq, Structural)]
pub enum UserStatus {
    Online,
    DoNotDisturb,
    Sleep,
    Offline,
}

/// What a client knows of another user of the server.
#[derive(Clone, Debug)]
pub struct Peer {
    pub username: String,
    pub address: String,
    pub roles: Vec<u8>,
    pub status: UserStatus,
}

impl Peer {
    /// A field-by-field copy.
    pub fn duplicate(&self) -> (p: Peer)
        ensures
            p.username == self.username,
            p.address == self.address,
            p.roles@ == self.roles@,
            p.status == self.status,
    {
        Peer {
            username: self.username.clone(),
            address: self.address.clone(),
            roles: copy_bytes(&self.roles),
            status: self.status,
        }
    }
}

/// A copy of a byte vector.
pub fn copy_bytes(v: &Vec<u8>) -> (c: Vec<u8>)
    ensures
        c@ == v@,
{
    let mut c: Vec<u8> = Vec::new();
    let mut i: usize = 0;
    while i < v.len()
        invariant
            i <= v@.len(),
            c@ =~= v@.take(i as int),
        decreases v@.len() - i,
    {
        c.push(v[i]);
        i = i + 1;
    }
    assert(v@.take(v@.len() as int) =~= v@);
    c
}

/// A message that a client sends to the server.
#[derive(Clone, Debug)]
pub struct ClientTextMessage {
    pub plaintext: String,
    pub signed_message: SignatureBytes,
    pub id: u32,
    pub channel: Channel,
}

/// A message as the server relays and stores it.
#[derive(Clone, Debug)]
pub struct ServerTextMessage {
    pub plaintext: String,
    pub sender: PublicKey,
    pub channel_id: u64,
    /// Seconds since the UNIX epoch.
    pub timestamp: i64,
}

impl ServerTextMessage {
    /// A field-by-field copy.
    pub fn duplicate(&self) -> (m: ServerTextMessage)
        ensures
            m == *self,
    {
        ServerTextMessage {
            plaintext: self.plaintext.clone(),
            sender: self.sender,
            channel_id: self.channel_id,
            timestamp: self.timestamp,
        }
    }
}

/// A client's request for the messages of a channel, counted back from the newest.
#[derive(Debug)]
pub struct ClientRequestMessages {
    pub range: Range<u64>,
    pub channel: Channel,
}

/// The server's answer to a request for messages, oldest first.
#[derive(Clone, Debug)]
pub struct ServerRequestMessages {
    pub messages: Vec<ServerTextMessage>,
}

/// Server to client: a user has joined.
#[derive(Clone, Debug)]
pub struct UserJoin {
    pub public_key: PublicKey,
    pub username: String,
    pub address: String,
}

/// Server to client: a user's status changed.
#[derive(Clone, Debug)]
pub struct UserStatusChange {
    pub public_key: PublicKey,
    pub status: UserStatus,
}

/// Client to server: the sender's new status.
#[derive(Clone, Debug)]
pub struct ChangeUserStatus {
    pub status: UserStatus,
}

/// What the server tells a client of one user.
#[derive(Clone, Debug)]
pub struct UserOverview {
    pub public_key: PublicKey,
    pub address: String,
    pub username: String,
    pub roles: Vec<u8>,
    pub status: UserStatus,
}

/// The server's welcome: its name, users, channels and latest messages.
#[derive(Clone, Debug)]
pub struct ServerStatus {
    pub name: String,
    pub users: Vec<UserOverview>,
    pub message_channels: Vec<Channel>,
    pub default_channel: Channel,
    pub voice_channels: Vec<Channel>,
    pub messages: Vec<ServerTextMessage>,
}

/// The permissions a role can grant.
#[derive(Clone, Copy, Debug, PartialEq, Eq, Structural)]
pub enum RolePermissions {
    Kick,
}

/// Client to server: remove a user.
#[derive(Clone, Debug)]
pub struct ClientKickRequest {
    pub recipient: PublicKey,
    pub reason: String,
}

/// Server to client: a user was removed.
#[derive(Clone, Debug)]
pub struct ServerKickRequest {
    pub recipient: PublicKey,
    pub reason: String,
    pub sender: String,
}

/// A file stored by a server.
#[derive(Clone, Debug)]
pub struct FileDescriptor {
    pub id: u64,
    pub file_name: String,
    pub file_size: u64,
}

/// Every message of the text protocol, after authentication.
#[derive(Debug)]
pub enum TextNetworkMessage {
    ClientText(ClientTextMessage),
    ServerText(ServerTextMessage),
    UserStatusChange(UserStatusChange),
    ChangeUserStatus(ChangeUserStatus),
    ServerStatus(ServerStatus),
    ClientRequestMessages(ClientRequestMessages),
    ServerRequestMessages(ServerRequestMessages),
    UserJoin(UserJoin),
    ClientKickRequest(ClientKickRequest),
    ServerKickRequest(ServerKickRequest),
}

} // verus!
