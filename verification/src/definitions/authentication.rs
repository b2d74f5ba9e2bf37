//! The messages of the challenge-response handshake.
//!
//! A client opens with its name, public key and address; the server answers with a
//! random challenge; the client signs the challenge; the server checks the signature
//! under the announced key and either admits the client or refuses it.

use vstd::prelude::*;
use super::{PublicKey, SignatureBytes};

verus! {

/// Client to server: the opening of a handshake.
#[derive(Clone, Debug)]
pub struct ClientHandshakeStart {
    pub username: String,
    pub public_key: PublicKey,
    pub address: String,
    pub version: u32,
}

/// Client to server: a request to resume an earlier session.
#[derive(Clone, Debug)]
pub struct ClientSessionResume {
    pub session_token: String,
    pub version: u32,
}

/// Server to client: the text that the client must sign.
#[derive(Clone, Debug)]
pub struct ServerChallenge {
    pub nonce: String,
    pub version: u32,
}

/// Client to server: the signature of the challenge.
#[derive(Clone, Debug)]
pub struct ClientHandshakeFinal {
    pub signed_message: SignatureBytes,
}

/// How a handshake ended, seen from the server's side.
#[derive(Clone, Copy, Debug, PartialEq, Eq, Structural)]
pub enum HandshakeStatus {
    Complete,
    Rejected,
}

/// Why a handshake failed.
#[derive(Clone, Copy, Debug, PartialEq, Eq, Structural)]
pub enum HandshakeError {
    ServerError,
    ClientError,
    SendFailed,
    InvalidSignature,
    BadCryptography,
    SerializationError,
}

/// Server to client: the outcome of the handshake.
#[derive(Debug)]
pub struct ServerResponse {
    pub session_token: String,
    pub status_code: Result<HandshakeStatus, HandshakeError>,
}

/// Every message a client may send before it is authenticated.
#[derive(Clone, Debug)]
pub enum ClientAuthMessage {
    InitiateHandshake(ClientHandshakeStart),
    ResumeSession(ClientSessionResume),
    CompleteHandshake(ClientHandshakeFinal),
}

} // verus!
