//! The terminal client's network task as a sequence of decisions: sign in, open the key,
//! read the account, connect, shake hands, then relay. The caller performs each step and
//! reports how it went; the session answers with the events for the client's loop and the
//! next step.

use vstd::prelude::*;
use vstd::string::StringExecFns;
use crate::account::Account;
use crate::base64::{b64_decode, decodable, from_base64};
use crate::crypto::ed25519_point_valid;
use crate::definitions::{HandshakeError, HandshakeStatus, PublicKey, SecretKey};
use crate::general::vec_to_verifying_key;
use crate::tui::NetEvent;
use vstd::utf8::encode_utf8;

verus! {

/// What the network task must do next.
#[derive(Debug)]
pub enum NetStep {
    /// Sign in with the account's name and password.
    SignIn { username: String, password: String },
    /// Open the signed-in account's secret key with the password.
    OpenKey { password: String },
    /// Read the signed-in account.
    LoadAccount,
    /// Open a websocket to the server.
    Connect { url: String },
    /// Run the handshake.
    Handshake { username: String, public_key: PublicKey, address: String, signing_key: SecretKey },
    /// Relay messages until the connection ends, then report the disconnection.
    Relay,
    /// Stop.
    Stop,
}

/// Where the network task stands.
#[derive(Clone, Copy, Debug, PartialEq, Eq, Structural)]
pub enum NetStage {
    SigningIn,
    OpeningKey,
    LoadingAccount,
    Connecting,
    ShakingHands,
    Relaying,
    Stopped,
}

/// The network task's state.
#[derive(Debug)]
pub struct NetSession {
    pub stage: NetStage,
    pub url: String,
    pub username: String,
    pub password: String,
    pub signing_key: SecretKey,
    pub public_key: PublicKey,
    pub address: String,
}

/// The name a handshake error is shown by.
pub open spec fn handshake_error_name(e: HandshakeError) -> Seq<char> {
    match e {
        HandshakeError::ServerError => "ServerError"@,
        HandshakeError::ClientError => "ClientError"@,
        HandshakeError::SendFailed => "SendFailed"@,
        HandshakeError::InvalidSignature => "InvalidSignature"@,
        HandshakeError::BadCryptography => "BadCryptography"@,
        HandshakeError::SerializationError => "SerializationError"@,
    }
}

fn error_name(e: HandshakeError) -> (s: &'static str)
    ensures
        s@ == handshake_error_name(e),
{
    match e {
        HandshakeError::ServerError => "ServerError",
        HandshakeError::ClientError => "ClientError",
        HandshakeError::SendFailed => "SendFailed",
        HandshakeError::InvalidSignature => "InvalidSignature",
        HandshakeError::BadCryptography => "BadCryptography",
        HandshakeError::SerializationError => "SerializationError",
    }
}

fn error_event(prefix: &str, detail: &str) -> (ev: NetEvent)
    ensures
        ev matches NetEvent::Error(m) && m@ == prefix@ + detail@,
{
    let mut m = String::from_str(prefix);
    m.append(detail);
    NetEvent::Error(m)
}

impl NetSession {
    /// A session for `username` at `url`; its first step is signing in.
    pub fn start(url: String, username: String, password: String) -> (res: (NetSession, NetStep))
        ensures
            res.0.stage == NetStage::SigningIn,
            res.0.url == url,
            res.0.username == username,
            res.0.password == password,
            res.1 matches NetStep::SignIn { username: u, password: p } && u == username && p == password,
    {
        let step = NetStep::SignIn { username: username.clone(), password: password.clone() };
        (
            NetSession {
                stage: NetStage::SigningIn,
                url,
                username,
                password,
                signing_key: [0u8; 32],
                public_key: [0u8; 32],
                address: String::new(),
            },
            step,
        )
    }

    /// Hears how signing in went (the error's text when it failed).
    pub fn signed_in(&mut self, outcome: Result<(), String>) -> (res: (Vec<NetEvent>, NetStep))
        requires
            old(self).stage == NetStage::SigningIn,
        ensures
            final(self).password == old(self).password,
            final(self).url == old(self).url,
            final(self).username == old(self).username,
            match outcome {
                Ok(()) => final(self).stage == NetStage::OpeningKey && res.0@.len() == 0 && (res.1 matches NetStep::OpenKey {
                    password,
                } && password == old(self).password),
                Err(e) => final(self).stage == NetStage::Stopped && res.0@.len() == 1 && (res.0@[0] matches NetEvent::Error(m)
                    && m@ == "Sign in failed: "@ + e@) && res.1 is Stop,
            },
    {
        match outcome {
            Ok(()) => {
                self.stage = NetStage::OpeningKey;
                (Vec::new(), NetStep::OpenKey { password: self.password.clone() })
            },
            Err(e) => {
                self.stage = NetStage::Stopped;
                let mut events = Vec::new();
                events.push(error_event("Sign in failed: ", e.as_str()));
                (events, NetStep::Stop)
            },
        }
    }

    /// Hears how opening the secret key went.
    pub fn key_opened(&mut self, outcome: Result<SecretKey, String>) -> (res: (Vec<NetEvent>, NetStep))
        requires
            old(self).stage == NetStage::OpeningKey,
        ensures
            final(self).url == old(self).url,
            final(self).username == old(self).username,
            match outcome {
                Ok(k) => final(self).stage == NetStage::LoadingAccount && final(self).signing_key == k
                    && res.0@.len() == 0 && res.1 is LoadAccount,
                Err(e) => final(self).stage == NetStage::Stopped && res.0@.len() == 1 && (res.0@[0] matches NetEvent::Error(m)
                    && m@ == "Key error: "@ + e@) && res.1 is Stop,
            },
    {
        match outcome {
            Ok(k) => {
                self.signing_key = k;
                self.stage = NetStage::LoadingAccount;
                (Vec::new(), NetStep::LoadAccount)
            },
            Err(e) => {
                self.stage = NetStage::Stopped;
                let mut events = Vec::new();
                events.push(error_event("Key error: ", e.as_str()));
                (events, NetStep::Stop)
            },
        }
    }

    /// Hears how reading the account went. The account's stored public key must decode to
    /// 32 bytes of a curve point; then the session connects.
    pub fn account_loaded(&mut self, outcome: Result<Account, String>) -> (res: (Vec<NetEvent>, NetStep))
        requires
            old(self).stage == NetStage::LoadingAccount,
            outcome matches Ok(a) ==> decodable(encode_utf8(a.verifying_key@)),
        ensures
            final(self).url == old(self).url,
            final(self).username == old(self).username,
            final(self).signing_key == old(self).signing_key,
            match outcome {
                Ok(a) => {
                    let key = b64_decode(a.verifying_key@);
                    if key.len() == 32 && ed25519_point_valid(key) {
                        &&& final(self).stage == NetStage::Connecting
                        &&& final(self).public_key@ == key
                        &&& final(self).address == a.address
                        &&& res.0@.len() == 0
                        &&& res.1 matches NetStep::Connect { url } && url == old(self).url
                    } else {
                        &&& final(self).stage == NetStage::Stopped
                        &&& res.0@.len() == 1
                        &&& res.0@[0] matches NetEvent::Error(m) && m@ == "Bad verifying key"@
                        &&& res.1 is Stop
                    }
                },
                Err(e) => final(self).stage == NetStage::Stopped && res.0@.len() == 1 && (res.0@[0] matches NetEvent::Error(m)
                    && m@ == "Account error: "@ + e@) && res.1 is Stop,
            },
    {
        match outcome {
            Ok(a) => {
                match vec_to_verifying_key(from_base64(a.verifying_key)) {
                    Ok(key) => {
                        self.public_key = key;
                        self.address = a.address;
                        self.stage = NetStage::Connecting;
                        (Vec::new(), NetStep::Connect { url: self.url.clone() })
                    },
                    Err(_) => {
                        self.stage = NetStage::Stopped;
                        let mut events = Vec::new();
                        events.push(NetEvent::Error(String::from_str("Bad verifying key")));
                        (events, NetStep::Stop)
                    },
                }
            },
            Err(e) => {
                self.stage = NetStage::Stopped;
                let mut events = Vec::new();
                events.push(error_event("Account error: ", e.as_str()));
                (events, NetStep::Stop)
            },
        }
    }

    /// Hears how connecting went; once connected the client hears so and the handshake
    /// starts with the account's name, keys and address.
    pub fn connected(&mut self, outcome: Result<(), String>) -> (res: (Vec<NetEvent>, NetStep))
        requires
            old(self).stage == NetStage::Connecting,
        ensures
            final(self).signing_key == old(self).signing_key,
            final(self).public_key == old(self).public_key,
            match outcome {
                Ok(()) => {
                    &&& final(self).stage == NetStage::ShakingHands
                    &&& res.0@.len() == 1
                    &&& res.0@[0] is Connected
                    &&& res.1 matches NetStep::Handshake { username, public_key, address, signing_key }
                    &&& username == old(self).username
                    &&& public_key == old(self).public_key
                    &&& address == old(self).address
                    &&& signing_key == old(self).signing_key
                },
                Err(e) => final(self).stage == NetStage::Stopped && res.0@.len() == 1 && (res.0@[0] matches NetEvent::Error(m)
                    && m@ == "Connect failed: "@ + e@) && res.1 is Stop,
            },
    {
        match outcome {
            Ok(()) => {
                self.stage = NetStage::ShakingHands;
                let mut events = Vec::new();
                events.push(NetEvent::Connected);
                (
                    events,
                    NetStep::Handshake {
                        username: self.username.clone(),
                        public_key: self.public_key,
                        address: self.address.clone(),
                        signing_key: self.signing_key,
                    },
                )
            },
            Err(e) => {
                self.stage = NetStage::Stopped;
                let mut events = Vec::new();
                events.push(error_event("Connect failed: ", e.as_str()));
                (events, NetStep::Stop)
            },
        }
    }

    /// Hears that the relay ended because the connection closed or failed: the client is
    /// told it was disconnected, and the session stops.
    pub fn relay_ended(&mut self) -> (res: (Vec<NetEvent>, NetStep))
        requires
            old(self).stage == NetStage::Relaying,
        ensures
            final(self).stage == NetStage::Stopped,
            res.0@.len() == 1,
            res.0@[0] == NetEvent::Disconnected,
            res.1 is Stop,
    {
        self.stage = NetStage::Stopped;
        let mut events = Vec::new();
        events.push(NetEvent::Disconnected);
        (events, NetStep::Stop)
    }

    /// Hears how the handshake ended (with the session token the server gave). A completed
    /// handshake tells the client, in order, that it is in, its session, its signing key
    /// and its public key, and the session starts relaying; anything else is an error.
    pub fn handshake_finished(&mut self, outcome: Result<(HandshakeStatus, String), HandshakeError>) -> (res: (
        Vec<NetEvent>,
        NetStep,
    ))
        requires
            old(self).stage == NetStage::ShakingHands,
        ensures
            match outcome {
                Ok((HandshakeStatus::Complete, token)) => {
                    &&& final(self).stage == NetStage::Relaying
                    &&& res.0@.len() == 4
                    &&& res.0@[0] matches NetEvent::HandshakeOk(t) && t == token
                    &&& res.0@[1] matches NetEvent::SessionGranted(t) && t == token
                    &&& res.0@[2] == NetEvent::SigningKey(old(self).signing_key)
                    &&& res.0@[3] == NetEvent::VerifyingKey(old(self).public_key)
                    &&& res.1 is Relay
                },
                Ok((HandshakeStatus::Rejected, _)) => final(self).stage == NetStage::Stopped && res.0@.len() == 1 && (res.0@[0] matches NetEvent::Error(m)
                    && m@ == "Handshake: Rejected"@) && res.1 is Stop,
                Err(e) => final(self).stage == NetStage::Stopped && res.0@.len() == 1 && (res.0@[0] matches NetEvent::Error(m)
                    && m@ == "Handshake: "@ + handshake_error_name(e)) && res.1 is Stop,
            },
    {
        let mut events = Vec::new();
        match outcome {
            Ok((HandshakeStatus::Complete, token)) => {
                self.stage = NetStage::Relaying;
                events.push(NetEvent::HandshakeOk(token.clone()));
                events.push(NetEvent::SessionGranted(token));
                events.push(NetEvent::SigningKey(self.signing_key));
                events.push(NetEvent::VerifyingKey(self.public_key));
                (events, NetStep::Relay)
            },
            Ok((HandshakeStatus::Rejected, _)) => {
                self.stage = NetStage::Stopped;
                events.push(NetEvent::Error(String::from_str("Handshake: Rejected")));
                (events, NetStep::Stop)
            },
            Err(e) => {
                self.stage = NetStage::Stopped;
                events.push(error_event("Handshake: ", error_name(e)));
                (events, NetStep::Stop)
            },
        }
    }
}

} // verus!
