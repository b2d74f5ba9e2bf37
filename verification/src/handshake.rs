//! The challenge-response handshake, as a state machine for each side.
//!
//! Each side is driven by its caller, which performs the actions the machine asks for
//! (send a message, receive the next frame) and hands back what happened. The machines
//! decide; they never touch the network.

use vstd::prelude::*;
use vstd::utf8::*;
use crate::crypto::{ed25519_public, ed25519_signature, ed25519_verifies, sign_message, verify_signature};
use crate::definitions::{
    ClientHandshakeFinal, ClientHandshakeStart, HandshakeError, HandshakeStatus, PublicKey,
    SecretKey, ServerChallenge, ServerResponse, VERSION,
};
use crate::text::push_char;

verus! {

/// Length of the random challenge the server asks clients to sign.
pub const CHALLENGE_LENGTH: usize = 32;

/// How long, in seconds, a client has to answer the challenge before the server drops it.
pub const CHALLENGE_SECONDS: u64 = 120;

/// What the connection delivered where a message was expected: a text frame holding a
/// message of the expected kind, a text frame that does not parse as one, or anything
/// else (a binary or control frame, an error, or the end of the stream).
#[derive(Debug)]
pub enum Frame<T> {
    Text(T),
    Unparsable,
    NotText,
}

/// How sending a message went.
#[derive(Clone, Copy, Debug, PartialEq, Eq, Structural)]
pub enum SendOutcome {
    Sent,
    SendFailed,
    NotSerializable,
}

/// An ASCII letter or digit.
pub open spec fn is_alphanumeric_ascii(c: char) -> bool {
    ('0' <= c <= '9') || ('A' <= c <= 'Z') || ('a' <= c <= 'z')
}

/// `Rng::sample` of the thread's generator with the `Alphanumeric` distribution. The
/// byte is random; the contract claims only what the crate's source shows: it is an
/// ASCII letter or digit.
#[verifier::external_body]
fn random_alphanumeric() -> (b: u8)
    ensures
        is_alphanumeric_ascii(b as char),
{
    rand::Rng::sample(&mut rand::thread_rng(), rand::distributions::Alphanumeric)
}

/// A random text of `len` ASCII letters and digits.
pub fn random_alphanumeric_string(len: usize) -> (s: String)
    ensures
        s@.len() == len,
        forall|i: int| 0 <= i < len ==> is_alphanumeric_ascii(#[trigger] s@[i]),
{
    let mut s = String::new();
    let mut i: usize = 0;
    while i < len
        invariant
            i <= len,
            s@.len() == i,
            forall|k: int| 0 <= k < i ==> is_alphanumeric_ascii(#[trigger] s@[k]),
        decreases len - i,
    {
        let b = random_alphanumeric();
        push_char(&mut s, b as char);
        i = i + 1;
    }
    s
}

/// Where the client stands in the handshake.
#[derive(Clone, Copy, Debug, PartialEq, Eq, Structural)]
pub enum ClientStage {
    Opening,
    SendingOpening,
    AwaitingChallenge,
    SendingAnswer,
    AwaitingResponse,
    Finished,
}

/// What the client asks its caller to do next.
#[derive(Debug)]
pub enum ClientAction {
    SendOpening(ClientHandshakeStart),
    ReceiveChallenge,
    SendAnswer(ClientHandshakeFinal),
    ReceiveResponse,
    Finish(Result<HandshakeStatus, HandshakeError>),
}

/// The client's side of a handshake.
#[derive(Debug)]
pub struct ClientHandshake {
    pub stage: ClientStage,
    pub username: String,
    pub public_key: PublicKey,
    pub address: String,
    pub signing_key: SecretKey,
}

/// The error that a frame which is not the expected message gives.
pub open spec fn frame_error<T>(frame: Frame<T>, not_text: HandshakeError) -> HandshakeError {
    match frame {
        Frame::Unparsable => HandshakeError::SerializationError,
        _ => not_text,
    }
}

/// What the client does with the server's challenge (see `ClientHandshake::challenge`):
/// `before` and `after` are its side around the frame.
pub open spec fn challenge_answered(before: ClientHandshake, frame: Frame<ServerChallenge>, after: ClientHandshake, action: ClientAction) -> bool {
    &&& (after.public_key == before.public_key)
    &&& (after.signing_key == before.signing_key)
    &&& (match frame {
        Frame::Text(ch) => {
            &&& after.stage == ClientStage::SendingAnswer
            &&& action matches ClientAction::SendAnswer(answer)
            &&& answer.signed_message@ == ed25519_signature(
                before.signing_key@,
                encode_utf8(ch.nonce@),
            )
            &&& ed25519_verifies(
                ed25519_public(before.signing_key@),
                encode_utf8(ch.nonce@),
                answer.signed_message@,
            )
        },
        _ => after.stage == ClientStage::Finished && action == ClientAction::Finish(
            Err(frame_error(frame, HandshakeError::ServerError)),
        ),
    })
}

impl ClientHandshake {
    /// A client about to open a handshake as `username`, announcing `public_key` and
    /// `address`, and signing with `signing_key`.
    pub fn new(username: &str, public_key: PublicKey, address: String, signing_key: SecretKey) -> (c:
        ClientHandshake)
        ensures
            c.stage == ClientStage::Opening,
            c.username@ == username@,
            c.public_key == public_key,
            c.address == address,
            c.signing_key == signing_key,
    {
        ClientHandshake {
            stage: ClientStage::Opening,
            username: String::from_str(username),
            public_key,
            address,
            signing_key,
        }
    }

    /// Opens the handshake: the client announces its name, key and address.
    pub fn begin(&mut self) -> (action: ClientAction)
        requires
            old(self).stage == ClientStage::Opening,
        ensures
            final(self).stage == ClientStage::SendingOpening,
            final(self).username == old(self).username,
            final(self).public_key == old(self).public_key,
            final(self).address == old(self).address,
            final(self).signing_key == old(self).signing_key,
            action matches ClientAction::SendOpening(start) && start.username == old(self).username
                && start.public_key == old(self).public_key && start.address == old(self).address
                && start.version == VERSION,
    {
        self.stage = ClientStage::SendingOpening;
        ClientAction::SendOpening(
            ClientHandshakeStart {
                username: self.username.clone(),
                public_key: self.public_key,
                address: self.address.clone(),
                version: VERSION,
            },
        )
    }

    /// Hears how sending the last message went: after a success the client waits for the
    /// server's next message, and after a failure the handshake ends with that failure.
    pub fn sent(&mut self, outcome: SendOutcome) -> (action: ClientAction)
        requires
            old(self).stage == ClientStage::SendingOpening || old(self).stage
                == ClientStage::SendingAnswer,
        ensures
            final(self).public_key == old(self).public_key,
            final(self).signing_key == old(self).signing_key,
            match outcome {
                SendOutcome::Sent => if old(self).stage == ClientStage::SendingOpening {
                    final(self).stage == ClientStage::AwaitingChallenge && action
                        is ReceiveChallenge
                } else {
                    final(self).stage == ClientStage::AwaitingResponse && action
                        is ReceiveResponse
                },
                SendOutcome::SendFailed => final(self).stage == ClientStage::Finished && action
                    == ClientAction::Finish(Err(HandshakeError::SendFailed)),
                SendOutcome::NotSerializable => final(self).stage == ClientStage::Finished
                    && action == ClientAction::Finish(Err(HandshakeError::SerializationError)),
            },
    {
        match outcome {
            SendOutcome::Sent => {
                if self.stage == ClientStage::SendingOpening {
                    self.stage = ClientStage::AwaitingChallenge;
                    ClientAction::ReceiveChallenge
                } else {
                    self.stage = ClientStage::AwaitingResponse;
                    ClientAction::ReceiveResponse
                }
            },
            SendOutcome::SendFailed => {
                self.stage = ClientStage::Finished;
                ClientAction::Finish(Err(HandshakeError::SendFailed))
            },
            SendOutcome::NotSerializable => {
                self.stage = ClientStage::Finished;
                ClientAction::Finish(Err(HandshakeError::SerializationError))
            },
        }
    }

    /// Answers the server's challenge by signing its text; a frame that is not a
    /// challenge ends the handshake.
    pub fn challenge(&mut self, frame: Frame<ServerChallenge>) -> (action: ClientAction)
        requires
            old(self).stage == ClientStage::AwaitingChallenge,
        ensures
            challenge_answered(*old(self), frame, *final(self), action),

    {
        match frame {
            Frame::Text(ch) => {
                let signed = sign_message(ch.nonce.as_str(), &self.signing_key);
                self.stage = ClientStage::SendingAnswer;
                ClientAction::SendAnswer(ClientHandshakeFinal { signed_message: signed })
            },
            Frame::Unparsable => {
                self.stage = ClientStage::Finished;
                ClientAction::Finish(Err(HandshakeError::SerializationError))
            },
            Frame::NotText => {
                self.stage = ClientStage::Finished;
                ClientAction::Finish(Err(HandshakeError::ServerError))
            },
        }
    }

    /// Reads the server's answer; the handshake ends with the status in it.
    pub fn response(&mut self, frame: Frame<ServerResponse>) -> (action: ClientAction)
        requires
            old(self).stage == ClientStage::AwaitingResponse,
        ensures
            final(self).stage == ClientStage::Finished,
            match frame {
                Frame::Text(r) => action == ClientAction::Finish(r.status_code),
                _ => action == ClientAction::Finish(
                    Err(frame_error(frame, HandshakeError::ServerError)),
                ),
            },
    {
        self.stage = ClientStage::Finished;
        match frame {
            Frame::Text(r) => ClientAction::Finish(r.status_code),
            Frame::Unparsable => ClientAction::Finish(Err(HandshakeError::SerializationError)),
            Frame::NotText => ClientAction::Finish(Err(HandshakeError::ServerError)),
        }
    }
}

/// Where the server stands in the handshake.
#[derive(Clone, Copy, Debug, PartialEq, Eq, Structural)]
pub enum ServerStage {
    AwaitingOpening,
    SendingChallenge,
    AwaitingAnswer,
    SendingResult,
    Finished,
}

/// What the server asks its caller to do next.
#[derive(Debug)]
pub enum ServerAction {
    SendChallenge(ServerChallenge),
    ReceiveAnswer,
    SendResult(ServerResponse),
    Finish(Result<(ClientHandshakeStart, HandshakeStatus), HandshakeError>),
}

/// The server's side of a handshake with one client.
#[derive(Debug)]
pub struct ServerHandshake {
    pub stage: ServerStage,
    pub session_token: String,
    /// The challenge sent to the client.
    pub nonce: String,
    /// The client's opening message, once it has come.
    pub opening: Option<ClientHandshakeStart>,
}

/// The server admits a client whose answer is a valid signature of the challenge text
/// under the public key it announced.
pub open spec fn admits(opening: ClientHandshakeStart, nonce: Seq<char>, answer: ClientHandshakeFinal) -> bool {
    ed25519_verifies(opening.public_key@, encode_utf8(nonce), answer.signed_message@)
}

/// What the server does with the client's answer (see `ServerHandshake::answer`):
/// `before` and `after` are its side around the frame.
pub open spec fn answer_judged(before: ServerHandshake, frame: Frame<ClientHandshakeFinal>, after: ServerHandshake, action: ServerAction) -> bool {
    &&& (after.opening == before.opening)
    &&& (after.nonce == before.nonce)
    &&& (match frame {
        Frame::Text(answer) => if admits(before.opening->0, before.nonce@, answer) {
            &&& after.stage == ServerStage::SendingResult
            &&& action matches ServerAction::SendResult(r)
            &&& r.session_token == before.session_token
            &&& r.status_code == Ok::<HandshakeStatus, HandshakeError>(
                HandshakeStatus::Complete,
            )
        } else {
            after.stage == ServerStage::Finished && action == ServerAction::Finish(
                Err(HandshakeError::BadCryptography),
            )
        },
        _ => after.stage == ServerStage::Finished && action == ServerAction::Finish(
            Err(frame_error(frame, HandshakeError::ClientError)),
        ),
    })
}

impl ServerHandshake {
    /// The server's side is consistent: between the opening and the verdict, the opening
    /// is kept and the challenge has its full length.
    pub open spec fn wf(&self) -> bool {
        (self.stage == ServerStage::SendingChallenge || self.stage == ServerStage::AwaitingAnswer
            || self.stage == ServerStage::SendingResult) ==> self.opening is Some
            && self.nonce@.len() == CHALLENGE_LENGTH
    }

    /// A server waiting for a client's opening; `session_token` goes into its verdict.
    pub fn new(session_token: String) -> (s: ServerHandshake)
        ensures
            s.wf(),
            s.stage == ServerStage::AwaitingOpening,
            s.session_token == session_token,
            s.opening is None,
    {
        ServerHandshake {
            stage: ServerStage::AwaitingOpening,
            session_token,
            nonce: String::new(),
            opening: None,
        }
    }

    /// Takes the client's opening and challenges it with a fresh random text of letters
    /// and digits; a frame that is not an opening ends the handshake.
    pub fn opening(&mut self, frame: Frame<ClientHandshakeStart>) -> (action: ServerAction)
        requires
            old(self).stage == ServerStage::AwaitingOpening,
        ensures
            final(self).wf(),
            final(self).session_token == old(self).session_token,
            match frame {
                Frame::Text(start) => {
                    &&& final(self).stage == ServerStage::SendingChallenge
                    &&& final(self).opening == Some(start)
                    &&& final(self).nonce@.len() == CHALLENGE_LENGTH
                    &&& forall|i: int|
                        0 <= i < CHALLENGE_LENGTH ==> is_alphanumeric_ascii(
                            #[trigger] final(self).nonce@[i],
                        )
                    &&& action matches ServerAction::SendChallenge(ch) && ch.nonce@
                        == final(self).nonce@ && ch.version == VERSION
                },
                _ => final(self).stage == ServerStage::Finished && action == ServerAction::Finish(
                    Err(frame_error(frame, HandshakeError::ClientError)),
                ),
            },
    {
        match frame {
            Frame::Text(start) => {
                let nonce = random_alphanumeric_string(CHALLENGE_LENGTH);
                self.nonce = nonce.clone();
                self.opening = Some(start);
                self.stage = ServerStage::SendingChallenge;
                ServerAction::SendChallenge(ServerChallenge { nonce, version: VERSION })
            },
            Frame::Unparsable => {
                self.stage = ServerStage::Finished;
                ServerAction::Finish(Err(HandshakeError::SerializationError))
            },
            Frame::NotText => {
                self.stage = ServerStage::Finished;
                ServerAction::Finish(Err(HandshakeError::ClientError))
            },
        }
    }

    /// Hears how sending the challenge or the verdict went. After the verdict has gone
    /// out the handshake is complete and hands back the client's opening.
    pub fn sent(&mut self, outcome: SendOutcome) -> (action: ServerAction)
        requires
            old(self).wf(),
            old(self).stage == ServerStage::SendingChallenge || old(self).stage
                == ServerStage::SendingResult,
            old(self).stage == ServerStage::SendingChallenge ==> outcome
                != SendOutcome::NotSerializable,
        ensures
            final(self).wf(),
            final(self).nonce == old(self).nonce,
            final(self).session_token == old(self).session_token,
            match outcome {
                SendOutcome::Sent => if old(self).stage == ServerStage::SendingChallenge {
                    final(self).stage == ServerStage::AwaitingAnswer && action is ReceiveAnswer
                        && final(self).opening == old(self).opening
                } else {
                    final(self).stage == ServerStage::Finished && action == ServerAction::Finish(
                        Ok((old(self).opening->0, HandshakeStatus::Complete)),
                    )
                },
                SendOutcome::SendFailed => final(self).stage == ServerStage::Finished && action
                    == ServerAction::Finish(Err(HandshakeError::SendFailed)),
                SendOutcome::NotSerializable => final(self).stage == ServerStage::Finished
                    && action == ServerAction::Finish(Err(HandshakeError::SerializationError)),
            },
    {
        match outcome {
            SendOutcome::Sent => {
                if self.stage == ServerStage::SendingChallenge {
                    self.stage = ServerStage::AwaitingAnswer;
                    ServerAction::ReceiveAnswer
                } else {
                    self.stage = ServerStage::Finished;
                    let opening = self.opening.take().unwrap();
                    ServerAction::Finish(Ok((opening, HandshakeStatus::Complete)))
                }
            },
            SendOutcome::SendFailed => {
                self.stage = ServerStage::Finished;
                ServerAction::Finish(Err(HandshakeError::SendFailed))
            },
            SendOutcome::NotSerializable => {
                self.stage = ServerStage::Finished;
                ServerAction::Finish(Err(HandshakeError::SerializationError))
            },
        }
    }

    /// Checks the client's answer: a valid signature of the challenge under the key the
    /// client announced gets a verdict of completion, anything else ends the handshake.
    pub fn answer(&mut self, frame: Frame<ClientHandshakeFinal>) -> (action: ServerAction)
        requires
            old(self).wf(),
            old(self).stage == ServerStage::AwaitingAnswer,
        ensures
            final(self).wf(),
            answer_judged(*old(self), frame, *final(self), action),

    {
        match frame {
            Frame::Text(answer) => {
                let key = match &self.opening {
                    Some(o) => o.public_key,
                    None => [0u8; 32],
                };
                if !verify_signature(self.nonce.as_str(), &answer.signed_message, &key) {
                    self.stage = ServerStage::Finished;
                    return ServerAction::Finish(Err(HandshakeError::BadCryptography));
                }
                self.stage = ServerStage::SendingResult;
                ServerAction::SendResult(
                    ServerResponse {
                        session_token: self.session_token.clone(),
                        status_code: Ok(HandshakeStatus::Complete),
                    },
                )
            },
            Frame::Unparsable => {
                self.stage = ServerStage::Finished;
                ServerAction::Finish(Err(HandshakeError::SerializationError))
            },
            Frame::NotText => {
                self.stage = ServerStage::Finished;
                ServerAction::Finish(Err(HandshakeError::ClientError))
            },
        }
    }

    /// The client let the challenge's time (`CHALLENGE_SECONDS`) run out without
    /// answering: the handshake ends, with the client at fault.
    pub fn timed_out(&mut self) -> (action: ServerAction)
        requires
            old(self).wf(),
            old(self).stage == ServerStage::AwaitingAnswer,
        ensures
            final(self).wf(),
            final(self).stage == ServerStage::Finished,
            final(self).opening == old(self).opening,
            final(self).nonce == old(self).nonce,
            final(self).session_token == old(self).session_token,
            action == ServerAction::Finish(Err(HandshakeError::ClientError)),
    {
        self.stage = ServerStage::Finished;
        ServerAction::Finish(Err(HandshakeError::ClientError))
    }
}

/// An honest client is admitted: when the key a client announces is the public key of
/// the secret it signs with, its answer to any challenge (a signature that verifies
/// under that public key, as the client's side produces) is accepted by the server.
pub proof fn law_honest_client_admitted(
    opening: ClientHandshakeStart,
    nonce: Seq<char>,
    answer: ClientHandshakeFinal,
    secret: Seq<u8>,
)
    requires
        opening.public_key@ == ed25519_public(secret),
        ed25519_verifies(ed25519_public(secret), encode_utf8(nonce), answer.signed_message@),
    ensures
        admits(opening, nonce, answer),
{
}

/// The server completes a handshake exactly for an answer that is a valid signature of
/// the challenge text under the key the client announced, and turns every other answer
/// away as bad cryptography.
pub proof fn law_server_admits_exactly_valid_answers(
    before: ServerHandshake,
    answer: ClientHandshakeFinal,
    after: ServerHandshake,
    action: ServerAction,
)
    requires
        answer_judged(before, Frame::Text(answer), after, action),
    ensures
        (action matches ServerAction::SendResult(r) && r.status_code == Ok::<
            HandshakeStatus,
            HandshakeError,
        >(HandshakeStatus::Complete) && r.session_token == before.session_token)
            <==> ed25519_verifies(
            before.opening->0.public_key@,
            encode_utf8(before.nonce@),
            answer.signed_message@,
        ),
        !ed25519_verifies(
            before.opening->0.public_key@,
            encode_utf8(before.nonce@),
            answer.signed_message@,
        ) ==> action == ServerAction::Finish(Err(HandshakeError::BadCryptography))
            && after.stage == ServerStage::Finished,
{
}

/// A client that announces the public key of the key it signs with gets through: its
/// answer to the server's challenge is one the server completes the handshake on.
pub proof fn law_honest_client_is_admitted(
    client_before: ClientHandshake,
    challenge: ServerChallenge,
    client_after: ClientHandshake,
    client_action: ClientAction,
    server_before: ServerHandshake,
    server_after: ServerHandshake,
    server_action: ServerAction,
)
    requires
        client_before.public_key@ == ed25519_public(client_before.signing_key@),
        challenge_answered(client_before, Frame::Text(challenge), client_after, client_action),
        server_before.opening matches Some(o) && o.public_key == client_before.public_key,
        server_before.nonce@ == challenge.nonce@,
        client_action matches ClientAction::SendAnswer(answer) && answer_judged(
            server_before,
            Frame::Text(answer),
            server_after,
            server_action,
        ),
    ensures
        server_action matches ServerAction::SendResult(r) && r.status_code == Ok::<
            HandshakeStatus,
            HandshakeError,
        >(HandshakeStatus::Complete),
{
}

} // verus!
