use pluton::definitions::{ClientHandshakeFinal, HandshakeError, HandshakeStatus};
use pluton::handshake::{
    random_alphanumeric_string, ClientAction, ClientHandshake, ClientStage, Frame, SendOutcome,
    ServerAction, ServerHandshake, ServerStage, CHALLENGE_SECONDS,
};

fn client(keys: ([u8; 32], [u8; 32])) -> ClientHandshake {
    ClientHandshake::new("alice", keys.1, "http://home".to_string(), keys.0)
}

#[test]
fn an_honest_client_is_admitted() {
    let mut c = client(key_pair("pw"));
    let mut s = ServerHandshake::new("token".to_string());

    let opening = match c.begin() {
        ClientAction::SendOpening(o) => o,
        other => panic!("unexpected {:?}", other),
    };
    assert_eq!(opening.username, "alice");
    assert!(matches!(c.sent(SendOutcome::Sent), ClientAction::ReceiveChallenge));

    let challenge = match s.opening(Frame::Text(opening)) {
        ServerAction::SendChallenge(ch) => ch,
        other => panic!("unexpected {:?}", other),
    };
    assert_eq!(challenge.nonce.len(), 32);
    assert!(challenge.nonce.chars().all(|ch| ch.is_ascii_alphanumeric()));
    assert!(matches!(s.sent(SendOutcome::Sent), ServerAction::ReceiveAnswer));

    let answer = match c.challenge(Frame::Text(challenge)) {
        ClientAction::SendAnswer(a) => a,
        other => panic!("unexpected {:?}", other),
    };
    assert!(matches!(c.sent(SendOutcome::Sent), ClientAction::ReceiveResponse));

    let verdict = match s.answer(Frame::Text(answer)) {
        ServerAction::SendResult(r) => r,
        other => panic!("unexpected {:?}", other),
    };
    assert_eq!(verdict.session_token, "token");
    assert_eq!(verdict.status_code, Ok(HandshakeStatus::Complete));
    match s.sent(SendOutcome::Sent) {
        ServerAction::Finish(Ok((start, status))) => {
            assert_eq!(start.username, "alice");
            assert_eq!(status, HandshakeStatus::Complete);
        },
        other => panic!("unexpected {:?}", other),
    }
    assert_eq!(s.stage, ServerStage::Finished);

    match c.response(Frame::Text(verdict)) {
        ClientAction::Finish(r) => assert_eq!(r, Ok(HandshakeStatus::Complete)),
        other => panic!("unexpected {:?}", other),
    }
    assert_eq!(c.stage, ClientStage::Finished);
}

#[test]
fn a_forged_answer_is_refused() {
    let mut c = client(key_pair("pw"));
    let mut s = ServerHandshake::new(String::new());
    let opening = match c.begin() {
        ClientAction::SendOpening(o) => o,
        other => panic!("unexpected {:?}", other),
    };
    let _ = s.opening(Frame::Text(opening));
    let _ = s.sent(SendOutcome::Sent);
    match s.answer(Frame::Text(ClientHandshakeFinal { signed_message: [0u8; 64] })) {
        ServerAction::Finish(Err(e)) => assert_eq!(e, HandshakeError::BadCryptography),
        other => panic!("unexpected {:?}", other),
    }
}

#[test]
fn unreadable_frames_end_the_handshake() {
    let mut s = ServerHandshake::new(String::new());
    match s.opening(Frame::Unparsable) {
        ServerAction::Finish(Err(e)) => assert_eq!(e, HandshakeError::SerializationError),
        other => panic!("unexpected {:?}", other),
    }
    let mut s = ServerHandshake::new(String::new());
    match s.opening(Frame::NotText) {
        ServerAction::Finish(Err(e)) => assert_eq!(e, HandshakeError::ClientError),
        other => panic!("unexpected {:?}", other),
    }
    let mut c = client(([1u8; 32], [2u8; 32]));
    let _ = c.begin();
    match c.sent(SendOutcome::SendFailed) {
        ClientAction::Finish(Err(e)) => assert_eq!(e, HandshakeError::SendFailed),
        other => panic!("unexpected {:?}", other),
    }
    let mut c = client(([1u8; 32], [2u8; 32]));
    let _ = c.begin();
    let _ = c.sent(SendOutcome::Sent);
    match c.challenge(Frame::NotText) {
        ClientAction::Finish(Err(e)) => assert_eq!(e, HandshakeError::ServerError),
        other => panic!("unexpected {:?}", other),
    }
}

#[test]
fn an_unanswered_challenge_times_out() {
    assert_eq!(CHALLENGE_SECONDS, 120);
    let mut c = client(key_pair("pw"));
    let mut s = ServerHandshake::new("token".to_string());
    let opening = match c.begin() {
        ClientAction::SendOpening(o) => o,
        other => panic!("unexpected {:?}", other),
    };
    let _ = s.opening(Frame::Text(opening));
    assert!(matches!(s.sent(SendOutcome::Sent), ServerAction::ReceiveAnswer));
    assert_eq!(s.stage, ServerStage::AwaitingAnswer);
    assert!(matches!(s.timed_out(), ServerAction::Finish(Err(HandshakeError::ClientError))));
    assert_eq!(s.stage, ServerStage::Finished);
}

#[test]
fn random_texts_have_the_asked_length() {
    let t = random_alphanumeric_string(10);
    assert_eq!(t.len(), 10);
    assert!(t.chars().all(|c| c.is_ascii_alphanumeric()));
}

fn key_pair(password: &str) -> ([u8; 32], [u8; 32]) {
    let (ciphertext, nonce, salt, public) = pluton::crypto::generate_key_pair(password).unwrap();
    let secret = pluton::crypto::open_secret_key(
        &salt,
        &pluton::base64::to_base64(ciphertext),
        &pluton::base64::to_base64(nonce),
        password,
    )
    .unwrap();
    (secret, public)
}
