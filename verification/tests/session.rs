use pluton::account::Account;
use pluton::base64::to_base64;
use pluton::definitions::{HandshakeError, HandshakeStatus};
use pluton::session::{NetSession, NetStage, NetStep};
use pluton::tui::NetEvent;

fn key_pair(password: &str) -> ([u8; 32], [u8; 32]) {
    let (ciphertext, nonce, salt, public) = pluton::crypto::generate_key_pair(password).unwrap();
    let secret = pluton::crypto::open_secret_key(
        &salt,
        &pluton::base64::to_base64(ciphertext),
        &pluton::base64::to_base64(nonce),
        password,
    )
    .unwrap();
    (secret, public)
}

fn account(verifying_key: String) -> Account {
    Account {
        account_id: String::new(),
        ciphertext: String::new(),
        nonce: String::new(),
        salt: String::new(),
        verifying_key,
        username: "amy".to_string(),
        address: "http://home".to_string(),
        servers: String::new(),
    }
}

fn error_text(events: &[NetEvent]) -> String {
    match &events[0] {
        NetEvent::Error(m) => m.clone(),
        other => panic!("unexpected {:?}", other),
    }
}

#[test]
fn a_session_runs_its_steps_in_order() {
    let (secret, public) = key_pair("pw");
    let (mut s, step) = NetSession::start("ws://srv".to_string(), "amy".to_string(), "pw".to_string());
    assert!(matches!(step, NetStep::SignIn { ref username, ref password } if username == "amy" && password == "pw"));
    let (ev, step) = s.signed_in(Ok(()));
    assert!(ev.is_empty());
    assert!(matches!(step, NetStep::OpenKey { ref password } if password == "pw"));
    let (_, step) = s.key_opened(Ok(secret));
    assert!(matches!(step, NetStep::LoadAccount));
    let (_, step) = s.account_loaded(Ok(account(to_base64(public.to_vec()))));
    assert!(matches!(step, NetStep::Connect { ref url } if url == "ws://srv"));
    let (ev, step) = s.connected(Ok(()));
    assert!(matches!(ev[0], NetEvent::Connected));
    match step {
        NetStep::Handshake { username, public_key, address, signing_key } => {
            assert_eq!(username, "amy");
            assert_eq!(public_key, public);
            assert_eq!(address, "http://home");
            assert_eq!(signing_key, secret);
        },
        other => panic!("unexpected {:?}", other),
    }
    let (ev, step) = s.handshake_finished(Ok((HandshakeStatus::Complete, "tok".to_string())));
    assert_eq!(ev.len(), 4);
    assert!(matches!(&ev[0], NetEvent::HandshakeOk(t) if t == "tok"));
    assert!(matches!(&ev[1], NetEvent::SessionGranted(t) if t == "tok"));
    assert!(matches!(ev[3], NetEvent::VerifyingKey(k) if k == public));
    assert!(matches!(step, NetStep::Relay));
    assert_eq!(s.stage, NetStage::Relaying);
    let (ev, step) = s.relay_ended();
    assert_eq!(ev.len(), 1);
    assert!(matches!(ev[0], NetEvent::Disconnected));
    assert!(matches!(step, NetStep::Stop));
    assert_eq!(s.stage, NetStage::Stopped);
}

#[test]
fn each_failure_stops_with_its_message() {
    let (mut s, _) = NetSession::start(String::new(), String::new(), String::new());
    let (ev, step) = s.signed_in(Err("no such user".to_string()));
    assert_eq!(error_text(&ev), "Sign in failed: no such user");
    assert!(matches!(step, NetStep::Stop));

    let (mut s, _) = NetSession::start(String::new(), String::new(), String::new());
    let _ = s.signed_in(Ok(()));
    let (ev, _) = s.key_opened(Err("bad".to_string()));
    assert_eq!(error_text(&ev), "Key error: bad");

    let (mut s, _) = NetSession::start(String::new(), String::new(), String::new());
    let _ = s.signed_in(Ok(()));
    let _ = s.key_opened(Ok([0u8; 32]));
    let (ev, _) = s.account_loaded(Ok(account(to_base64(vec![1u8; 5]))));
    assert_eq!(error_text(&ev), "Bad verifying key");

    let (mut s, _) = NetSession::start(String::new(), String::new(), String::new());
    let _ = s.signed_in(Ok(()));
    let _ = s.key_opened(Ok([0u8; 32]));
    let (ev, _) = s.account_loaded(Err("missing".to_string()));
    assert_eq!(error_text(&ev), "Account error: missing");
}

#[test]
fn connection_and_handshake_failures() {
    let (_, public) = key_pair("pw");
    let ready = || {
        let (mut s, _) = NetSession::start(String::new(), String::new(), String::new());
        let _ = s.signed_in(Ok(()));
        let _ = s.key_opened(Ok([0u8; 32]));
        let _ = s.account_loaded(Ok(account(to_base64(public.to_vec()))));
        s
    };
    let mut s = ready();
    let (ev, _) = s.connected(Err("refused".to_string()));
    assert_eq!(error_text(&ev), "Connect failed: refused");
    let mut s = ready();
    let _ = s.connected(Ok(()));
    let (ev, _) = s.handshake_finished(Err(HandshakeError::BadCryptography));
    assert_eq!(error_text(&ev), "Handshake: BadCryptography");
    let mut s = ready();
    let _ = s.connected(Ok(()));
    let (ev, _) = s.handshake_finished(Ok((HandshakeStatus::Rejected, String::new())));
    assert_eq!(error_text(&ev), "Handshake: Rejected");
}
