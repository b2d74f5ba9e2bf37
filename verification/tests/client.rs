use pluton::client::{
    manage_commands, manage_request, message_lines, ClientError, ClientNotice, ClientState,
    CommandEffect,
};
use pluton::crypto::verify_signature;
use pluton::definitions::{
    Channel, Peer, ServerStatus, ServerTextMessage, TextNetworkMessage, UserJoin, UserOverview,
    UserStatus, UserStatusChange,
};
use pluton::peers::PeerMap;

fn general() -> Channel {
    Channel { id: 0, name: "general".to_string() }
}

fn state_with(signing_key: [u8; 32]) -> ClientState {
    ClientState {
        peers: PeerMap::new(),
        current_message_id: 0,
        signing_key,
        current_channel: general(),
        current_messages: Vec::new(),
        message_channels: vec![general(), Channel { id: 1, name: "random".to_string() }],
        voice_channels: Vec::new(),
    }
}

fn state() -> ClientState {
    state_with([2u8; 32])
}

fn text(sender: [u8; 32], channel_id: u64, plaintext: &str) -> ServerTextMessage {
    ServerTextMessage { plaintext: plaintext.to_string(), sender, channel_id, timestamp: 1_700_000_000 }
}

#[test]
fn the_welcome_records_users_and_messages() {
    let mut st = state();
    let bob = [7u8; 32];
    let welcome = ServerStatus {
        name: "srv".to_string(),
        users: vec![UserOverview {
            public_key: bob,
            address: "http://home".to_string(),
            username: "bob".to_string(),
            roles: vec![1],
            status: UserStatus::Sleep,
        }],
        message_channels: vec![general()],
        default_channel: general(),
        voice_channels: Vec::new(),
        messages: vec![text(bob, 0, "hi"), text([8u8; 32], 0, "who?")],
    };
    match manage_request(TextNetworkMessage::ServerStatus(welcome), &mut st) {
        ClientNotice::Welcome(lines) => {
            assert_eq!(lines.len(), 2);
            assert_eq!(lines[0].sender, "bob");
            assert_eq!(lines[0].text, "hi");
            assert_eq!(lines[1].sender, "Error");
        },
        other => panic!("unexpected {:?}", other),
    }
    assert_eq!(st.peers.len(), 1);
    assert_eq!(st.peers.get(&bob).unwrap().status, UserStatus::Sleep);
}

#[test]
fn text_from_another_channel_is_rejected() {
    let mut st = state();
    match manage_request(TextNetworkMessage::ServerText(text([7u8; 32], 1, "elsewhere")), &mut st) {
        ClientNotice::Rejected(e) => assert_eq!(e, ClientError::WrongChannel),
        other => panic!("unexpected {:?}", other),
    }
    match manage_request(TextNetworkMessage::ServerText(text([7u8; 32], 0, "here")), &mut st) {
        ClientNotice::Message(line) => {
            assert_eq!(line.text, "here");
            assert_eq!(line.sender, "Error");
        },
        other => panic!("unexpected {:?}", other),
    }
}

#[test]
fn joins_and_status_changes_update_peers() {
    let mut st = state();
    let carol = [9u8; 32];
    let join = UserJoin { public_key: carol, username: "carol".to_string(), address: String::new() };
    assert!(matches!(manage_request(TextNetworkMessage::UserJoin(join), &mut st), ClientNotice::Nothing));
    assert_eq!(st.peers.get(&carol).unwrap().status, UserStatus::Online);
    let change = UserStatusChange { public_key: carol, status: UserStatus::DoNotDisturb };
    let _ = manage_request(TextNetworkMessage::UserStatusChange(change), &mut st);
    assert_eq!(st.peers.get(&carol).unwrap().status, UserStatus::DoNotDisturb);
    let unknown = UserStatusChange { public_key: [1u8; 32], status: UserStatus::Offline };
    let _ = manage_request(TextNetworkMessage::UserStatusChange(unknown), &mut st);
    assert_eq!(st.peers.len(), 1);
    assert_eq!(st.current_channel.id, 0);
    assert_eq!(st.message_channels.len(), 2);
    assert_eq!(st.current_message_id, 0);
}

#[test]
fn a_chat_line_is_signed_and_numbered() {
    let (secret, public) = key_pair("pw");
    let mut st = state_with(secret);
    let effects = manage_commands("hello there", &mut st);
    assert_eq!(effects.len(), 1);
    match &effects[0] {
        CommandEffect::Send(TextNetworkMessage::ClientText(m)) => {
            assert_eq!(m.plaintext, "hello there");
            assert_eq!(m.id, 0);
            assert_eq!(m.channel.id, 0);
            assert!(verify_signature("hello there", &m.signed_message, &public));
        },
        other => panic!("unexpected {:?}", other),
    }
    assert_eq!(st.current_message_id, 1);
}

#[test]
fn list_swap_and_kick_commands() {
    let mut st = state();
    assert!(matches!(manage_commands("/list", &mut st)[0], CommandEffect::ShowChannelsAndPeers));
    let effects = manage_commands("/swap random", &mut st);
    assert_eq!(st.current_channel.id, 1);
    assert!(effects.iter().any(|e| matches!(e, CommandEffect::Send(TextNetworkMessage::ClientRequestMessages(r)) if r.range == (0..255) && r.channel.id == 1)));
    let effects = manage_commands("/swap", &mut st);
    assert!(matches!(&effects[0], CommandEffect::Say(s) if s == "Invalid command"));
    st.current_messages.push(text([7u8; 32], 1, "kept"));
    let effects = manage_commands("/swap general random", &mut st);
    assert_eq!(effects.len(), 1);
    assert_eq!(st.current_channel.id, 1);
    assert_eq!(st.current_messages.len(), 1);
    assert_eq!(st.message_channels.len(), 2);
    let _ = manage_commands("/swap general", &mut st);
    assert_eq!(st.current_channel.id, 0);
    assert_eq!(st.current_messages.len(), 1);
    assert_eq!(st.current_message_id, 0);

    let dave = [6u8; 32];
    st.peers.insert(dave, Peer { username: "dave".to_string(), address: String::new(), roles: Vec::new(), status: UserStatus::Online });
    let effects = manage_commands("/kick dave spamming a lot", &mut st);
    match &effects[0] {
        CommandEffect::Send(TextNetworkMessage::ClientKickRequest(k)) => {
            assert_eq!(k.recipient, dave);
            assert_eq!(k.reason, "spamming a lot");
        },
        other => panic!("unexpected {:?}", other),
    }
    let effects = manage_commands("/kick nobody x", &mut st);
    assert!(matches!(&effects[0], CommandEffect::Say(s) if s == "User not found"));
    let effects = manage_commands("/kick dave", &mut st);
    assert!(matches!(&effects[0], CommandEffect::Say(s) if s == "Incorrect amount of arguements (/kick user reason)"));
}

#[test]
fn message_lines_name_the_senders() {
    let mut peers = PeerMap::new();
    let erin = [4u8; 32];
    peers.insert(erin, Peer { username: "erin".to_string(), address: String::new(), roles: Vec::new(), status: UserStatus::Online });
    let lines = message_lines(&vec![text(erin, 0, "a"), text([5u8; 32], 0, "b")], &peers);
    assert_eq!(lines[0].sender, "erin");
    assert_eq!(lines[1].sender, "Error");
    assert_eq!(lines[1].text, "b");
}

fn key_pair(password: &str) -> ([u8; 32], [u8; 32]) {
    let (ciphertext, nonce, salt, public) = pluton::crypto::generate_key_pair(password).unwrap();
    let secret = pluton::crypto::open_secret_key(
        &salt,
        &pluton::base64::to_base64(ciphertext),
        &pluton::base64::to_base64(nonce),
        password,
    )
    .unwrap();
    (secret, public)
}

#[test]
fn a_time_off_the_calendar_is_rejected() {
    let mut st = state();
    let mut m = text([7u8; 32], 0, "late");
    m.timestamp = i64::MAX;
    match manage_request(TextNetworkMessage::ServerText(m), &mut st) {
        ClientNotice::Rejected(e) => assert_eq!(e, ClientError::InvalidTimestamp),
        other => panic!("unexpected {:?}", other),
    }
}

#[test]
fn times_beyond_chronos_calendar_are_rejected() {
    let mut st = state();
    let at = |t: i64| ServerTextMessage { plaintext: "x".to_string(), sender: [7u8; 32], channel_id: 0, timestamp: t };
    for t in [8_210_266_876_799i64, -8_334_601_228_800, 0] {
        assert!(matches!(manage_request(TextNetworkMessage::ServerText(at(t)), &mut st), ClientNotice::Message(_)));
    }
    for t in [8_210_266_876_800i64, -8_334_601_228_801, i64::MAX, i64::MIN] {
        match manage_request(TextNetworkMessage::ServerText(at(t)), &mut st) {
            ClientNotice::Rejected(e) => assert_eq!(e, ClientError::InvalidTimestamp),
            other => panic!("unexpected {:?}", other),
        }
    }
}
