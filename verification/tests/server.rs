use pluton::crypto::sign_message;
use pluton::definitions::{
    Channel, ChangeUserStatus, ClientHandshakeStart, ClientRequestMessages, ClientTextMessage,
    RolePermissions, TextNetworkMessage, UserStatus,
};
use pluton::server::{
    answer_client_message, join_alert, kick_target, member_from_join, requested_messages, welcome,
    ConnectionAction, KickError, Member, Registry,
};
use pluton::store::{
    grants_permission, message_window, messages_from_rows, role_ids, user_overview, MessageRow, RowError,
};

fn member(name: &str, public_key: [u8; 32], session: &str) -> Member {
    Member {
        username: name.to_string(),
        public_key,
        address: String::new(),
        roles: Vec::new(),
        status: UserStatus::Online,
        session_id: session.to_string(),
    }
}

#[test]
fn members_join_and_leave() {
    let mut r = Registry::new();
    r.join(1, member("ann", [1u8; 32], "s1"));
    r.join(2, member("ben", [2u8; 32], "s2"));
    assert_eq!(r.len(), 2);
    let mut others = r.others(1);
    others.sort();
    assert_eq!(others, vec![2]);
    let mut all = r.everyone();
    all.sort();
    assert_eq!(all, vec![1, 2]);
    let gone = r.leave(1).unwrap();
    assert_eq!(gone.username, "ann");
    assert!(r.leave(1).is_none());
    assert_eq!(r.len(), 1);
    assert_eq!(r.get(2).unwrap().username, "ben");
}

#[test]
fn a_handshake_makes_an_online_member() {
    let start = ClientHandshakeStart { username: "cat".to_string(), public_key: [3u8; 32], address: "h".to_string(), version: 1 };
    let m = member_from_join(start, "tok".to_string());
    assert_eq!(m.username, "cat");
    assert_eq!(m.status, UserStatus::Online);
    assert!(m.roles.is_empty());
    assert_eq!(m.session_id, "tok");
    match join_alert([3u8; 32]) {
        TextNetworkMessage::UserStatusChange(c) => assert_eq!(c.status, UserStatus::Online),
        other => panic!("unexpected {:?}", other),
    }
}

#[test]
fn signed_chat_is_relayed_trimmed_to_everyone() {
    let (secret, key) = key_pair("pw");
    let mut r = Registry::new();
    r.join(1, member("ann", key, "s1"));
    r.join(2, member("ben", [2u8; 32], "s2"));
    let plaintext = "  hi there \n".to_string();
    let signed = sign_message(&plaintext, &secret);
    let msg = TextNetworkMessage::ClientText(ClientTextMessage {
        plaintext,
        signed_message: signed,
        id: 0,
        channel: Channel { id: 4, name: "dev".to_string() },
    });
    match answer_client_message(&mut r, 1, &key, msg, 1234) {
        ConnectionAction::Relay { message, channel, mut recipients } => {
            assert_eq!(message.plaintext, "hi there");
            assert_eq!(message.sender, key);
            assert_eq!(message.timestamp, 1234);
            assert_eq!(message.channel_id, 4);
            assert_eq!(channel.name, "dev");
            recipients.sort();
            assert_eq!(recipients, vec![1, 2]);
        },
        other => panic!("unexpected {:?}", other),
    }
}

#[test]
fn a_bad_signature_is_rejected() {
    let (secret, key) = key_pair("pw");
    let mut r = Registry::new();
    let msg = TextNetworkMessage::ClientText(ClientTextMessage {
        plaintext: "x".to_string(),
        signed_message: sign_message("y", &secret),
        id: 0,
        channel: Channel { id: 0, name: String::new() },
    });
    assert!(matches!(answer_client_message(&mut r, 1, &key, msg, 0), ConnectionAction::Rejected));
}

#[test]
fn status_changes_and_history_requests() {
    let key = [1u8; 32];
    let mut r = Registry::new();
    r.join(1, member("ann", key, "s1"));
    let msg = TextNetworkMessage::ChangeUserStatus(ChangeUserStatus { status: UserStatus::Sleep });
    assert!(matches!(answer_client_message(&mut r, 1, &key, msg, 0), ConnectionAction::Nothing));
    assert_eq!(r.get(1).unwrap().status, UserStatus::Sleep);
    assert_eq!(r.status_of(&key), UserStatus::Sleep);
    assert_eq!(r.status_of(&[0u8; 32]), UserStatus::Offline);
    let req = TextNetworkMessage::ClientRequestMessages(ClientRequestMessages { range: 3..9, channel: Channel { id: 2, name: "b".to_string() } });
    match answer_client_message(&mut r, 1, &key, req, 0) {
        ConnectionAction::Fetch { range, channel } => {
            assert_eq!(range, 3..9);
            assert_eq!(channel.id, 2);
        },
        other => panic!("unexpected {:?}", other),
    }
    match requested_messages(Vec::new()) {
        TextNetworkMessage::ServerRequestMessages(m) => assert!(m.messages.is_empty()),
        other => panic!("unexpected {:?}", other),
    }
}

#[test]
fn kicks_find_the_member_by_key() {
    let mut r = Registry::new();
    r.join(7, member("ann", [1u8; 32], "s1"));
    assert_eq!(kick_target(&r, &[1u8; 32]), Ok(7));
    assert_eq!(kick_target(&r, &[0u8; 32]), Err(KickError::RecipientNotFound));
}

#[test]
fn the_welcome_lists_the_members() {
    let mut r = Registry::new();
    r.join(1, member("ann", [1u8; 32], "s1"));
    let general = Channel { id: 0, name: "general".to_string() };
    match welcome(&r, "srv".to_string(), vec![general.clone()], general, Vec::new(), Vec::new()) {
        TextNetworkMessage::ServerStatus(s) => {
            assert_eq!(s.name, "srv");
            assert_eq!(s.users.len(), 1);
            assert_eq!(s.users[0].username, "ann");
        },
        other => panic!("unexpected {:?}", other),
    }
}

#[test]
fn message_windows() {
    assert_eq!(message_window(&(0..256)), Some((256, 0)));
    assert_eq!(message_window(&(10..15)), Some((5, 10)));
    assert_eq!(message_window(&(15..10)), None);
}

#[test]
fn rows_come_back_oldest_first() {
    let k1 = key_pair("one").1.to_vec();
    let k2 = key_pair("two").1.to_vec();
    let rows = vec![
        MessageRow { plaintext: "newest".to_string(), sender: k1.clone(), timestamp: 20 },
        MessageRow { plaintext: "oldest".to_string(), sender: k2, timestamp: 10 },
    ];
    let ms = messages_from_rows(&rows, 9).unwrap();
    assert_eq!(ms[0].plaintext, "oldest");
    assert_eq!(ms[1].plaintext, "newest");
    assert_eq!(ms[1].sender.to_vec(), k1);
    assert_eq!(ms[0].channel_id, 9);
    let bad = vec![MessageRow { plaintext: String::new(), sender: vec![1, 2, 3], timestamp: 0 }];
    assert_eq!(messages_from_rows(&bad, 0).unwrap_err(), RowError::KeyLength(3));
}

#[test]
fn roles_must_fit_in_a_byte() {
    assert_eq!(role_ids(&vec![1, 255]), Ok(vec![1u8, 255]));
    assert_eq!(role_ids(&vec![1, 256, 999]), Err(RowError::RoleTooLarge(256)));
}

#[test]
fn kick_permission_needs_a_flag_of_one() {
    assert!(grants_permission(&vec![0, 1], RolePermissions::Kick));
    assert!(!grants_permission(&vec![0, 2], RolePermissions::Kick));
    assert!(!grants_permission(&vec![], RolePermissions::Kick));
}

#[test]
fn stored_users_without_a_profile_are_anonymous() {
    let mut r = Registry::new();
    let key = [1u8; 32];
    r.join(1, member("ann", key, "s1"));
    let u = user_overview(key, "http://home".to_string(), Some("ann".to_string()), vec![2], &r);
    assert_eq!(u.username, "ann");
    assert_eq!(u.address, "http://home");
    assert_eq!(u.status, UserStatus::Online);
    let u = user_overview([0u8; 32], "http://home".to_string(), None, Vec::new(), &r);
    assert_eq!(u.username, "Anonymous");
    assert_eq!(u.address, "");
    assert_eq!(u.status, UserStatus::Offline);
}

fn key_pair(password: &str) -> ([u8; 32], [u8; 32]) {
    let (ciphertext, nonce, salt, public) = pluton::crypto::generate_key_pair(password).unwrap();
    let secret = pluton::crypto::open_secret_key(
        &salt,
        &pluton::base64::to_base64(ciphertext),
        &pluton::base64::to_base64(nonce),
        password,
    )
    .unwrap();
    (secret, public)
}

#[test]
fn leaving_undoes_joining() {
    let mut r = Registry::new();
    r.join(1, member("ann", [1u8; 32], "s1"));
    r.join(5, member("eve", [5u8; 32], "s5"));
    let _ = r.leave(5);
    assert_eq!(r.len(), 1);
    assert!(r.get(5).is_none());
    assert_eq!(r.get(1).unwrap().username, "ann");
    assert_eq!(r.everyone(), vec![1]);
}

#[test]
fn a_stored_key_off_the_curve_is_an_error() {
    let bad = (0u8..=255)
        .map(|k| {
            let mut v = vec![0u8; 32];
            v[0] = k;
            v[31] = 0x7f;
            v
        })
        .find(|v| pluton::general::vec_to_verifying_key(v.clone()).is_err())
        .expect("some bytes are not a point");
    let rows = vec![MessageRow { plaintext: "x".to_string(), sender: bad, timestamp: 0 }];
    assert_eq!(messages_from_rows(&rows, 0).unwrap_err(), RowError::InvalidKey);
}
