use pluton::definitions::{
    Channel, Peer, ServerStatus, ServerTextMessage, TextNetworkMessage, UserOverview, UserStatus,
};
use pluton::editor::LineEditor;
use pluton::tui::{
    commands, download_finished, handle_incoming, handle_key, handle_net_event, register_finished, App, Key, LoginField,
    NetEvent, RegisterField, Screen, UiEffect,
};

fn type_text(app: &mut App, s: &str) {
    for c in s.chars() {
        let _ = handle_key(app, Key::Char(c), false, false, true);
    }
}

fn chat_app() -> App {
    let mut app = App::new(vec!["alice".to_string()]);
    app.screen = Screen::Chat;
    app.signing_key = Some([1u8; 32]);
    app
}

#[test]
fn fields_cycle_with_tab() {
    assert_eq!(LoginField::ServerUrl.next(), LoginField::Account);
    assert_eq!(LoginField::Account.next(), LoginField::Password);
    assert_eq!(LoginField::Password.next(), LoginField::ServerUrl);
    assert_eq!(RegisterField::HomeAddress.next(), RegisterField::Username);
    assert_eq!(RegisterField::Username.next(), RegisterField::Password);
    assert_eq!(RegisterField::Password.next(), RegisterField::HomeAddress);
}

#[test]
fn a_new_client_starts_on_the_login_screen() {
    let app = App::new(vec![]);
    assert_eq!(app.screen, Screen::Login);
    assert_eq!(app.server_url, "ws://127.0.0.1:6767");
    assert_eq!(app.current_channel.name, "general");
    assert_eq!(commands()[0].name, "/kick");
}

#[test]
fn signing_in_needs_an_account_and_a_password() {
    let mut app = App::new(vec![]);
    let e = handle_key(&mut app, Key::Enter, false, false, false);
    assert!(e.is_empty());
    assert_eq!(app.login_error.as_deref(), Some("No accounts. Press Ctrl+N to create one."));

    let mut app = App::new(vec!["alice".to_string()]);
    let _ = handle_key(&mut app, Key::Enter, false, false, false);
    assert_eq!(app.login_error.as_deref(), Some("Password required"));

    app.login_field = LoginField::Password;
    type_text(&mut app, "pw");
    assert_eq!(app.password, "pw");
    let e = handle_key(&mut app, Key::Enter, false, false, false);
    assert_eq!(app.screen, Screen::Connecting);
    assert_eq!(app.username, "alice");
    assert_eq!(app.status_message.as_deref(), Some("Signing in..."));
    match &e[0] {
        UiEffect::StartNetwork { url, username, password } => {
            assert_eq!(url, "ws://127.0.0.1:6767");
            assert_eq!(username, "alice");
            assert_eq!(password, "pw");
        },
        other => panic!("unexpected {:?}", other),
    }
}

#[test]
fn ctrl_c_quits_everywhere() {
    let mut app = App::new(vec![]);
    let _ = handle_key(&mut app, Key::Char('c'), true, false, false);
    assert!(app.quit);
}

#[test]
fn registration_checks_every_field() {
    let mut app = App::new(vec![]);
    let _ = handle_key(&mut app, Key::Char('n'), true, false, false);
    assert_eq!(app.screen, Screen::Register);
    let _ = handle_key(&mut app, Key::Enter, false, false, false);
    assert_eq!(app.register_error.as_deref(), Some("Home address required"));
    type_text(&mut app, "http://home");
    let _ = handle_key(&mut app, Key::Tab, false, false, false);
    let _ = handle_key(&mut app, Key::Enter, false, false, false);
    assert_eq!(app.register_error.as_deref(), Some("Username required"));
    type_text(&mut app, "zoe");
    let _ = handle_key(&mut app, Key::Down, false, false, false);
    type_text(&mut app, "pass");
    let _ = handle_key(&mut app, Key::Backspace, false, false, false);
    assert_eq!(app.register_password, "pas");
    let e = handle_key(&mut app, Key::Enter, false, false, false);
    match &e[0] {
        UiEffect::SignUp { username, password, home_address } => {
            assert_eq!(username, "zoe");
            assert_eq!(password, "pas");
            assert_eq!(home_address, "http://home");
        },
        other => panic!("unexpected {:?}", other),
    }
    register_finished(&mut app, Ok(()), vec!["alice".to_string(), "zoe".to_string()]);
    assert_eq!(app.screen, Screen::Login);
    assert_eq!(app.selected_account, 1);
    assert_eq!(app.login_info.as_deref(), Some("Account created. Sign in below."));
    assert_eq!(app.register_username, "");

    let mut app = App::new(vec![]);
    app.screen = Screen::Register;
    register_finished(&mut app, Err("no home".to_string()), vec![]);
    assert_eq!(app.register_error.as_deref(), Some("Sign up failed: no home"));
}

#[test]
fn typing_and_editing_the_chat_line() {
    let mut app = chat_app();
    type_text(&mut app, "héllo");
    assert_eq!(app.input, "héllo");
    assert_eq!(app.input_cursor, 6);
    let _ = handle_key(&mut app, Key::Left, false, false, true);
    let _ = handle_key(&mut app, Key::Left, false, false, true);
    let _ = handle_key(&mut app, Key::Left, false, false, true);
    let _ = handle_key(&mut app, Key::Left, false, false, true);
    assert_eq!(app.input_cursor, 1);
    let _ = handle_key(&mut app, Key::Delete, false, false, true);
    assert_eq!(app.input, "hllo");
    let _ = handle_key(&mut app, Key::Char('e'), false, false, true);
    let _ = handle_key(&mut app, Key::End, false, false, true);
    let _ = handle_key(&mut app, Key::Backspace, false, false, true);
    assert_eq!(app.input, "hell");
    let _ = handle_key(&mut app, Key::Home, false, false, true);
    assert_eq!(app.input_cursor, 0);
}

#[test]
fn enter_sends_a_signed_message() {
    let mut app = chat_app();
    type_text(&mut app, "hi all");
    let e = handle_key(&mut app, Key::Enter, false, false, true);
    assert_eq!(e.len(), 1);
    match &e[0] {
        UiEffect::Send(TextNetworkMessage::ClientText(m)) => {
            assert_eq!(m.plaintext, "hi all");
            assert_eq!(m.id, 0);
        },
        other => panic!("unexpected {:?}", other),
    }
    assert_eq!(app.input, "");
    assert_eq!(app.current_message_id, 1);
}

#[test]
fn download_commands_are_checked() {
    let mut app = chat_app();
    type_text(&mut app, "/download 12");
    let e = handle_key(&mut app, Key::Enter, false, false, true);
    assert_eq!(e.len(), 1);
    assert!(matches!(&e[0], UiEffect::Download { id: 12, text } if text == "/download 12"));
    assert_eq!(app.current_message_id, 0);
    assert_eq!(app.input, "");

    let sent = download_finished(&mut app, "/download 12".to_string(), true);
    assert!(matches!(&sent[0], UiEffect::Send(TextNetworkMessage::ClientText(m)) if m.plaintext == "/download 12" && m.id == 0));
    assert_eq!(app.current_message_id, 1);
    assert!(download_finished(&mut app, "/download 12".to_string(), false).is_empty());
    assert_eq!(app.current_message_id, 1);

    type_text(&mut app, "/download x");
    let e = handle_key(&mut app, Key::Enter, false, false, true);
    assert!(matches!(&e[0], UiEffect::Log(s) if s == "Unable to convert ID into u64 for download command"));
    assert_eq!(e.len(), 1);

    type_text(&mut app, "/download 1 2");
    let e = handle_key(&mut app, Key::Enter, false, false, true);
    assert!(matches!(&e[0], UiEffect::Log(s) if s == "Incorrect arguement count for download command, should be 2, was 3"));
}

#[test]
fn a_space_closes_the_palette() {
    let mut app = chat_app();
    type_text(&mut app, "/kick ");
    assert!(app.matching_commands().is_empty());
    assert!(!app.show_command_palette());
    let mut app = chat_app();
    type_text(&mut app, "/ki");
    assert_eq!(app.matching_commands().len(), 1);
}

#[test]
fn typing_goes_on_while_the_palette_shows() {
    let mut app = chat_app();
    type_text(&mut app, "/");
    assert!(app.show_command_palette());
    assert!(handle_key(&mut app, Key::Down, false, false, true).is_empty());
    assert_eq!(app.command_selected, 0);
    assert_eq!(app.input, "/");
    assert!(handle_key(&mut app, Key::Char('k'), false, false, true).is_empty());
    assert_eq!(app.input, "/k");
    assert_eq!(app.input_cursor, 2);
    assert!(handle_key(&mut app, Key::Backspace, false, false, true).is_empty());
    assert_eq!(app.input, "/");
    assert!(handle_key(&mut app, Key::Esc, false, false, true).is_empty());
    assert!(app.quit);
}

#[test]
fn the_palette_completes_kick() {
    let mut app = chat_app();
    type_text(&mut app, "/ki");
    assert!(app.show_command_palette());
    let e = handle_key(&mut app, Key::Tab, false, false, true);
    assert!(e.is_empty());
    assert_eq!(app.input, "/kick ");
    assert_eq!(app.input_cursor, 6);
    assert!(!app.show_command_palette());
}

#[test]
fn kick_names_a_known_peer() {
    let mut app = chat_app();
    let bob = [8u8; 32];
    app.peers.insert(bob, Peer { username: "bob".to_string(), address: String::new(), roles: Vec::new(), status: UserStatus::Online });
    type_text(&mut app, "/kick bob rude words");
    let e = handle_key(&mut app, Key::Enter, false, false, true);
    match &e[0] {
        UiEffect::Send(TextNetworkMessage::ClientKickRequest(k)) => {
            assert_eq!(k.recipient, bob);
            assert_eq!(k.reason, "rude words");
        },
        other => panic!("unexpected {:?}", other),
    }
    type_text(&mut app, "/kick eve x");
    assert!(handle_key(&mut app, Key::Enter, false, false, true).is_empty());
}

#[test]
fn the_channel_list_switches_channels() {
    let mut app = chat_app();
    app.channels = vec![Channel { id: 0, name: "general".to_string() }, Channel { id: 3, name: "dev".to_string() }];
    let _ = handle_key(&mut app, Key::Tab, false, false, true);
    assert!(app.channel_list_focused);
    let _ = handle_key(&mut app, Key::Char('j'), false, false, true);
    assert_eq!(app.selected_channel, 1);
    let e = handle_key(&mut app, Key::Enter, false, false, true);
    assert_eq!(app.current_channel.id, 3);
    assert!(!app.channel_list_focused);
    assert!(matches!(&e[0], UiEffect::Send(TextNetworkMessage::ClientRequestMessages(r)) if r.channel.id == 3 && r.range == (0..255)));
    let _ = handle_key(&mut app, Key::Char('l'), true, false, true);
    assert!(app.channel_list_focused);
}

#[test]
fn alt_u_asks_for_an_upload_and_esc_quits() {
    let mut app = chat_app();
    let e = handle_key(&mut app, Key::Char('u'), false, true, true);
    assert!(matches!(e[0], UiEffect::Upload));
    let _ = handle_key(&mut app, Key::Esc, false, false, true);
    assert!(app.quit);
}

#[test]
fn network_events_move_between_screens() {
    let mut app = App::new(vec![]);
    assert!(!handle_net_event(&mut app, NetEvent::Connected));
    assert_eq!(app.status_message.as_deref(), Some("Authenticating..."));
    let _ = handle_net_event(&mut app, NetEvent::HandshakeOk("t".to_string()));
    assert_eq!(app.screen, Screen::Chat);
    assert!(handle_net_event(&mut app, NetEvent::Disconnected));
    assert_eq!(app.screen, Screen::Login);
    assert_eq!(app.login_error.as_deref(), Some("Disconnected from server"));
}

#[test]
fn the_welcome_fills_the_chat() {
    let mut app = chat_app();
    let bob = [8u8; 32];
    let status = ServerStatus {
        name: "srv".to_string(),
        users: vec![UserOverview { public_key: bob, address: String::new(), username: "bob".to_string(), roles: Vec::new(), status: UserStatus::Online }],
        message_channels: vec![Channel { id: 0, name: "general".to_string() }],
        default_channel: Channel { id: 0, name: "general".to_string() },
        voice_channels: Vec::new(),
        messages: vec![ServerTextMessage { plaintext: "yo".to_string(), sender: bob, channel_id: 0, timestamp: 0 }],
    };
    handle_incoming(TextNetworkMessage::ServerStatus(status), &mut app);
    assert_eq!(app.server_name, "srv");
    assert_eq!(app.messages.len(), 1);
    assert_eq!(app.messages[0].sender, "bob");
    assert_eq!(app.messages[0].text, "yo");
    let other = ServerTextMessage { plaintext: "x".to_string(), sender: [1u8; 32], channel_id: 5, timestamp: 0 };
    handle_incoming(TextNetworkMessage::ServerText(other), &mut app);
    assert_eq!(app.messages.len(), 1);
}

#[test]
fn backspace_undoes_typing_and_right_undoes_left() {
    let mut e = LineEditor::new();
    for c in "ab€".chars() {
        e.insert(c);
    }
    let (text, cursor) = (e.text.clone(), e.cursor);
    e.insert('ü');
    e.backspace();
    assert_eq!((e.text.clone(), e.cursor), (text, cursor));
    e.move_left();
    assert_eq!(e.cursor, 2);
    e.move_right();
    assert_eq!(e.cursor, 5);
    e.replace("xyz".to_string());
    assert_eq!(e.cursor, 3);
    assert_eq!(e.take(), "xyz");
    assert_eq!(e.cursor, 0);
}

#[test]
fn a_message_shows_its_time_as_hours_and_minutes() {
    let mut app = chat_app();
    app.add_message("bob".to_string(), "hi".to_string(), 1_700_000_000);
    let time = app.messages.last().unwrap().time.clone();
    let b = time.as_bytes();
    assert_eq!(b.len(), 5);
    assert_eq!(b[2], b':');
    assert!(b[0..2].iter().chain(&b[3..5]).all(|c| c.is_ascii_digit()));
    app.add_message("bob".to_string(), "far".to_string(), i64::MAX);
    assert_eq!(app.messages.last().unwrap().time, "");
}

#[test]
fn incoming_text_reaches_the_chat_through_the_event_handler() {
    let mut app = chat_app();
    let channel = app.current_channel.id;
    let msg = ServerTextMessage { plaintext: "hello".to_string(), sender: [9u8; 32], channel_id: channel, timestamp: 1_700_000_000 };
    assert!(!handle_net_event(&mut app, NetEvent::Incoming(TextNetworkMessage::ServerText(msg))));
    assert_eq!(app.messages.len(), 1);
    assert_eq!(app.messages[0].text, "hello");
    assert_eq!(app.messages[0].sender, "???");
    assert_eq!(app.messages[0].time.len(), 5);
    let elsewhere = ServerTextMessage { plaintext: "x".to_string(), sender: [9u8; 32], channel_id: channel + 1, timestamp: 0 };
    let _ = handle_net_event(&mut app, NetEvent::Incoming(TextNetworkMessage::ServerText(elsewhere)));
    assert_eq!(app.messages.len(), 1);
}
