use pluton::account::signed_request;
use pluton::base64::to_base64;
use pluton::config::{
    cli_start, server_address, server_command, suggested_password, validate_port, validate_server_name,
    validate_server_password, CliStart, ServerCommand,
};
use pluton::files::{
    ascii_fallback, check_upload, content_disposition, content_type_of, download_meta_url, download_url,
    file_id_of, upload_content_type, upload_url,
};
use pluton::home::{check_new_profile, check_user_full, check_user_key, HttpStatus};
use pluton::logging::{archived_log_name, latest_log_name, pluton_log, Importance, LogSettings};
use pluton::server::{Member, Registry};
use pluton::definitions::UserStatus;
use pluton::peers::PeerMap;
use pluton::definitions::Peer;
use pluton::view::{account_list_height, masked, scroll_offset, text_le_exec, users_in_order};

fn request(payload: &str) -> pluton::definitions::home::SignedRequest {
    let (secret, public) = key_pair("pw");
    signed_request(payload.to_string(), to_base64(public.to_vec()), &secret)
}

#[test]
fn home_checks_the_signature() {
    let req = request("{\"timestamp\":100}");
    assert_eq!(check_user_key(&req), Ok(true));
    let mut forged = req.clone();
    forged.payload = "{\"timestamp\":101}".to_string();
    assert_eq!(check_user_key(&forged), Ok(false));
    let mut short = req.clone();
    short.signature = "AAAA".to_string();
    assert_eq!(check_user_key(&short), Err(HttpStatus::BadRequest));
}

#[test]
fn home_checks_the_time_window() {
    let req = request("{\"timestamp\":100}");
    assert_eq!(check_user_full(&req, Some(100), Some(160)), Ok(()));
    assert_eq!(check_user_full(&req, Some(100), Some(40)), Ok(()));
    assert_eq!(check_user_full(&req, Some(100), Some(161)), Err(HttpStatus::BadRequest));
    assert_eq!(check_user_full(&req, Some(i64::MIN), Some(100)), Err(HttpStatus::BadRequest));
    assert_eq!(check_user_full(&req, None, Some(100)), Err(HttpStatus::BadRequest));
    assert_eq!(check_user_full(&req, Some(100), None), Err(HttpStatus::InternalServerError));
}

#[test]
fn a_key_gets_one_profile_only() {
    let req = request("{\"timestamp\":100}");
    assert_eq!(check_new_profile(&req, Some(100), Some(110), false), Ok(()));
    assert_eq!(check_new_profile(&req, Some(100), Some(110), true), Err(HttpStatus::Conflict));
    assert_eq!(check_new_profile(&req, Some(100), None, false), Err(HttpStatus::BadRequest));
    assert_eq!(check_new_profile(&req, Some(100), Some(500), true), Err(HttpStatus::BadRequest));
}

#[test]
fn file_service_addresses() {
    assert_eq!(upload_url("http://srv"), "http://srv:6766/upload_file");
    assert_eq!(download_url("http://srv", 42), "http://srv:6766/download_file/42");
    assert_eq!(download_meta_url("http://srv", 7), "http://srv:6766/download_file_meta/7");
    assert_eq!(file_id_of("42"), Ok(42));
    assert_eq!(file_id_of("4x"), Err(HttpStatus::BadRequest));
}

#[test]
fn download_headers() {
    assert_eq!(ascii_fallback("a \"b\"\\é.txt"), "a__b___.txt");
    assert_eq!(ascii_fallback("report 1.pdf"), "report_1.pdf");
    assert_eq!(
        content_disposition("my file é.txt"),
        "attachment; filename=\"my_file__.txt\"; filename*=UTF-8''my%20file%20%C3%A9.txt"
    );
}

#[test]
fn uploads_need_every_field_and_a_session() {
    let mut r = Registry::new();
    r.join(1, Member {
        username: "ann".to_string(),
        public_key: [4u8; 32],
        address: String::new(),
        roles: Vec::new(),
        status: UserStatus::Online,
        session_id: "sess".to_string(),
    });
    let ok = check_upload(Some("sess".to_string()), Some("f.txt".to_string()), Some(vec![1, 2]), &r).unwrap();
    assert_eq!(ok.uploader, [4u8; 32]);
    assert_eq!(ok.file_name, "f.txt");
    assert_eq!(
        check_upload(Some("other".to_string()), Some("f".to_string()), Some(vec![]), &r).unwrap_err(),
        HttpStatus::Unauthorized
    );
    assert_eq!(check_upload(None, Some("f".to_string()), Some(vec![]), &r).unwrap_err(), HttpStatus::BadRequest);
}

#[test]
fn content_types() {
    let png = vec![0x89u8, 0x50, 0x4E, 0x47, 0x0D, 0x0A, 0x1A, 0x0A, 0, 0, 0, 0];
    assert_eq!(upload_content_type(&png, "picture.bin"), "image/png");
    assert_eq!(upload_content_type(&b"plain words".to_vec(), "notes.txt"), "text/plain");
    assert_eq!(upload_content_type(&b"plain words".to_vec(), "noext"), "application/octet-stream");
    assert_eq!(content_type_of(Some("a/b".to_string()), "x.txt"), "a/b");
}

#[test]
fn log_lines() {
    let mut s = LogSettings::new();
    let l = pluton_log(&s, "2024-01-01 10:00:00", "hello", Importance::Info);
    assert!(l.console.is_none());
    assert_eq!(l.file.as_deref(), Some("2024-01-01 10:00:00 [INFO] hello"));
    s.set_verbose(true);
    s.set_info_log(false);
    let l = pluton_log(&s, "T", "careful", Importance::Warn);
    assert_eq!(l.console.as_deref(), Some("T \x1b[0;33m[WARN] careful\x1b[0m"));
    assert_eq!(l.file.as_deref(), Some("T [WARN] careful"));
    let l = pluton_log(&s, "T", "note", Importance::Info);
    assert_eq!(l.console.as_deref(), Some("T [INFO] note"));
    assert!(l.file.is_none());
    let l = pluton_log(&s, "T", "boom", Importance::Fatal);
    assert_eq!(l.console.as_deref(), Some("T \x1b[1;31m[FATAL] boom\x1b[0m"));
    s.set_program_name("Pluton TUI".to_string());
    s.set_program_name("other".to_string());
    assert_eq!(s.program_name.as_deref(), Some("Pluton TUI"));
    s.set_log_directory(b"/tmp/a".to_vec());
    s.set_log_directory(b"/tmp/b".to_vec());
    assert_eq!(s.directory.as_deref(), Some(&b"/tmp/a"[..]));
    assert_eq!(latest_log_name("Pluton TUI"), "latest Pluton TUI");
    assert_eq!(archived_log_name("2024-01-01 10-00-00", "srv"), "2024-01-01 10-00-00 srv");
}

#[test]
fn operator_input_checks() {
    assert_eq!(validate_server_name(""), Err("Please enter a name."));
    assert_eq!(validate_server_name(&"x".repeat(64)), Ok(()));
    assert_eq!(validate_server_name(&"x".repeat(65)), Err("A server's name must be 64 or less characters."));
    assert_eq!(validate_server_password(""), Err("Password must not be empty for security."));
    assert_eq!(validate_server_password(&"é".repeat(128)), Err("The password must be 255 or less characters."));
    assert_eq!(validate_port("6767"), Ok(()));
    assert_eq!(validate_port("0"), Err("Port number out of range (1-65535)"));
    assert_eq!(validate_port("65536"), Err("Please enter a valid port number"));
    assert_eq!(validate_port("http"), Err("Please enter a valid port number"));
    let p = suggested_password();
    assert_eq!(p.len(), 10);
    assert!(p.chars().all(|c| c.is_ascii_alphanumeric()));
    assert_eq!(server_address("127.0.0.1", "6767"), "127.0.0.1:6767");
}

#[test]
fn command_lines() {
    let args = |v: &[&str]| v.iter().map(|s| s.to_string()).collect::<Vec<String>>();
    assert!(matches!(server_command(&args(&["srv", "--create_server"])), ServerCommand::Create));
    assert!(matches!(server_command(&args(&["srv", "--start_server", "--gui"])), ServerCommand::Start));
    assert!(matches!(server_command(&args(&["srv", "--help"])), ServerCommand::Help));
    assert!(matches!(server_command(&args(&["srv", "--what"])), ServerCommand::Unknown(s) if s == "--what"));
    assert!(matches!(server_command(&args(&["srv", "a", "b"])), ServerCommand::UnknownPair(a, b) if a == "a" && b == "b"));
    assert!(matches!(server_command(&args(&["srv"])), ServerCommand::CreateIfMissingThenStart));
    assert!(matches!(cli_start(&args(&["cli", " --create_account ", "u", "p"])), CliStart::CreateAccount { username, password, home_address } if username == "u" && password == "p" && home_address.is_empty()));
    assert!(matches!(cli_start(&args(&["cli", "--create_account", "u", "p", "http://home:8080"])), CliStart::CreateAccount { username, password, home_address } if username == "u" && password == "p" && home_address == "http://home:8080"));
    assert!(matches!(cli_start(&args(&["cli"])), CliStart::SignIn));
}

#[test]
fn screen_measures() {
    assert_eq!(masked(3), "***");
    assert_eq!(account_list_height(0), 3);
    assert_eq!(account_list_height(3), 5);
    assert_eq!(account_list_height(9), 7);
    assert_eq!(scroll_offset(10, 4), 6);
    assert_eq!(scroll_offset(3, 4), 0);
    assert!(text_le_exec("abc", "abd"));
    assert!(text_le_exec("ab", "abc"));
    assert!(!text_le_exec("b", "abc"));
}

#[test]
fn the_user_list_puts_online_users_first() {
    let mut peers = PeerMap::new();
    let p = |name: &str, status: UserStatus| Peer { username: name.to_string(), address: String::new(), roles: Vec::new(), status };
    peers.insert([1u8; 32], p("zed", UserStatus::Offline));
    peers.insert([2u8; 32], p("bob", UserStatus::Online));
    peers.insert([3u8; 32], p("amy", UserStatus::Offline));
    peers.insert([4u8; 32], p("cal", UserStatus::Sleep));
    let names: Vec<String> = users_in_order(&peers).into_iter().map(|(_, p)| p.username).collect();
    assert_eq!(names, vec!["bob", "cal", "amy", "zed"]);
}

fn key_pair(password: &str) -> ([u8; 32], [u8; 32]) {
    let (ciphertext, nonce, salt, public) = pluton::crypto::generate_key_pair(password).unwrap();
    let secret = pluton::crypto::open_secret_key(
        &salt,
        &pluton::base64::to_base64(ciphertext),
        &pluton::base64::to_base64(nonce),
        password,
    )
    .unwrap();
    (secret, public)
}
