use argon2::password_hash::{PasswordHash, PasswordVerifier};
use pluton::account::{
    check_password_strength, get_account, profile_url, servers_json, sign_in, sign_up, signed_request,
    AccountError, Settings,
};
use pluton::base64::{from_base64, from_base64url, to_base64, to_base64url};
use pluton::crypto::{
    check_password, generate_key_pair, open_secret_key, sign_message, verify_signature,
};

fn empty_settings() -> Settings {
    Settings { warning: String::new(), current_account: String::new(), accounts: Vec::new() }
}

#[test]
fn a_new_key_pair_opens_with_its_password_only() {
    let (ciphertext, nonce, salt, public) = generate_key_pair("correct horse").unwrap();
    assert_eq!(salt.len(), 22);
    let c = to_base64(ciphertext);
    let n = to_base64(nonce);
    assert_eq!(check_password(salt.clone(), c.clone(), n.clone(), "correct horse".to_string()), Ok(true));
    assert_eq!(check_password(salt.clone(), c.clone(), n.clone(), "wrong".to_string()), Ok(false));
    let secret = open_secret_key(&salt, &c, &n, "correct horse").unwrap();
    assert!(verify_signature("m", &sign_message("m", &secret), &public));
}

#[test]
fn a_nonce_of_the_wrong_length_is_an_error() {
    let (ciphertext, _nonce, salt, _public) = generate_key_pair("pw").unwrap();
    let c = to_base64(ciphertext);
    let short = to_base64(vec![1u8; 6]);
    assert_eq!(
        check_password(salt, c, short, "pw".to_string()),
        Err(pluton::crypto::CryptoError::BadNonce)
    );
}

#[test]
fn signatures_verify_under_their_key_only() {
    let (secret, public) = key_pair("one");
    let sig = sign_message("hello", &secret);
    assert!(verify_signature("hello", &sig, &public));
    assert!(!verify_signature("hellO", &sig, &public));
    let (_, other) = key_pair("two");
    assert!(!verify_signature("hello", &sig, &other));
}

#[test]
fn a_second_account_of_one_name_is_refused() {
    let mut settings = empty_settings();
    sign_up(&mut settings, "erin".to_string(), "first".to_string(), String::new()).unwrap();
    let before = settings.clone();
    assert_eq!(
        sign_up(&mut settings, "erin".to_string(), "second".to_string(), "http://h".to_string()),
        Err(AccountError::AccountExists)
    );
    assert_eq!(settings.accounts.len(), 1);
    assert_eq!(settings.current_account, before.current_account);
    assert_eq!(settings.accounts[0].salt, before.accounts[0].salt);
    sign_up(&mut settings, "frank".to_string(), "second".to_string(), String::new()).unwrap();
    assert_eq!(settings.accounts.len(), 2);
}

#[test]
fn sign_up_then_sign_in() {
    let mut settings = empty_settings();
    sign_up(&mut settings, "alice".to_string(), "s3cret pass".to_string(), "http://home".to_string()).unwrap();
    assert_eq!(settings.accounts.len(), 1);
    let account = get_account(&settings).unwrap();
    assert_eq!(account.username, "alice");
    assert_eq!(account.address, "http://home");
    assert_eq!(account.servers, "");
    assert!(settings.warning.starts_with("WARNING!"));

    let mut other = settings.clone();
    assert_eq!(sign_in(&mut other, &"alice".to_string(), "s3cret pass".to_string()), Ok(()));
    assert_eq!(other.current_account, account.account_id);
    assert_eq!(
        sign_in(&mut other, &"alice".to_string(), "nope".to_string()),
        Err(AccountError::IncorrectPassword)
    );
    assert_eq!(
        sign_in(&mut other, &"bob".to_string(), "s3cret pass".to_string()),
        Err(AccountError::UserNotFound)
    );
    let stored_key = from_base64(account.verifying_key.clone());
    assert_eq!(stored_key.len(), 32);
}

#[test]
fn no_current_account_is_an_error() {
    let settings = empty_settings();
    assert_eq!(get_account(&settings).unwrap_err(), AccountError::AccountNotFound);
}

#[test]
fn password_strength_warnings() {
    assert_eq!(
        check_password_strength("abc".to_string()),
        "[WARNING] You are using a short password!\n\
         [WARNING] You are using a password without any numbers!\n\
         [WARNING] You are using a password without any special characters!\n"
    );
    assert_eq!(
        check_password_strength("password".to_string()),
        "[WARNING] You are using a common password!\n\
         [WARNING] You are using a password without any numbers!\n\
         [WARNING] You are using a password without any special characters!\n"
    );
    assert_eq!(check_password_strength("Tr0ub4dor&3x".to_string()), "");
    assert_eq!(
        check_password_strength("12345".to_string()),
        "[WARNING] You are using a short password!\n\
         [WARNING] You are using a common password!\n\
         [WARNING] You are using a password without any special characters!\n"
    );
}

#[test]
fn servers_are_read_from_base64() {
    let mut settings = empty_settings();
    sign_up(&mut settings, "carol".to_string(), "pw".to_string(), String::new()).unwrap();
    let mut account = get_account(&settings).unwrap();
    account.servers = to_base64(b"[\"a\"]".to_vec());
    assert_eq!(servers_json(&account), Ok("[\"a\"]".to_string()));
    account.servers = to_base64(vec![0xff, 0xfe]);
    assert_eq!(servers_json(&account), Err(AccountError::InvalidServers));
}

#[test]
fn profile_urls_need_a_home() {
    let key = [0u8; 32];
    assert_eq!(profile_url(String::new(), &key), Err(AccountError::NoHome));
    let url = profile_url("http://home".to_string(), &key).unwrap();
    assert_eq!(url, format!("http://home/profile/{}", to_base64url(key.to_vec())));
}

#[test]
fn signed_requests_carry_url_safe_texts() {
    let (secret, public) = key_pair("three");
    let req = signed_request("{\"timestamp\":1}".to_string(), to_base64(public.to_vec()), &secret);
    assert_eq!(from_base64url(req.verifying_key.clone()), public.to_vec());
    let sig = from_base64url(req.signature.clone());
    let mut sig_bytes = [0u8; 64];
    sig_bytes.copy_from_slice(&sig);
    assert!(verify_signature(&req.payload, &sig_bytes, &public));
}

fn key_pair(password: &str) -> ([u8; 32], [u8; 32]) {
    let (ciphertext, nonce, salt, public) = pluton::crypto::generate_key_pair(password).unwrap();
    let secret = pluton::crypto::open_secret_key(
        &salt,
        &pluton::base64::to_base64(ciphertext),
        &pluton::base64::to_base64(nonce),
        password,
    )
    .unwrap();
    (secret, public)
}

#[test]
fn a_salt_argon2_refuses_is_a_key_derivation_error() {
    let (ciphertext, nonce, _salt, _public) = generate_key_pair("pw").unwrap();
    assert_eq!(
        check_password("abc".to_string(), to_base64(ciphertext), to_base64(nonce), "pw".to_string()),
        Err(pluton::crypto::CryptoError::KeyDerivation)
    );
}

#[test]
fn a_wrong_password_does_not_open_the_key() {
    let (ciphertext, nonce, salt, _public) = generate_key_pair("right").unwrap();
    assert_eq!(
        open_secret_key(&salt, &to_base64(ciphertext), &to_base64(nonce), "wrong"),
        Err(pluton::crypto::CryptoError::Decryption)
    );
}

#[test]
fn a_damaged_account_gives_a_crypto_error() {
    let mut settings = empty_settings();
    sign_up(&mut settings, "dan".to_string(), "pw".to_string(), String::new()).unwrap();
    settings.accounts[0].salt = "abc".to_string();
    assert_eq!(
        sign_in(&mut settings, &"dan".to_string(), "pw".to_string()),
        Err(AccountError::Crypto(pluton::crypto::CryptoError::KeyDerivation))
    );
}

#[test]
fn a_server_password_is_stored_as_its_argon2id_hash() {
    let stored = pluton::crypto::hash_server_password("hunter2 hunter2").unwrap();
    assert!(stored.starts_with("$argon2id$v=19$m=19456,t=2,p=1$"));
    assert!(!stored.contains("hunter2"));
    let parsed = PasswordHash::new(&stored).unwrap();
    assert!(argon2::Argon2::default().verify_password(b"hunter2 hunter2", &parsed).is_ok());
    assert!(argon2::Argon2::default().verify_password(b"hunter3", &parsed).is_err());
    assert_ne!(stored, pluton::crypto::hash_server_password("hunter2 hunter2").unwrap());
}
