//! Local accounts: the settings file's records, signing in and up, and the checks
//! made on passwords and stored data.

use vstd::prelude::*;
use vstd::utf8::*;
use vstd::string::StringExecFns;
use crate::text::{unicode_alphanumeric, unicode_numeric};
use crate::base64::{b64_decode, b64_encode, decodable, from_base64, to_base64, law_decode_inverts_encode};
use crate::definitions::home::SignedRequest;
use crate::crypto::{
    ed25519_signature,
    check_password, generate_key_pair, password_check, sealed_key_pair, law_sealed_key_opens,
    password_too_long,
    CryptoError,
};

verus! {

/// One local account, as the settings file keeps it.
#[derive(Clone, Debug)]
pub struct Account {
    /// Base64 text of eight random bytes.
    pub account_id: String,
    /// Base64 text of the sealed secret key.
    pub ciphertext: String,
    /// Base64 text of the nonce the secret key was sealed with.
    pub nonce: String,
    /// The salt text of the key derivation.
    pub salt: String,
    /// Base64 text of the public key.
    pub verifying_key: String,
    pub username: String,
    pub address: String,
    /// Base64 text of the JSON list of joined servers.
    pub servers: String,
}

impl Account {
    /// A field-by-field copy.
    pub fn duplicate(&self) -> (a: Account)
        ensures
            a == *self,
    {
        Account {
            account_id: self.account_id.clone(),
            ciphertext: self.ciphertext.clone(),
            nonce: self.nonce.clone(),
            salt: self.salt.clone(),
            verifying_key: self.verifying_key.clone(),
            username: self.username.clone(),
            address: self.address.clone(),
            servers: self.servers.clone(),
        }
    }
}

/// The settings file: a warning to human readers, the signed-in account, and all
/// local accounts.
#[derive(Clone, Debug)]
pub struct Settings {
    pub warning: String,
    /// The `account_id` of the signed-in account.
    pub current_account: String,
    pub accounts: Vec<Account>,
}

/// Why an account operation failed.
#[derive(PartialEq, Eq, Structural, Clone, Copy, Debug)]
pub enum AccountError {
    /// No account has the signed-in account's id.
    AccountNotFound,
    /// No account has the given username.
    UserNotFound,
    /// The password does not open the account's key.
    IncorrectPassword,
    /// A cryptographic step failed.
    Crypto(CryptoError),
    /// The stored list of servers is not UTF-8 text.
    InvalidServers,
    /// No home server address was given.
    NoHome,
    /// An account with the given username already exists.
    AccountExists,
}

/// The warning written into the settings file.
pub open spec fn settings_warning() -> Seq<char> {
    "WARNING! Changing settings in pluton.toml manually can cause permanent account loss!\nAll settings that should be changed can be changed in the Pluton GUI safely!"@
}

/// The field that identifies an account in a search: its id when `by_id`, and else its
/// username.
pub open spec fn account_key(a: Account, by_id: bool) -> Seq<char> {
    if by_id {
        a.account_id@
    } else {
        a.username@
    }
}

/// The position of the first account whose id (when `by_id`) or username equals `key`,
/// or the number of accounts if none does.
pub open spec fn first_match(accounts: Seq<Account>, key: Seq<char>, by_id: bool) -> int
    decreases accounts.len(),
{
    if accounts.len() == 0 {
        0
    } else if account_key(accounts[0], by_id) == key {
        0
    } else {
        1 + first_match(accounts.drop_first(), key, by_id)
    }
}

proof fn lemma_first_match(accounts: Seq<Account>, key: Seq<char>, by_id: bool)
    ensures
        0 <= first_match(accounts, key, by_id) <= accounts.len(),
        forall|j: int|
            0 <= j < first_match(accounts, key, by_id) ==> #[trigger] account_key(accounts[j], by_id)
                != key,
        first_match(accounts, key, by_id) < accounts.len() ==> account_key(
            accounts[first_match(accounts, key, by_id)],
            by_id,
        ) == key,
    decreases accounts.len(),
{
    if accounts.len() > 0 {
        lemma_first_match(accounts.drop_first(), key, by_id);
        let f = first_match(accounts, key, by_id);
        if account_key(accounts[0], by_id) != key {
            assert forall|j: int| 0 <= j < f implies #[trigger] account_key(accounts[j], by_id)
                != key by {
                if j > 0 {
                    assert(accounts[j] == accounts.drop_first()[j - 1]);
                }
            }
            if f < accounts.len() {
                assert(accounts[f] == accounts.drop_first()[f - 1]);
            }
        }
    }
}

fn find_account(accounts: &Vec<Account>, key: &String, by_id: bool) -> (i: usize)
    ensures
        i == first_match(accounts@, key@, by_id),
{
    proof {
        lemma_first_match(accounts@, key@, by_id);
    }
    let ghost f = first_match(accounts@, key@, by_id);
    let mut i: usize = 0;
    while i < accounts.len()
        invariant
            i <= accounts@.len(),
            f == first_match(accounts@, key@, by_id),
            i <= f <= accounts@.len(),
            forall|j: int| 0 <= j < f ==> #[trigger] account_key(accounts@[j], by_id) != key@,
            f < accounts@.len() ==> account_key(accounts@[f], by_id) == key@,
        decreases accounts@.len() - i,
    {
        let same = if by_id {
            accounts[i].account_id == *key
        } else {
            accounts[i].username == *key
        };
        if same {
            assert(account_key(accounts@[i as int], by_id) == key@);
            return i;
        }
        assert(account_key(accounts@[i as int], by_id) != key@);
        i = i + 1;
    }
    i
}

/// The signed-in account: the first whose id is the current account.
pub fn get_account(settings: &Settings) -> (res: Result<Account, AccountError>)
    ensures
        res is Ok <==> first_match(settings.accounts@, settings.current_account@, true)
            < settings.accounts@.len(),
        res matches Ok(a) ==> a == settings.accounts@[first_match(
            settings.accounts@,
            settings.current_account@,
            true,
        )],
        res matches Err(e) ==> e == AccountError::AccountNotFound,
{
    let i = find_account(&settings.accounts, &settings.current_account, true);
    if i < settings.accounts.len() {
        Ok(settings.accounts[i].duplicate())
    } else {
        Err(AccountError::AccountNotFound)
    }
}

/// The stored base64 texts of an account's sealed key and nonce can be decoded.
pub open spec fn stored_key_decodable(a: Account) -> bool {
    decodable(encode_utf8(a.ciphertext@)) && decodable(encode_utf8(a.nonce@))
}

/// Tells whether an account's stored key texts can be decoded, which signing in needs.
pub fn account_key_decodable(a: &Account) -> (ok: bool)
    ensures
        ok == stored_key_decodable(*a),
{
    crate::base64::is_decodable(&a.ciphertext) && crate::base64::is_decodable(&a.nonce)
}

/// The outcome of signing in as `username` with `password`: the first account with
/// that name decides.
pub open spec fn sign_in_outcome(settings: Settings, username: Seq<char>, password: Seq<char>) -> Result<
    (),
    AccountError,
> {
    let i = first_match(settings.accounts@, username, false);
    if i >= settings.accounts@.len() {
        Err(AccountError::UserNotFound)
    } else {
        let a = settings.accounts@[i];
        match password_check(a.salt@, a.ciphertext@, a.nonce@, password) {
            Ok(true) => Ok(()),
            Ok(false) => Err(AccountError::IncorrectPassword),
            Err(e) => Err(AccountError::Crypto(e)),
        }
    }
}

/// Signs in as the first account named `username` if `password` opens its key: that
/// account becomes the current one. On failure the settings are left as they were.
pub fn sign_in(settings: &mut Settings, username: &String, password: String) -> (res: Result<
    (),
    AccountError,
>)
    requires
        first_match(old(settings).accounts@, username@, false) < old(settings).accounts@.len()
            ==> stored_key_decodable(
            old(settings).accounts@[first_match(old(settings).accounts@, username@, false)],
        ),
    ensures
        res == sign_in_outcome(*old(settings), username@, password@),
        res is Ok ==> final(settings).current_account@ == old(settings).accounts@[first_match(
            old(settings).accounts@,
            username@,
            false,
        )].account_id@,
        res is Ok ==> final(settings).accounts == old(settings).accounts && final(settings).warning
            == old(settings).warning,
        res is Err ==> *final(settings) == *old(settings),
{
    let i = find_account(&settings.accounts, username, false);
    if i >= settings.accounts.len() {
        return Err(AccountError::UserNotFound);
    }
    let a = &settings.accounts[i];
    match check_password(a.salt.clone(), a.ciphertext.clone(), a.nonce.clone(), password) {
        Ok(true) => {
            settings.current_account = a.account_id.clone();
            Ok(())
        },
        Ok(false) => Err(AccountError::IncorrectPassword),
        Err(e) => Err(AccountError::Crypto(e)),
    }
}


/// `RngCore::fill_bytes` of the operating system's generator over eight bytes. Nothing is
/// claimed of the random value.
#[verifier::external_body]
fn fresh_account_id() -> (id: [u8; 8]) {
    let mut id = [0u8; 8];
    rand::RngCore::fill_bytes(&mut rand::rngs::OsRng, &mut id);
    id
}

/// `a` is a new account of `username` at `address` whose stored texts hold a key pair
/// sealed under `password`.
pub open spec fn new_account_for(
    a: Account,
    username: Seq<char>,
    password: Seq<char>,
    address: Seq<char>,
) -> bool {
    &&& a.username@ == username
    &&& a.address@ == address
    &&& a.servers@.len() == 0
    &&& exists|id: Seq<u8>| id.len() == 8 && #[trigger] b64_encode(id) == a.account_id@
    &&& exists|ciphertext: Seq<u8>, nonce: Seq<u8>, public: Seq<u8>|
        #![trigger sealed_key_pair(password, ciphertext, nonce, a.salt@, public)]
        {
            &&& a.ciphertext@ == b64_encode(ciphertext)
            &&& a.nonce@ == b64_encode(nonce)
            &&& a.verifying_key@ == b64_encode(public)
            &&& sealed_key_pair(password, ciphertext, nonce, a.salt@, public)
        }
}

/// Creates a new account: a fresh key pair sealed under `password`, a random id, and the
/// given name and home address. The new account is appended and becomes the current one,
/// and the settings get their warning text. It fails when an account of that username
/// already exists, or when the password is longer than Argon2 takes; on failure the
/// settings are left as they were.
pub fn sign_up(settings: &mut Settings, username: String, password: String, home_address: String) -> (res:
    Result<(), AccountError>)
    ensures
        match res {
            Ok(()) => {
                &&& first_match(old(settings).accounts@, username@, false) == old(
                    settings,
                ).accounts@.len()
                &&& final(settings).accounts@.len() == old(settings).accounts@.len() + 1
                &&& final(settings).accounts@.drop_last() == old(settings).accounts@
                &&& new_account_for(
                    final(settings).accounts@.last(),
                    username@,
                    password@,
                    home_address@,
                )
                &&& final(settings).current_account@ == final(settings).accounts@.last().account_id@
                &&& final(settings).warning@ == settings_warning()
            },
            Err(e) => {
                &&& *final(settings) == *old(settings)
                &&& (e == AccountError::AccountExists <==> first_match(
                    old(settings).accounts@,
                    username@,
                    false,
                ) < old(settings).accounts@.len())
                &&& (e == AccountError::AccountExists || (e == AccountError::Crypto(
                    CryptoError::KeyDerivation,
                ) && password_too_long(password@)))
            },
        },
{
    if find_account(&settings.accounts, &username, false) < settings.accounts.len() {
        return Err(AccountError::AccountExists);
    }
    proof {
        lemma_first_match(settings.accounts@, username@, false);
    }
    let info = match generate_key_pair(password.as_str()) {
        Ok(info) => info,
        Err(e) => {
            return Err(AccountError::Crypto(e));
        },
    };
    let (ciphertext, nonce, salt, public) = info;
    let id = fresh_account_id();
    let id_text = to_base64(crate::crypto::copy_to_vec(&id));
    let public_text = to_base64(crate::crypto::copy_to_vec(&public));
    let ghost ct = ciphertext@;
    let ghost nc = nonce@;
    let account = Account {
        account_id: id_text.clone(),
        ciphertext: to_base64(ciphertext),
        nonce: to_base64(nonce),
        salt,
        verifying_key: public_text,
        username,
        address: home_address,
        servers: String::new(),
    };
    proof {
        assert(sealed_key_pair(password@, ct, nc, account.salt@, public@));
        assert(b64_encode(id@) == account.account_id@);
    }
    settings.warning = String::from_str(
        "WARNING! Changing settings in pluton.toml manually can cause permanent account loss!\nAll settings that should be changed can be changed in the Pluton GUI safely!",
    );
    settings.current_account = id_text;
    settings.accounts.push(account);
    proof {
        assert(final(settings).accounts@.drop_last() =~= old(settings).accounts@);
    }
    Ok(())
}

proof fn lemma_first_match_push(accounts: Seq<Account>, a: Account, key: Seq<char>, by_id: bool)
    requires
        forall|j: int| 0 <= j < accounts.len() ==> #[trigger] account_key(accounts[j], by_id) != key,
        account_key(a, by_id) == key,
    ensures
        first_match(accounts.push(a), key, by_id) == accounts.len(),
    decreases accounts.len(),
{
    if accounts.len() > 0 {
        assert(account_key(accounts[0], by_id) != key);
        assert(accounts.push(a).drop_first() =~= accounts.drop_first().push(a));
        assert forall|j: int| 0 <= j < accounts.drop_first().len() implies #[trigger] account_key(
            accounts.drop_first()[j],
            by_id,
        ) != key by {
            assert(accounts.drop_first()[j] == accounts[j + 1]);
        }
        lemma_first_match_push(accounts.drop_first(), a, key, by_id);
    }
}

/// Signing up and then signing in: where no earlier account has the name, the new
/// account's password signs in to it, and signing in can run on the stored data.
pub proof fn law_sign_up_then_sign_in(
    before: Settings,
    after: Settings,
    username: Seq<char>,
    password: Seq<char>,
    address: Seq<char>,
)
    requires
        after.accounts@.len() == before.accounts@.len() + 1,
        after.accounts@.drop_last() == before.accounts@,
        new_account_for(after.accounts@.last(), username, password, address),
        forall|j: int|
            0 <= j < before.accounts@.len() ==> (#[trigger] before.accounts@[j]).username@
                != username,
    ensures
        first_match(after.accounts@, username, false) == before.accounts@.len(),
        stored_key_decodable(after.accounts@.last()),
        sign_in_outcome(after, username, password) == Ok::<(), AccountError>(()),
{
    let a = after.accounts@.last();
    assert(after.accounts@ =~= before.accounts@.push(a));
    assert forall|j: int| 0 <= j < before.accounts@.len() implies #[trigger] account_key(
        before.accounts@[j],
        false,
    ) != username by {
        assert(before.accounts@[j].username@ != username);
    }
    lemma_first_match_push(before.accounts@, a, username, false);
    let (ciphertext, nonce, public) = choose|ciphertext: Seq<u8>, nonce: Seq<u8>, public: Seq<u8>|
        #![trigger sealed_key_pair(password, ciphertext, nonce, a.salt@, public)]
        {
            &&& a.ciphertext@ == b64_encode(ciphertext)
            &&& a.nonce@ == b64_encode(nonce)
            &&& a.verifying_key@ == b64_encode(public)
            &&& sealed_key_pair(password, ciphertext, nonce, a.salt@, public)
        };
    law_sealed_key_opens(password, ciphertext, nonce, a.salt@, public);
}


/// The passwords that are too common to use.
pub open spec fn is_common_password(p: Seq<char>) -> bool {
    ||| p == "123456"@
    ||| p == "123456789"@
    ||| p == "12345678"@
    ||| p == "password"@
    ||| p == "qwerty123"@
    ||| p == "qwerty1"@
    ||| p == "111111"@
    ||| p == "12345"@
    ||| p == "sercret"@
    ||| p == "123123"@
}

/// The warnings for a password, one line each, in this order: shorter than eight bytes
/// of UTF-8, a common password, no numeric character, no character that is neither
/// alphabetic nor numeric.
pub open spec fn strength_warnings(p: Seq<char>) -> Seq<char> {
    (if encode_utf8(p).len() < 8 {
        "[WARNING] You are using a short password!\n"@
    } else {
        Seq::empty()
    }) + (if is_common_password(p) {
        "[WARNING] You are using a common password!\n"@
    } else {
        Seq::empty()
    }) + (if !(exists|i: int| 0 <= i < p.len() && #[trigger] unicode_numeric(p[i])) {
        "[WARNING] You are using a password without any numbers!\n"@
    } else {
        Seq::empty()
    }) + (if !(exists|i: int| 0 <= i < p.len() && !#[trigger] unicode_alphanumeric(p[i])) {
        "[WARNING] You are using a password without any special characters!\n"@
    } else {
        Seq::empty()
    })
}

fn is_common(password: &String) -> (b: bool)
    ensures
        b == is_common_password(password@),
{
    *password == String::from_str("123456") || *password == String::from_str("123456789")
        || *password == String::from_str("12345678") || *password == String::from_str("password")
        || *password == String::from_str("qwerty123") || *password == String::from_str("qwerty1")
        || *password == String::from_str("111111") || *password == String::from_str("12345")
        || *password == String::from_str("sercret") || *password == String::from_str("123123")
}

/// Lists what is weak about a password, one warning per line.
pub fn check_password_strength(password: String) -> (result: String)
    ensures
        result@ == strength_warnings(password@),
{
    broadcast use vstd::string::group_string_axioms;

    let mut result = String::new();
    let short = password.as_str().as_bytes().len() < 8;
    assert(short == (encode_utf8(password@).len() < 8));
    if short {
        result.append("[WARNING] You are using a short password!\n");
    }
    if is_common(&password) {
        result.append("[WARNING] You are using a common password!\n");
    }
    assert(result@ =~= (if encode_utf8(password@).len() < 8 {
        "[WARNING] You are using a short password!\n"@
    } else {
        Seq::empty()
    }) + (if is_common_password(password@) {
        "[WARNING] You are using a common password!\n"@
    } else {
        Seq::empty()
    }));
    let mut has_numeric = false;
    let mut has_special = false;
    for c in it: password.as_str().chars()
        invariant
            it.seq() == password@,
            has_numeric == (exists|i: int|
                0 <= i < it.index() && #[trigger] unicode_numeric(password@[i])),
            has_special == (exists|i: int|
                0 <= i < it.index() && !#[trigger] unicode_alphanumeric(password@[i])),
    {
        if crate::text::is_numeric(c) {
            has_numeric = true;
        }
        if !crate::text::is_alphanumeric(c) {
            has_special = true;
        }
    }
    if !has_numeric {
        result.append("[WARNING] You are using a password without any numbers!\n");
    }
    if !has_special {
        result.append("[WARNING] You are using a password without any special characters!\n");
    }
    assert(result@ =~= strength_warnings(password@));
    result
}


/// The text that an account's stored list of servers decodes to: its base64 field read
/// as UTF-8.
pub open spec fn servers_text(a: Account) -> Option<Seq<char>> {
    if valid_utf8(b64_decode(a.servers@)) {
        Some(decode_utf8(b64_decode(a.servers@)))
    } else {
        None
    }
}

/// The JSON text of the account's list of servers, decoded from its base64 field.
pub fn servers_json(account: &Account) -> (res: Result<String, AccountError>)
    requires
        decodable(encode_utf8(account.servers@)),
    ensures
        match res {
            Ok(text) => servers_text(*account) == Some(text@),
            Err(e) => e == AccountError::InvalidServers && servers_text(*account) is None,
        },
{
    let bytes = from_base64(account.servers.clone());
    match crate::text::utf8_to_string(bytes) {
        Some(text) => Ok(text),
        None => Err(AccountError::InvalidServers),
    }
}

/// The address of a user's profile on a home server: the server address, `/profile/`,
/// and the URL-safe base64 text of the user's public key.
pub fn profile_url(server_addr: String, verifying_key: &[u8; 32]) -> (res: Result<String, AccountError>)
    ensures
        match res {
            Ok(url) => server_addr@.len() > 0 && url@ == server_addr@ + "/profile/"@
                + crate::base64::b64url_encode(b64_encode(verifying_key@)),
            Err(e) => e == AccountError::NoHome && server_addr@.len() == 0,
        },
{
    if server_addr.as_str().is_empty() {
        return Err(AccountError::NoHome);
    }
    let key_text = crate::base64::to_base64url(crate::crypto::copy_to_vec(verifying_key));
    let url = server_addr.concat("/profile/").concat(key_text.as_str());
    Ok(url)
}

/// Signs a home-server payload: the request carries the payload, the signer's public key
/// rewritten from standard to URL-safe base64, and the URL-safe base64 text of the
/// signature of the payload.
pub fn signed_request(payload: String, verifying_key: String, signing_key: &[u8; 32]) -> (req:
    SignedRequest)
    ensures
        req.payload@ == payload@,
        req.verifying_key@ == crate::base64::b64url_encode(verifying_key@),
        req.signature@ == crate::base64::b64url_encode(
            b64_encode(ed25519_signature(signing_key@, encode_utf8(payload@))),
        ),
{
    let signature = crate::crypto::sign_message(payload.as_str(), signing_key);
    SignedRequest {
        verifying_key: crate::base64::base64_to_base64url(verifying_key),
        signature: crate::base64::to_base64url(crate::crypto::copy_to_vec(&signature)),
        payload,
    }
}

/// Each of the ten common passwords gets the common-password warning among its warnings.
pub proof fn law_common_passwords_are_warned(password: Seq<char>)
    requires
        password == "123456"@ || password == "123456789"@ || password == "12345678"@ || password
            == "password"@ || password == "qwerty123"@ || password == "qwerty1"@ || password
            == "111111"@ || password == "12345"@ || password == "sercret"@ || password == "123123"@,
    ensures
        exists|i: int|
            0 <= i && i + "[WARNING] You are using a common password!\n"@.len() <= strength_warnings(
                password,
            ).len() && #[trigger] strength_warnings(password).subrange(
                i,
                i + "[WARNING] You are using a common password!\n"@.len(),
            ) == "[WARNING] You are using a common password!\n"@,
{
    let line = "[WARNING] You are using a common password!\n"@;
    let short: Seq<char> = if encode_utf8(password).len() < 8 {
        "[WARNING] You are using a short password!\n"@
    } else {
        Seq::empty()
    };
    let w = strength_warnings(password);
    let k: int = short.len() as int;
    assert(is_common_password(password));
    assert(w =~= short + line + w.subrange(k + line.len(), w.len() as int));
    assert(w.subrange(k, k + line.len()) =~= line);
}

/// The warnings start with the short-password line when the password has fewer than
/// eight bytes of UTF-8, hold the no-numbers line when no character is numeric, and end
/// with the no-special-characters line when every character is alphabetic or numeric.
pub proof fn law_weak_passwords_are_warned(password: Seq<char>)
    ensures
        encode_utf8(password).len() < 8 ==> strength_warnings(password).len()
            >= "[WARNING] You are using a short password!\n"@.len() && strength_warnings(
            password,
        ).take("[WARNING] You are using a short password!\n"@.len() as int)
            == "[WARNING] You are using a short password!\n"@,
        (forall|i: int| 0 <= i < password.len() ==> !#[trigger] unicode_numeric(password[i]))
            ==> exists|k: int|
            0 <= k && k + "[WARNING] You are using a password without any numbers!\n"@.len()
                <= strength_warnings(password).len() && #[trigger] strength_warnings(
                password,
            ).subrange(k, k + "[WARNING] You are using a password without any numbers!\n"@.len())
                == "[WARNING] You are using a password without any numbers!\n"@,
        (forall|i: int| 0 <= i < password.len() ==> #[trigger] unicode_alphanumeric(password[i]))
            ==> strength_warnings(password).len()
            >= "[WARNING] You are using a password without any special characters!\n"@.len()
            && strength_warnings(password).skip(
            strength_warnings(password).len()
                - "[WARNING] You are using a password without any special characters!\n"@.len(),
        ) == "[WARNING] You are using a password without any special characters!\n"@,
{
    let short_line = "[WARNING] You are using a short password!\n"@;
    let common_line = "[WARNING] You are using a common password!\n"@;
    let numbers_line = "[WARNING] You are using a password without any numbers!\n"@;
    let special_line = "[WARNING] You are using a password without any special characters!\n"@;
    let a: Seq<char> = if encode_utf8(password).len() < 8 { short_line } else { Seq::empty() };
    let b: Seq<char> = if is_common_password(password) { common_line } else { Seq::empty() };
    let c: Seq<char> = if !(exists|i: int| 0 <= i < password.len() && #[trigger] unicode_numeric(password[i])) {
        numbers_line
    } else {
        Seq::empty()
    };
    let d: Seq<char> = if !(exists|i: int|
        0 <= i < password.len() && !#[trigger] unicode_alphanumeric(password[i])) {
        special_line
    } else {
        Seq::empty()
    };
    let w = strength_warnings(password);
    assert(w == a + b + c + d);
    assert((a + b + c + d).take(a.len() as int) =~= a);
    if forall|i: int| 0 <= i < password.len() ==> !#[trigger] unicode_numeric(password[i]) {
        let k: int = (a.len() + b.len()) as int;
        assert(w.subrange(k, k + numbers_line.len()) =~= numbers_line);
    }
    assert((a + b + c + d).skip((a + b + c + d).len() - d.len()) =~= d);
}

/// A password of at least eight bytes of UTF-8 that is not one of the ten common
/// passwords, and has a numeric character and a character that is neither alphabetic nor
/// numeric, gets no warning at all.
pub proof fn law_strong_password_gets_no_warning(password: Seq<char>, digit: int, special: int)
    requires
        encode_utf8(password).len() >= 8,
        !(password == "123456"@ || password == "123456789"@ || password == "12345678"@ || password
            == "password"@ || password == "qwerty123"@ || password == "qwerty1"@ || password
            == "111111"@ || password == "12345"@ || password == "sercret"@ || password
            == "123123"@),
        0 <= digit < password.len(),
        unicode_numeric(password[digit]),
        0 <= special < password.len(),
        !unicode_alphanumeric(password[special]),
    ensures
        strength_warnings(password).len() == 0,
{
}

/// Signing in names an account by its username: it fails as unknown exactly when no
/// account has that username, and it succeeds only for an account of that username whose
/// sealed key the password opens.
pub proof fn law_sign_in_needs_a_matching_account(
    settings: Settings,
    username: Seq<char>,
    password: Seq<char>,
)
    ensures
        sign_in_outcome(settings, username, password) == Err::<(), AccountError>(
            AccountError::UserNotFound,
        ) <==> forall|j: int|
            0 <= j < settings.accounts@.len() ==> (#[trigger] settings.accounts@[j]).username@
                != username,
        sign_in_outcome(settings, username, password) is Ok ==> exists|j: int|
            0 <= j < settings.accounts@.len() && (#[trigger] settings.accounts@[j]).username@
                == username && password_check(
                settings.accounts@[j].salt@,
                settings.accounts@[j].ciphertext@,
                settings.accounts@[j].nonce@,
                password,
            ) == Ok::<bool, CryptoError>(true),
{
    lemma_first_match(settings.accounts@, username, false);
    let i = first_match(settings.accounts@, username, false);
    if i < settings.accounts@.len() {
        assert(settings.accounts@[i].username@ == username);
    } else {
        assert forall|j: int|
            0 <= j < settings.accounts@.len() implies (#[trigger] settings.accounts@[j]).username@
            != username by {
            assert(account_key(settings.accounts@[j], false) != username);
        }
    }
}

} // verus!
