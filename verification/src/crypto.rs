//! Password-protected signing keys: Argon2id key derivation, AES-256-GCM sealing of
//! the Ed25519 secret key, and Ed25519 signatures.

use vstd::prelude::*;
use vstd::utf8::*;
use aes_gcm::aead::{Aead, AeadCore, KeyInit};
use aes_gcm::{Aes256Gcm, Key, Nonce};
use argon2::{Algorithm, Argon2, Params, Version};
use argon2::password_hash::{PasswordHasher, Salt, SaltString};
use ed25519_dalek::{Signature, Signer, SigningKey, Verifier, VerifyingKey};
use rand::rngs::OsRng;
use crate::text::lemma_encode_len_bounds;
use crate::base64::{b64_decode, b64_encode, decodable, from_base64, law_decode_inverts_encode};

verus! {

/// Argon2 memory cost, in KiB (32 MiB).
pub const ARGON2_M_COST: u32 = 32768;

/// Argon2 number of passes.
pub const ARGON2_T_COST: u32 = 2;

/// Argon2 degree of parallelism.
pub const ARGON2_P_COST: u32 = 1;

/// Length of an AES-256-GCM nonce in bytes.
pub const NONCE_LENGTH: usize = 12;

#[verifier::external_type_specification]
#[verifier::external_body]
pub struct ExArgon2Error(argon2::Error);

#[verifier::external_type_specification]
#[verifier::external_body]
pub struct ExAeadError(aes_gcm::Error);

#[verifier::external_type_specification]
#[verifier::external_body]
pub struct ExPasswordHashError(argon2::password_hash::Error);

/// The 32-byte key that Argon2id (version 0x13) derives from a password and a salt
/// with the given costs, or `None` where the crate refuses the inputs.
pub uninterp spec fn argon2id_key(
    password: Seq<u8>,
    salt: Seq<u8>,
    m_cost: u32,
    t_cost: u32,
    p_cost: u32,
) -> Option<Seq<u8>>;

/// The AES-256-GCM sealing (ciphertext followed by tag, no associated data) of a
/// plaintext, or `None` where the cipher refuses it.
pub uninterp spec fn aes256gcm_seal(key: Seq<u8>, nonce: Seq<u8>, plaintext: Seq<u8>) -> Option<
    Seq<u8>,
>;

/// The plaintext that AES-256-GCM recovers from a sealed message, or `None` where the
/// tag does not authenticate it.
pub uninterp spec fn aes256gcm_open(key: Seq<u8>, nonce: Seq<u8>, ciphertext: Seq<u8>) -> Option<
    Seq<u8>,
>;

/// The compressed Ed25519 public key that belongs to a 32-byte secret key.
pub uninterp spec fn ed25519_public(secret: Seq<u8>) -> Seq<u8>;

/// The Ed25519 signature of a message under a 32-byte secret key.
pub uninterp spec fn ed25519_signature(secret: Seq<u8>, message: Seq<u8>) -> Seq<u8>;

/// The 32 bytes decompress to a point of the curve, so they can serve as a public key.
pub uninterp spec fn ed25519_point_valid(public: Seq<u8>) -> bool;

/// The public key decompresses and the signature of the message checks out under it.
pub uninterp spec fn ed25519_verifies(public: Seq<u8>, message: Seq<u8>, signature: Seq<u8>) -> bool;

/// `Params::new` accepts the costs (with no output length given): at least eight memory
/// blocks, and eight per lane, at least one pass, and one to 0xFFFFFF lanes.
pub open spec fn argon2_costs_accepted(m_cost: u32, t_cost: u32, p_cost: u32) -> bool {
    &&& m_cost >= 8
    &&& m_cost >= 8 * p_cost
    &&& t_cost >= 1
    &&& 1 <= p_cost <= 0xFFFFFF
}

/// Argon2 takes the password and the salt: a password of at most 0xFFFFFFFF bytes and a
/// salt of 8 to 0xFFFFFFFF bytes.
pub open spec fn argon2_inputs_accepted(password: Seq<u8>, salt: Seq<u8>) -> bool {
    password.len() <= 0xFFFF_FFFF && 8 <= salt.len() <= 0xFFFF_FFFF
}

/// `Argon2::hash_password_into` (Argon2id, version 0x13, parameters built by
/// `Params::new` from the three costs, 32-byte output). The contract claims that the
/// result is the named key, an error exactly where the name has none, and, as the
/// crate's checks of the costs and of the input lengths show, no error where both are
/// accepted.
#[verifier::external_body]
fn argon2id_derive(password: &[u8], salt: &[u8], m_cost: u32, t_cost: u32, p_cost: u32) -> (res:
    Result<[u8; 32], argon2::Error>)
    requires
        p_cost <= 0xFFFFFF,
    ensures
        match res {
            Ok(key) => argon2id_key(password@, salt@, m_cost, t_cost, p_cost) == Some(key@),
            Err(_) => argon2id_key(password@, salt@, m_cost, t_cost, p_cost) is None,
        },
        argon2_costs_accepted(m_cost, t_cost, p_cost) && argon2_inputs_accepted(password@, salt@)
            ==> res is Ok,
{
    let params = Params::new(m_cost, t_cost, p_cost, None)?;
    let mut key = [0u8; 32];
    Argon2::new(Algorithm::Argon2id, Version::V0x13, params).hash_password_into(password, salt, &mut key)?;
    Ok(key)
}

/// `Aead::encrypt` of `Aes256Gcm` (no associated data). Besides naming the result, the
/// contract claims the property the crate's documentation shows: opening the sealed
/// message with the same key and nonce gives the plaintext back; and, as the crate's
/// length check shows, no error for a plaintext of at most 2^36 bytes.
#[verifier::external_body]
fn aes256gcm_encrypt(key: &[u8; 32], nonce: &[u8; 12], plaintext: &[u8]) -> (res: Result<
    Vec<u8>,
    aes_gcm::Error,
>)
    ensures
        match res {
            Ok(c) => aes256gcm_seal(key@, nonce@, plaintext@) == Some(c@) && aes256gcm_open(
                key@,
                nonce@,
                c@,
            ) == Some(plaintext@),
            Err(_) => aes256gcm_seal(key@, nonce@, plaintext@) is None,
        },
        plaintext@.len() <= 0x10_0000_0000 ==> res is Ok,
{
    Aes256Gcm::new(Key::<Aes256Gcm>::from_slice(key)).encrypt(Nonce::from_slice(nonce), plaintext)
}

/// `Aead::decrypt` of `Aes256Gcm` (no associated data): the named plaintext, and an
/// error exactly where the name has none.
#[verifier::external_body]
fn aes256gcm_decrypt(key: &[u8; 32], nonce: &[u8; 12], ciphertext: &[u8]) -> (res: Result<
    Vec<u8>,
    aes_gcm::Error,
>)
    ensures
        match res {
            Ok(p) => aes256gcm_open(key@, nonce@, ciphertext@) == Some(p@),
            Err(_) => aes256gcm_open(key@, nonce@, ciphertext@) is None,
        },
{
    Aes256Gcm::new(Key::<Aes256Gcm>::from_slice(key)).decrypt(Nonce::from_slice(nonce), ciphertext)
}

/// `SaltString::generate` with the operating system's generator. The salt is random;
/// the contract claims only its length: 16 random bytes in unpadded B64.
#[verifier::external_body]
fn fresh_salt() -> (res: String)
    ensures
        res@.len() == 22,
{
    SaltString::generate(&mut OsRng).to_string()
}

/// The start of the PHC string of an Argon2id hash with the crate's default version and
/// costs: `$argon2id$v=19$m=19456,t=2,p=1$`, followed by the salt and the hash.
pub open spec fn default_argon2id_phc_prefix() -> Seq<char> {
    "$argon2id$v=19$m=19456,t=2,p=1$"@
}

/// The PHC string of the Argon2id hash, with the crate's default version and costs, of
/// the password bytes under the salt given as B64 text, or `None` where the crates refuse
/// the salt or the password.
pub uninterp spec fn argon2id_default_phc(password: Seq<u8>, salt: Seq<char>) -> Option<Seq<char>>;

/// `PasswordHasher::hash_password` of `Argon2::default()` under the salt read by
/// `Salt::from_b64`, as its PHC string: the named hash of these two arguments, and an
/// error exactly where the name has none. The contract also claims what the crates'
/// source shows of every such string: it starts with the algorithm, the version and the
/// default costs, and goes on past them.
#[verifier::external_body]
fn argon2_phc_hash(password: &[u8], salt: &str) -> (res: Result<String, argon2::password_hash::Error>)
    ensures
        res matches Ok(h) ==> argon2id_default_phc(password@, salt@) == Some(h@) && h@.len()
            > default_argon2id_phc_prefix().len() && h@.take(
            default_argon2id_phc_prefix().len() as int,
        ) == default_argon2id_phc_prefix(),
        res is Err ==> argon2id_default_phc(password@, salt@) is None,
{
    let salt = Salt::from_b64(salt)?;
    match Argon2::default().hash_password(password, salt) {
        Ok(hash) => Ok(hash.to_string()),
        Err(e) => Err(e),
    }
}

/// `SigningKey::generate` with the operating system's generator, as its 32 secret
/// bytes. Nothing is claimed of the random value.
#[verifier::external_body]
fn fresh_signing_secret() -> (res: [u8; 32]) {
    SigningKey::generate(&mut OsRng).to_bytes()
}

/// `AeadCore::generate_nonce` of `Aes256Gcm` with the operating system's generator.
/// Nothing is claimed of the random value.
#[verifier::external_body]
fn fresh_nonce() -> (res: [u8; 12]) {
    Aes256Gcm::generate_nonce(&mut OsRng).into()
}

/// `SigningKey::verifying_key` of the signing key made from 32 secret bytes, as its
/// compressed bytes: the named public key. The contract also claims that these bytes
/// decompress to a point of the curve, as the key of a signing key always does.
#[verifier::external_body]
pub(crate) fn public_key_of(secret: &[u8; 32]) -> (res: [u8; 32])
    ensures
        res@ == ed25519_public(secret@),
        ed25519_point_valid(res@),
{
    SigningKey::from_bytes(secret).verifying_key().to_bytes()
}

/// `Signer::sign` of the signing key made from 32 secret bytes, over the UTF-8 bytes of
/// the message. Besides naming the signature, the contract claims the property the
/// crate's documentation shows: the signature verifies under the matching public key.
#[verifier::external_body]
pub fn sign_message(message: &str, signing_key: &[u8; 32]) -> (signature: [u8; 64])
    ensures
        signature@ == ed25519_signature(signing_key@, encode_utf8(message@)),
        ed25519_verifies(ed25519_public(signing_key@), encode_utf8(message@), signature@),
{
    SigningKey::from_bytes(signing_key).sign(message.as_bytes()).to_bytes()
}

/// `Verifier::verify` of `VerifyingKey` over the UTF-8 bytes of the message; where the
/// public key bytes do not decompress (`VerifyingKey::from_bytes` fails) the answer is
/// `false`. The contract claims that the answer is the named check.
#[verifier::external_body]
pub fn verify_signature(message: &str, signature: &[u8; 64], verifying_key: &[u8; 32]) -> (ok:
    bool)
    ensures
        ok == ed25519_verifies(verifying_key@, encode_utf8(message@), signature@),
{
    match VerifyingKey::from_bytes(verifying_key) {
        Ok(key) => key.verify(message.as_bytes(), &Signature::from_bytes(signature)).is_ok(),
        Err(_) => false,
    }
}

/// `VerifyingKey::from_bytes` succeeds on the 32 bytes: they are the named valid point.
#[verifier::external_body]
pub(crate) fn point_is_valid(bytes: &[u8; 32]) -> (ok: bool)
    ensures
        ok == ed25519_point_valid(bytes@),
{
    VerifyingKey::from_bytes(bytes).is_ok()
}


/// Why a cryptographic operation of the library failed.
#[derive(PartialEq, Eq, Structural, Clone, Copy, Debug)]
pub enum CryptoError {
    /// Argon2 refused the password or the salt.
    KeyDerivation,
    /// AES-GCM refused to seal the secret key.
    Encryption,
    /// The stored nonce is not 12 bytes long.
    BadNonce,
    /// The sealed key does not open: wrong password or damaged data.
    Decryption,
    /// The opened secret key is not 32 bytes long.
    BadKeyLength,
}

/// The key that protects an account's secret: Argon2id over the UTF-8 bytes of the
/// password and of the salt text.
pub open spec fn derived_key(password: Seq<char>, salt: Seq<char>) -> Option<Seq<u8>> {
    argon2id_key(encode_utf8(password), encode_utf8(salt), ARGON2_M_COST, ARGON2_T_COST, ARGON2_P_COST)
}

/// `ciphertext` seals, under the key derived from `password` and `salt` and under
/// `nonce`, a 32-byte secret whose public key is `public`.
pub open spec fn sealed_key_pair(
    password: Seq<char>,
    ciphertext: Seq<u8>,
    nonce: Seq<u8>,
    salt: Seq<char>,
    public: Seq<u8>,
) -> bool {
    &&& nonce.len() == NONCE_LENGTH
    &&& exists|secret: Seq<u8>|
        #![trigger ed25519_public(secret)]
        {
            &&& secret.len() == 32
            &&& public == ed25519_public(secret)
            &&& derived_key(password, salt) matches Some(key)
            &&& aes256gcm_seal(key, nonce, secret) == Some(ciphertext)
            &&& aes256gcm_open(key, nonce, ciphertext) == Some(secret)
        }
}

/// What checking a password against stored base64 texts of the ciphertext and nonce
/// answers: an error when the key cannot be derived or the nonce is not 12 bytes, and
/// else whether the ciphertext opens.
pub open spec fn password_check(
    salt: Seq<char>,
    ciphertext: Seq<char>,
    nonce: Seq<char>,
    password: Seq<char>,
) -> Result<bool, CryptoError> {
    match derived_key(password, salt) {
        None => Err(CryptoError::KeyDerivation),
        Some(key) => if b64_decode(nonce).len() != NONCE_LENGTH {
            Err(CryptoError::BadNonce)
        } else {
            Ok(aes256gcm_open(key, b64_decode(nonce), b64_decode(ciphertext)) is Some)
        },
    }
}

/// The secret key that the stored texts give up for a password.
pub open spec fn opened_secret(
    salt: Seq<char>,
    ciphertext: Seq<char>,
    nonce: Seq<char>,
    password: Seq<char>,
) -> Result<Seq<u8>, CryptoError> {
    match derived_key(password, salt) {
        None => Err(CryptoError::KeyDerivation),
        Some(key) => if b64_decode(nonce).len() != NONCE_LENGTH {
            Err(CryptoError::BadNonce)
        } else {
            match aes256gcm_open(key, b64_decode(nonce), b64_decode(ciphertext)) {
                None => Err(CryptoError::Decryption),
                Some(secret) => if secret.len() != 32 {
                    Err(CryptoError::BadKeyLength)
                } else {
                    Ok(secret)
                },
            }
        },
    }
}

/// Ciphertext, nonce, salt and public key of a freshly made key pair.
pub type KeyPairInformation = (Vec<u8>, Vec<u8>, String, [u8; 32]);

fn nonce_array(v: &Vec<u8>) -> (a: [u8; 12])
    requires
        v@.len() == 12,
    ensures
        a@ == v@,
{
    let mut a = [0u8; 12];
    let mut i: usize = 0;
    while i < 12
        invariant
            v@.len() == 12,
            i <= 12,
            forall|k: int| 0 <= k < i ==> a@[k] == v@[k],
        decreases 12 - i,
    {
        a[i] = v[i];
        i = i + 1;
    }
    assert(a@ =~= v@);
    a
}

fn secret_array(v: &Vec<u8>) -> (a: [u8; 32])
    requires
        v@.len() == 32,
    ensures
        a@ == v@,
{
    let mut a = [0u8; 32];
    let mut i: usize = 0;
    while i < 32
        invariant
            v@.len() == 32,
            i <= 32,
            forall|k: int| 0 <= k < i ==> a@[k] == v@[k],
        decreases 32 - i,
    {
        a[i] = v[i];
        i = i + 1;
    }
    assert(a@ =~= v@);
    a
}

pub(crate) fn copy_to_vec(a: &[u8]) -> (v: Vec<u8>)
    ensures
        v@ == a@,
{
    let mut v: Vec<u8> = Vec::new();
    let mut i: usize = 0;
    while i < a.len()
        invariant
            i <= a@.len(),
            v@ =~= a@.take(i as int),
        decreases a@.len() - i,
    {
        v.push(a[i]);
        i = i + 1;
    }
    assert(a@.take(a@.len() as int) =~= a@);
    v
}

fn derive_key(password: &str, salt: &str) -> (res: Result<[u8; 32], CryptoError>)
    ensures
        match res {
            Ok(key) => derived_key(password@, salt@) == Some(key@),
            Err(e) => e == CryptoError::KeyDerivation && derived_key(password@, salt@) is None,
        },
        argon2_inputs_accepted(encode_utf8(password@), encode_utf8(salt@)) ==> res is Ok,
{
    match argon2id_derive(password.as_bytes(), salt.as_bytes(), ARGON2_M_COST, ARGON2_T_COST, ARGON2_P_COST) {
        Ok(key) => Ok(key),
        Err(_) => Err(CryptoError::KeyDerivation),
    }
}

/// The password's UTF-8 bytes are more than Argon2 takes.
pub open spec fn password_too_long(password: Seq<char>) -> bool {
    encode_utf8(password).len() > 0xFFFF_FFFF
}

/// Makes a new Ed25519 key pair and seals its secret key under a key derived from the
/// password and a fresh random salt, with a fresh random nonce. It fails only for a
/// password longer than Argon2 takes.
pub fn generate_key_pair(password: &str) -> (res: Result<KeyPairInformation, CryptoError>)
    ensures
        match res {
            Ok(info) => sealed_key_pair(password@, info.0@, info.1@, info.2@, info.3@)
                && info.2@.len() == 22,
            Err(e) => e == CryptoError::KeyDerivation && password_too_long(password@),
        },
{
    let salt = fresh_salt();
    proof {
        lemma_encode_len_bounds(salt@);
    }
    let key = match derive_key(password, salt.as_str()) {
        Ok(key) => key,
        Err(e) => {
            return Err(e);
        },
    };
    let secret = fresh_signing_secret();
    let public = public_key_of(&secret);
    let nonce = fresh_nonce();
    let ciphertext = match aes256gcm_encrypt(&key, &nonce, &secret) {
        Ok(c) => c,
        Err(_) => {
            return Err(CryptoError::Encryption);
        },
    };
    let nonce_vec = copy_to_vec(&nonce);
    proof {
        assert(secret@.len() == 32);
        assert(ed25519_public(secret@) == public@);
    }
    Ok((ciphertext, nonce_vec, salt, public))
}

/// The text a server stores in place of its password: the password's Argon2id hash, in
/// PHC form, under a fresh random salt of 22 B64 characters. Which salt was drawn is
/// chance; the hash is that of the password's UTF-8 bytes under it, and it fails only
/// where the crates refuse the password under the drawn salt.
pub fn hash_server_password(password: &str) -> (res: Result<String, CryptoError>)
    ensures
        res matches Ok(h) ==> exists|salt: Seq<char>|
            salt.len() == 22 && #[trigger] argon2id_default_phc(encode_utf8(password@), salt)
                == Some(h@),
        res matches Ok(h) ==> h@.len() > default_argon2id_phc_prefix().len() && h@.take(
            default_argon2id_phc_prefix().len() as int,
        ) == default_argon2id_phc_prefix(),
        res matches Err(e) ==> e == CryptoError::KeyDerivation && exists|salt: Seq<char>|
            salt.len() == 22 && #[trigger] argon2id_default_phc(encode_utf8(password@), salt)
                is None,
{
    let salt = fresh_salt();
    match argon2_phc_hash(password.as_bytes(), salt.as_str()) {
        Ok(hash) => Ok(hash),
        Err(_) => Err(CryptoError::KeyDerivation),
    }
}

/// Checks a password against the stored salt and the base64 texts of the sealed key
/// and its nonce: `Ok(true)` when the sealed key opens, `Ok(false)` when it does not.
pub fn check_password(salt: String, ciphertext: String, nonce: String, password: String) -> (res:
    Result<bool, CryptoError>)
    requires
        decodable(encode_utf8(ciphertext@)),
        decodable(encode_utf8(nonce@)),
    ensures
        res == password_check(salt@, ciphertext@, nonce@, password@),
        argon2_inputs_accepted(encode_utf8(password@), encode_utf8(salt@)) && b64_decode(nonce@).len()
            == NONCE_LENGTH ==> res is Ok,
{
    let key = derive_key(password.as_str(), salt.as_str())?;
    let ciphertext_bytes = from_base64(ciphertext);
    let nonce_bytes = from_base64(nonce);
    if nonce_bytes.len() != NONCE_LENGTH {
        return Err(CryptoError::BadNonce);
    }
    let nonce_arr = nonce_array(&nonce_bytes);
    let opened = aes256gcm_decrypt(&key, &nonce_arr, ciphertext_bytes.as_slice());
    Ok(opened.is_ok())
}

/// Opens the sealed secret key of stored texts with a password.
pub fn open_secret_key(salt: &String, ciphertext: &String, nonce: &String, password: &str) -> (res:
    Result<[u8; 32], CryptoError>)
    requires
        decodable(encode_utf8(ciphertext@)),
        decodable(encode_utf8(nonce@)),
    ensures
        match res {
            Ok(secret) => opened_secret(salt@, ciphertext@, nonce@, password@) == Ok::<
                Seq<u8>,
                CryptoError,
            >(secret@),
            Err(e) => opened_secret(salt@, ciphertext@, nonce@, password@) == Err::<
                Seq<u8>,
                CryptoError,
            >(e),
        },
{
    let key = derive_key(password, salt.as_str())?;
    let ciphertext_bytes = from_base64(ciphertext.clone());
    let nonce_bytes = from_base64(nonce.clone());
    if nonce_bytes.len() != NONCE_LENGTH {
        return Err(CryptoError::BadNonce);
    }
    let nonce_arr = nonce_array(&nonce_bytes);
    let secret = match aes256gcm_decrypt(&key, &nonce_arr, ciphertext_bytes.as_slice()) {
        Ok(p) => p,
        Err(_) => {
            return Err(CryptoError::Decryption);
        },
    };
    if secret.len() != 32 {
        return Err(CryptoError::BadKeyLength);
    }
    Ok(secret_array(&secret))
}


/// A key pair that `generate_key_pair` made can be checked against any password that
/// Argon2 takes: the stored texts decode, the salt is one Argon2 takes, and the nonce
/// decodes to 12 bytes, which are what `check_password` needs to answer `Ok`. The password
/// it was made with is answered `Ok(true)`.
pub proof fn law_generated_key_pair_checks(
    made_with: Seq<char>,
    ciphertext: Seq<u8>,
    nonce: Seq<u8>,
    salt: Seq<char>,
    public: Seq<u8>,
    password: Seq<char>,
)
    requires
        sealed_key_pair(made_with, ciphertext, nonce, salt, public),
        salt.len() == 22,
        !password_too_long(password),
    ensures
        decodable(encode_utf8(b64_encode(ciphertext))),
        decodable(encode_utf8(b64_encode(nonce))),
        argon2_inputs_accepted(encode_utf8(password), encode_utf8(salt)),
        b64_decode(b64_encode(nonce)).len() == NONCE_LENGTH,
        password == made_with ==> password_check(
            salt,
            b64_encode(ciphertext),
            b64_encode(nonce),
            password,
        ) == Ok::<bool, CryptoError>(true),
{
    lemma_encode_len_bounds(salt);
    law_sealed_key_opens(made_with, ciphertext, nonce, salt, public);
}

/// A secret sealed under a password opens again with that password: the base64 texts
/// of its ciphertext and nonce pass the password check, and opening them gives back a
/// secret whose public key is the one stored beside them.
pub proof fn law_sealed_key_opens(
    password: Seq<char>,
    ciphertext: Seq<u8>,
    nonce: Seq<u8>,
    salt: Seq<char>,
    public: Seq<u8>,
)
    requires
        sealed_key_pair(password, ciphertext, nonce, salt, public),
    ensures
        decodable(encode_utf8(b64_encode(ciphertext))),
        decodable(encode_utf8(b64_encode(nonce))),
        password_check(salt, b64_encode(ciphertext), b64_encode(nonce), password) == Ok::<
            bool,
            CryptoError,
        >(true),
        opened_secret(salt, b64_encode(ciphertext), b64_encode(nonce), password) matches Ok(secret)
            && ed25519_public(secret) == public,
{
    law_decode_inverts_encode(ciphertext);
    law_decode_inverts_encode(nonce);
    let secret = choose|secret: Seq<u8>|
        #![trigger ed25519_public(secret)]
        {
            &&& secret.len() == 32
            &&& public == ed25519_public(secret)
            &&& derived_key(password, salt) matches Some(key)
            &&& aes256gcm_seal(key, nonce, secret) == Some(ciphertext)
            &&& aes256gcm_open(key, nonce, ciphertext) == Some(secret)
        };
    assert(opened_secret(salt, b64_encode(ciphertext), b64_encode(nonce), password) == Ok::<
        Seq<u8>,
        CryptoError,
    >(secret));
}

} // verus!
