//! The checks a home server makes of a signed request before it changes a profile.

use vstd::prelude::*;
use crate::base64::{
    b64_decode, b64_encode, b64url_encode, from_base64url, law_url_decode_inverts_url_encode,
    url_to_std, with_padding,
};
use crate::crypto::{ed25519_point_valid, ed25519_verifies, point_is_valid, verify_signature};
use crate::definitions::home::SignedRequest;
use vstd::utf8::encode_utf8;

verus! {

/// The HTTP error status that a refused request is answered with.
#[derive(Clone, Copy, Debug, PartialEq, Eq, Structural)]
pub enum HttpStatus {
    BadRequest,
    Unauthorized,
    NotFound,
    InternalServerError,
    /// The resource exists already.
    Conflict,
}

/// The bytes of a URL-safe base64 field of a request.
pub open spec fn url_bytes(text: Seq<char>) -> Seq<u8> {
    b64_decode(with_padding(url_to_std(text)))
}

/// What `check_user_key` answers: a bad request where the signature is not 64 bytes or
/// the key not 32 bytes of a curve point, else whether the signature of the payload checks
/// out under the key.
pub open spec fn user_key_check(req: SignedRequest) -> Result<bool, HttpStatus> {
    let sig = url_bytes(req.signature@);
    let key = url_bytes(req.verifying_key@);
    if sig.len() != 64 || key.len() != 32 || !ed25519_point_valid(key) {
        Err(HttpStatus::BadRequest)
    } else {
        Ok(ed25519_verifies(key, encode_utf8(req.payload@), sig))
    }
}

fn bytes_32(v: &Vec<u8>) -> (a: [u8; 32])
    requires
        v@.len() == 32,
    ensures
        a@ == v@,
{
    let mut a = [0u8; 32];
    let mut i: usize = 0;
    while i < 32
        invariant
            v@.len() == 32,
            i <= 32,
            forall|k: int| 0 <= k < i ==> a@[k] == v@[k],
        decreases 32 - i,
    {
        a[i] = v[i];
        i = i + 1;
    }
    assert(a@ =~= v@);
    a
}

fn bytes_64(v: &Vec<u8>) -> (a: [u8; 64])
    requires
        v@.len() == 64,
    ensures
        a@ == v@,
{
    let mut a = [0u8; 64];
    let mut i: usize = 0;
    while i < 64
        invariant
            v@.len() == 64,
            i <= 64,
            forall|k: int| 0 <= k < i ==> a@[k] == v@[k],
        decreases 64 - i,
    {
        a[i] = v[i];
        i = i + 1;
    }
    assert(a@ =~= v@);
    a
}

/// Checks that the request's signature is the signer's signature of its payload.
pub fn check_user_key(req: &SignedRequest) -> (res: Result<bool, HttpStatus>)
    ensures
        res == user_key_check(*req),
{
    let sig = from_base64url(req.signature.clone());
    if sig.len() != 64 {
        return Err(HttpStatus::BadRequest);
    }
    let signature = bytes_64(&sig);
    let key_bytes = from_base64url(req.verifying_key.clone());
    if key_bytes.len() != 32 {
        return Err(HttpStatus::BadRequest);
    }
    let key = bytes_32(&key_bytes);
    if !point_is_valid(&key) {
        return Err(HttpStatus::BadRequest);
    }
    Ok(verify_signature(req.payload.as_str(), &signature, &key))
}

/// How far apart two instants may be, in seconds, for a signed request to count as
/// fresh.
pub open spec fn freshness_window() -> int {
    60
}

/// What `check_user_full` answers for a request whose payload carries `timestamp` (or
/// could not be read, `None`) at the time `now` (`None` where the clock stands before the
/// UNIX epoch).
pub open spec fn user_full_check(req: SignedRequest, timestamp: Option<i64>, now: Option<i64>) -> Result<
    (),
    HttpStatus,
> {
    match user_key_check(req) {
        Err(e) => Err(e),
        Ok(false) => Err(HttpStatus::BadRequest),
        Ok(true) => match timestamp {
            None => Err(HttpStatus::BadRequest),
            Some(t) => match now {
                None => Err(HttpStatus::InternalServerError),
                Some(n) => if n - t > freshness_window() || t - n > freshness_window() {
                    Err(HttpStatus::BadRequest)
                } else {
                    Ok(())
                },
            },
        },
    }
}

/// Checks a signed request in full: the signature, then that the payload's timestamp lies
/// within a minute of now, on either side.
pub fn check_user_full(req: &SignedRequest, timestamp: Option<i64>, now: Option<i64>) -> (res: Result<
    (),
    HttpStatus,
>)
    ensures
        res == user_full_check(*req, timestamp, now),
{
    match check_user_key(req) {
        Err(e) => Err(e),
        Ok(false) => Err(HttpStatus::BadRequest),
        Ok(true) => match timestamp {
            None => Err(HttpStatus::BadRequest),
            Some(t) => match now {
                None => Err(HttpStatus::InternalServerError),
                Some(n) => {
                    let diff: i128 = n as i128 - t as i128;
                    if diff > 60 || diff < -60 {
                        Err(HttpStatus::BadRequest)
                    } else {
                        Ok(())
                    }
                },
            },
        },
    }
}


/// What creating a profile answers: a bad request where the signed request fails its full
/// check, a conflict where a profile of the request's key is already registered, and else
/// the go-ahead.
pub open spec fn new_profile_check(req: SignedRequest, timestamp: Option<i64>, now: Option<i64>, registered: bool) -> Result<
    (),
    HttpStatus,
> {
    match user_full_check(req, timestamp, now) {
        Err(_) => Err(HttpStatus::BadRequest),
        Ok(()) => if registered {
            Err(HttpStatus::Conflict)
        } else {
            Ok(())
        },
    }
}

/// Decides whether a profile may be created for a signed request; `registered` tells
/// whether a profile of the request's key exists already.
pub fn check_new_profile(req: &SignedRequest, timestamp: Option<i64>, now: Option<i64>, registered: bool) -> (res:
    Result<(), HttpStatus>)
    ensures
        res == new_profile_check(*req, timestamp, now, registered),
{
    match check_user_full(req, timestamp, now) {
        Err(_) => Err(HttpStatus::BadRequest),
        Ok(()) => if registered {
            Err(HttpStatus::Conflict)
        } else {
            Ok(())
        },
    }
}

/// A request signed by the holder of a key passes the key check: where the request
/// carries, in URL-safe base64, a public key that is a curve point and a signature of the
/// payload that verifies under it, the check answers that the signature holds.
pub proof fn law_signed_request_passes(req: SignedRequest, public: Seq<u8>, signature: Seq<u8>)
    requires
        req.verifying_key@ == b64url_encode(b64_encode(public)),
        req.signature@ == b64url_encode(b64_encode(signature)),
        public.len() == 32,
        signature.len() == 64,
        ed25519_point_valid(public),
        ed25519_verifies(public, encode_utf8(req.payload@), signature),
    ensures
        user_key_check(req) == Ok::<bool, HttpStatus>(true),
{
    law_url_decode_inverts_url_encode(public);
    law_url_decode_inverts_url_encode(signature);
}

/// The full check of a signed request lets it through exactly when its signature holds
/// and the payload's timestamp lies at most a minute from now, in the past or in the
/// future.
pub proof fn law_full_check_admits_fresh_signed_requests(
    req: SignedRequest,
    timestamp: Option<i64>,
    now: Option<i64>,
)
    ensures
        user_full_check(req, timestamp, now) == Ok::<(), HttpStatus>(()) <==> {
            &&& user_key_check(req) == Ok::<bool, HttpStatus>(true)
            &&& timestamp is Some
            &&& now is Some
            &&& -60 <= now->0 - timestamp->0 <= 60
        },
{
}

/// A key gets one profile: creation is refused with a conflict for a key that already
/// has one, even when the request itself is in order, and allowed for a new key exactly
/// when the request passes its full check; a request that fails the check is a bad
/// request.
pub proof fn law_one_profile_per_key(
    req: SignedRequest,
    timestamp: Option<i64>,
    now: Option<i64>,
    registered: bool,
)
    ensures
        registered ==> new_profile_check(req, timestamp, now, registered) != Ok::<(), HttpStatus>(()),
        registered && user_full_check(req, timestamp, now) == Ok::<(), HttpStatus>(()) ==> new_profile_check(
            req,
            timestamp,
            now,
            registered,
        ) == Err::<(), HttpStatus>(HttpStatus::Conflict),
        !registered ==> (new_profile_check(req, timestamp, now, registered) == Ok::<(), HttpStatus>(())
            <==> user_full_check(req, timestamp, now) == Ok::<(), HttpStatus>(())),
        user_full_check(req, timestamp, now) is Err ==> new_profile_check(
            req,
            timestamp,
            now,
            registered,
        ) == Err::<(), HttpStatus>(HttpStatus::BadRequest),
{
}

/// The key check answers `true` only for a request whose URL-safe base64 fields decode to
/// a 64-byte signature and a 32-byte curve point under which the signature of the
/// payload's UTF-8 bytes verifies, and answers every such request `true`.
pub proof fn law_key_check_means_a_valid_signature(req: SignedRequest)
    ensures
        user_key_check(req) == Ok::<bool, HttpStatus>(true) <==> {
            &&& b64_decode(with_padding(url_to_std(req.signature@))).len() == 64
            &&& b64_decode(with_padding(url_to_std(req.verifying_key@))).len() == 32
            &&& ed25519_point_valid(b64_decode(with_padding(url_to_std(req.verifying_key@))))
            &&& ed25519_verifies(
                b64_decode(with_padding(url_to_std(req.verifying_key@))),
                encode_utf8(req.payload@),
                b64_decode(with_padding(url_to_std(req.signature@))),
            )
        },
{
}

} // verus!
