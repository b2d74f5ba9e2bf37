//! General helpers: public keys from raw bytes, and human-readable file sizes.

use vstd::prelude::*;
use crate::crypto::{ed25519_point_valid, point_is_valid};
use crate::text::{decimal, push_decimal, push_char};

verus! {

/// Why bytes could not be taken as a verifying key.
#[derive(PartialEq, Eq, Structural, Clone, Copy, Debug)]
pub enum KeyError {
    /// The bytes are not 32 long, or do not decompress to a curve point.
    InvalidKey,
}

/// Takes 32 bytes as a verifying key, after checking that they are 32 long and
/// decompress to a point of the curve.
pub fn vec_to_verifying_key(vec: Vec<u8>) -> (res: Result<[u8; 32], KeyError>)
    ensures
        match res {
            Ok(key) => vec@.len() == 32 && ed25519_point_valid(vec@) && key@ == vec@,
            Err(e) => e == KeyError::InvalidKey && !(vec@.len() == 32 && ed25519_point_valid(vec@)),
        },
{
    if vec.len() != 32 {
        return Err(KeyError::InvalidKey);
    }
    let mut key = [0u8; 32];
    let mut i: usize = 0;
    while i < 32
        invariant
            vec@.len() == 32,
            i <= 32,
            forall|k: int| 0 <= k < i ==> key@[k] == vec@[k],
        decreases 32 - i,
    {
        key[i] = vec[i];
        i = i + 1;
    }
    assert(key@ =~= vec@);
    if !point_is_valid(&key) {
        return Err(KeyError::InvalidKey);
    }
    Ok(key)
}

/// The short text for a size in bytes: whole bytes below a thousand, else whole
/// kilobytes, megabytes or gigabytes (decimal units, rounded down).
pub open spec fn size_descriptor(size: u64) -> Seq<char> {
    if size < 1_000 {
        decimal(size as nat) + seq!['B']
    } else if size < 1_000_000 {
        decimal((size / 1_000) as nat) + seq!['K', 'B']
    } else if size < 1_000_000_000 {
        decimal((size / 1_000_000) as nat) + seq!['M', 'B']
    } else {
        decimal((size / 1_000_000_000) as nat) + seq!['G', 'B']
    }
}

/// Writes a size in bytes for display, such as `999B`, `12KB` or `3GB`.
pub fn size_to_descriptor(size: u64) -> (text: String)
    ensures
        text@ == size_descriptor(size),
{
    let mut text = String::new();
    if size < 1_000 {
        push_decimal(&mut text, size);
        push_char(&mut text, 'B');
    } else if size < 1_000_000 {
        push_decimal(&mut text, size / 1_000);
        push_char(&mut text, 'K');
        push_char(&mut text, 'B');
    } else if size < 1_000_000_000 {
        push_decimal(&mut text, size / 1_000_000);
        push_char(&mut text, 'M');
        push_char(&mut text, 'B');
    } else {
        push_decimal(&mut text, size / 1_000_000_000);
        push_char(&mut text, 'G');
        push_char(&mut text, 'B');
    }
    assert(text@ =~= size_descriptor(size));
    text
}

} // verus!
