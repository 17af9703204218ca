//! Argon2id password hashing and verification.
//!
//! A hash is stored as a self-describing PHC string
//! (`$argon2id$v=19$m=...,t=...,p=...$salt$hash`): parameters, salt and
//! digest live in one column, and verification reads the parameters back
//! from the stored string. Every hash gets a fresh 16-byte salt from the
//! operating system's random source.

use argon2::{Argon2, PasswordHash, PasswordHasher, PasswordVerifier};
use password_hash::SaltString;
use vstd::prelude::*;

use crate::crypto::os_random_bytes;

verus! {

/// Length of the random salt of a new hash, in bytes.
pub const SALT_LEN: usize = 16;

/// The longest password, in characters, that hashing always accepts: its
/// UTF-8 form (at most 4 bytes a character) stays within Argon2's limit of
/// 2^32 - 1 bytes.
pub const MAX_PASSWORD_CHARS: usize = 0x3FFF_FFFF;

/// A failed hash or verification, with the hashing library's message.
#[derive(Debug, Clone, PartialEq, Eq)]
pub enum PasswordError {
    /// Hashing failed (or no salt could be drawn).
    Hash(String),
    /// The stored hash is not a PHC string Argon2 can check against.
    MalformedHash(String),
}

/// What checking `plain` against the PHC string `phc` with Argon2 gives:
/// whether it matches, or none when `phc` cannot be checked against.
pub uninterp spec fn argon2_verify_outcome(plain: Seq<char>, phc: Seq<char>) -> Option<bool>;

/// Checks `plain` against `phc` with `PasswordHash::new` and
/// `Argon2::default().verify_password`. The contract claims that the
/// outcome is a function of the two texts alone: a match, a mismatch (the
/// library's `Error::Password`), or any other error, named by
/// `argon2_verify_outcome`.
#[verifier::external_body]
fn argon2_verify(plain: &str, phc: &str) -> (r: Result<bool, String>)
    ensures
        match r {
            Ok(b) => argon2_verify_outcome(plain@, phc@) == Some(b),
            Err(_) => argon2_verify_outcome(plain@, phc@) is None,
        },
{
    let parsed = match PasswordHash::new(phc) {
        Ok(p) => p,
        Err(e) => return Err(e.to_string()),
    };
    match Argon2::default().verify_password(plain.as_bytes(), &parsed) {
        Ok(()) => Ok(true),
        Err(password_hash::Error::Password) => Ok(false),
        Err(e) => Err(e.to_string()),
    }
}

/// The PHC string Argon2id with the default parameters writes for `plain`
/// under the salt bytes `salt`.
pub uninterp spec fn argon2_phc(plain: Seq<char>, salt: Seq<u8>) -> Seq<char>;

/// Hashes `plain` with `Argon2::default().hash_password` under the salt
/// `salt` (B64-encoded by `SaltString::encode_b64`) and writes the PHC
/// string. The contract claims what the library's verifier is built for:
/// a hash it produced checks as a match against the same password, because
/// verification re-runs Argon2 with the parameters and salt read back from
/// the string. It also claims what the crate's source shows of failure:
/// with the default parameters and a 16-byte salt, hashing fails only for a
/// password longer than `MAX_PWD_LEN` (2^32 - 1) bytes, which no password of
/// at most [`MAX_PASSWORD_CHARS`] characters (4 bytes each at most) is.
/// The string is a function of the password and the salt alone (named
/// `argon2_phc`), and since it carries the salt's B64 text at a fixed place
/// after the fixed parameters, two different 16-byte salts give two
/// different strings.
#[verifier::external_body]
fn argon2_hash(plain: &str, salt: &[u8]) -> (r: Result<String, String>)
    ensures
        r matches Ok(h) ==> h@ == argon2_phc(plain@, salt@),
        r matches Ok(h) ==> argon2_verify_outcome(plain@, h@) == Some(true),
        salt@.len() == SALT_LEN ==> (r matches Ok(h) ==> forall|other: Seq<u8>|
            other.len() == SALT_LEN && other != salt@ ==> #[trigger] argon2_phc(plain@, other) != h@),
        salt@.len() == SALT_LEN && plain@.len() <= MAX_PASSWORD_CHARS ==> r is Ok,
{
    let salt = match SaltString::encode_b64(salt) {
        Ok(s) => s,
        Err(e) => return Err(e.to_string()),
    };
    match Argon2::default().hash_password(plain.as_bytes(), &salt) {
        Ok(h) => Ok(h.to_string()),
        Err(e) => Err(e.to_string()),
    }
}

/// Hashes a password with Argon2id under the given 16-byte salt, as a PHC
/// string: it succeeds for every password of at most
/// [`MAX_PASSWORD_CHARS`] characters, the hash is the PHC string of the
/// password under exactly this salt (so another salt gives another hash),
/// and it verifies against the same password.
pub fn hash_with_salt(plain: &str, salt: &[u8]) -> (r: Result<String, PasswordError>)
    requires
        salt@.len() == SALT_LEN,
    ensures
        plain@.len() <= MAX_PASSWORD_CHARS ==> r is Ok,
        r matches Ok(h) ==> h@ == argon2_phc(plain@, salt@),
        r matches Ok(h) ==> forall|other: Seq<u8>|
            other.len() == SALT_LEN && other != salt@ ==> #[trigger] argon2_phc(plain@, other) != h@,
        r matches Ok(h) ==> argon2_verify_outcome(plain@, h@) == Some(true),
        r matches Err(e) ==> e is Hash,
{
    match argon2_hash(plain, salt) {
        Ok(h) => Ok(h),
        Err(e) => Err(PasswordError::Hash(e)),
    }
}

/// Hashes a password with Argon2id and a fresh random salt, as a PHC
/// string. Whatever hash comes back is the PHC string of the password
/// under some 16-byte salt and verifies against the same password; the
/// hashing itself is [`hash_with_salt`] once a salt was drawn.
pub fn hash_password(plain: &str) -> (r: Result<String, PasswordError>)
    ensures
        r matches Ok(h) ==> exists|s: Seq<u8>| s.len() == SALT_LEN && h@ == #[trigger] argon2_phc(plain@, s),
        r matches Ok(h) ==> argon2_verify_outcome(plain@, h@) == Some(true),
        r matches Err(e) ==> e is Hash,
{
    let salt = match os_random_bytes(SALT_LEN) {
        Some(s) => s,
        None => {
            return Err(PasswordError::Hash("the operating system's random source failed".to_owned()));
        },
    };
    let r = hash_with_salt(plain, salt.as_slice());
    assert(r matches Ok(h) ==> h@ == argon2_phc(plain@, salt@));
    r
}

/// Checks a password against a stored PHC hash: `Ok(true)` on a match,
/// `Ok(false)` on a mismatch, `MalformedHash` when the stored hash cannot
/// be checked against (a data fault, not the user's).
pub fn verify_password(plain: &str, encoded_hash: &str) -> (r: Result<bool, PasswordError>)
    ensures
        match argon2_verify_outcome(plain@, encoded_hash@) {
            Some(b) => r == Ok::<bool, PasswordError>(b),
            None => r matches Err(PasswordError::MalformedHash(_)),
        },
{
    match argon2_verify(plain, encoded_hash) {
        Ok(b) => Ok(b),
        Err(e) => Err(PasswordError::MalformedHash(e)),
    }
}

} // verus!
