//! The AES-256-GCM master key that wraps each user's Immich API key at
//! rest, and the hex text it is configured with.
//!
//! The key's bytes never appear in a debug rendering. Each encryption draws
//! a fresh 12-byte nonce from the operating system; decryption checks the
//! nonce length and the GCM tag.

use aes_gcm::aead::{Aead, KeyInit};
use rand::RngCore;
use vstd::prelude::*;
use vstd::string::StringExecFns;

use crate::text::{trim_text, trimmed};

verus! {

/// Key length in bytes.
pub const KEY_LEN: usize = 32;

/// Nonce length in bytes.
pub const NONCE_LEN: usize = 12;

/// Name of the environment variable holding the key in hex.
pub const MASTER_KEY_ENV: &'static str = "IMMICH_EXT_MASTER_KEY";

/// Largest plaintext AES-GCM encrypts, in bytes (2^36).
pub const GCM_MAX_PLAINTEXT: u64 = 0x10_0000_0000;

#[verifier::external_type_specification]
#[verifier::external_body]
pub struct ExFromHexError(hex::FromHexError);

/// Why the master key could not be loaded or used.
#[derive(Debug)]
pub enum MasterKeyError {
    /// The environment variable is not set.
    EnvMissing(&'static str),
    /// The value is not hex.
    EnvNotHex { var: &'static str, source: hex::FromHexError },
    /// The value decodes to a length other than [`KEY_LEN`].
    WrongLength { var: &'static str, expected: usize, actual: usize },
    /// A nonce of the wrong length was handed to decryption.
    NonceLength { expected: usize, actual: usize },
    /// The AES-GCM operation failed: wrong key, nonce or ciphertext (the tag
    /// did not verify), or no randomness for a nonce.
    Crypto,
}

// ---------------------------------------------------------------------------
// Hex text.
// ---------------------------------------------------------------------------

/// The value of a hex digit (either case).
pub open spec fn hex_value(c: char) -> int {
    if '0' <= c && c <= '9' {
        c as int - '0' as int
    } else if 'a' <= c && c <= 'f' {
        c as int - 'a' as int + 10
    } else {
        c as int - 'A' as int + 10
    }
}

/// `c` is a hex digit, in either case.
pub open spec fn is_hex_digit(c: char) -> bool {
    ('0' <= c && c <= '9') || ('a' <= c && c <= 'f') || ('A' <= c && c <= 'F')
}

/// `s` is an even number of hex digits.
pub open spec fn is_hex_text(s: Seq<char>) -> bool {
    s.len() % 2 == 0 && forall|i: int| 0 <= i < s.len() ==> #[trigger] is_hex_digit(s[i])
}

/// The bytes written by an even run of hex digits, two digits per byte,
/// high nibble first.
pub open spec fn hex_bytes(s: Seq<char>) -> Seq<u8> {
    Seq::new(s.len() / 2, |i: int| (hex_value(s[2 * i]) * 16 + hex_value(s[2 * i + 1])) as u8)
}

/// The lowercase hex digit of a nibble.
pub open spec fn lower_hex_digit(n: int) -> char {
    if n < 10 {
        ('0' as int + n) as char
    } else {
        ('a' as int + n - 10) as char
    }
}

/// Lowercase hex text of `bytes`: two digits per byte, high nibble first.
pub open spec fn lower_hex(bytes: Seq<u8>) -> Seq<char> {
    Seq::new(
        bytes.len() * 2,
        |i: int|
            if i % 2 == 0 {
                lower_hex_digit(bytes[i / 2] as int / 16)
            } else {
                lower_hex_digit(bytes[i / 2] as int % 16)
            },
    )
}

/// Decodes hex text with `hex::decode`.
///
/// The contract states what the crate's source does: an even number of hex
/// digits of either case decodes to one byte per pair, high nibble first;
/// any other text is an error.
#[verifier::external_body]
fn hex_decode(text: &str) -> (r: Result<Vec<u8>, hex::FromHexError>)
    ensures
        r is Ok <==> is_hex_text(text@),
        r matches Ok(bytes) ==> bytes@ == hex_bytes(text@),
{
    hex::decode(text)
}

/// Encodes bytes as lowercase hex text with `hex::encode`.
///
/// The contract states what the crate's documentation and source say: two
/// lowercase digits per byte, high nibble first.
#[verifier::external_body]
pub(crate) fn hex_encode(bytes: &[u8]) -> (r: String)
    ensures
        r@ == lower_hex(bytes@),
{
    hex::encode(bytes)
}

// ---------------------------------------------------------------------------
// AES-256-GCM.
// ---------------------------------------------------------------------------

/// The ciphertext (with its tag) that AES-256-GCM makes of `plaintext`
/// under `key` and `nonce`, without associated data.
pub uninterp spec fn gcm_seal(key: Seq<u8>, nonce: Seq<u8>, plaintext: Seq<u8>) -> Seq<u8>;

/// The plaintext AES-256-GCM recovers from `ciphertext` under `key` and
/// `nonce`, or none when the tag does not verify.
pub uninterp spec fn gcm_open(key: Seq<u8>, nonce: Seq<u8>, ciphertext: Seq<u8>) -> Option<Seq<u8>>;

/// Encrypts with `aes_gcm::Aes256Gcm` (`Aead::encrypt`, no associated
/// data).
///
/// The contract claims: encryption fails exactly for a plaintext longer than
/// 2^36 bytes (the crate's `P_MAX` check); the ciphertext is a function of
/// key, nonce and plaintext; and decrypting it under the same key and nonce
/// gives the plaintext back, which is what an AEAD promises.
#[verifier::external_body]
fn aes_gcm_seal(key: &[u8; 32], nonce: &[u8], plaintext: &[u8]) -> (r: Option<Vec<u8>>)
    requires
        nonce@.len() == 12,
    ensures
        r is Some <==> plaintext@.len() <= GCM_MAX_PLAINTEXT,
        r matches Some(ct) ==> ct@ == gcm_seal(key@, nonce@, plaintext@),
        r matches Some(ct) ==> gcm_open(key@, nonce@, ct@) == Some(plaintext@),
{
    let cipher = aes_gcm::Aes256Gcm::new(aes_gcm::Key::<aes_gcm::Aes256Gcm>::from_slice(key));
    match cipher.encrypt(aes_gcm::Nonce::from_slice(nonce), plaintext) {
        Ok(ct) => Some(ct),
        Err(_) => None,
    }
}

/// Decrypts with `aes_gcm::Aes256Gcm` (`Aead::decrypt`, no associated
/// data).
///
/// The contract names the result: the plaintext, or none when the tag does
/// not verify under this key and nonce.
#[verifier::external_body]
fn aes_gcm_open(key: &[u8; 32], nonce: &[u8], ciphertext: &[u8]) -> (r: Option<Vec<u8>>)
    requires
        nonce@.len() == 12,
    ensures
        match gcm_open(key@, nonce@, ciphertext@) {
            Some(p) => r matches Some(v) && v@ == p,
            None => r is None,
        },
{
    let cipher = aes_gcm::Aes256Gcm::new(aes_gcm::Key::<aes_gcm::Aes256Gcm>::from_slice(key));
    cipher.decrypt(aes_gcm::Nonce::from_slice(nonce), ciphertext).ok()
}

/// `len` bytes from the operating system's random source
/// (`rand::rngs::OsRng`, `RngCore::try_fill_bytes`), or none when it fails.
///
/// Only the length is promised; the bytes are random.
#[verifier::external_body]
pub(crate) fn os_random_bytes(len: usize) -> (r: Option<Vec<u8>>)
    ensures
        r matches Some(v) ==> v@.len() == len,
{
    let mut bytes = vec![0u8; len];
    match rand::rngs::OsRng.try_fill_bytes(&mut bytes) {
        Ok(()) => Some(bytes),
        Err(_) => None,
    }
}

// ---------------------------------------------------------------------------
// The master key.
// ---------------------------------------------------------------------------

/// A 32-byte AES-256-GCM key; its bytes stay out of every rendering.
#[derive(Clone)]
pub struct MasterKey([u8; KEY_LEN]);

impl View for MasterKey {
    type V = Seq<u8>;

    closed spec fn view(&self) -> Seq<u8> {
        self.0@
    }
}

/// What decrypting `ciphertext` with `nonce` under `key` gives: a nonce of
/// the wrong length is refused, a tag that does not verify fails, otherwise
/// the plaintext.
pub open spec fn decrypt_outcome(key: Seq<u8>, nonce: Seq<u8>, ciphertext: Seq<u8>) -> Option<Seq<u8>> {
    if nonce.len() != NONCE_LEN {
        None
    } else {
        gcm_open(key, nonce, ciphertext)
    }
}

impl MasterKey {
    /// The key made of these bytes.
    pub fn from_bytes(bytes: [u8; KEY_LEN]) -> (k: Self)
        ensures
            k@ == bytes@,
    {
        MasterKey(bytes)
    }

    /// Reads the key from the raw value of [`MASTER_KEY_ENV`]: an unset
    /// variable is `EnvMissing`, a set one is read as [`MasterKey::from_hex`]
    /// reads it.
    pub fn from_env_value(raw: Option<&str>) -> (r: Result<Self, MasterKeyError>)
        ensures
            raw is None ==> (r matches Err(MasterKeyError::EnvMissing(var)) && var@ == MASTER_KEY_ENV@),
            raw matches Some(v) ==> {
                &&& !is_hex_text(trimmed(v@)) ==> (r matches Err(MasterKeyError::EnvNotHex { var, .. }) && var@
                    == MASTER_KEY_ENV@)
                &&& is_hex_text(trimmed(v@)) && hex_bytes(trimmed(v@)).len() != KEY_LEN ==> (r matches Err(
                    MasterKeyError::WrongLength { var, expected, actual },
                ) && var@ == MASTER_KEY_ENV@ && expected == KEY_LEN && actual == hex_bytes(trimmed(v@)).len())
                &&& is_hex_text(trimmed(v@)) && hex_bytes(trimmed(v@)).len() == KEY_LEN ==> (r matches Ok(k)
                    && k@ == hex_bytes(trimmed(v@)))
            },
    {
        match raw {
            None => Err(MasterKeyError::EnvMissing(MASTER_KEY_ENV)),
            Some(v) => MasterKey::from_hex(v),
        }
    }

    /// Reads the key from hex text (white space around it allowed): it must
    /// decode to exactly [`KEY_LEN`] bytes.
    pub fn from_hex(raw: &str) -> (r: Result<Self, MasterKeyError>)
        ensures
            !is_hex_text(trimmed(raw@)) ==> (r matches Err(MasterKeyError::EnvNotHex { var, .. }) && var@
                == MASTER_KEY_ENV@),
            is_hex_text(trimmed(raw@)) && hex_bytes(trimmed(raw@)).len() != KEY_LEN ==> (r matches Err(
                MasterKeyError::WrongLength { var, expected, actual },
            ) && var@ == MASTER_KEY_ENV@ && expected == KEY_LEN && actual == hex_bytes(trimmed(raw@)).len()),
            is_hex_text(trimmed(raw@)) && hex_bytes(trimmed(raw@)).len() == KEY_LEN ==> (r matches Ok(k)
                && k@ == hex_bytes(trimmed(raw@))),
    {
        let text = trim_text(raw);
        let bytes = match hex_decode(text) {
            Ok(b) => b,
            Err(source) => {
                return Err(MasterKeyError::EnvNotHex { var: MASTER_KEY_ENV, source });
            },
        };
        if bytes.len() != KEY_LEN {
            return Err(MasterKeyError::WrongLength { var: MASTER_KEY_ENV, expected: KEY_LEN, actual: bytes.len() });
        }
        let mut key = [0u8; KEY_LEN];
        let mut i: usize = 0;
        while i < KEY_LEN
            invariant
                bytes@.len() == KEY_LEN,
                i <= KEY_LEN,
                forall|j: int| 0 <= j < i ==> key@[j] == bytes@[j],
            decreases KEY_LEN - i,
        {
            key[i] = bytes[i];
            i += 1;
        }
        assert(key@ =~= bytes@);
        Ok(MasterKey(key))
    }

    /// Encrypts `plaintext` under the given 12-byte nonce, giving `(nonce,
    /// ciphertext with tag)`: it succeeds exactly for a plaintext of at most
    /// 2^36 bytes, and decrypting that pair gives the plaintext back.
    pub fn seal_with_nonce(&self, nonce: Vec<u8>, plaintext: &[u8]) -> (r: Result<(Vec<u8>, Vec<u8>), MasterKeyError>)
        requires
            nonce@.len() == NONCE_LEN,
        ensures
            r is Ok <==> plaintext@.len() <= GCM_MAX_PLAINTEXT,
            r matches Ok((n, ct)) ==> {
                &&& n@ == nonce@
                &&& ct@ == gcm_seal(self@, nonce@, plaintext@)
                &&& decrypt_outcome(self@, nonce@, ct@) == Some(plaintext@)
            },
            r matches Err(e) ==> e is Crypto,
    {
        match aes_gcm_seal(&self.0, nonce.as_slice(), plaintext) {
            Some(ct) => Ok((nonce, ct)),
            None => Err(MasterKeyError::Crypto),
        }
    }

    /// Encrypts `plaintext` under a fresh random nonce, giving `(nonce,
    /// ciphertext with tag)`; decrypting that pair gives the plaintext back.
    /// Once a nonce was drawn, the result is [`MasterKey::seal_with_nonce`].
    pub fn encrypt(&self, plaintext: &[u8]) -> (r: Result<(Vec<u8>, Vec<u8>), MasterKeyError>)
        ensures
            r matches Ok((nonce, ct)) ==> {
                &&& nonce@.len() == NONCE_LEN
                &&& ct@ == gcm_seal(self@, nonce@, plaintext@)
                &&& decrypt_outcome(self@, nonce@, ct@) == Some(plaintext@)
            },
            r matches Err(e) ==> e is Crypto,
            plaintext@.len() > GCM_MAX_PLAINTEXT ==> r is Err,
    {
        let nonce = match os_random_bytes(NONCE_LEN) {
            Some(n) => n,
            None => {
                return Err(MasterKeyError::Crypto);
            },
        };
        self.seal_with_nonce(nonce, plaintext)
    }

    /// Decrypts `ciphertext` with `nonce`: a nonce of the wrong length is
    /// refused; a ciphertext, nonce or key that does not match fails the tag.
    pub fn decrypt(&self, nonce: &[u8], ciphertext: &[u8]) -> (r: Result<Vec<u8>, MasterKeyError>)
        ensures
            nonce@.len() != NONCE_LEN ==> (r matches Err(MasterKeyError::NonceLength { expected, actual })
                && expected == NONCE_LEN && actual == nonce@.len()),
            nonce@.len() == NONCE_LEN ==> match decrypt_outcome(self@, nonce@, ciphertext@) {
                Some(p) => r matches Ok(v) && v@ == p,
                None => r matches Err(e) && e is Crypto,
            },
    {
        if nonce.len() != NONCE_LEN {
            return Err(MasterKeyError::NonceLength { expected: NONCE_LEN, actual: nonce.len() });
        }
        match aes_gcm_open(&self.0, nonce, ciphertext) {
            Some(p) => Ok(p),
            None => Err(MasterKeyError::Crypto),
        }
    }

    /// The debug rendering of the key: its length, never its bytes.
    pub fn debug_repr(&self) -> (s: String)
        ensures
            s@ == "MasterKey { len: 32 }"@,
    {
        String::from_str("MasterKey { len: 32 }")
    }
}

} // verus!
