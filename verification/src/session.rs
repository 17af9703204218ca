//! Login sessions: random ids, the sliding 30-day lifetime, and the cookie
//! settings read from the environment.
//!
//! A session id is 32 random bytes in lowercase hex (64 characters); the
//! cookie carries only the id. Every authenticated request slides the
//! expiry forward; an expired session is deleted when it is next read.

use vstd::prelude::*;

use crate::crypto::{hex_encode, lower_hex, lower_hex_digit, os_random_bytes};

verus! {

/// Session lifetime in seconds (30 days), renewed on every use.
pub const SESSION_TTL_SECONDS: i64 = 30 * 86_400;

/// Name of the session cookie unless configured: the `__Host-` prefix makes
/// the browser insist on `Secure`, `Path=/` and no domain.
pub const DEFAULT_SESSION_COOKIE_NAME: &'static str = "__Host-iext_session";

/// A session id: lowercase hex text of 32 random bytes.
#[derive(Debug, Clone, PartialEq, Eq)]
pub struct SessionId(pub String);

/// `c` is a lowercase hex digit.
pub open spec fn is_lower_hex_char(c: char) -> bool {
    ('0' <= c && c <= '9') || ('a' <= c && c <= 'f')
}

/// Lowercase hex text is made of lowercase hex digits, two per byte.
pub proof fn lemma_lower_hex_shape(bytes: Seq<u8>)
    ensures
        lower_hex(bytes).len() == bytes.len() * 2,
        forall|i: int| 0 <= i < lower_hex(bytes).len() ==> #[trigger] is_lower_hex_char(lower_hex(bytes)[i]),
{
    assert forall|i: int| 0 <= i < lower_hex(bytes).len() implies #[trigger] is_lower_hex_char(lower_hex(bytes)[i]) by {
        let b = bytes[i / 2] as int;
        assert(0 <= b / 16 < 16 && 0 <= b % 16 < 16) by (nonlinear_arith)
            requires
                0 <= b < 256,
        ;
        assert(i / 2 < bytes.len()) by (nonlinear_arith)
            requires
                0 <= i < bytes.len() * 2,
        ;
    }
}

impl SessionId {
    /// The id written by 32 bytes: their lowercase hex text.
    pub fn from_bytes(bytes: &[u8]) -> (id: SessionId)
        requires
            bytes@.len() == 32,
        ensures
            id.0@ == lower_hex(bytes@),
            id.0@.len() == 64,
            forall|i: int| 0 <= i < 64 ==> #[trigger] is_lower_hex_char(id.0@[i]),
    {
        proof {
            lemma_lower_hex_shape(bytes@);
        }
        SessionId(hex_encode(bytes))
    }

    /// A fresh id from 32 bytes of the operating system's random source,
    /// or none when that source fails; once the bytes were drawn, the id is
    /// [`SessionId::from_bytes`] of them.
    pub fn random() -> (r: Option<SessionId>)
        ensures
            r matches Some(id) ==> id.0@.len() == 64 && forall|i: int|
                0 <= i < 64 ==> #[trigger] is_lower_hex_char(id.0@[i]),
    {
        match os_random_bytes(32) {
            Some(bytes) => Some(SessionId::from_bytes(bytes.as_slice())),
            None => None,
        }
    }
}

/// The expiry of a session created or renewed at `now`.
pub fn session_expiry(now: i64) -> (e: i64)
    requires
        now <= i64::MAX - SESSION_TTL_SECONDS,
    ensures
        e == now + SESSION_TTL_SECONDS,
{
    now + SESSION_TTL_SECONDS
}

/// What reading a session at `now` does.
#[derive(Debug, Clone, Copy, PartialEq, Eq)]
pub enum SessionTouch {
    /// It has expired: delete it and treat the request as anonymous.
    Expired,
    /// It is live: record the visit and slide the expiry to `expires_at`.
    Renew { expires_at: i64 },
}

/// Decides the fate of a session expiring at `expires_at`, read at `now`:
/// expired when `expires_at <= now`, otherwise renewed for another lifetime.
pub fn touch_outcome(expires_at: i64, now: i64) -> (t: SessionTouch)
    requires
        now <= i64::MAX - SESSION_TTL_SECONDS,
    ensures
        expires_at <= now ==> t == SessionTouch::Expired,
        expires_at > now ==> t == (SessionTouch::Renew { expires_at: (now + SESSION_TTL_SECONDS) as i64 }),
{
    if expires_at <= now {
        SessionTouch::Expired
    } else {
        SessionTouch::Renew { expires_at: session_expiry(now) }
    }
}

// ---------------------------------------------------------------------------
// Cookie settings.
// ---------------------------------------------------------------------------

/// Cookie knobs: the cookie's name and whether it is marked `Secure`.
#[derive(Debug, Clone, PartialEq, Eq)]
pub struct SessionConfig {
    pub cookie_name: String,
    pub cookie_secure: bool,
}

/// `c` lowercased (ASCII only) is `l`.
pub open spec fn lowers_to(c: char, l: char) -> bool {
    if 'A' <= c && c <= 'Z' {
        l as u32 == c as u32 + 32
    } else {
        l == c
    }
}

/// `s` lowercased (ASCII only) is `t`.
pub open spec fn lowercases_to(s: Seq<char>, t: Seq<char>) -> bool {
    s.len() == t.len() && forall|i: int| 0 <= i < s.len() ==> #[trigger] lowers_to(s[i], t[i])
}

/// Whether `s` lowercased (ASCII only) is `t`.
pub fn lowercases_to_text(s: &str, t: &str) -> (r: bool)
    ensures
        r == lowercases_to(s@, t@),
{
    let a = crate::text::chars_of(s);
    let b = crate::text::chars_of(t);
    if a.len() != b.len() {
        return false;
    }
    let mut i: usize = 0;
    while i < a.len()
        invariant
            a@ == s@,
            b@ == t@,
            a.len() == b.len(),
            i <= a.len(),
            forall|j: int| 0 <= j < i ==> #[trigger] lowers_to(s@[j], t@[j]),
        decreases a.len() - i,
    {
        let c = a[i];
        let l = b[i];
        let ok = if 'A' <= c && c <= 'Z' {
            (l as u32) == (c as u32) + 32
        } else {
            l == c
        };
        if !ok {
            assert(!lowers_to(s@[i as int], t@[i as int]));
            return false;
        }
        i += 1;
    }
    true
}

/// The `Secure` flag from its raw setting: on unless the setting is
/// `false`, `0` or `no` in any ASCII case.
pub open spec fn secure_setting(raw: Option<Seq<char>>) -> bool {
    match raw {
        None => true,
        Some(s) => !(lowercases_to(s, "false"@) || lowercases_to(s, "0"@) || lowercases_to(s, "no"@)),
    }
}

/// Reads the `Secure` flag: on unless set to `false`, `0` or `no` (any
/// ASCII case).
pub fn cookie_secure_from(raw: Option<&str>) -> (r: bool)
    ensures
        r == secure_setting(match raw {
            Some(s) => Some(s@),
            None => None,
        }),
{
    match raw {
        None => true,
        Some(s) => !(lowercases_to_text(s, "false") || lowercases_to_text(s, "0") || lowercases_to_text(s, "no")),
    }
}

impl SessionConfig {
    /// The cookie settings from the raw `SESSION_COOKIE_NAME` and
    /// `SESSION_COOKIE_SECURE` values: the default name when none is set,
    /// and `Secure` unless switched off.
    pub fn from_values(cookie_name: Option<String>, cookie_secure: Option<&str>) -> (c: SessionConfig)
        ensures
            c.cookie_name@ == (match cookie_name {
                Some(n) => n@,
                None => DEFAULT_SESSION_COOKIE_NAME@,
            }),
            c.cookie_secure == secure_setting(match cookie_secure {
                Some(s) => Some(s@),
                None => None,
            }),
    {
        let name = match cookie_name {
            Some(n) => n,
            None => DEFAULT_SESSION_COOKIE_NAME.to_owned(),
        };
        SessionConfig { cookie_name: name, cookie_secure: cookie_secure_from(cookie_secure) }
    }
}

} // verus!
