//! Authentication decisions: the per-request user, local login, the session
//! cookie's attributes, and the checks of the OIDC callback.
//!
//! The HTTP layer looks rows up, verifies passwords and talks to the
//! identity provider; what it does with each answer is decided here.

use vstd::prelude::*;

use crate::session::SessionConfig;

verus! {

/// Lifetime of the session cookie in seconds (30 days), the same as the
/// session's own sliding lifetime.
pub const SESSION_COOKIE_MAX_AGE_SECONDS: i64 = 30 * 86_400;

/// Seconds an in-flight OIDC handshake stays usable (10 minutes).
pub const HANDSHAKE_TTL_SECONDS: i64 = 600;

/// The user id resolved from a valid session cookie.
#[derive(Debug, Clone, PartialEq, Eq)]
pub struct UserId(pub String);

/// The user of a request that carried a valid session.
#[derive(Debug, Clone, PartialEq, Eq)]
pub struct AuthenticatedUser(pub UserId);

/// A refused authentication, answered as `{"error": slug}` with status 401.
#[derive(Debug, Clone, Copy, PartialEq, Eq)]
pub enum AuthError {
    /// No valid session, or its user is gone.
    Unauthorized,
    /// Unknown email or wrong password; which one is never told.
    InvalidCredentials,
}

impl AuthError {
    /// Stable slug of the refusal.
    pub fn slug(&self) -> (s: &'static str)
        ensures
            s@ == (match self {
                AuthError::Unauthorized => "unauthorized"@,
                AuthError::InvalidCredentials => "invalid_credentials"@,
            }),
    {
        match self {
            AuthError::Unauthorized => "unauthorized",
            AuthError::InvalidCredentials => "invalid_credentials",
        }
    }

    /// HTTP status of the refusal.
    pub fn status_code(&self) -> (c: u16)
        ensures
            c == 401,
    {
        401
    }
}

/// The user of a request from the id the session layer attached to it:
/// no id means no valid session.
pub fn authenticate(session_user: Option<UserId>) -> (r: Result<AuthenticatedUser, AuthError>)
    ensures
        match session_user {
            Some(id) => r == Ok::<AuthenticatedUser, AuthError>(AuthenticatedUser(id)),
            None => r == Err::<AuthenticatedUser, AuthError>(AuthError::Unauthorized),
        },
{
    match session_user {
        Some(id) => Ok(AuthenticatedUser(id)),
        None => Err(AuthError::Unauthorized),
    }
}

/// Body of `POST /api/v1/auth/login`.
#[derive(Debug, Clone, PartialEq, Eq)]
pub struct LoginRequest {
    pub email: String,
    pub password: String,
}

/// A user as answered by login and `GET /me`.
#[derive(Debug, Clone, PartialEq, Eq)]
pub struct UserResponse {
    pub user_id: String,
    pub email: String,
    pub display_name: Option<String>,
}

/// The outcome of a local login: the user found by email, if any, and
/// whether the password matched its stored hash (read only when a user was
/// found). A missing user and a wrong password are refused alike.
pub fn login_outcome(user: Option<UserResponse>, password_matches: bool) -> (r: Result<UserResponse, AuthError>)
    ensures
        match user {
            Some(u) => if password_matches {
                r == Ok::<UserResponse, AuthError>(u)
            } else {
                r == Err::<UserResponse, AuthError>(AuthError::InvalidCredentials)
            },
            None => r == Err::<UserResponse, AuthError>(AuthError::InvalidCredentials),
        },
{
    match user {
        Some(u) => if password_matches {
            Ok(u)
        } else {
            Err(AuthError::InvalidCredentials)
        },
        None => Err(AuthError::InvalidCredentials),
    }
}

/// The answer of `GET /me`: a session whose user has been deleted counts as
/// logged out.
pub fn me_outcome(user: Option<UserResponse>) -> (r: Result<UserResponse, AuthError>)
    ensures
        match user {
            Some(u) => r == Ok::<UserResponse, AuthError>(u),
            None => r == Err::<UserResponse, AuthError>(AuthError::Unauthorized),
        },
{
    match user {
        Some(u) => Ok(u),
        None => Err(AuthError::Unauthorized),
    }
}

// ---------------------------------------------------------------------------
// The session cookie.
// ---------------------------------------------------------------------------

/// The attributes of a `Set-Cookie` for the session. `SameSite` is always
/// `Lax`: the OIDC callback is a cross-site top-level navigation, which
/// `Strict` would strip the cookie from.
#[derive(Debug, Clone, PartialEq, Eq)]
pub struct SessionCookie {
    pub name: String,
    pub value: String,
    pub path: &'static str,
    pub http_only: bool,
    pub same_site_lax: bool,
    pub max_age_seconds: i64,
    pub secure: bool,
}

/// The cookie that carries the session id `value`.
pub open spec fn session_cookie_of(cfg: SessionConfig, value: String) -> SessionCookie {
    SessionCookie {
        name: cfg.cookie_name,
        value,
        path: "/",
        http_only: true,
        same_site_lax: true,
        max_age_seconds: SESSION_COOKIE_MAX_AGE_SECONDS,
        secure: cfg.cookie_secure,
    }
}

/// The cookie that logs out: empty, expiring at once.
pub open spec fn cleared_cookie_of(cfg: SessionConfig, empty: String) -> SessionCookie {
    SessionCookie {
        name: cfg.cookie_name,
        value: empty,
        path: "/",
        http_only: true,
        same_site_lax: true,
        max_age_seconds: 0,
        secure: cfg.cookie_secure,
    }
}

/// The cookie that carries the session id `value`: `Path=/`, `HttpOnly`,
/// `SameSite=Lax`, 30 days, and `Secure` as configured.
pub fn session_cookie(cfg: &SessionConfig, value: String) -> (c: SessionCookie)
    ensures
        c == session_cookie_of(*cfg, value),
{
    SessionCookie {
        name: cfg.cookie_name.clone(),
        value,
        path: "/",
        http_only: true,
        same_site_lax: true,
        max_age_seconds: SESSION_COOKIE_MAX_AGE_SECONDS,
        secure: cfg.cookie_secure,
    }
}

/// The cookie that logs out: an empty value that expires at once.
pub fn cleared_session_cookie(cfg: &SessionConfig) -> (c: SessionCookie)
    ensures
        c == cleared_cookie_of(*cfg, c.value),
        c.value@ == Seq::<char>::empty(),
{
    SessionCookie {
        name: cfg.cookie_name.clone(),
        value: String::new(),
        path: "/",
        http_only: true,
        same_site_lax: true,
        max_age_seconds: 0,
        secure: cfg.cookie_secure,
    }
}

/// The logout cookie overwrites the login cookie: it is the login cookie of
/// the same settings with the value emptied and a zero lifetime, so it
/// carries the same name, path and flags and the browser replaces the
/// session cookie with it.
pub proof fn lemma_logout_cookie_overwrites(cfg: SessionConfig, value: String, empty: String)
    ensures
        cleared_cookie_of(cfg, empty) == (SessionCookie {
            value: empty,
            max_age_seconds: 0,
            ..session_cookie_of(cfg, value)
        }),
{
}

// ---------------------------------------------------------------------------
// The OIDC callback.
// ---------------------------------------------------------------------------

/// Query of the OIDC callback.
#[derive(Debug, Clone, PartialEq, Eq)]
pub struct CallbackQuery {
    pub code: Option<String>,
    pub state: Option<String>,
    pub error: Option<String>,
}

/// A refused OIDC step, answered as `{"error": slug}`.
#[derive(Debug, Clone, PartialEq, Eq)]
pub enum OidcRejection {
    /// OIDC is not configured.
    Disabled,
    /// The provider redirected back with an error.
    ProviderError { detail: String },
    MissingCode,
    MissingState,
    /// No handshake was started with this state, or it was used already.
    UnknownState,
    ExpiredState,
    InvalidCodeExchange,
    TokenExchangeFailed,
    MissingIdToken,
    InvalidIdToken,
    MissingEmailClaim,
}

impl OidcRejection {
    /// Stable slug of the refusal.
    pub fn slug(&self) -> (s: &'static str)
        ensures
            s@ == (match self {
                OidcRejection::Disabled => "oidc_disabled"@,
                OidcRejection::ProviderError { .. } => "oidc_provider_error"@,
                OidcRejection::MissingCode => "missing_code"@,
                OidcRejection::MissingState => "missing_state"@,
                OidcRejection::UnknownState => "unknown_state"@,
                OidcRejection::ExpiredState => "expired_state"@,
                OidcRejection::InvalidCodeExchange => "invalid_code_exchange"@,
                OidcRejection::TokenExchangeFailed => "token_exchange_failed"@,
                OidcRejection::MissingIdToken => "missing_id_token"@,
                OidcRejection::InvalidIdToken => "invalid_id_token"@,
                OidcRejection::MissingEmailClaim => "missing_email_claim"@,
            }),
    {
        match self {
            OidcRejection::Disabled => "oidc_disabled",
            OidcRejection::ProviderError { .. } => "oidc_provider_error",
            OidcRejection::MissingCode => "missing_code",
            OidcRejection::MissingState => "missing_state",
            OidcRejection::UnknownState => "unknown_state",
            OidcRejection::ExpiredState => "expired_state",
            OidcRejection::InvalidCodeExchange => "invalid_code_exchange",
            OidcRejection::TokenExchangeFailed => "token_exchange_failed",
            OidcRejection::MissingIdToken => "missing_id_token",
            OidcRejection::InvalidIdToken => "invalid_id_token",
            OidcRejection::MissingEmailClaim => "missing_email_claim",
        }
    }

    /// HTTP status: 404 while OIDC is off, 400 for every other refusal.
    pub fn status_code(&self) -> (c: u16)
        ensures
            c == (if *self is Disabled {
                404u16
            } else {
                400u16
            }),
    {
        match self {
            OidcRejection::Disabled => 404,
            _ => 400,
        }
    }
}

/// The code and state of a callback: a provider error comes first, then a
/// missing code, then a missing state.
pub fn check_callback_query(q: CallbackQuery) -> (r: Result<(String, String), OidcRejection>)
    ensures
        match q.error {
            Some(detail) => r == Err::<(String, String), OidcRejection>(OidcRejection::ProviderError { detail }),
            None => match (q.code, q.state) {
                (None, _) => r == Err::<(String, String), OidcRejection>(OidcRejection::MissingCode),
                (Some(_), None) => r == Err::<(String, String), OidcRejection>(OidcRejection::MissingState),
                (Some(code), Some(state)) => r == Ok::<(String, String), OidcRejection>((code, state)),
            },
        },
{
    if let Some(detail) = q.error {
        return Err(OidcRejection::ProviderError { detail });
    }
    let code = match q.code {
        Some(c) => c,
        None => {
            return Err(OidcRejection::MissingCode);
        },
    };
    match q.state {
        Some(state) => Ok((code, state)),
        None => Err(OidcRejection::MissingState),
    }
}

/// When a handshake started at `now` stops being usable.
pub fn handshake_expires_at(now: i64) -> (e: i64)
    requires
        now <= i64::MAX - HANDSHAKE_TTL_SECONDS,
    ensures
        e == now + HANDSHAKE_TTL_SECONDS,
{
    now + HANDSHAKE_TTL_SECONDS
}

/// Checks the stored handshake of a callback at `now`: none stored (or
/// already consumed) is an unknown state; one whose expiry is not after
/// `now` has expired.
pub fn check_handshake(expires_at: Option<i64>, now: i64) -> (r: Result<(), OidcRejection>)
    ensures
        match expires_at {
            None => r == Err::<(), OidcRejection>(OidcRejection::UnknownState),
            Some(e) => if e <= now {
                r == Err::<(), OidcRejection>(OidcRejection::ExpiredState)
            } else {
                r == Ok::<(), OidcRejection>(())
            },
        },
{
    match expires_at {
        None => Err(OidcRejection::UnknownState),
        Some(e) => if e <= now {
            Err(OidcRejection::ExpiredState)
        } else {
            Ok(())
        },
    }
}

/// The email and display name taken from verified ID-token claims: the
/// email is required; the display name is the `name` claim, or else the
/// preferred username.
pub fn oidc_identity(email: Option<String>, name: Option<String>, preferred_username: Option<String>) -> (r: Result<(String, Option<String>), OidcRejection>)
    ensures
        match email {
            None => r == Err::<(String, Option<String>), OidcRejection>(OidcRejection::MissingEmailClaim),
            Some(e) => r == Ok::<(String, Option<String>), OidcRejection>(
                (e, if name is Some { name } else { preferred_username }),
            ),
        },
{
    let e = match email {
        Some(e) => e,
        None => {
            return Err(OidcRejection::MissingEmailClaim);
        },
    };
    let display = match name {
        Some(n) => Some(n),
        None => preferred_username,
    };
    Ok((e, display))
}

} // verus!
