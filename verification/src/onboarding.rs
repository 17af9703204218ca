//! First-run setup and Immich key checks: which fields a setup request is
//! missing, and how a failed Immich call is answered.

use vstd::prelude::*;

use crate::immich::ValidationError;

verus! {

/// What a setup request says about the optional Immich connection.
#[derive(Debug, Clone, PartialEq, Eq)]
pub enum ImmichFields {
    /// Neither the base URL nor the API key.
    Neither,
    /// Both, non-empty.
    Both { base_url: String, api_key: String },
    /// Only one of them; `missing` names the other field.
    Partial { missing: &'static str },
}

/// An absent value, or an empty one.
pub open spec fn blank(v: Option<&str>) -> bool {
    match v {
        Some(s) => s@.len() == 0,
        None => true,
    }
}

/// Classifies the Immich fields of a setup request; an empty string counts
/// as absent.
pub fn classify_immich_fields(base_url: Option<&str>, api_key: Option<&str>) -> (f: ImmichFields)
    ensures
        blank(base_url) && blank(api_key) ==> f == ImmichFields::Neither,
        !blank(base_url) && !blank(api_key) ==> (f matches ImmichFields::Both { base_url: b, api_key: k }
            && b@ == base_url->0@ && k@ == api_key->0@),
        !blank(base_url) && blank(api_key) ==> (f matches ImmichFields::Partial { missing } && missing@
            == "immich_api_key"@),
        blank(base_url) && !blank(api_key) ==> (f matches ImmichFields::Partial { missing } && missing@
            == "immich_base_url"@),
{
    let bu = match base_url {
        Some(s) => if s.is_empty() {
            None
        } else {
            Some(s)
        },
        None => None,
    };
    let ak = match api_key {
        Some(s) => if s.is_empty() {
            None
        } else {
            Some(s)
        },
        None => None,
    };
    match (bu, ak) {
        (Some(b), Some(k)) => ImmichFields::Both { base_url: b.to_owned(), api_key: k.to_owned() },
        (None, None) => ImmichFields::Neither,
        (Some(_), None) => ImmichFields::Partial { missing: "immich_api_key" },
        (None, Some(_)) => ImmichFields::Partial { missing: "immich_base_url" },
    }
}

/// Checks a setup request before anything is written: the email, then the
/// password, must be non-empty, and the Immich fields come both or not at
/// all. A refusal names the offending field; an accepted request gives the
/// Immich connection it carries, if any.
pub fn check_setup_request(email: &str, password: &str, base_url: Option<&str>, api_key: Option<&str>) -> (r: Result<ImmichFields, &'static str>)
    ensures
        email@.len() == 0 ==> (r matches Err(field) && field@ == "email"@),
        email@.len() > 0 && password@.len() == 0 ==> (r matches Err(field) && field@ == "password"@),
        email@.len() > 0 && password@.len() > 0 ==> match classify_immich_fields_spec(base_url, api_key) {
            Some(missing) => r matches Err(field) && field@ == missing,
            None => r is Ok,
        },
        email@.len() > 0 && password@.len() > 0 && blank(base_url) && blank(api_key) ==> r == Ok::<
            ImmichFields,
            &'static str,
        >(ImmichFields::Neither),
        email@.len() > 0 && password@.len() > 0 && !blank(base_url) && !blank(api_key) ==> (r matches Ok(
            ImmichFields::Both { base_url: b, api_key: k },
        ) && b@ == base_url->0@ && k@ == api_key->0@),
        r matches Ok(f) ==> !(f is Partial),
{
    if email.is_empty() {
        return Err("email");
    }
    if password.is_empty() {
        return Err("password");
    }
    let fields = classify_immich_fields(base_url, api_key);
    if let ImmichFields::Partial { missing } = fields {
        return Err(missing);
    }
    Ok(fields)
}

/// The field a setup request lacks for a complete Immich connection, if it
/// gave only one of the two.
pub open spec fn classify_immich_fields_spec(base_url: Option<&str>, api_key: Option<&str>) -> Option<Seq<char>> {
    if !blank(base_url) && blank(api_key) {
        Some("immich_api_key"@)
    } else if blank(base_url) && !blank(api_key) {
        Some("immich_base_url"@)
    } else {
        None
    }
}

/// How a failed check of a freshly pasted key is answered: `(status,
/// slug)`. A rejected key is the user's fault (400); an unreachable or
/// misbehaving Immich is a bad gateway (502).
pub fn pasted_key_failure(err: &ValidationError) -> (r: (u16, &'static str))
    ensures
        match err {
            ValidationError::Unauthorized(_) => r.0 == 400 && r.1@ == "invalid_immich_key"@,
            ValidationError::InvalidBaseUrl(_) => r.0 == 400 && r.1@ == "invalid_base_url"@,
            _ => r.0 == 502 && r.1@ == "upstream_unreachable"@,
        },
{
    match err {
        ValidationError::Unauthorized(_) => (400, "invalid_immich_key"),
        ValidationError::InvalidBaseUrl(_) => (400, "invalid_base_url"),
        ValidationError::Upstream { .. } => (502, "upstream_unreachable"),
        ValidationError::Transport(_) => (502, "upstream_unreachable"),
        ValidationError::BadResponse(_) => (502, "upstream_unreachable"),
    }
}

/// How a failed Immich call made with the stored key is answered: `(status,
/// slug)`. Every upstream failure, a rejected key included, is a bad gateway
/// (502); a stored base URL that no longer parses is an internal error (500).
pub fn stored_key_failure(err: &ValidationError) -> (r: (u16, &'static str))
    ensures
        match err {
            ValidationError::InvalidBaseUrl(_) => r.0 == 500 && r.1@ == "invalid_base_url"@,
            _ => r.0 == 502 && r.1@ == "upstream_unreachable"@,
        },
{
    match err {
        ValidationError::InvalidBaseUrl(_) => (500, "invalid_base_url"),
        _ => (502, "upstream_unreachable"),
    }
}

/// Body of `GET /api/v1/setup/state`.
#[derive(Debug, Clone, Copy, PartialEq, Eq)]
pub struct SetupStateResponse {
    /// No account exists yet: the first-run form must be shown.
    pub needs_setup: bool,
    pub oidc_enabled: bool,
}

/// The setup state for `user_count` existing accounts.
pub fn setup_state(user_count: i64, oidc_enabled: bool) -> (r: SetupStateResponse)
    ensures
        r.needs_setup == (user_count == 0),
        r.oidc_enabled == oidc_enabled,
{
    SetupStateResponse { needs_setup: user_count == 0, oidc_enabled }
}

/// Refuses the first-run setup once any account exists (409
/// `already_initialized`); checked again inside the transaction that
/// creates the admin, so two racing setups cannot both succeed.
pub fn may_initialize(user_count: i64) -> (r: bool)
    ensures
        r == (user_count <= 0),
{
    user_count <= 0
}

} // verus!
