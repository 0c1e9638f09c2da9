//! Session cookies, session validity and the permission guard of handlers.
//!
//! A session is a random token kept in the `admin_session` cookie and stored
//! with its owner and expiry; a cache keeps `session:<token>` for the rest of
//! the session's life.
use vstd::prelude::*;
use crate::text::{to_chars, push_str, push_all, from_chars};
use crate::time::{seconds_of, span_units};
use crate::ids::{uuid_text, uuid_to_string, uuid_parsed, parse_uuid};

verus! {

broadcast use vstd::string::group_string_axioms;

/// Name of the session cookie.
pub const SESSION_COOKIE_NAME: &'static str = "admin_session";

/// A stored session, as far as validity is concerned.
#[derive(Clone, Copy)]
pub struct StoredSession {
    pub user_id: u128,
    /// When the session ends (microseconds since the epoch).
    pub expires_at: i64,
}

/// What a stored session is worth at a given instant.
#[derive(Clone, Copy, PartialEq, Eq, Structural)]
pub enum SessionValidity {
    /// Expired: to be removed from storage and cache.
    Expired,
    /// Valid; when the remaining whole seconds are positive, cache it for that long.
    Valid { cache_ttl_seconds: Option<u64> },
}

/// A session is expired once its expiry lies strictly in the past; while it
/// is valid, the cache keeps it for its remaining whole seconds.
pub open spec fn session_validity_of(expires_at: i64, now: i64) -> SessionValidity {
    if expires_at < now {
        SessionValidity::Expired
    } else {
        let ttl = seconds_of(expires_at - now);
        SessionValidity::Valid { cache_ttl_seconds: if ttl > 0 { Some(ttl as u64) } else { None } }
    }
}

/// Judges a stored session at `now`.
pub fn session_validity(expires_at: i64, now: i64) -> (v: SessionValidity)
    ensures
        v == session_validity_of(expires_at, now),
{
    if expires_at < now {
        SessionValidity::Expired
    } else {
        let ttl = span_units(now, expires_at).seconds;
        SessionValidity::Valid { cache_ttl_seconds: if ttl > 0 { Some(ttl as u64) } else { None } }
    }
}

/// A session whose expiry has passed is never accepted.
pub proof fn expired_sessions_rejected(expires_at: i64, now: i64)
    requires
        expires_at < now,
    ensures
        session_validity_of(expires_at, now) == SessionValidity::Expired,
{
}

/// An empty token is never looked up.
pub fn token_usable(token: &str) -> (ok: bool)
    ensures
        ok == (token@.len() > 0),
{
    !token.is_empty()
}

/// What the protected pages do with a request.
#[derive(Clone, Copy, PartialEq, Eq, Structural)]
pub enum AccessDecision {
    /// Let it through.
    Pass,
    /// Send the browser to the login page.
    RedirectToLogin,
    /// Clear the stale cookie, then send the browser to the login page.
    ClearCookieAndRedirect,
}

/// The access rule of the protected pages: no cookie or an empty token goes to the
/// login page; a token that does not validate also loses its cookie.
pub open spec fn access_decision_of(token: Option<Seq<char>>, valid: bool) -> AccessDecision {
    match token {
        None => AccessDecision::RedirectToLogin,
        Some(t) => if t.len() == 0 {
            AccessDecision::RedirectToLogin
        } else if valid {
            AccessDecision::Pass
        } else {
            AccessDecision::ClearCookieAndRedirect
        },
    }
}

/// Decides access, given the cookie's token and whether it validated.
pub fn access_decision(token: Option<&str>, valid: bool) -> (g: AccessDecision)
    ensures
        g == access_decision_of(
            match token {
                Some(t) => Some(t@),
                None => None,
            },
            valid,
        ),
{
    match token {
        None => AccessDecision::RedirectToLogin,
        Some(t) => if t.is_empty() {
            AccessDecision::RedirectToLogin
        } else if valid {
            AccessDecision::Pass
        } else {
            AccessDecision::ClearCookieAndRedirect
        },
    }
}

/// The access rule of the HTMX endpoints: any non-empty session cookie passes,
/// anything else gets a 401.
pub fn api_access(token: Option<&str>) -> (pass: bool)
    ensures
        pass == (match token {
            Some(t) => t@.len() > 0,
            None => false,
        }),
{
    match token {
        Some(t) => !t.is_empty(),
        None => false,
    }
}

/// Cache key of a session.
pub fn session_cache_key(token: &str) -> (k: String)
    ensures
        k@ == "session:"@ + token@,
{
    crate::text::concat2("session:", token)
}

/// Cache key of a user's sidebar data.
pub fn sidebar_cache_key(user_id: u128) -> (k: String)
    ensures
        k@ == "user:sidebar:"@ + uuid_text(user_id),
{
    let id = uuid_to_string(user_id);
    crate::text::concat2("user:sidebar:", id.as_str())
}

/// Cache key of a user's permissions.
pub fn permissions_cache_key(user_id: u128) -> (k: String)
    ensures
        k@ == "user:permissions:"@ + uuid_text(user_id),
{
    let id = uuid_to_string(user_id);
    crate::text::concat2("user:permissions:", id.as_str())
}

/// Reads the user id a session cache entry holds.
pub fn cached_user_id(entry: &str) -> (id: Option<u128>)
    ensures
        id == uuid_parsed(entry@),
{
    parse_uuid(entry)
}

/// Who is logged in, from the cached owner (if the cache answered with a
/// readable id) or else from the stored session, at `now`.
pub open spec fn current_user_of(
    cached: Option<u128>,
    stored: Option<StoredSession>,
    now: i64,
) -> Option<u128> {
    match cached {
        Some(id) => Some(id),
        None => match stored {
            Some(s) => if s.expires_at < now {
                None
            } else {
                Some(s.user_id)
            },
            None => None,
        },
    }
}

/// Decides who is logged in.
pub fn current_user(cached: Option<u128>, stored: Option<StoredSession>, now: i64) -> (u: Option<
    u128,
>)
    ensures
        u == current_user_of(cached, stored, now),
{
    match cached {
        Some(id) => Some(id),
        None => match stored {
            Some(s) => if s.expires_at < now {
                None
            } else {
                Some(s.user_id)
            },
            None => None,
        },
    }
}

/// What the permission guard of a handler decides.
#[derive(Clone, Copy, PartialEq, Eq, Structural, Debug)]
pub enum GuardOutcome {
    /// The user holds the permission; the handler goes on for this user.
    Allow(u128),
    /// No session: 401 with `session_expired_message`.
    Unauthorized,
    /// The user lacks the permission: 403 with `forbidden_message`, and the
    /// user gets a warning toast with `access_denied_toast`.
    Forbidden(u128),
}

/// The guard's rule: without a logged-in user the request is unauthorized;
/// a user without the permission is refused; any other goes on.
pub open spec fn guard_outcome_of(user: Option<u128>, allowed: bool) -> GuardOutcome {
    match user {
        None => GuardOutcome::Unauthorized,
        Some(id) => if allowed {
            GuardOutcome::Allow(id)
        } else {
            GuardOutcome::Forbidden(id)
        },
    }
}

/// Decides a guarded request, given the logged-in user (if any) and whether
/// that user holds the permission.
pub fn guard_outcome(user: Option<u128>, allowed: bool) -> (g: GuardOutcome)
    ensures
        g == guard_outcome_of(user, allowed),
{
    match user {
        None => GuardOutcome::Unauthorized,
        Some(id) => if allowed {
            GuardOutcome::Allow(id)
        } else {
            GuardOutcome::Forbidden(id)
        },
    }
}

/// The body of the guard's 401.
pub fn session_expired_message() -> (m: String)
    ensures
        m@ == "Sessão expirada. Por favor, faça login novamente."@,
{
    let v = to_chars("Sessão expirada. Por favor, faça login novamente.");
    from_chars(&v)
}

/// The body of the guard's 403.
pub fn forbidden_message(resource: &str, action: &str) -> (m: String)
    ensures
        m@ == "Você não tem permissão para "@ + action@ + " em "@ + resource@ + "."@,
{
    let mut v = to_chars("Você não tem permissão para ");
    push_str(&mut v, action);
    push_str(&mut v, " em ");
    push_str(&mut v, resource);
    push_str(&mut v, ".");
    from_chars(&v)
}

/// The warning toast sent to a user whom the guard refused.
pub fn access_denied_toast(resource: &str, action: &str) -> (m: String)
    ensures
        m@ == "Acesso negado: você não tem permissão para "@ + action@ + " em "@ + resource@,
{
    let mut v = to_chars("Acesso negado: você não tem permissão para ");
    push_str(&mut v, action);
    push_str(&mut v, " em ");
    push_str(&mut v, resource);
    from_chars(&v)
}

} // verus!
