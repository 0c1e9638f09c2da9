//! Login throttling and the login decision.
//!
//! Failed attempts are counted per (username, IP address). When the count
//! reaches the configured maximum the pair is locked for a number of minutes.
//!
//! Instants are microseconds since the Unix epoch (UTC).
use vstd::prelude::*;
use crate::text::{i64_digits, push_all, push_str, from_chars, signed_decimal};
use crate::time::{minutes_between, minutes_of, minutes_between_exec, MAX_INSTANT, MICROS_PER_MINUTE};

verus! {

broadcast use vstd::string::group_string_axioms;

/// The stored throttling state of one (username, IP address) pair.
#[derive(Clone, Copy)]
pub struct LoginAttemptRecord {
    pub attempts: i32,
    pub locked_until: Option<i64>,
}

/// Whether a login may be attempted.
#[derive(Clone, Copy, PartialEq, Eq, Structural)]
pub enum LoginAttemptResult {
    /// The attempt may proceed.
    Allowed,
    /// Locked, with the minutes left (at least one).
    Blocked { minutes_remaining: i64 },
}

/// The decision for an attempt at `now`: blocked while the lock is in the
/// future, with the whole minutes left (but at least one).
pub open spec fn attempt_decision(record: Option<LoginAttemptRecord>, now: i64) -> LoginAttemptResult {
    match record {
        Some(r) => match r.locked_until {
            Some(lu) => if lu > now {
                let m = minutes_between(now as int, lu as int);
                LoginAttemptResult::Blocked { minutes_remaining: if m < 1 { 1 } else { m as i64 } }
            } else {
                LoginAttemptResult::Allowed
            },
            None => LoginAttemptResult::Allowed,
        },
        None => LoginAttemptResult::Allowed,
    }
}

/// Decides whether the pair may attempt a login at `now`.
pub fn can_attempt_login(record: Option<LoginAttemptRecord>, now: i64) -> (r: LoginAttemptResult)
    ensures
        r == attempt_decision(record, now),
{
    match record {
        Some(rec) => match rec.locked_until {
            Some(lu) => if lu > now {
                let m = minutes_between_exec(now, lu);
                LoginAttemptResult::Blocked { minutes_remaining: if m < 1 { 1 } else { m } }
            } else {
                LoginAttemptResult::Allowed
            },
            None => LoginAttemptResult::Allowed,
        },
        None => LoginAttemptResult::Allowed,
    }
}

/// `max_attempts as i32`: the limit as the stored counter compares it.
pub open spec fn attempt_limit(max_attempts: u32) -> int {
    if max_attempts <= i32::MAX {
        max_attempts as int
    } else {
        max_attempts - 0x1_0000_0000
    }
}

/// The record after one more failed attempt at `now`.
pub open spec fn after_failure(
    record: Option<LoginAttemptRecord>,
    now: i64,
    max_attempts: u32,
    lockout_minutes: u32,
) -> LoginAttemptRecord {
    let attempts = match record {
        Some(r) => r.attempts + 1,
        None => 1,
    };
    LoginAttemptRecord {
        attempts: attempts as i32,
        locked_until: if attempts >= attempt_limit(max_attempts) {
            Some((now + lockout_minutes * MICROS_PER_MINUTE) as i64)
        } else {
            None
        },
    }
}

/// Whether one more failure can be recorded at `now`: the counter does not
/// overflow and the end of the lock stays within the representable dates.
pub open spec fn failure_recordable(
    record: Option<LoginAttemptRecord>,
    now: i64,
    lockout_minutes: u32,
) -> bool {
    &&& match record {
        Some(r) => r.attempts < i32::MAX,
        None => true,
    }
    &&& now + lockout_minutes * MICROS_PER_MINUTE <= MAX_INSTANT
}

/// Records a failed attempt at `now`: the counter grows by one and, when it
/// reaches `max_attempts`, the pair is locked for `lockout_minutes`. Returns
/// the new record and, when locked, the minutes of the lock.
pub fn record_failed_attempt(
    record: Option<LoginAttemptRecord>,
    now: i64,
    max_attempts: u32,
    lockout_minutes: u32,
) -> (r: (LoginAttemptRecord, Option<i64>))
    requires
        failure_recordable(record, now, lockout_minutes),
    ensures
        r.0 == after_failure(record, now, max_attempts, lockout_minutes),
        r.1 == (match r.0.locked_until {
            Some(_) => Some(lockout_minutes as i64),
            None => None,
        }),
{
    let attempts: i32 = match record {
        Some(rec) => rec.attempts + 1,
        None => 1,
    };
    let limit: i32 = max_attempts as i32;
    proof {
        assert(limit == attempt_limit(max_attempts)) by (bit_vector)
            requires
                limit == max_attempts as i32,
        ;
    }
    if attempts >= limit {
        let until: i64 = now + (lockout_minutes as i64) * 60_000_000;
        proof {
            lemma_lock_span(lockout_minutes);
        }
        (LoginAttemptRecord { attempts, locked_until: Some(until) }, Some(lockout_minutes as i64))
    } else {
        (LoginAttemptRecord { attempts, locked_until: None }, None)
    }
}

/// A lock just recorded is in force at the same instant: right after a
/// failure that locks the pair, an attempt is refused for the whole lockout.
pub proof fn lockout_blocks_next_attempt(
    record: Option<LoginAttemptRecord>,
    now: i64,
    max_attempts: u32,
    lockout_minutes: u32,
)
    requires
        failure_recordable(record, now, lockout_minutes),
        lockout_minutes >= 1,
        after_failure(record, now, max_attempts, lockout_minutes).locked_until is Some,
    ensures
        attempt_decision(Some(after_failure(record, now, max_attempts, lockout_minutes)), now)
            == (LoginAttemptResult::Blocked { minutes_remaining: lockout_minutes as i64 }),
{
    lemma_lock_span(lockout_minutes);
}

/// A lock of `m` minutes spans exactly `m` whole minutes.
proof fn lemma_lock_span(m: u32)
    ensures
        minutes_of(m * MICROS_PER_MINUTE) == m,
{
    assert(m * MICROS_PER_MINUTE == (m * 60) * 1_000_000);
    vstd::arithmetic::div_mod::lemma_div_multiples_vanish((m * 60) as int, 1_000_000);
    vstd::arithmetic::div_mod::lemma_div_multiples_vanish(m as int, 60);
}

/// The pair is locked exactly when the failures reach the limit.
pub proof fn lock_iff_limit_reached(
    record: Option<LoginAttemptRecord>,
    now: i64,
    max_attempts: u32,
    lockout_minutes: u32,
)
    requires
        failure_recordable(record, now, lockout_minutes),
    ensures
        (after_failure(record, now, max_attempts, lockout_minutes).locked_until is Some) <==> (
        after_failure(record, now, max_attempts, lockout_minutes).attempts >= attempt_limit(
            max_attempts,
        )),
        after_failure(record, now, max_attempts, lockout_minutes).attempts == (match record {
            Some(r) => r.attempts + 1,
            None => 1,
        }),
{
}

/// A refusal always announces at least one minute.
pub proof fn blocked_minutes_positive(record: Option<LoginAttemptRecord>, now: i64)
    ensures
        attempt_decision(record, now) matches LoginAttemptResult::Blocked { minutes_remaining } ==> minutes_remaining >= 1,
{
}

/// Without a record (never failed, or cleared after a success) the attempt is allowed.
pub proof fn cleared_pair_is_allowed(now: i64)
    ensures
        attempt_decision(None, now) == LoginAttemptResult::Allowed,
{
}

// ---------------------------------------------------------------------------
// The login decision
// ---------------------------------------------------------------------------

/// What the account lookup found.
#[derive(Clone, Copy, PartialEq, Eq, Structural)]
pub enum AccountLookup {
    /// An account matched the username or email.
    Found { password_ok: bool, active: bool },
    /// No account matched.
    NotFound,
    /// The lookup failed.
    Failed,
}

/// What the login form gets back.
#[derive(Clone, Copy, PartialEq, Eq, Structural)]
pub enum LoginOutcome {
    /// Too many failures: refused without looking at the password.
    Blocked { minutes_remaining: i64 },
    /// Right password, but the account is not active.
    Inactive,
    /// Credentials accepted: open a session.
    Success,
    /// Wrong password or unknown user: record a failure.
    InvalidCredentials,
    /// The lookup failed.
    InternalError,
}

/// The login decision. A failure to read the throttling state lets the
/// attempt through.
pub open spec fn login_decision(throttle: Option<LoginAttemptResult>, lookup: AccountLookup) -> LoginOutcome {
    match throttle {
        Some(LoginAttemptResult::Blocked { minutes_remaining }) => LoginOutcome::Blocked {
            minutes_remaining,
        },
        _ => match lookup {
            AccountLookup::Found { password_ok, active } => if !password_ok {
                LoginOutcome::InvalidCredentials
            } else if !active {
                LoginOutcome::Inactive
            } else {
                LoginOutcome::Success
            },
            AccountLookup::NotFound => LoginOutcome::InvalidCredentials,
            AccountLookup::Failed => LoginOutcome::InternalError,
        },
    }
}

/// Decides the answer to a login form. `throttle` is `None` when the
/// throttling state could not be read.
pub fn login_outcome(throttle: Option<LoginAttemptResult>, lookup: AccountLookup) -> (o: LoginOutcome)
    ensures
        o == login_decision(throttle, lookup),
{
    match throttle {
        Some(LoginAttemptResult::Blocked { minutes_remaining }) => LoginOutcome::Blocked {
            minutes_remaining,
        },
        _ => match lookup {
            AccountLookup::Found { password_ok, active } => if !password_ok {
                LoginOutcome::InvalidCredentials
            } else if !active {
                LoginOutcome::Inactive
            } else {
                LoginOutcome::Success
            },
            AccountLookup::NotFound => LoginOutcome::InvalidCredentials,
            AccountLookup::Failed => LoginOutcome::InternalError,
        },
    }
}

/// A throttling state that could not be read counts as an allowed attempt:
/// for every account lookup the two give the same answer.
pub proof fn unread_throttle_acts_as_allowed(lookup: AccountLookup)
    ensures
        login_decision(None, lookup) == login_decision(Some(LoginAttemptResult::Allowed), lookup),
{
}

/// A session is opened only for an account found with the right password
/// and active, and only when the attempt is not blocked.
pub proof fn success_needs_an_active_account(throttle: Option<LoginAttemptResult>, lookup: AccountLookup)
    ensures
        login_decision(throttle, lookup) == LoginOutcome::Success ==> lookup == (AccountLookup::Found {
            password_ok: true,
            active: true,
        }) && !(throttle matches Some(LoginAttemptResult::Blocked { .. })),
{
}

/// When the attempt is not blocked, each kind of account lookup gets its
/// answer: an inactive account with the right password is refused as
/// inactive, a wrong password or an unknown user as invalid credentials, a
/// failed lookup as an internal error, and only the remaining case succeeds.
pub proof fn unblocked_attempt_answers(throttle: Option<LoginAttemptResult>, lookup: AccountLookup)
    requires
        !(throttle matches Some(LoginAttemptResult::Blocked { .. })),
    ensures
        lookup == (AccountLookup::Found { password_ok: true, active: false })
            ==> login_decision(throttle, lookup) == LoginOutcome::Inactive,
        lookup == (AccountLookup::Found { password_ok: true, active: true })
            ==> login_decision(throttle, lookup) == LoginOutcome::Success,
        (lookup matches AccountLookup::Found { password_ok: false, .. }) || lookup
            == AccountLookup::NotFound ==> login_decision(throttle, lookup)
            == LoginOutcome::InvalidCredentials,
        lookup == AccountLookup::Failed ==> login_decision(throttle, lookup)
            == LoginOutcome::InternalError,
{
}

/// A blocked attempt is refused with its minutes, whatever the account.
pub proof fn blocked_attempt_refused(minutes_remaining: i64, lookup: AccountLookup)
    ensures
        login_decision(Some(LoginAttemptResult::Blocked { minutes_remaining }), lookup)
            == (LoginOutcome::Blocked { minutes_remaining }),
{
}

/// Only accounts whose status is `Active` may log in.
pub fn is_active_status(status: &str) -> (active: bool)
    ensures
        active == (status@ == "Active"@),
{
    crate::text::str_eq(status, "Active")
}

/// The message shown to a blocked user.
pub open spec fn blocked_message(minutes: i64) -> Seq<char> {
    "Muitas tentativas. Tente novamente em "@ + signed_decimal(minutes as int) + " minutos."@
}

/// Renders the message shown to a blocked user.
pub fn blocked_login_message(minutes: i64) -> (s: String)
    ensures
        s@ == blocked_message(minutes),
{
    let mut v: Vec<char> = Vec::new();
    push_str(&mut v, "Muitas tentativas. Tente novamente em ");
    let d = i64_digits(minutes);
    push_all(&mut v, &d);
    push_str(&mut v, " minutos.");
    from_chars(&v)
}

/// The login form.
pub struct LoginParams {
    /// Username or email.
    pub username: String,
    pub password: String,
}

/// The query string of the login page.
pub struct LoginQueryParams {
    pub reset_success: Option<bool>,
    pub error: Option<String>,
}

impl LoginQueryParams {
    /// The banner of the login page after a successful password reset.
    pub fn success_message(&self) -> (m: Option<String>)
        ensures
            m is Some == (self.reset_success == Some(true)),
            m is Some ==> m->0@ == "Senha alterada com sucesso! Faça login com sua nova senha."@,
    {
        match self.reset_success {
            Some(true) => Some(
                "Senha alterada com sucesso! Faça login com sua nova senha.".to_owned(),
            ),
            _ => None,
        }
    }
}

} // verus!
