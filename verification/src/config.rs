//! Application settings from the environment, and rate limits.
use vstd::prelude::*;
use crate::text::{to_chars, push_str, from_chars, str_eq, opt_view, parse_u32, parse_u64, parsed_u32, parsed_u64};
use crate::services::{to_lowercase, lowercased};

verus! {

broadcast use vstd::string::group_string_axioms;

/// The application settings.
pub struct AppConfig {
    pub db_url: String,
    pub server_url: String,
    pub redis_url: String,
    /// Whether cookies require HTTPS.
    pub cookie_secure: bool,
    pub max_login_attempts: u32,
    pub login_lockout_minutes: u32,
}

/// The values of the environment the settings come from.
pub struct EnvValues {
    pub database_url: String,
    pub host: String,
    pub port: String,
    pub redis_url: Option<String>,
    pub redis_host: Option<String>,
    pub redis_port: Option<String>,
    pub cookie_secure: Option<String>,
    pub max_login_attempts: Option<String>,
    pub login_lockout_minutes: Option<String>,
}

/// A flag set to `true` in any letter case.
pub open spec fn flag_on(v: Option<Seq<char>>) -> bool {
    match v {
        Some(s) => lowercased(s) == "true"@,
        None => false,
    }
}

/// A number setting: its value when it parses, else the default.
pub open spec fn u32_setting(v: Option<Seq<char>>, default: u32) -> u32 {
    match v {
        Some(s) => match parsed_u32(s) {
            Some(n) => n,
            None => default,
        },
        None => default,
    }
}

/// Reads a flag.
pub fn read_flag(v: Option<String>) -> (on: bool)
    ensures
        on == flag_on(opt_view(v)),
{
    match v {
        Some(s) => {
            let l = to_lowercase(s.as_str());
            str_eq(l.as_str(), "true")
        },
        None => false,
    }
}

fn u32_or(v: Option<String>, default: u32) -> (n: u32)
    ensures
        n == u32_setting(opt_view(v), default),
{
    match v {
        Some(s) => match parse_u32(s.as_str()) {
            Some(n) => n,
            None => default,
        },
        None => default,
    }
}

fn joined3(a: &str, b: &str, c: &str) -> (s: String)
    ensures
        s@ == a@ + b@ + c@,
{
    let mut v = to_chars(a);
    push_str(&mut v, b);
    push_str(&mut v, c);
    from_chars(&v)
}

impl AppConfig {
    /// The settings from the environment: the server listens on
    /// `HOST:PORT`; the cache is `REDIS_URL`, or built from `REDIS_HOST`
    /// (default `localhost`) and `REDIS_PORT` (default `6379`); secure cookies
    /// when `COOKIE_SECURE` is `true` in any case; 5 login attempts and 15
    /// minutes of lockout unless configured.
    pub fn from_env(env: EnvValues) -> (c: AppConfig)
        ensures
            c.db_url == env.database_url,
            c.server_url@ == env.host@ + ":"@ + env.port@,
            c.redis_url@ == (match opt_view(env.redis_url) {
                Some(u) => u,
                None => "redis://"@ + (match opt_view(env.redis_host) {
                    Some(h) => h,
                    None => "localhost"@,
                }) + ":"@ + (match opt_view(env.redis_port) {
                    Some(p) => p,
                    None => "6379"@,
                }),
            }),
            c.cookie_secure == flag_on(opt_view(env.cookie_secure)),
            c.max_login_attempts == u32_setting(opt_view(env.max_login_attempts), 5),
            c.login_lockout_minutes == u32_setting(opt_view(env.login_lockout_minutes), 15),
    {
        let server_url = joined3(env.host.as_str(), ":", env.port.as_str());
        let redis_url = match env.redis_url {
            Some(u) => u,
            None => {
                let h = match env.redis_host {
                    Some(h) => h,
                    None => "localhost".to_owned(),
                };
                let p = match env.redis_port {
                    Some(p) => p,
                    None => "6379".to_owned(),
                };
                let hp = joined3(h.as_str(), ":", p.as_str());
                crate::text::concat2("redis://", hp.as_str())
            },
        };
        AppConfig {
            db_url: env.database_url,
            server_url,
            redis_url,
            cookie_secure: read_flag(env.cookie_secure),
            max_login_attempts: u32_or(env.max_login_attempts, 5),
            login_lockout_minutes: u32_or(env.login_lockout_minutes, 15),
        }
    }
}

/// A rate limit: one request replenished every `period_ms`, up to `burst_size` at once.
pub struct RateLimitSettings {
    pub period_ms: u64,
    pub burst_size: u32,
}

impl RateLimitSettings {
    /// Whether the limiter can be built from these settings (both non-zero).
    pub fn is_usable(&self) -> (ok: bool)
        ensures
            ok == (self.period_ms != 0 && self.burst_size != 0),
    {
        self.period_ms != 0 && self.burst_size != 0
    }
}

/// A number of requests: its value when it parses, else the default.
pub open spec fn limit_setting(v: Option<Seq<char>>, default: u64) -> u64 {
    match v {
        Some(s) => match parsed_u64(s) {
            Some(n) => n,
            None => default,
        },
        None => default,
    }
}

fn u64_or(v: Option<String>, default: u64) -> (n: u64)
    ensures
        n == limit_setting(opt_view(v), default),
{
    match v {
        Some(s) => match parse_u64(s.as_str()) {
            Some(n) => n,
            None => default,
        },
        None => default,
    }
}

/// The login limit (strict): `LOGIN_RATE_LIMIT` requests (default 5) in a
/// burst, one more every minute.
pub fn login_rate_limit(configured: Option<String>) -> (s: RateLimitSettings)
    ensures
        s.period_ms == 60_000,
        s.burst_size == limit_setting(opt_view(configured), 5) as u32,
{
    let limit = u64_or(configured, 5);
    RateLimitSettings { period_ms: 60_000, burst_size: limit as u32 }
}

/// The general limit (relaxed): `API_RATE_LIMIT` requests per minute
/// (default 120), as a burst of that size replenished evenly over the minute.
pub fn api_rate_limit(configured: Option<String>) -> (s: RateLimitSettings)
    ensures
        s.period_ms == 60_000u64 / (if limit_setting(opt_view(configured), 120) < 1 {
            1u64
        } else {
            limit_setting(opt_view(configured), 120)
        }),
        s.burst_size == limit_setting(opt_view(configured), 120) as u32,
{
    let limit = u64_or(configured, 120);
    let divisor = if limit < 1 { 1 } else { limit };
    RateLimitSettings { period_ms: 60_000 / divisor, burst_size: limit as u32 }
}

} // verus!
