//! Instants and spans.
//!
//! An instant is a count of microseconds since the Unix epoch (UTC). Whole
//! seconds, minutes, hours, days and weeks of a span are truncated toward
//! zero, as `chrono::TimeDelta::num_*` does: seconds first, then the larger
//! units from the seconds (weeks from the days).
use vstd::prelude::*;

verus! {

/// Microseconds in a second.
pub const MICROS_PER_SECOND: i64 = 1_000_000;

/// Microseconds in a minute.
pub const MICROS_PER_MINUTE: i64 = 60_000_000;

/// The last representable instant: the end of year 262142.
pub const MAX_INSTANT: i64 = 8_210_266_876_799_999_999;

/// `span / unit`, truncated toward zero.
pub open spec fn whole_units(span: int, unit: int) -> int {
    if span >= 0 {
        span / unit
    } else {
        -((-span) / unit)
    }
}

/// Whole seconds of a span of microseconds.
pub open spec fn seconds_of(span: int) -> int {
    whole_units(span, 1_000_000)
}

/// Whole minutes of a span of microseconds.
pub open spec fn minutes_of(span: int) -> int {
    whole_units(seconds_of(span), 60)
}

/// Whole hours of a span of microseconds.
pub open spec fn hours_of(span: int) -> int {
    whole_units(seconds_of(span), 3600)
}

/// Whole days of a span of microseconds.
pub open spec fn days_of(span: int) -> int {
    whole_units(seconds_of(span), 86400)
}

/// Whole weeks of a span of microseconds.
pub open spec fn weeks_of(span: int) -> int {
    whole_units(days_of(span), 7)
}

/// Whole minutes from instant `a` to instant `b`.
pub open spec fn minutes_between(a: int, b: int) -> int {
    minutes_of(b - a)
}

/// `x / k` truncated toward zero.
pub fn trunc_div(x: i128, k: i128) -> (r: i128)
    requires
        k > 0,
        x > i128::MIN,
    ensures
        r == whole_units(x as int, k as int),
        -x <= r <= x || x <= r <= -x,
{
    if x >= 0 {
        let q = (x as u128) / (k as u128);
        assert(q <= x) by (nonlinear_arith)
            requires
                q == (x as u128) / (k as u128),
                k > 0,
                x >= 0,
        ;
        q as i128
    } else {
        let q = ((-x) as u128) / (k as u128);
        assert(q <= -x) by (nonlinear_arith)
            requires
                q == ((-x) as u128) / (k as u128),
                k > 0,
                x < 0,
        ;
        -(q as i128)
    }
}

/// The whole seconds, minutes, hours, days and weeks of the span from `a` to `b`.
pub struct SpanUnits {
    pub seconds: i64,
    pub minutes: i64,
    pub hours: i64,
    pub days: i64,
    pub weeks: i64,
}

/// Measures the span from `a` to `b` in whole units.
pub fn span_units(a: i64, b: i64) -> (u: SpanUnits)
    ensures
        u.seconds == seconds_of(b - a),
        u.minutes == minutes_of(b - a),
        u.hours == hours_of(b - a),
        u.days == days_of(b - a),
        u.weeks == weeks_of(b - a),
{
    let span: i128 = (b as i128) - (a as i128);
    let s = trunc_div(span, 1_000_000);
    assert(-20_000_000_000_000 <= s <= 20_000_000_000_000) by (nonlinear_arith)
        requires
            s == whole_units(span as int, 1_000_000),
            -0x1_0000_0000_0000_0000 <= span <= 0x1_0000_0000_0000_0000,
    ;
    let m = trunc_div(s, 60);
    let h = trunc_div(s, 3600);
    let d = trunc_div(s, 86400);
    let w = trunc_div(d, 7);
    SpanUnits { seconds: s as i64, minutes: m as i64, hours: h as i64, days: d as i64, weeks: w as i64 }
}

/// Whole minutes from `a` to `b`.
pub fn minutes_between_exec(a: i64, b: i64) -> (m: i64)
    ensures
        m == minutes_between(a as int, b as int),
{
    span_units(a, b).minutes
}

} // verus!
