//! Points in time as seconds and nanoseconds since the Unix epoch, RFC 3339
//! timestamps, and whole seconds and days between two instants.
use vstd::prelude::*;

verus! {

/// An instant: whole seconds since 1970-01-01T00:00:00Z and the nanoseconds
/// past that second.
#[derive(Debug, Clone, Copy, PartialEq, Eq)]
pub struct Instant {
    pub secs: i64,
    pub nanos: u32,
}

/// What `chrono::DateTime::parse_from_rfc3339` reads from a text, as
/// `(timestamp, timestamp_subsec_nanos)`; `None` when it refuses the text.
pub uninterp spec fn rfc3339_instant(text: Seq<char>) -> Option<(i64, u32)>;

/// Parses an RFC 3339 timestamp with `chrono::DateTime::parse_from_rfc3339`
/// and reads its instant with `timestamp` and `timestamp_subsec_nanos`. The
/// result is named, not described: it is `rfc3339_instant` of the text.
#[verifier::external_body]
fn rfc3339_parts(text: &str) -> (r: Option<(i64, u32)>)
    ensures
        r == rfc3339_instant(text@),
{
    match chrono::DateTime::parse_from_rfc3339(text) {
        Ok(dt) => Some((dt.timestamp(), dt.timestamp_subsec_nanos())),
        Err(_) => None,
    }
}

/// The instant an RFC 3339 timestamp denotes.
pub fn parse_rfc3339(text: &str) -> (r: Option<Instant>)
    ensures
        r is Some == rfc3339_instant(text@) is Some,
        r matches Some(i) ==> (i.secs, i.nanos) == rfc3339_instant(text@)->0,
{
    match rfc3339_parts(text) {
        Some((secs, nanos)) => Some(Instant { secs, nanos }),
        None => None,
    }
}

/// The current time from `chrono::Utc::now`, read with `timestamp` and
/// `timestamp_subsec_nanos`. It depends on the clock, so nothing is stated of it.
#[verifier::external_body]
pub(crate) fn utc_now() -> (r: Instant) {
    let now = chrono::Utc::now();
    Instant { secs: now.timestamp(), nanos: now.timestamp_subsec_nanos() }
}

/// Nanoseconds from `then` to `now` (negative when `now` is earlier). A
/// leap second's nanosecond count past one second counts as written.
pub open spec fn elapsed_nanos(now: Instant, then: Instant) -> int {
    (now.secs - then.secs) * 1_000_000_000 + (now.nanos - then.nanos)
}

/// `a / b` rounded toward zero, for `b > 0` (Rust's integer division).
pub open spec fn trunc_div(a: int, b: int) -> int {
    if a >= 0 {
        a / b
    } else {
        -((-a) / b)
    }
}

/// Whole seconds from `then` to `now`, rounded toward zero (`TimeDelta::num_seconds`).
pub open spec fn whole_seconds(now: Instant, then: Instant) -> int {
    trunc_div(elapsed_nanos(now, then), 1_000_000_000)
}

/// Whole days from `then` to `now`, rounded toward zero (`TimeDelta::num_days`).
pub open spec fn whole_days(now: Instant, then: Instant) -> int {
    trunc_div(whole_seconds(now, then), 86400)
}

/// `a / b` rounded toward zero.
fn trunc_div_exec(a: i128, b: i128) -> (r: i128)
    requires
        b > 0,
        a > i128::MIN,
    ensures
        r == trunc_div(a as int, b as int),
{
    if a >= 0 {
        a / b
    } else {
        let m = (-a) as u128 / (b as u128);
        assert(m <= (-a) as u128) by (nonlinear_arith)
            requires
                b >= 1,
                m == (-a) as u128 / (b as u128),
        ;
        -(m as i128)
    }
}

/// Whole seconds from `then` to `now`.
pub fn seconds_between(now: Instant, then: Instant) -> (r: i128)
    ensures
        r == whole_seconds(now, then),
        -0x2_0000_0000_0000_0000 <= r <= 0x2_0000_0000_0000_0000,
{
    let d = (now.secs as i128 - then.secs as i128) * 1_000_000_000 + (now.nanos as i128
        - then.nanos as i128);
    let r = trunc_div_exec(d, 1_000_000_000);
    assert(-0x2_0000_0000_0000_0000 <= r <= 0x2_0000_0000_0000_0000) by (nonlinear_arith)
        requires
            r == trunc_div(d as int, 1_000_000_000),
            -0x2_0000_0000_0000_0000 * 1_000_000_000 <= d <= 0x2_0000_0000_0000_0000 * 1_000_000_000,
    ;
    r
}

/// Whole days from `then` to `now`.
pub fn days_between(now: Instant, then: Instant) -> (r: i64)
    ensures
        r == whole_days(now, then),
{
    let s = seconds_between(now, then);
    let d = trunc_div_exec(s, 86400);
    assert(-0x4_0000_0000_0000 <= d <= 0x4_0000_0000_0000) by (nonlinear_arith)
        requires
            d == trunc_div(s as int, 86400),
            -0x2_0000_0000_0000_0000 <= s <= 0x2_0000_0000_0000_0000,
    ;
    d as i64
}

} // verus!
