//! Window resolution: turning a sync request plus the last-known ingestion
//! cursor into a concrete `[start, end]` time range in milliseconds.

use vstd::prelude::*;

verus! {

/// Milliseconds in one hour.
pub const MS_PER_HOUR: u64 = 3_600_000;

/// Smallest millisecond timestamp that still denotes a representable instant.
pub const TS_MIN_MS: i64 = -8_334_601_315_200_000;

/// Largest millisecond timestamp that still denotes a representable instant.
pub const TS_MAX_MS: i64 = 8_210_266_876_799_999;

/// A window policy for one funding-rate sync run.
#[derive(Clone, Debug, PartialEq, Eq, Structural)]
pub enum TimeSpec {
    /// Use exactly `[start_ms, end_ms]`.
    Between { start_ms: u64, end_ms: u64 },
    /// Use `[now - h hours, now]`.
    LookbackHours(u64),
    /// Use `[last + 1, now]` when a last persisted timestamp exists,
    /// otherwise fall back to `LookbackHours`.
    SinceLastOrLookbackHours(u64),
}

/// The value of an `i64` read as an unsigned 64-bit word (two's complement).
pub open spec fn wrap_to_u64(v: i64) -> int {
    if v >= 0 {
        v as int
    } else {
        v + 0x1_0000_0000_0000_0000
    }
}

/// `a + b` capped at `u64::MAX`.
pub open spec fn sat_add_u64(a: int, b: int) -> int {
    if a + b <= u64::MAX {
        a + b
    } else {
        u64::MAX as int
    }
}

/// `a - b` floored at zero.
pub open spec fn sat_sub_u64(a: int, b: int) -> int {
    if a - b >= 0 {
        a - b
    } else {
        0
    }
}

/// Milliseconds covered by a lookback of `h` hours, capped at `u64::MAX`.
pub open spec fn lookback_ms(h: u64) -> int {
    if h * MS_PER_HOUR <= u64::MAX {
        h * MS_PER_HOUR
    } else {
        u64::MAX as int
    }
}

/// The window a policy resolves to, given the last persisted timestamp for
/// the target market and the current time. Resolution is deterministic in
/// those two inputs.
pub open spec fn resolved_window(ts: TimeSpec, last_ts_ms: Option<i64>, now_ms: u64) -> (int, int) {
    match ts {
        TimeSpec::Between { start_ms, end_ms } => (start_ms as int, end_ms as int),
        TimeSpec::LookbackHours(h) => (sat_sub_u64(now_ms as int, lookback_ms(h)), now_ms as int),
        TimeSpec::SinceLastOrLookbackHours(h) => match last_ts_ms {
            Some(last) => (sat_add_u64(wrap_to_u64(last), 1), now_ms as int),
            None => (sat_sub_u64(now_ms as int, lookback_ms(h)), now_ms as int),
        },
    }
}

/// Milliseconds covered by a lookback of `h` hours, capped at `u64::MAX`.
pub fn lookback_span(h: u64) -> (r: u64)
    ensures
        r == lookback_ms(h),
{
    match h.checked_mul(MS_PER_HOUR) {
        Some(v) => v,
        None => u64::MAX,
    }
}

impl TimeSpec {
    /// Resolve this policy into a concrete `[start, end]` window.
    ///
    /// The wall-clock "now" is supplied by the caller so that resolution is a
    /// deterministic function of its arguments. A result with start > end is
    /// a legitimate output meaning "nothing to do", not an error.
    pub fn resolve(&self, last_ts_ms: Option<i64>, now_ms: u64) -> (r: (u64, u64))
        ensures
            (r.0 as int, r.1 as int) == resolved_window(*self, last_ts_ms, now_ms),
    {
        match *self {
            TimeSpec::Between { start_ms, end_ms } => (start_ms, end_ms),
            TimeSpec::LookbackHours(h) => {
                (now_ms.saturating_sub(lookback_span(h)), now_ms)
            },
            TimeSpec::SinceLastOrLookbackHours(h) => {
                match last_ts_ms {
                    Some(last) => {
                        let wrapped: u64 = if last >= 0 {
                            last as u64
                        } else {
                            ((last as i128) + 0x1_0000_0000_0000_0000i128) as u64
                        };
                        (wrapped.saturating_add(1), now_ms)
                    },
                    None => (now_ms.saturating_sub(lookback_span(h)), now_ms),
                }
            },
        }
    }
}

/// A row timestamp normalized: an out-of-range millisecond value is
/// replaced by the current time.
pub open spec fn spec_ts_utc(ms: int, now_ms: int) -> int {
    if TS_MIN_MS <= ms <= TS_MAX_MS {
        ms
    } else {
        now_ms
    }
}

/// Normalize a row timestamp: an out-of-range millisecond value is replaced
/// by the supplied current time, as when a decoded instant cannot be
/// represented.
pub fn ts_utc(ms: i64, now_ms: i64) -> (r: i64)
    ensures
        r == spec_ts_utc(ms as int, now_ms as int),
{
    if TS_MIN_MS <= ms && ms <= TS_MAX_MS {
        ms
    } else {
        now_ms
    }
}

/// Relies on `chrono::Utc::now`: the current wall-clock time in
/// milliseconds since the Unix epoch. Nothing is promised of the value:
/// every function that depends on the current time takes it as an
/// argument, so resolution stays deterministic and testable.
#[verifier::external_body]
pub fn now_millis() -> i64 {
    chrono::Utc::now().timestamp_millis()
}

/// With a last persisted timestamp `last` and current time `now`, the
/// steady-state policy resolves to exactly `[last + 1, now]`: no already
/// ingested instant is fetched again, and no instant up to `now` is missed.
pub proof fn lemma_since_last_window(h: u64, last: i64, now_ms: u64)
    requires
        0 <= last,
        last + 1 <= now_ms,
    ensures
        resolved_window(TimeSpec::SinceLastOrLookbackHours(h), Some(last), now_ms)
            == (last + 1, now_ms as int),
{
}

/// A pure lookback policy resolves to exactly `[now - h hours, now]`,
/// whatever the last persisted timestamp was.
pub proof fn lemma_lookback_window(h: u64, last_ts_ms: Option<i64>, now_ms: u64)
    requires
        h * MS_PER_HOUR <= now_ms,
    ensures
        resolved_window(TimeSpec::LookbackHours(h), last_ts_ms, now_ms)
            == (now_ms - h * MS_PER_HOUR, now_ms as int),
{
}

} // verus!
