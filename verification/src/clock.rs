//! Wall-clock timestamps. The library records them as plain numbers and
//! compares them; it reads the clock through `chrono`.
use vstd::prelude::*;

verus! {

/// A point in time, in UTC: whole seconds since the Unix epoch and the
/// nanoseconds past that second.
#[derive(Debug, Clone, Copy, PartialEq, Eq, Structural)]
pub struct Timestamp {
    /// Seconds since 1970-01-01T00:00:00Z.
    pub secs: i64,
    /// Nanoseconds past `secs`.
    pub nanos: u32,
}

/// Calls `chrono::Utc::now` and reads its seconds and nanoseconds since the
/// epoch. Nothing is claimed of the time it returns.
#[verifier::external_body]
pub fn now() -> Timestamp {
    let t = chrono::Utc::now();
    Timestamp { secs: t.timestamp(), nanos: t.timestamp_subsec_nanos() }
}


/// Whether `a` is strictly earlier than `b`.
pub open spec fn earlier(a: Timestamp, b: Timestamp) -> bool {
    a.secs < b.secs || (a.secs == b.secs && a.nanos < b.nanos)
}

/// Whether `a` is strictly earlier than `b`.
pub fn is_earlier(a: Timestamp, b: Timestamp) -> (r: bool)
    ensures
        r == earlier(a, b),
{
    a.secs < b.secs || (a.secs == b.secs && a.nanos < b.nanos)
}

/// Nanoseconds since the epoch at `t`.
pub open spec fn instant(t: Timestamp) -> int {
    t.secs * 1_000_000_000 + t.nanos
}

/// `t` moved by `delta` nanoseconds, written as whole seconds and the
/// nanoseconds past them, when the seconds fit an `i64`.
pub open spec fn shifted(t: Timestamp, delta: int) -> Option<Timestamp> {
    let total = instant(t) + delta;
    let s = total / 1_000_000_000;
    if i64::MIN <= s <= i64::MAX {
        Some(Timestamp { secs: s as i64, nanos: (total % 1_000_000_000) as u32 })
    } else {
        None
    }
}

fn from_total_nanos(total: i128) -> (r: Option<Timestamp>)
    requires
        -100_000_000_000_000_000_000_000_000_000i128 <= total <= 100_000_000_000_000_000_000_000_000_000i128,
    ensures
        r == (if i64::MIN <= total / 1_000_000_000 <= i64::MAX {
            Some(Timestamp { secs: (total / 1_000_000_000) as i64, nanos: (total % 1_000_000_000) as u32 })
        } else {
            None
        }),
{
    let n: i128 = 1_000_000_000;
    let mut q: i128 = 0;
    let mut rem: i128 = 0;
    if total >= 0 {
        q = total / n;
        rem = total % n;
        assert(total == q * 1_000_000_000 + rem && 0 <= rem < 1_000_000_000) by (nonlinear_arith)
            requires
                n == 1_000_000_000,
                total >= 0,
                q == total / n,
                rem == total % n,
        ;
    } else {
        let m: i128 = -total;
        let q0: i128 = m / n;
        let r0: i128 = m % n;
        assert(m == q0 * 1_000_000_000 + r0 && 0 <= r0 < 1_000_000_000) by (nonlinear_arith)
            requires
                n == 1_000_000_000,
                m > 0,
                q0 == m / n,
                r0 == m % n,
        ;
        if r0 == 0 {
            q = -q0;
            rem = 0;
        } else {
            q = -q0 - 1;
            rem = n - r0;
        }
    }
    assert(q == total / 1_000_000_000 && rem == total % 1_000_000_000) by (nonlinear_arith)
        requires
            total == q * 1_000_000_000 + rem,
            0 <= rem < 1_000_000_000,
    ;
    if q < i64::MIN as i128 || q > i64::MAX as i128 {
        None
    } else {
        Some(Timestamp { secs: q as i64, nanos: rem as u32 })
    }
}

/// `t` moved later by `secs` seconds and `nanos` nanoseconds.
pub fn shift_later(t: Timestamp, secs: u64, nanos: u32) -> (r: Option<Timestamp>)
    ensures
        r == shifted(t, secs * 1_000_000_000 + nanos),
{
    let total: i128 = t.secs as i128 * 1_000_000_000 + t.nanos as i128 + secs as i128 * 1_000_000_000 + nanos as i128;
    from_total_nanos(total)
}

/// `t` moved earlier by `secs` seconds and `nanos` nanoseconds.
pub fn shift_earlier(t: Timestamp, secs: u64, nanos: u32) -> (r: Option<Timestamp>)
    ensures
        r == shifted(t, -(secs * 1_000_000_000 + nanos)),
{
    let total: i128 = t.secs as i128 * 1_000_000_000 + t.nanos as i128 - (secs as i128 * 1_000_000_000 + nanos as i128);
    from_total_nanos(total)
}

/// Names what `Duration::as_secs` returns: the whole seconds of a duration.
pub uninterp spec fn whole_secs(d: std::time::Duration) -> u64;

/// Names what `Duration::subsec_nanos` returns: the nanoseconds past the
/// whole seconds.
pub uninterp spec fn subsec_nanos_of(d: std::time::Duration) -> u32;

/// Calls `std::time::Duration::as_secs`.
#[verifier::external_body]
pub fn duration_secs(d: &std::time::Duration) -> (r: u64)
    ensures
        r == whole_secs(*d),
{
    d.as_secs()
}

/// Calls `std::time::Duration::subsec_nanos`, which its documentation says
/// is always less than one billion.
#[verifier::external_body]
pub fn duration_subsec_nanos(d: &std::time::Duration) -> (r: u32)
    ensures
        r == subsec_nanos_of(*d),
        r < 1_000_000_000,
{
    d.subsec_nanos()
}

/// The length of a duration in nanoseconds.
pub open spec fn duration_nanos(d: std::time::Duration) -> int {
    whole_secs(d) * 1_000_000_000 + subsec_nanos_of(d)
}

/// `t` moved later by `d`.
pub open spec fn moved_later(t: Timestamp, d: std::time::Duration) -> Option<Timestamp> {
    shifted(t, duration_nanos(d))
}

/// `t` moved earlier by `d`.
pub open spec fn moved_earlier(t: Timestamp, d: std::time::Duration) -> Option<Timestamp> {
    shifted(t, -duration_nanos(d))
}

/// The current time moved later by `d`; `None` when the seconds leave the
/// range of an `i64`.
pub fn now_plus(d: &std::time::Duration) -> (r: Option<Timestamp>)
    ensures
        exists|t: Timestamp| r == #[trigger] moved_later(t, *d),
{
    let t = now();
    let r = shift_later(t, duration_secs(d), duration_subsec_nanos(d));
    assert(r == moved_later(t, *d));
    r
}

/// The current time moved earlier by `d`; `None` when the seconds leave the
/// range of an `i64`.
pub fn now_minus(d: &std::time::Duration) -> (r: Option<Timestamp>)
    ensures
        exists|t: Timestamp| r == #[trigger] moved_earlier(t, *d),
{
    let t = now();
    let r = shift_earlier(t, duration_secs(d), duration_subsec_nanos(d));
    assert(r == moved_earlier(t, *d));
    r
}

} // verus!
