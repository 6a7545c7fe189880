//! Conversions from the integer timestamps that browsers store into one
//! canonical instant: whole seconds since 1970-01-01T00:00:00Z.
use vstd::prelude::*;

verus! {

/// An absolute instant, in whole seconds since the Unix epoch (UTC).
#[derive(Clone, Copy, Debug, PartialEq, Eq, Structural, PartialOrd, Ord, Hash)]
pub struct Timestamp {
    pub secs: i64,
}

/// Seconds between 1601-01-01T00:00:00Z (Chromium's epoch) and the Unix epoch.
pub const UNIX_EPOCH_OFFSET: i64 = 11644473600;

/// Microseconds in one second.
pub const MICROS_PER_SEC: i64 = 1000000;

/// Integer division rounding toward zero, as the machine divides.
pub open spec fn div_toward_zero(a: int, d: int) -> int {
    if a >= 0 {
        a / d
    } else {
        -((-a) / d)
    }
}

/// Unix seconds of a Chromium timestamp (microseconds since 1601-01-01),
/// the sub-second part dropped.
pub open spec fn chrome_unix_secs(raw: int) -> int {
    div_toward_zero(raw, MICROS_PER_SEC as int) - UNIX_EPOCH_OFFSET
}

/// Unix seconds of a timestamp counted in microseconds since the Unix epoch.
pub open spec fn micros_unix_secs(raw: int) -> int {
    div_toward_zero(raw, MICROS_PER_SEC as int)
}

/// Converts a Chromium timestamp (microseconds since 1601-01-01); `0` means unset.
pub fn from_epoch(ts: i64) -> (r: Option<Timestamp>)
    ensures
        ts == 0 ==> r is None,
        ts != 0 ==> (r matches Some(t) && t.secs == chrome_unix_secs(ts as int)),
{
    if ts == 0 {
        return None;
    }
    Some(Timestamp { secs: ts / MICROS_PER_SEC - UNIX_EPOCH_OFFSET })
}

/// Converts a Firefox expiry (seconds since the Unix epoch); `0` means unset.
pub fn from_epoch_seconds(ts: i64) -> (r: Option<Timestamp>)
    ensures
        ts == 0 ==> r is None,
        ts != 0 ==> r == Some((Timestamp { secs: ts })),
{
    if ts == 0 {
        return None;
    }
    Some(Timestamp { secs: ts })
}

/// Converts a Firefox access or creation time (microseconds since the Unix
/// epoch); `0` means unset.
pub fn from_epoch_microseconds(ts: i64) -> (r: Option<Timestamp>)
    ensures
        ts == 0 ==> r is None,
        ts != 0 ==> (r matches Some(t) && t.secs == micros_unix_secs(ts as int)),
{
    if ts == 0 {
        return None;
    }
    Some(Timestamp { secs: ts / MICROS_PER_SEC })
}

} // verus!
