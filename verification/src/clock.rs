//! The time, in nanoseconds since the epoch.

use vstd::prelude::*;

verus! {

/// Nanoseconds in a second.
pub const SECOND: i128 = 1_000_000_000;

/// The latest and the earliest time that `chrono` can hold.
pub const LAST_TIME: i128 = 8_210_266_876_799_999_999_999;

pub const FIRST_TIME: i128 = -8_334_601_228_800_000_000_000;

/// `chrono::Utc::now`, as whole seconds since the epoch and the nanoseconds on top
/// of them. Which time it is rests on the machine's clock; it panics where that is
/// set before the epoch, or past what `chrono` can hold.
#[verifier::external_body]
fn utc_now() -> (r: (i64, u32))
    ensures
        0 <= r.0 <= 8_210_266_876_799,
        r.1 < 1_000_000_000,
{
    let t = chrono::Utc::now();
    (t.timestamp(), t.timestamp_subsec_nanos())
}

/// The time now.
pub fn now() -> (r: i128)
    ensures
        0 <= r <= LAST_TIME,
{
    let (secs, nanos) = utc_now();
    since_epoch(secs, nanos)
}

/// Whole seconds since the epoch and the nanoseconds on top of them, as one time.
pub fn since_epoch(secs: i64, nanos: u32) -> (r: i128)
    ensures
        r == secs * SECOND + nanos,
{
    secs as i128 * SECOND + nanos as i128
}

} // verus!
