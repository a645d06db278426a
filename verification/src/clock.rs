//! Wall-clock readings as epoch seconds / milliseconds.
use vstd::prelude::*;

verus! {

/// std's wall-clock instant type, carried opaquely.
#[verifier::external_type_specification]
#[verifier::external_body]
pub struct ExSystemTime(std::time::SystemTime);

/// std `SystemTime::now`: the machine's wall clock. Nothing is stated of
/// the reading.
#[verifier::external_body]
fn system_time_now() -> (r: std::time::SystemTime) {
    std::time::SystemTime::now()
}

/// std `SystemTime::duration_since(UNIX_EPOCH)`: the time elapsed since the
/// Unix epoch, `None` when the instant lies before it. Nothing is stated of
/// the duration: it depends on the clock's reading.
#[verifier::external_body]
fn duration_since_epoch(t: &std::time::SystemTime) -> (r: Option<core::time::Duration>) {
    t.duration_since(std::time::UNIX_EPOCH).ok()
}

/// std `Duration::as_secs`: the whole seconds of a duration.
#[verifier::external_body]
fn duration_as_secs(d: &core::time::Duration) -> (r: u64) {
    d.as_secs()
}

/// std `Duration::subsec_millis`: the fractional part of a duration in whole
/// milliseconds, always below 1000 (as std documents).
#[verifier::external_body]
fn duration_subsec_millis(d: &core::time::Duration) -> (r: u32)
    ensures
        r < 1000,
{
    d.subsec_millis()
}

/// The clock as whole seconds and sub-second milliseconds since the epoch;
/// `None` when it reads before the epoch.
fn since_unix_epoch() -> (r: Option<(u64, u32)>)
    ensures
        r matches Some((_, ms)) ==> ms < 1000,
{
    let now = system_time_now();
    match duration_since_epoch(&now) {
        Some(d) => Some((duration_as_secs(&d), duration_subsec_millis(&d))),
        None => None,
    }
}

/// A reading of the clock: whole seconds since the epoch and the
/// sub-second milliseconds (below 1000), or `None` before the epoch.
pub open spec fn is_clock_reading(reading: Option<(u64, u32)>) -> bool {
    reading matches Some((_, ms)) ==> ms < 1000
}

/// Epoch seconds of a clock reading (0 when the clock reads before the
/// epoch); seconds beyond the `i64` range wrap as an `as` cast does.
pub open spec fn epoch_secs_of(reading: Option<(u64, u32)>) -> i64 {
    match reading {
        Some((secs, _)) => secs as i64,
        None => 0,
    }
}

/// Epoch milliseconds of a clock reading (0 before the epoch), truncated to
/// 64 bits as an `as u64` cast does.
pub open spec fn epoch_millis_of(reading: Option<(u64, u32)>) -> u64 {
    match reading {
        Some((secs, ms)) => (secs * 1000 + ms) as u64,
        None => 0,
    }
}

/// Epoch seconds of a clock reading.
pub fn epoch_secs_from(reading: Option<(u64, u32)>) -> (r: i64)
    ensures
        r == epoch_secs_of(reading),
{
    match reading {
        Some((secs, _)) => secs as i64,
        None => 0,
    }
}

/// Epoch milliseconds of a clock reading.
pub fn epoch_millis_from(reading: Option<(u64, u32)>) -> (r: u64)
    ensures
        r == epoch_millis_of(reading),
{
    match reading {
        Some((secs, ms)) => {
            let total: u128 = secs as u128 * 1000 + ms as u128;
            total as u64
        },
        None => 0,
    }
}

/// Epoch seconds now (wall-clock); storage timestamps use epoch seconds.
pub fn now_epoch_secs() -> (r: i64)
    ensures
        exists|reading: Option<(u64, u32)>|
            is_clock_reading(reading) && r == epoch_secs_of(reading),
{
    let reading = since_unix_epoch();
    epoch_secs_from(reading)
}

/// Epoch milliseconds now (wall-clock).
pub fn now_epoch_millis() -> (r: u64)
    ensures
        exists|reading: Option<(u64, u32)>|
            is_clock_reading(reading) && r == epoch_millis_of(reading),
{
    let reading = since_unix_epoch();
    epoch_millis_from(reading)
}

} // verus!
