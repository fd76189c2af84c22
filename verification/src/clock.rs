//! The time that a check takes.

use std::time::SystemTime;
use vstd::prelude::*;

verus! {

/// `std::time::SystemTime`: a time of the system's clock. Nothing is known
/// of a value of this type.
#[verifier::external_type_specification]
#[verifier::external_body]
pub struct ExSystemTime(SystemTime);

/// `SystemTime::now`: the time of the system's clock. Nothing is known of
/// it.
#[verifier::external_body]
fn clock_now() -> (r: SystemTime) {
    SystemTime::now()
}

/// `SystemTime::elapsed` and `Duration::as_millis`: the milliseconds since
/// `start` by the system's clock, or `None` where the clock has gone back
/// behind `start`. Nothing is known of the number.
#[verifier::external_body]
fn millis_since(start: &SystemTime) -> (r: Option<u128>) {
    start.elapsed().ok().map(|d| d.as_millis())
}

/// What is kept of a number of milliseconds: its lowest 32 bits.
pub open spec fn kept_millis(ms: u128) -> u32 {
    (ms % 0x1_0000_0000) as u32
}

/// What is kept of a number of milliseconds.
pub fn keep_millis(ms: u128) -> (r: u32)
    ensures
        r == kept_millis(ms),
{
    (ms % 0x1_0000_0000) as u32
}

/// What is kept of a reading of the clock: the lowest 32 bits of the
/// milliseconds, and 0 where the clock gave none.
pub open spec fn kept_reading(reading: Option<u128>) -> u32 {
    match reading {
        Some(ms) => kept_millis(ms),
        None => 0,
    }
}

/// What is kept of a reading of the clock.
pub fn keep_reading(reading: Option<u128>) -> (r: u32)
    ensures
        r == kept_reading(reading),
{
    match reading {
        Some(ms) => keep_millis(ms),
        None => 0,
    }
}

/// The time now.
pub fn now() -> (r: SystemTime) {
    clock_now()
}

/// The milliseconds since `start`, as far as 32 bits hold them; 0 where the
/// clock has gone back behind `start`.
pub fn elapsed(start: SystemTime) -> (r: u32) {
    keep_reading(millis_since(&start))
}

} // verus!
