//! The system clock, read to seed the decoy typer.
use vstd::prelude::*;

verus! {

/// A point in time of the system clock; opaque here.
#[verifier::external_type_specification]
#[verifier::external_body]
pub struct ExSystemTime(std::time::SystemTime);

/// Why a duration between two points in time could not be measured; opaque here.
#[verifier::external_type_specification]
#[verifier::external_body]
pub struct ExSystemTimeError(std::time::SystemTimeError);

/// `SystemTime::now` reads the system clock; nothing is stated of what it returns.
pub assume_specification[ std::time::SystemTime::now ]() -> std::time::SystemTime;

/// `SystemTime::duration_since` measures the time since `earlier`, or fails when `earlier` is
/// later; nothing is stated of the outcome.
pub assume_specification[ std::time::SystemTime::duration_since ](
    this: &std::time::SystemTime,
    earlier: std::time::SystemTime,
) -> Result<core::time::Duration, std::time::SystemTimeError>;

/// `Duration::as_nanos` gives the whole number of nanoseconds of a duration; a `Duration` is
/// opaque here, so nothing is stated of the number.
pub assume_specification[ core::time::Duration::as_nanos ](this: &core::time::Duration) -> u128;

/// `std::time::UNIX_EPOCH`, the start of 1970 (UTC); nothing is stated of the value.
#[verifier::external_body]
fn unix_epoch() -> std::time::SystemTime {
    std::time::UNIX_EPOCH
}

/// The low 64 bits of `n`.
fn low_bits(n: u128) -> (r: u64)
    ensures
        r == n % 0x1_0000_0000_0000_0000,
{
    (n % 0x1_0000_0000_0000_0000) as u64
}

/// Reads the clock as nanoseconds since 1970, keeping the low 64 bits; `fallback` when the
/// clock is earlier than 1970.
pub(crate) fn clock_seed(fallback: u64) -> u64 {
    let now = std::time::SystemTime::now();
    match now.duration_since(unix_epoch()) {
        Ok(d) => low_bits(d.as_nanos()),
        Err(_) => fallback,
    }
}

} // verus!
