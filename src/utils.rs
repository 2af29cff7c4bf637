//! The wall clock.
use vstd::prelude::*;

verus! {

#[verifier::external_type_specification]
#[verifier::external_body]
pub struct ExSystemTime(std::time::SystemTime);

#[verifier::external_type_specification]
#[verifier::external_body]
pub struct ExSystemTimeError(std::time::SystemTimeError);

/// Relies on std::time::SystemTime::now: reads the wall clock; nothing is known of what
/// it reads.
#[verifier::external_body]
fn wall_clock_now() -> std::time::SystemTime {
    std::time::SystemTime::now()
}

/// Relies on std::time::SystemTime::duration_since: the time elapsed since the Unix
/// epoch, or an error when `t` lies before it.
#[verifier::external_body]
fn since_unix_epoch(t: &std::time::SystemTime) -> Result<
    std::time::Duration,
    std::time::SystemTimeError,
> {
    t.duration_since(std::time::UNIX_EPOCH)
}

/// Relies on std::time::Duration::as_nanos: the whole nanoseconds in `d`.
#[verifier::external_body]
fn whole_nanos(d: &std::time::Duration) -> u128 {
    d.as_nanos()
}

/// Gets the current time (in nanoseconds) since the Unix epoch, cut to 64 bits; a clock
/// set before the epoch reads as zero.
pub fn get_time() -> u64 {
    match since_unix_epoch(&wall_clock_now()) {
        Ok(d) => whole_nanos(&d) as u64,
        Err(_) => 0,
    }
}

} // verus!
