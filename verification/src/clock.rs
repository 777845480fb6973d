//! Wall-clock access.

use vstd::prelude::*;

verus! {

#[verifier::external_type_specification]
#[verifier::external_body]
pub struct ExSystemTime(std::time::SystemTime);

#[verifier::external_type_specification]
#[verifier::external_body]
pub struct ExSystemTimeError(std::time::SystemTimeError);

/// `std::time::SystemTime::now`: the machine's clock, of which nothing is
/// promised.
#[verifier::external_body]
fn system_now() -> (t: std::time::SystemTime) {
    std::time::SystemTime::now()
}

/// `SystemTime::duration_since` taken from `UNIX_EPOCH`: the time elapsed
/// since the epoch, or an error when the clock is set before it.  It rests on
/// the clock value, so nothing more is stated.
#[verifier::external_body]
fn since_epoch(t: &std::time::SystemTime) -> (r: Result<
    core::time::Duration,
    std::time::SystemTimeError,
>) {
    t.duration_since(std::time::UNIX_EPOCH)
}

/// `Duration::as_secs`: the whole seconds of a duration.  The duration is
/// opaque here (it only ever comes from the clock), so its value is not stated.
#[verifier::external_body]
fn whole_secs(d: &core::time::Duration) -> (s: u64) {
    d.as_secs()
}

/// Seconds since the Unix epoch (0 when the system clock is set before the
/// epoch).
///
/// The value depends on the machine's clock, so nothing is promised about it:
/// every function that uses it states what holds whatever it returned.
pub fn current_unix_secs() -> (secs: u64) {
    let t = system_now();
    match since_epoch(&t) {
        Ok(d) => whole_secs(&d),
        Err(_) => 0,
    }
}

} // verus!
