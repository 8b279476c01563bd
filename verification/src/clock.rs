//! The clock: system time since the Unix epoch, monotonic instants, and
//! the whole seconds of a `Duration`.
use std::time::{Duration, Instant, SystemTime};
use vstd::prelude::*;

verus! {

#[verifier::external_type_specification]
#[verifier::external_body]
pub struct ExSystemTime(SystemTime);

#[verifier::external_type_specification]
#[verifier::external_body]
pub struct ExInstant(Instant);

/// The whole seconds of a duration, as `Duration::as_secs` gives them.
pub uninterp spec fn duration_secs(d: Duration) -> u64;

/// `Duration::as_secs` gives the whole seconds of the duration.
pub assume_specification[ Duration::as_secs ](d: &Duration) -> (r: u64)
    ensures
        r == duration_secs(*d),
;

/// `Duration::from_secs` makes a duration of exactly that many seconds.
pub assume_specification[ Duration::from_secs ](secs: u64) -> (r: Duration)
    ensures
        duration_secs(r) == secs,
;

/// The moment `d` after the Unix epoch, as `UNIX_EPOCH.checked_add(d)`
/// gives it: `None` where the platform's time cannot hold that moment.
pub uninterp spec fn epoch_offset(d: Duration) -> Option<SystemTime>;

/// Calls `SystemTime::checked_add` on `UNIX_EPOCH`: the moment `d` after the
/// epoch, or `None` where the platform's time cannot hold it. The result is
/// named `epoch_offset(d)`; which durations the platform can hold is left
/// unsaid, as it differs between platforms.
#[verifier::external_body]
pub(crate) fn epoch_plus(d: Duration) -> (r: Option<SystemTime>)
    ensures
        r == epoch_offset(d),
{
    std::time::UNIX_EPOCH.checked_add(d)
}

/// Calls `SystemTime::elapsed`: the time since `t`, or `None` where the
/// clock shows `t` in the future. The result depends on the clock, so
/// nothing is stated of it.
#[verifier::external_body]
pub(crate) fn system_time_elapsed(t: &SystemTime) -> (r: Option<Duration>) {
    t.elapsed().ok()
}

/// Calls `Instant::now`; nothing is stated of the instant.
#[verifier::external_body]
pub(crate) fn instant_now() -> (r: Instant) {
    Instant::now()
}

/// Calls `Instant::elapsed`; the result depends on the clock, so nothing
/// is stated of it.
#[verifier::external_body]
pub(crate) fn instant_elapsed(i: &Instant) -> (r: Duration) {
    i.elapsed()
}

} // verus!
