use vstd::prelude::*;
use std::time::{Duration, Instant};

verus! {

#[verifier::external_type_specification]
#[verifier::external_body]
pub struct ExInstant(Instant);

/// `Instant::clone`: `Instant` is `Copy`, and its clone is the value itself.
pub assume_specification[ <Instant as Clone>::clone ](t: &Instant) -> (r: Instant)
    ensures
        r == *t,
;

/// The duration of `ms` milliseconds, as `Duration::from_millis` makes it.
pub uninterp spec fn millis_duration(ms: u64) -> Duration;

/// The duration of `n` nanoseconds, as `Duration::from_nanos` makes it.
pub uninterp spec fn nanos_duration(n: u64) -> Duration;

/// `Duration::from_millis`: a duration of `ms` milliseconds. `Duration` is
/// opaque here, so the value is named, not described: the same count of
/// milliseconds always gives the same duration.
#[verifier::external_body]
pub(crate) fn duration_from_millis(ms: u64) -> (d: Duration)
    ensures
        d == millis_duration(ms),
{
    Duration::from_millis(ms)
}

/// `Instant::now()`: the current time of the monotonic clock. Nothing is
/// promised of the value.
#[verifier::external_body]
pub(crate) fn now() -> Instant {
    Instant::now()
}

/// Nanoseconds from `earlier` to `later` (`Instant::saturating_duration_since`
/// and `Duration::as_nanos`): none from an instant to itself. The instants
/// come from the clock and are opaque here, so nothing more is said of the
/// value.
#[verifier::external_body]
pub(crate) fn nanos_between(earlier: &Instant, later: &Instant) -> (r: u128)
    ensures
        *earlier == *later ==> r == 0,
{
    later.saturating_duration_since(*earlier).as_nanos()
}

/// `Duration::from_nanos`: a duration of `n` nanoseconds. `Duration` is opaque
/// here, so the value is named, not described.
#[verifier::external_body]
pub(crate) fn duration_from_nanos(n: u64) -> (d: Duration)
    ensures
        d == nanos_duration(n),
{
    Duration::from_nanos(n)
}

/// Whether at least `d` has passed since `since` (`Instant::elapsed` compared
/// with `d`). The clock decides, so of a positive `d` nothing is promised;
/// every elapsed time is at least a zero duration, so a `d` made from zero
/// milliseconds always gives `true`.
#[verifier::external_body]
pub(crate) fn elapsed_at_least(since: &Instant, d: &Duration) -> (r: bool)
    ensures
        *d == millis_duration(0) ==> r,
{
    since.elapsed() >= *d
}

} // verus!
