//! Lengths of time.
//!
//! `std::time::Duration` is opaque to the verifier. What is known of it is
//! stated here, over the number of nanoseconds that a duration lasts.

use std::time::Duration;
use vstd::prelude::*;

verus! {

/// Nanoseconds in one second.
pub const NANOS_PER_SEC: u64 = 1_000_000_000;

/// Nanoseconds in one millisecond.
pub const NANOS_PER_MILLI: u64 = 1_000_000;

/// How many nanoseconds `duration` lasts: the number that
/// `Duration::as_nanos` gives for it.
pub uninterp spec fn duration_nanos(duration: Duration) -> nat;

/// `Duration::from_secs` makes a duration of exactly that many seconds.
pub assume_specification[ Duration::from_secs ](secs: u64) -> (duration: Duration)
    ensures
        duration_nanos(duration) == secs * NANOS_PER_SEC,
;

/// `Duration::as_secs` gives the whole seconds of a duration and leaves the
/// fraction out.
pub assume_specification[ Duration::as_secs ](duration: &Duration) -> (secs: u64)
    ensures
        secs == duration_nanos(*duration) / NANOS_PER_SEC as nat,
;

/// `Duration::as_millis` gives the whole milliseconds of a duration and leaves
/// the fraction out.
pub assume_specification[ Duration::as_millis ](duration: &Duration) -> (millis: u128)
    ensures
        millis == duration_nanos(*duration) / NANOS_PER_MILLI as nat,
;

/// The whole seconds of a duration.
pub open spec fn whole_secs(duration: Duration) -> nat {
    duration_nanos(duration) / NANOS_PER_SEC as nat
}

/// The whole milliseconds of a duration.
pub open spec fn whole_millis(duration: Duration) -> nat {
    duration_nanos(duration) / NANOS_PER_MILLI as nat
}

/// `duration` lasts exactly `secs` seconds.
pub open spec fn lasts_secs(duration: Duration, secs: nat) -> bool {
    duration_nanos(duration) == secs * NANOS_PER_SEC
}

/// A duration of exactly `secs` seconds has `secs` whole seconds.
pub proof fn lemma_whole_secs(duration: Duration, secs: nat)
    requires
        lasts_secs(duration, secs),
    ensures
        whole_secs(duration) == secs,
{
}

/// The whole seconds of a duration are the most seconds that fit into it, and
/// the whole milliseconds the most milliseconds.
pub proof fn law_whole_units_fit(duration: Duration)
    ensures
        whole_secs(duration) * 1_000_000_000 <= duration_nanos(duration),
        duration_nanos(duration) < (whole_secs(duration) + 1) * 1_000_000_000,
        whole_millis(duration) * 1_000_000 <= duration_nanos(duration),
        duration_nanos(duration) < (whole_millis(duration) + 1) * 1_000_000,
{
}

/// Two durations of the same number of seconds last equally long, and one of a
/// second lasts a thousand million nanoseconds.
pub proof fn law_seconds_fix_a_duration(a: Duration, b: Duration, secs: nat)
    requires
        lasts_secs(a, secs),
    ensures
        lasts_secs(b, secs) <==> duration_nanos(a) == duration_nanos(b),
        duration_nanos(a) == 1_000_000_000 * secs,
{
}

} // verus!
