//! Time, as the standard library keeps it: durations as whole nanoseconds, and
//! two clocks, of which nothing is known but what lies between two readings.

use std::time::{Duration, Instant, SystemTime};
use vstd::prelude::*;

verus! {

/// A second, in nanoseconds.
pub const NANOS_PER_SEC: u64 = 1_000_000_000;

/// `std::time::Instant`: a reading of the steady clock.
#[verifier::external_type_specification]
#[verifier::external_body]
pub struct ExInstant(Instant);

/// `std::time::SystemTime`: a reading of the wall clock.
#[verifier::external_type_specification]
#[verifier::external_body]
pub struct ExSystemTime(SystemTime);

/// What `Duration::as_nanos` returns: the length of a duration in nanoseconds.
pub uninterp spec fn duration_nanos(d: Duration) -> nat;

/// `Duration::as_nanos` is the length of a duration in nanoseconds.
pub assume_specification[ Duration::as_nanos ](d: &Duration) -> (nanos: u128)
    ensures
        nanos == duration_nanos(*d),
;

/// `Duration::as_secs` is the number of whole seconds in a duration: what is
/// left of a second is cut off.
pub assume_specification[ Duration::as_secs ](d: &Duration) -> (secs: u64)
    ensures
        secs == duration_nanos(*d) / NANOS_PER_SEC as nat,
;

/// `Duration::from_secs` makes a duration of whole seconds.
pub assume_specification[ Duration::from_secs ](secs: u64) -> (d: Duration)
    ensures
        duration_nanos(d) == secs * NANOS_PER_SEC,
;

/// `Duration::checked_sub` takes one duration from another, and gives `None`
/// where the second is the longer one.
pub assume_specification[ Duration::checked_sub ](d: Duration, rhs: Duration) -> (rest: Option<
    Duration,
>)
    ensures
        rest is Some == (duration_nanos(rhs) <= duration_nanos(d)),
        rest matches Some(r) ==> duration_nanos(r) == duration_nanos(d) - duration_nanos(rhs),
;

/// Whether `Instant::now` gives this reading at some time.
pub uninterp spec fn read_at_some_time(now: Instant) -> bool;

/// `Instant::now` reads the steady clock. At which time it does is left open.
pub assume_specification[ Instant::now ]() -> (now: Instant)
    ensures
        read_at_some_time(now),
;

/// Where a reading of the steady clock lies in time: its distance in nanoseconds
/// from a beginning that all readings have in common, as
/// `Instant::saturating_duration_since` measures it. Where that beginning lies is
/// left open.
pub uninterp spec fn instant_nanos(t: Instant) -> int;

/// The time from the reading `earlier` to the reading `later`, in nanoseconds; none
/// where they lie the other way round.
pub open spec fn nanos_between(later: Instant, earlier: Instant) -> nat {
    if instant_nanos(earlier) <= instant_nanos(later) {
        (instant_nanos(later) - instant_nanos(earlier)) as nat
    } else {
        0
    }
}

/// `Instant::saturating_duration_since` is the time that passes from one reading to
/// another, and zero where the one it starts from is the later of the two.
pub assume_specification[ Instant::saturating_duration_since ](
    later: &Instant,
    earlier: Instant,
) -> (passed: Duration)
    ensures
        duration_nanos(passed) == if instant_nanos(earlier) <= instant_nanos(*later) {
            instant_nanos(*later) - instant_nanos(earlier)
        } else {
            0
        },
;

/// Whether `SystemTime::now` gives this reading at some time.
pub uninterp spec fn shown_at_some_time(now: SystemTime) -> bool;

/// `SystemTime::now` reads the wall clock. At which time it does is left open.
pub assume_specification[ SystemTime::now ]() -> (now: SystemTime)
    ensures
        shown_at_some_time(now),
;

/// What `SystemTime::duration_since` returns for the Unix epoch, in
/// nanoseconds; `None` for a reading before the epoch.
pub uninterp spec fn epoch_nanos(t: SystemTime) -> Option<nat>;

/// `SystemTime::duration_since`, from the Unix epoch to a reading: the time
/// between the two, or nothing where the reading lies before the epoch.
#[verifier::external_body]
pub(crate) fn since_epoch(t: SystemTime) -> (passed: Option<Duration>)
    ensures
        passed is Some == epoch_nanos(t) is Some,
        passed matches Some(d) ==> epoch_nanos(t) == Some(duration_nanos(d)),
{
    t.duration_since(std::time::UNIX_EPOCH).ok()
}

/// The time between two readings is how far the later one lies behind the earlier, and
/// nothing the other way round.
pub proof fn time_runs_one_way(a: Instant, b: Instant)
    ensures
        instant_nanos(a) <= instant_nanos(b) ==> nanos_between(b, a) == instant_nanos(b)
            - instant_nanos(a),
        instant_nanos(b) < instant_nanos(a) ==> nanos_between(b, a) == 0,
        NANOS_PER_SEC == 1_000_000_000,
{
}

}
