//! Points in time.

use vstd::prelude::*;

verus! {

/// A point in time: whole seconds since the Unix epoch, and nanoseconds past
/// them.
#[derive(Debug, Clone, Copy, PartialEq, Eq, Structural)]
pub struct Timestamp {
    /// Whole seconds since the Unix epoch.
    pub seconds: i64,
    /// Nanoseconds past the whole second.
    pub nanos: u32,
}

impl Timestamp {
    /// Whether this point is `other` or comes before it.
    pub open spec fn not_later(self, other: Timestamp) -> bool {
        self.seconds < other.seconds || (self.seconds == other.seconds && self.nanos
            <= other.nanos)
    }

    /// Whether this point is `other` or comes before it.
    pub fn not_after(self, other: Timestamp) -> (first: bool)
        ensures
            first == self.not_later(other),
    {
        self.seconds < other.seconds || (self.seconds == other.seconds && self.nanos
            <= other.nanos)
    }
}

/// The first second of the calendar that timestamps come from.
pub const FIRST_SECOND: i64 = -8_334_601_228_800;

/// The last second of the calendar that timestamps come from.
pub const LAST_SECOND: i64 = 8_210_266_876_799;

/// `chrono::DateTime::from_timestamp` with no nanoseconds: the point `seconds`
/// after the Unix epoch, where the calendar reaches it. The calendar runs from
/// the first day of year -262143 to the last day of year 262142.
#[verifier::external_body]
pub(crate) fn timestamp_at(seconds: i64) -> (at: Option<Timestamp>)
    ensures
        at == (if FIRST_SECOND <= seconds <= LAST_SECOND {
            Some(Timestamp { seconds, nanos: 0 })
        } else {
            None
        }),
{
    chrono::DateTime::from_timestamp(seconds, 0).map(
        |at| Timestamp { seconds: at.timestamp(), nanos: at.timestamp_subsec_nanos() },
    )
}

/// `chrono::Utc::now`: the current time. Nothing is stated of it.
#[verifier::external_body]
pub(crate) fn current_time() -> (now: Timestamp) {
    let now = chrono::Utc::now();
    Timestamp { seconds: now.timestamp(), nanos: now.timestamp_subsec_nanos() }
}

/// `std::time::SystemTime`, carried through as an opaque value.
#[verifier::external_type_specification]
#[verifier::external_body]
pub struct ExSystemTime(std::time::SystemTime);

/// The whole milliseconds of a duration.
pub uninterp spec fn millis_of(duration: std::time::Duration) -> u128;

/// `std::time::SystemTime::now`: the wall clock. Nothing is stated of it.
pub assume_specification[ std::time::SystemTime::now ]() -> (now: std::time::SystemTime)
;

/// What `std::time::SystemTime::duration_since` answers for a point of the wall
/// clock and the Unix epoch: how long after the epoch it lies, or nothing where
/// it lies before.
pub uninterp spec fn epoch_distance(at: std::time::SystemTime) -> Option<std::time::Duration>;

/// `std::time::SystemTime::duration_since` the Unix epoch: how long after the
/// epoch `at` lies, unless it comes before it. How the platform holds a point
/// of the wall clock is left unsaid.
#[verifier::external_body]
pub(crate) fn since_epoch(at: std::time::SystemTime) -> (elapsed: Option<std::time::Duration>)
    ensures
        elapsed == epoch_distance(at),
{
    at.duration_since(std::time::UNIX_EPOCH).ok()
}

/// The whole milliseconds from the Unix epoch to `at`, unless it comes before
/// it.
pub open spec fn millis_at(at: std::time::SystemTime) -> Option<u128> {
    match epoch_distance(at) {
        Some(elapsed) => Some(millis_of(elapsed)),
        None => None,
    }
}

/// `std::time::Duration::as_millis`: the whole milliseconds.
pub assume_specification[ std::time::Duration::as_millis ](
    duration: &std::time::Duration,
) -> (millis: u128)
    ensures
        millis == millis_of(*duration),
;

/// Milliseconds since the Unix epoch, by how long ago it was: 0 before it, and
/// the largest count past that.
pub open spec fn saturated(elapsed: Option<u128>) -> u64 {
    match elapsed {
        Some(millis) => if millis > u64::MAX {
            u64::MAX
        } else {
            millis as u64
        },
        None => 0,
    }
}

/// Milliseconds since the Unix epoch, by how long ago it was: 0 before it, and
/// the largest count past that.
pub fn saturated_ms(elapsed: Option<u128>) -> (ms: u64)
    ensures
        ms == saturated(elapsed),
{
    match elapsed {
        Some(millis) => if millis > u64::MAX as u128 {
            u64::MAX
        } else {
            millis as u64
        },
        None => 0,
    }
}

/// Milliseconds since the Unix epoch, by how long ago it was, where a clock
/// before the epoch and a count too large are no answer.
pub open spec fn exact(elapsed: Option<u128>) -> Option<u64> {
    match elapsed {
        Some(millis) => if millis > u64::MAX {
            None
        } else {
            Some(millis as u64)
        },
        None => None,
    }
}

/// Milliseconds since the Unix epoch, by how long ago it was, where a clock
/// before the epoch and a count too large are no answer.
pub fn exact_ms(elapsed: Option<u128>) -> (ms: Option<u64>)
    ensures
        ms == exact(elapsed),
{
    match elapsed {
        Some(millis) => if millis > u64::MAX as u128 {
            None
        } else {
            Some(millis as u64)
        },
        None => None,
    }
}

/// How many milliseconds ago the Unix epoch was, unless the wall clock is set
/// before it: the whole milliseconds to the point that the clock showed.
pub(crate) fn epoch_millis() -> (elapsed: Option<u128>)
    ensures
        exists|at: std::time::SystemTime| elapsed == #[trigger] millis_at(at),
{
    let at = std::time::SystemTime::now();
    let elapsed = match since_epoch(at) {
        Some(elapsed) => Some(elapsed.as_millis()),
        None => None,
    };
    assert(elapsed == millis_at(at));
    elapsed
}

/// Wall-clock milliseconds since the Unix epoch; 0 on a clock set before it.
pub fn now_ms() -> (ms: u64)
    ensures
        exists|at: std::time::SystemTime| ms == saturated(#[trigger] millis_at(at)),
{
    saturated_ms(epoch_millis())
}

/// Wall-clock milliseconds since the Unix epoch; nothing on a clock set before
/// it.
pub(crate) fn unix_now_ms() -> (ms: Option<u64>)
    ensures
        exists|at: std::time::SystemTime| ms == exact(#[trigger] millis_at(at)),
{
    exact_ms(epoch_millis())
}

} // verus!
