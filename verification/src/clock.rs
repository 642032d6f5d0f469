//! Points in time, and the reading of the wall clock.

use vstd::prelude::*;

verus! {

/// The seconds for which a recorded result is served again without asking
/// the prediction service.
pub const FRESHNESS_WINDOW_SECS: u64 = 60;

/// A point in time: whole seconds since the Unix epoch and the nanoseconds
/// past that second.
#[derive(Clone, Copy, Debug)]
pub struct Timestamp {
    pub secs: i64,
    pub nanos: u32,
}

impl Timestamp {
    /// The point in time as one number: nanoseconds since the Unix epoch.
    pub open spec fn as_nanos(self) -> int {
        self.secs * 1_000_000_000 + self.nanos
    }

    /// Less than `window_secs` seconds lie between `earlier` and `self`.
    /// A point in time that lies before `earlier` is within every window.
    pub open spec fn within(self, earlier: Timestamp, window_secs: u64) -> bool {
        self.as_nanos() - earlier.as_nanos() < window_secs * 1_000_000_000
    }

    /// Whether less than `window_secs` seconds lie between `earlier` and
    /// `self`.
    pub fn is_within(self, earlier: Timestamp, window_secs: u64) -> (inside: bool)
        ensures
            inside == self.within(earlier, window_secs),
    {
        let whole: i128 = (self.secs as i128 - earlier.secs as i128) * 1_000_000_000;
        let elapsed: i128 = whole + (self.nanos as i128 - earlier.nanos as i128);
        elapsed < (window_secs as i128) * 1_000_000_000
    }
}

/// Whether a result recorded at `last_record_timestamp` is still fresh at
/// `now`.
pub fn is_recent(last_record_timestamp: Timestamp, now: Timestamp) -> (recent: bool)
    ensures
        recent == now.within(last_record_timestamp, FRESHNESS_WINDOW_SECS),
{
    now.is_within(last_record_timestamp, FRESHNESS_WINDOW_SECS)
}

/// Reads the wall clock.
///
/// Trusted: calls `chrono::Utc::now` and takes the reading apart with
/// `DateTime::timestamp` and `DateTime::timestamp_subsec_nanos`. Nothing is
/// claimed of the reading: it differs from call to call. `Utc::now` panics
/// where the system clock stands before the Unix epoch.
#[verifier::external_body]
pub(crate) fn read_clock() -> Timestamp {
    let reading = chrono::Utc::now();
    Timestamp { secs: reading.timestamp(), nanos: reading.timestamp_subsec_nanos() }
}

} // verus!
