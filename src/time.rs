use vstd::prelude::*;

verus! {

/// A point in time: seconds since the Unix epoch, and nanoseconds past that second.
#[derive(Clone, Copy, Debug, PartialEq, Eq, Structural)]
pub struct Timestamp {
    pub secs: i64,
    pub nanos: u32,
}

/// `a` is strictly earlier than `b`.
pub open spec fn spec_is_before(a: Timestamp, b: Timestamp) -> bool {
    a.secs < b.secs || (a.secs == b.secs && a.nanos < b.nanos)
}

impl Timestamp {
    /// Whether `self` is strictly earlier than `other`.
    pub fn is_before(&self, other: &Timestamp) -> (r: bool)
        ensures
            r == spec_is_before(*self, *other),
    {
        self.secs < other.secs || (self.secs == other.secs && self.nanos < other.nanos)
    }
}

/// Relies on chrono's `From<SystemTime> for DateTime<Utc>`, which also takes times
/// before the epoch, with `DateTime::timestamp` and `DateTime::timestamp_subsec_nanos`:
/// the current time of the system clock. Nothing is promised of the value.
#[verifier::external_body]
pub(crate) fn current_time() -> (r: Timestamp) {
    let now = chrono::DateTime::<chrono::Utc>::from(std::time::SystemTime::now());
    Timestamp { secs: now.timestamp(), nanos: now.timestamp_subsec_nanos() }
}

} // verus!
