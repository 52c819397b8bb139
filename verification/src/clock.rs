//! Wall-clock time, read through `chrono`.

use vstd::prelude::*;

verus! {

/// A point in UTC time: whole seconds since the Unix epoch plus the
/// sub-second part in nanoseconds. Ordered lexicographically, as
/// `chrono::DateTime<Utc>` is.
#[derive(Clone, Copy, Debug, PartialEq, Eq, Structural)]
pub struct Timestamp {
    pub secs: i64,
    pub nanos: u32,
}

impl Timestamp {
    /// `self` is strictly earlier than `other`.
    pub open spec fn spec_before(self, other: Timestamp) -> bool {
        self.secs < other.secs || (self.secs == other.secs && self.nanos < other.nanos)
    }

    /// `self` is strictly earlier than `other`.
    pub fn before(&self, other: &Timestamp) -> (r: bool)
        ensures
            r == self.spec_before(*other),
    {
        self.secs < other.secs || (self.secs == other.secs && self.nanos < other.nanos)
    }
}

/// Reads `chrono::Utc::now()` and returns its Unix seconds and sub-second
/// nanoseconds. The value depends on the clock; nothing is promised of it.
#[verifier::external_body]
pub(crate) fn utc_now() -> (t: Timestamp) {
    let now = chrono::Utc::now();
    Timestamp { secs: now.timestamp(), nanos: now.timestamp_subsec_nanos() }
}

} // verus!
