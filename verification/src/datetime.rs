//! Timestamps as seconds relative to an epoch: a total order and a signed
//! difference in seconds, which is all the aggregation logic reads of them.
//! Parsing and formatting of calendar representations happen outside the
//! library; it only ever sees the plain second count.

use vstd::prelude::*;

verus! {

/// An instant, counted in seconds from an arbitrary fixed epoch.
/// Immutable once constructed; later instants hold larger counts.
#[derive(Clone, Copy, PartialEq, Eq, Structural, Debug)]
pub struct DateTime {
    pub secs: i64,
}

impl DateTime {
    pub fn new(secs: i64) -> (r: DateTime)
        ensures
            r.secs == secs,
    {
        DateTime { secs }
    }

    /// Signed distance in seconds: positive when `self` is later than
    /// `other`.
    pub fn diff_seconds(&self, other: &DateTime) -> (r: i64)
        requires
            i64::MIN <= self.secs - other.secs <= i64::MAX,
        ensures
            r == self.secs - other.secs,
    {
        self.secs - other.secs
    }
}

} // verus!
