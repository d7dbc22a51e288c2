//! Timestamps of requests and of completed atlas entries.
use vstd::prelude::*;

verus! {

/// A point in time, in milliseconds since the start of the session.
#[derive(Clone, Copy, Debug, PartialEq, Eq, Structural, Hash)]
pub struct Time(pub u64);

impl Time {
    /// The time in milliseconds.
    pub fn as_millis(&self) -> (ms: u64)
        ensures
            ms == self.0,
    {
        self.0
    }
}

} // verus!
