//! Points in time on the profile's clock.

use vstd::prelude::*;

verus! {

/// A point in time, counted in nanoseconds since the profile's reference time.
#[derive(Clone, Copy, Debug, PartialEq, Eq, PartialOrd, Ord, Hash, Structural)]
pub struct Timestamp {
    nanos: u64,
}

impl Timestamp {
    /// The number of nanoseconds since the reference time.
    pub closed spec fn spec_nanos(self) -> u64 {
        self.nanos
    }

    /// The timestamp that lies `nanos` nanoseconds after the reference time.
    pub fn from_nanos_since_reference(nanos: u64) -> (t: Timestamp)
        ensures
            t.spec_nanos() == nanos,
    {
        Timestamp { nanos }
    }

    /// The number of nanoseconds since the reference time.
    #[verifier::when_used_as_spec(spec_nanos)]
    pub fn nanos(self) -> (n: u64)
        ensures
            n == self.spec_nanos(),
    {
        self.nanos
    }
}

} // verus!
