use vstd::prelude::*;

verus! {

/// A point on the emulator's monotonic clock, in nanoseconds.
#[derive(Default, Copy, Clone, PartialEq, Eq, Structural, Hash, Debug)]
pub struct Instant(pub u64);

/// A span of time in nanoseconds.
#[derive(Default, Copy, Clone, PartialEq, Eq, Structural, Hash, Debug)]
pub struct Duration(pub u64);

impl Instant {
    /// The instant `d` after this one, or `None` where it would pass the clock's range.
    pub fn checked_add(self, d: Duration) -> (r: Option<Instant>)
        ensures
            self.0 + d.0 <= u64::MAX ==> r == Some(Instant((self.0 + d.0) as u64)),
            self.0 + d.0 > u64::MAX ==> r is None,
    {
        match self.0.checked_add(d.0) {
            Some(t) => Some(Instant(t)),
            None => None,
        }
    }
}

impl From<u64> for Instant {
    fn from(value: u64) -> (r: Self) {
        Instant(value)
    }
}

impl vstd::std_specs::convert::FromSpecImpl<u64> for Instant {
    open spec fn obeys_from_spec() -> bool {
        true
    }

    open spec fn from_spec(v: u64) -> Self {
        Instant(v)
    }
}

impl From<Instant> for u64 {
    fn from(value: Instant) -> (r: u64) {
        value.0
    }
}

impl vstd::std_specs::convert::FromSpecImpl<Instant> for u64 {
    open spec fn obeys_from_spec() -> bool {
        true
    }

    open spec fn from_spec(v: Instant) -> u64 {
        v.0
    }
}

impl From<u64> for Duration {
    fn from(value: u64) -> (r: Self) {
        Duration(value)
    }
}

impl vstd::std_specs::convert::FromSpecImpl<u64> for Duration {
    open spec fn obeys_from_spec() -> bool {
        true
    }

    open spec fn from_spec(v: u64) -> Self {
        Duration(v)
    }
}

impl From<Duration> for u64 {
    fn from(value: Duration) -> (r: u64) {
        value.0
    }
}

impl vstd::std_specs::convert::FromSpecImpl<Duration> for u64 {
    open spec fn obeys_from_spec() -> bool {
        true
    }

    open spec fn from_spec(v: Duration) -> u64 {
        v.0
    }
}

} // verus!
