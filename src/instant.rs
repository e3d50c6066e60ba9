use vstd::prelude::*;

verus! {

/// A UTC instant: whole seconds since the Unix epoch and the nanoseconds past
/// them. A leap second carries `nanos` of one second or more, so instants
/// order by `secs` first and by `nanos` second.
#[derive(Clone, Copy, Debug, PartialEq, Eq, Structural)]
pub struct Instant {
    pub secs: i64,
    pub nanos: u32,
}

impl Instant {
    /// `self` comes strictly before `other`.
    pub open spec fn spec_lt(self, other: Instant) -> bool {
        self.secs < other.secs || (self.secs == other.secs && self.nanos < other.nanos)
    }

    /// `self` comes at or before `other`.
    pub open spec fn spec_le(self, other: Instant) -> bool {
        self.spec_lt(other) || self == other
    }

    pub fn new(secs: i64, nanos: u32) -> (r: Instant)
        ensures
            r.secs == secs,
            r.nanos == nanos,
    {
        Instant { secs, nanos }
    }

    pub fn is_before(&self, other: &Instant) -> (r: bool)
        ensures
            r == self.spec_lt(*other),
    {
        self.secs < other.secs || (self.secs == other.secs && self.nanos < other.nanos)
    }
}

} // verus!
