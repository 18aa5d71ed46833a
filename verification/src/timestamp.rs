use vstd::prelude::*;

verus! {

/// An absolute, timezone-aware instant, held as whole seconds since the Unix
/// epoch together with the nanosecond offset into that second.
#[derive(Clone, Copy, Debug, PartialEq, Eq, Structural, Hash)]
pub struct Timestamp {
    pub seconds: i64,
    pub nanos: u32,
}

impl Timestamp {
    /// A timestamp is well formed when its nanosecond part stays within one second.
    pub open spec fn wf(self) -> bool {
        self.nanos < 1_000_000_000
    }

    /// The same instant with every digit below the microsecond truncated away.
    /// The backing store keeps no finer precision, so an expiry is brought to
    /// this form before it is persisted.
    pub open spec fn norm(self) -> Timestamp {
        Timestamp { seconds: self.seconds, nanos: ((self.nanos / 1000) * 1000) as u32 }
    }

    /// Strict "earlier than" on instants.
    pub open spec fn spec_before(self, other: Timestamp) -> bool {
        self.seconds < other.seconds
            || (self.seconds == other.seconds && self.nanos < other.nanos)
    }

    pub fn new(seconds: i64, nanos: u32) -> (r: Timestamp)
        requires
            nanos < 1_000_000_000,
        ensures
            r == (Timestamp { seconds, nanos }),
            r.wf(),
    {
        Timestamp { seconds, nanos }
    }

    /// Truncate the sub-microsecond digits of the instant.
    pub fn normalized(self) -> (r: Timestamp)
        ensures
            r == self.norm(),
            self.wf() ==> r.wf(),
    {
        proof {
            assert((self.nanos / 1000) * 1000 <= self.nanos) by (nonlinear_arith);
        }
        Timestamp { seconds: self.seconds, nanos: (self.nanos / 1000) * 1000 }
    }

    pub fn before(&self, other: &Timestamp) -> (r: bool)
        ensures
            r == self.spec_before(*other),
    {
        self.seconds < other.seconds
            || (self.seconds == other.seconds && self.nanos < other.nanos)
    }
}

/// Normalizing an already-normalized timestamp yields the same value, so the
/// precision adjustment made when a record is first persisted is stable under
/// any number of further round trips through the store.
pub proof fn lemma_normalize_idempotent(t: Timestamp)
    ensures
        t.norm().norm() == t.norm(),
{
    let q = t.nanos / 1000;
    assert((q * 1000) / 1000 == q) by (nonlinear_arith);
}


} // verus!
