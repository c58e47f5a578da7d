//! Wall-clock instants without a time zone.

use vstd::prelude::*;

verus! {

/// Nanoseconds in one second.
pub const NANOS_PER_SEC: i64 = 1_000_000_000;

/// Exclusive upper bound of the nanosecond field; values from one second upwards
/// denote a leap second.
pub const NANOS_LIMIT: u32 = 2_000_000_000;

/// Seconds from the epoch to the earliest instant, midnight of January 1, -262143.
pub const MIN_SECONDS: i64 = -8_334_601_228_800;

/// Seconds from the epoch to the last second of December 31, 262142.
pub const MAX_SECONDS: i64 = 8_210_266_876_799;

/// The mathematical value of a [`Timestamp`].
pub struct Instant {
    /// Whole non-leap seconds since midnight of January 1, 1970.
    pub secs: int,
    /// Nanoseconds since that whole second.
    pub nanos: int,
}

impl Instant {
    /// The instants that a [`Timestamp`] can hold.
    pub open spec fn valid(self) -> bool {
        &&& MIN_SECONDS <= self.secs <= MAX_SECONDS
        &&& 0 <= self.nanos < NANOS_LIMIT
    }

    /// Whether the instant lies inside a leap second.
    pub open spec fn is_leap(self) -> bool {
        self.nanos >= NANOS_PER_SEC
    }

    /// Nanoseconds since the epoch on a time line without leap seconds.
    pub open spec fn epoch_nanos(self) -> int {
        self.secs * NANOS_PER_SEC + self.nanos
    }

    /// The instant `n` nanoseconds after the epoch on a time line without leap
    /// seconds.
    pub open spec fn at(n: int) -> Instant {
        Instant { secs: n / (NANOS_PER_SEC as int), nanos: n % (NANOS_PER_SEC as int) }
    }

    /// Position in the total order of instants: seconds first, then nanoseconds.
    pub open spec fn rank(self) -> int {
        self.secs * NANOS_LIMIT + self.nanos
    }

    /// `self` is strictly earlier than `other`.
    pub open spec fn before(self, other: Instant) -> bool {
        self.rank() < other.rank()
    }

    /// `self` is earlier than or equal to `other`.
    pub open spec fn at_or_before(self, other: Instant) -> bool {
        self == other || self.before(other)
    }
}

/// Valid instants are ordered by seconds, then by nanoseconds.
pub proof fn lemma_order_is_lexicographic(a: Instant, b: Instant)
    requires
        a.valid(),
        b.valid(),
    ensures
        a.before(b) <==> (a.secs < b.secs || (a.secs == b.secs && a.nanos < b.nanos)),
        a.at_or_before(b) <==> (a.secs < b.secs || (a.secs == b.secs && a.nanos <= b.nanos)),
        a.before(b) || a == b || b.before(a),
{
}

/// A wall-clock instant with nanosecond precision.
#[derive(Clone, Copy, Debug, PartialEq, Eq, Structural)]
pub struct Timestamp {
    pub(crate) secs: i64,
    pub(crate) nanos: u32,
}

impl View for Timestamp {
    type V = Instant;

    closed spec fn view(&self) -> Instant {
        Instant { secs: self.secs as int, nanos: self.nanos as int }
    }
}

/// Two timestamps with the same value are the same timestamp.
pub proof fn lemma_timestamp_by_value(a: Timestamp, b: Timestamp)
    requires
        a@ == b@,
    ensures
        a == b,
{
}

impl Timestamp {
    /// Every timestamp holds a valid instant.
    #[verifier::type_invariant]
    pub open spec fn inv(self) -> bool {
        self@.valid()
    }

    /// Builds the instant `nanos` nanoseconds after the whole second `secs`, if the
    /// calendar reaches that far.
    pub fn new(secs: i64, nanos: u32) -> (r: Option<Timestamp>)
        ensures
            match r {
                Some(t) => t@ == (Instant { secs: secs as int, nanos: nanos as int }) && t@.valid(),
                None => !(Instant { secs: secs as int, nanos: nanos as int }).valid(),
            },
    {
        if MIN_SECONDS <= secs && secs <= MAX_SECONDS && nanos < NANOS_LIMIT {
            Some(Timestamp { secs, nanos })
        } else {
            None
        }
    }

    /// Whole seconds since midnight of January 1, 1970.
    pub fn secs(&self) -> (r: i64)
        ensures
            r == self@.secs,
    {
        self.secs
    }

    /// Nanoseconds since the whole second; one second or more inside a leap second.
    pub fn nanos(&self) -> (r: u32)
        ensures
            r == self@.nanos,
    {
        self.nanos
    }

    /// Strictly earlier than `other`.
    pub fn is_before(&self, other: &Timestamp) -> (r: bool)
        ensures
            r == self@.before(other@),
        no_unwind
    {
        proof {
            use_type_invariant(self);
            use_type_invariant(other);
            lemma_order_is_lexicographic(self@, other@);
        }
        self.secs < other.secs || (self.secs == other.secs && self.nanos < other.nanos)
    }
}

} // verus!
