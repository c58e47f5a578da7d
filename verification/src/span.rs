//! Signed lengths of time.

use vstd::prelude::*;
use crate::timestamp::NANOS_PER_SEC;

verus! {

/// The longest span, in nanoseconds: `i64::MAX` milliseconds.
pub const MAX_SPAN_NANOS: i128 = 9_223_372_036_854_775_807_000_000;

/// The spans that a [`Span`] can hold, counted in nanoseconds.
pub open spec fn span_valid(nanos: int) -> bool {
    -MAX_SPAN_NANOS <= nanos <= MAX_SPAN_NANOS
}

/// A signed length of time with nanosecond precision.
///
/// Its view is the length in nanoseconds. It is stored as whole seconds, rounded
/// down, and the nanoseconds that remain, so `-0.25 s` is `secs = -1`,
/// `nanos = 750_000_000`.
#[derive(Clone, Copy, Debug, PartialEq, Eq, Structural)]
pub struct Span {
    pub(crate) secs: i64,
    pub(crate) nanos: u32,
}

impl View for Span {
    type V = int;

    closed spec fn view(&self) -> int {
        self.secs * NANOS_PER_SEC + self.nanos
    }
}

impl Span {
    /// Every span is within range.
    #[verifier::type_invariant]
    pub closed spec fn inv(self) -> bool {
        &&& self.nanos < NANOS_PER_SEC
        &&& span_valid(self@)
    }

    /// Builds the span of `secs` seconds plus `nanos` nanoseconds, if `nanos` is
    /// below one second and the total is within range.
    pub fn new(secs: i64, nanos: u32) -> (r: Option<Span>)
        ensures
            match r {
                Some(s) => s@ == secs * NANOS_PER_SEC + nanos && nanos < NANOS_PER_SEC && span_valid(
                    s@,
                ),
                None => !(nanos < NANOS_PER_SEC && span_valid(secs * NANOS_PER_SEC + nanos)),
            },
    {
        if nanos >= 1_000_000_000 {
            return None;
        }
        let total: i128 = secs as i128 * 1_000_000_000 + nanos as i128;
        if -MAX_SPAN_NANOS <= total && total <= MAX_SPAN_NANOS {
            Some(Span { secs, nanos })
        } else {
            None
        }
    }

    /// Whole seconds of the length, rounded down.
    pub fn secs(&self) -> (r: i64)
        ensures
            r == self@ / (NANOS_PER_SEC as int),
    {
        proof {
            use_type_invariant(self);
        }
        self.secs
    }

    /// Nanoseconds that remain above the whole seconds.
    pub fn nanos(&self) -> (r: u32)
        ensures
            r == self@ % (NANOS_PER_SEC as int),
    {
        proof {
            use_type_invariant(self);
        }
        self.nanos
    }

    /// The length is zero.
    pub fn is_zero(&self) -> (r: bool)
        ensures
            r == (self@ == 0),
    {
        proof {
            use_type_invariant(self);
        }
        self.secs == 0 && self.nanos == 0
    }

    /// The length is greater than zero.
    pub fn is_positive(&self) -> (r: bool)
        ensures
            r == (self@ > 0),
        no_unwind
    {
        proof {
            use_type_invariant(self);
        }
        self.secs > 0 || (self.secs == 0 && self.nanos > 0)
    }
}

} // verus!
