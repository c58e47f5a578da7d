//! The point iterator.

use vstd::prelude::*;
use vstd::string::*;
use crate::calendar::{checked_add_signed, instant_of, render, rendered};
use crate::iter::points::PointModel;
use crate::span::Span;
use crate::timestamp::{lemma_order_is_lexicographic, Timestamp};

verus! {

/// Why an iterator could not be created.
#[derive(Clone, Copy, Debug, PartialEq, Eq, Structural)]
pub enum NaiveDatetimeIterError {
    /// The step is zero.
    ZeroStep,
    /// The start of the interval is after its end.
    InvalidRange { start: Timestamp, end: Timestamp },
}

/// The description of an invalid range whose endpoints read `start` and `end`.
pub open spec fn invalid_range_text(start: Seq<char>, end: Seq<char>) -> Seq<char> {
    "Invalid range: start "@ + start + " must be before end "@ + end + " for positive step"@
}

/// Describes an invalid range whose endpoints read `start` and `end`.
pub fn invalid_range_message(start: &str, end: &str) -> (s: String)
    ensures
        s@ == invalid_range_text(start@, end@),
{
    let mut s = "Invalid range: start ".to_owned();
    s.append(start);
    s.append(" must be before end ");
    s.append(end);
    s.append(" for positive step");
    s
}

impl NaiveDatetimeIterError {
    /// The description of the error; that of an invalid range names both endpoints
    /// as the calendar prints them.
    pub open spec fn description(self) -> Seq<char> {
        match self {
            NaiveDatetimeIterError::ZeroStep => "Step duration cannot be zero"@,
            NaiveDatetimeIterError::InvalidRange { start, end } => invalid_range_text(
                rendered(start@.secs, start@.nanos),
                rendered(end@.secs, end@.nanos),
            ),
        }
    }

    /// Describes the error for a human reader.
    pub fn message(&self) -> (s: String)
        ensures
            s@ == self.description(),
    {
        match self {
            NaiveDatetimeIterError::ZeroStep => "Step duration cannot be zero".to_owned(),
            NaiveDatetimeIterError::InvalidRange { start, end } => {
                let start = render(*start);
                let end = render(*end);
                invalid_range_message(start.as_str(), end.as_str())
            },
        }
    }
}

/// Yields the timestamps from one end of a closed interval to the other, a fixed
/// step apart.
///
/// A positive step walks from `start` to `end`, a negative step from `end` to
/// `start`. The last point is always the far endpoint, also when the step does not
/// divide the interval: a step that would pass the endpoint, or leave the range of
/// the calendar, stops on the endpoint instead. Advancing never fails.
pub struct NaiveDatetimeIterator {
    start: Timestamp,
    end: Timestamp,
    step: Span,
    cursor: Option<Timestamp>,
}

impl View for NaiveDatetimeIterator {
    type V = PointModel;

    closed spec fn view(&self) -> PointModel {
        PointModel {
            lo: self.start@,
            hi: self.end@,
            step: self.step@,
            cursor: instant_of(self.cursor),
        }
    }
}

impl NaiveDatetimeIterator {
    /// Every iterator is in a well-formed state.
    #[verifier::type_invariant]
    pub open spec fn inv(self) -> bool {
        self@.wf()
    }

    /// Creates the iterator over `[start, end]` with the given step.
    ///
    /// Fails with `ZeroStep` for a zero step, and otherwise with `InvalidRange` when
    /// `start` is after `end`, whatever the sign of the step.
    pub fn new(start: Timestamp, end: Timestamp, step: Span) -> (r: Result<
        Self,
        NaiveDatetimeIterError,
    >)
        ensures
            step@ == 0 ==> r == Err::<Self, NaiveDatetimeIterError>(
                NaiveDatetimeIterError::ZeroStep,
            ),
            step@ != 0 && end@.before(start@) ==> r == Err::<Self, NaiveDatetimeIterError>(
                NaiveDatetimeIterError::InvalidRange { start, end },
            ),
            step@ != 0 && !end@.before(start@) ==> (r matches Ok(it) && it@ == PointModel::initial(
                start@,
                end@,
                step@,
            )),
    {
        if step.is_zero() {
            return Err(NaiveDatetimeIterError::ZeroStep);
        }
        if end.is_before(&start) {
            return Err(NaiveDatetimeIterError::InvalidRange { start, end });
        }
        proof {
            use_type_invariant(&start);
            use_type_invariant(&end);
            lemma_order_is_lexicographic(start@, end@);
        }
        let cursor = if step.is_positive() {
            start
        } else {
            end
        };
        Ok(NaiveDatetimeIterator { start, end, step, cursor: Some(cursor) })
    }

    /// Where the cursor settles after `cur`, short of the far endpoint, when the
    /// calendar gives `tentative` for `cur + step`: on `tentative` when that lies
    /// beyond `cur` and not beyond the far endpoint, else on the far endpoint.
    ///
    /// This is the rule that [`next`](Self::next) applies to the sum it has asked
    /// the calendar for.
    pub fn settled(&self, cur: Timestamp, tentative: Option<Timestamp>) -> (r: Timestamp)
        ensures
            r@ == self@.settled(cur@, instant_of(tentative)),
        no_unwind
    {
        let ascending = self.step.is_positive();
        let far = if ascending {
            self.end
        } else {
            self.start
        };
        match tentative {
            Some(t) => {
                proof {
                    use_type_invariant(&t);
                    use_type_invariant(&far);
                    lemma_order_is_lexicographic(t@, far@);
                }
                let moves_on = if ascending {
                    cur.is_before(&t) && !far.is_before(&t)
                } else {
                    t.is_before(&cur) && !t.is_before(&far)
                };
                if moves_on {
                    t
                } else {
                    far
                }
            },
            None => far,
        }
    }

    fn next_asc(&mut self) -> (r: Option<Timestamp>)
        requires
            old(self)@.ascending(),
        ensures
            instant_of(r) == old(self)@.cursor,
            final(self)@ == old(self)@.advanced(),
        no_unwind
    {
        proof {
            use_type_invariant(&*self);
        }
        let cur = match self.cursor {
            Some(c) => c,
            None => {
                return None;
            },
        };
        let next = if cur.is_before(&self.end) {
            Some(self.settled(cur, checked_add_signed(cur, self.step)))
        } else {
            None
        };
        self.cursor = next;
        Some(cur)
    }

    fn next_desc(&mut self) -> (r: Option<Timestamp>)
        requires
            !old(self)@.ascending(),
        ensures
            instant_of(r) == old(self)@.cursor,
            final(self)@ == old(self)@.advanced(),
        no_unwind
    {
        proof {
            use_type_invariant(&*self);
        }
        let cur = match self.cursor {
            Some(c) => c,
            None => {
                return None;
            },
        };
        let next = if self.start.is_before(&cur) {
            Some(self.settled(cur, checked_add_signed(cur, self.step)))
        } else {
            None
        };
        self.cursor = next;
        Some(cur)
    }

    /// Yields the next point, or `None` once the far endpoint has been yielded.
    pub fn next(&mut self) -> (r: Option<Timestamp>)
        ensures
            instant_of(r) == old(self)@.cursor,
            final(self)@ == old(self)@.advanced(),
            old(self)@.points() == match r {
                Some(p) => seq![p@] + final(self)@.points(),
                None => Seq::empty(),
            },
        no_unwind
    {
        if self.step.is_positive() {
            self.next_asc()
        } else {
            self.next_desc()
        }
    }
}

} // verus!
