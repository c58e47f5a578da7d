//! The range iterator.

use vstd::prelude::*;
use crate::calendar::instant_of;
use crate::iter::naive_datetime_iter::{NaiveDatetimeIterError, NaiveDatetimeIterator};
use crate::iter::pairs::{lemma_advance_yields_first_pair, RangeModel};
use crate::iter::points::lemma_advanced_wf;
use crate::span::Span;
use crate::timestamp::{Instant, Timestamp};

verus! {

/// The value of an optional range.
pub open spec fn range_of(r: Option<(Timestamp, Timestamp)>) -> Option<(Instant, Instant)> {
    match r {
        Some((a, b)) => Some((a@, b@)),
        None => None,
    }
}

/// Yields the ranges between the consecutive points of a closed interval.
///
/// Each range is a pair `(earlier, later)`, in whichever direction the points are
/// walked; the ranges follow one another in walking order.
pub struct NaiveDatetimeRangeIterator {
    datetime_iter: NaiveDatetimeIterator,
    current: Option<Timestamp>,
    asc: bool,
}

impl View for NaiveDatetimeRangeIterator {
    type V = RangeModel;

    closed spec fn view(&self) -> RangeModel {
        RangeModel { inner: self.datetime_iter@, prev: instant_of(self.current), asc: self.asc }
    }
}

impl NaiveDatetimeRangeIterator {
    /// Every iterator is in a well-formed state.
    #[verifier::type_invariant]
    pub open spec fn inv(self) -> bool {
        self@.wf()
    }

    /// Creates the iterator over `[start, end]` with the given step.
    ///
    /// Fails as [`NaiveDatetimeIterator::new`] does.
    pub fn new(start: Timestamp, end: Timestamp, step: Span) -> (r: Result<
        Self,
        NaiveDatetimeIterError,
    >)
        ensures
            step@ == 0 ==> r == Err::<Self, NaiveDatetimeIterError>(
                NaiveDatetimeIterError::ZeroStep,
            ),
            step@ != 0 && end@.before(start@) ==> r == Err::<Self, NaiveDatetimeIterError>(
                NaiveDatetimeIterError::InvalidRange { start, end },
            ),
            step@ != 0 && !end@.before(start@) ==> (r matches Ok(it) && it@ == RangeModel::initial(
                start@,
                end@,
                step@,
            )),
    {
        match NaiveDatetimeIterator::new(start, end, step) {
            Ok(datetime_iter) => {
                proof {
                    use_type_invariant(&datetime_iter);
                }
                Ok(NaiveDatetimeRangeIterator { datetime_iter, current: None, asc: step.is_positive() })
            },
            Err(e) => Err(e),
        }
    }

    /// Yields the next range, or `None` once the points are used up.
    pub fn next(&mut self) -> (r: Option<(Timestamp, Timestamp)>)
        ensures
            range_of(r) == old(self)@.emitted(),
            final(self)@ == old(self)@.advanced(),
            old(self)@.pairs() == match r {
                Some(pair) => seq![(pair.0@, pair.1@)] + final(self)@.pairs(),
                None => Seq::empty(),
            },
    {
        proof {
            use_type_invariant(&*self);
            lemma_advance_yields_first_pair(self@);
            lemma_advanced_wf(self@.inner);
            lemma_advanced_wf(self@.inner.advanced());
        }
        let start = match self.current {
            Some(dt) => dt,
            None => {
                match self.datetime_iter.next() {
                    Some(first) => {
                        self.current = Some(first);
                        first
                    },
                    None => {
                        return None;
                    },
                }
            },
        };
        let end = match self.datetime_iter.next() {
            Some(end) => end,
            None => {
                return None;
            },
        };
        self.current = Some(end);
        if self.asc {
            Some((start, end))
        } else {
            Some((end, start))
        }
    }
}

} // verus!
