//! Calendar arithmetic, carried out by `chrono`.

use vstd::prelude::*;
use chrono::{DateTime, TimeDelta, Timelike};
use crate::span::Span;
use crate::timestamp::{Instant, Timestamp};

verus! {

/// What `chrono` makes of adding `span` nanoseconds to the leap-second instant
/// `nanos` nanoseconds after the whole second `secs`.
pub uninterp spec fn leap_second_sum(secs: int, nanos: int, span: int) -> Option<Instant>;

/// The text `chrono` prints for the instant `nanos` nanoseconds after the whole
/// second `secs`.
pub uninterp spec fn rendered(secs: int, nanos: int) -> Seq<char>;

impl Instant {
    /// The instant `span` nanoseconds away from `self`, or `None` when the calendar
    /// does not reach that far.
    ///
    /// Outside a leap second the time line has no leap seconds at all, so the sum
    /// is taken on whole nanoseconds. Inside a leap second the sum is the
    /// calendar's own.
    pub open spec fn plus(self, span: int) -> Option<Instant> {
        if self.is_leap() {
            leap_second_sum(self.secs, self.nanos, span)
        } else {
            self.plain_sum(span)
        }
    }

    /// The sum on a time line without leap seconds: whole nanoseconds are added, and
    /// the result exists when it is within the calendar's range.
    pub open spec fn plain_sum(self, span: int) -> Option<Instant> {
        let sum = Instant::at(self.epoch_nanos() + span);
        if sum.valid() {
            Some(sum)
        } else {
            None
        }
    }
}

/// The value of an optional timestamp.
pub open spec fn instant_of(t: Option<Timestamp>) -> Option<Instant> {
    match t {
        Some(u) => Some(u@),
        None => None,
    }
}

/// `NaiveDateTime::checked_add_signed`, between the library's own types.
///
/// Trusted: the call does not panic. Outside a leap second the result is the plain
/// sum, `None` standing for a sum outside the calendar's range; inside a leap
/// second it is a function of the two arguments. A sum that exists is a valid
/// instant.
#[verifier::external_body]
pub(crate) fn checked_add_signed(t: Timestamp, d: Span) -> (r: Option<Timestamp>)
    ensures
        !t@.is_leap() ==> instant_of(r) == t@.plain_sum(d@),
        t@.is_leap() ==> instant_of(r) == leap_second_sum(t@.secs, t@.nanos, d@),
        r matches Some(u) ==> u@.valid(),
    no_unwind
{
    let start = DateTime::from_timestamp(t.secs, 0)?.naive_utc().with_nanosecond(t.nanos)?;
    let sum = start.checked_add_signed(TimeDelta::new(d.secs, d.nanos)?)?.and_utc();
    Some(Timestamp { secs: sum.timestamp(), nanos: sum.timestamp_subsec_nanos() })
}

/// `NaiveDateTime`'s `Display`, for one of the library's instants.
///
/// Trusted: the text depends on the instant alone.
#[verifier::external_body]
pub(crate) fn render(t: Timestamp) -> (s: String)
    ensures
        s@ == rendered(t@.secs, t@.nanos),
{
    let second = DateTime::from_timestamp(t.secs, 0).unwrap_or_default().naive_utc();
    second.with_nanosecond(t.nanos).unwrap_or_default().to_string()
}

} // verus!
