//! Stepping over closed intervals of wall-clock timestamps.
//!
//! [`iter::NaiveDatetimeIterator`] walks an interval `[lo, hi]` in fixed steps and
//! always ends on the far endpoint; [`iter::NaiveDatetimeRangeIterator`] pairs
//! consecutive points into `(earlier, later)` ranges. The sign of the step selects
//! the direction of travel.
//!
//! Timestamps and steps are the library's own [`timestamp::Timestamp`] and
//! [`span::Span`], which hold the seconds and nanoseconds of a `chrono` datetime
//! and duration. Sums of the two are `chrono`'s, see [`calendar`]. What the
//! iterators yield is stated over the sequences in [`iter::points`] and
//! [`iter::pairs`], where the laws of those sequences are proved.

pub mod calendar;
pub mod iter;
pub mod span;
pub mod timestamp;
