//! Iterators over intervals of timestamps.
//!
//! - [`NaiveDatetimeIterator`] yields the points of an interval, one step apart.
//! - [`NaiveDatetimeRangeIterator`] yields the ranges between consecutive points.
//!
//! A positive step walks from the early endpoint to the late one, a negative step
//! the other way round.

pub mod naive_datetime_iter;
pub mod naive_datetime_range_iter;
pub mod pairs;
pub mod points;
pub mod spacing;

pub use naive_datetime_iter::{NaiveDatetimeIterError, NaiveDatetimeIterator};
pub use naive_datetime_range_iter::NaiveDatetimeRangeIterator;
