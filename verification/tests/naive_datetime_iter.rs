use chrono::{Duration, NaiveDateTime};
use chrono_kit::iter::{NaiveDatetimeIterError, NaiveDatetimeIterator};
use chrono_kit::span::Span;
use chrono_kit::timestamp::Timestamp;

fn ts(dt: NaiveDateTime) -> Timestamp {
    Timestamp::new(dt.and_utc().timestamp(), dt.and_utc().timestamp_subsec_nanos()).unwrap()
}

fn span(d: Duration) -> Span {
    let nanos = d.subsec_nanos();
    if nanos < 0 {
        Span::new(d.num_seconds() - 1, (nanos + 1_000_000_000) as u32).unwrap()
    } else {
        Span::new(d.num_seconds(), nanos as u32).unwrap()
    }
}

#[test]
fn test_ascending_iteration() {
    let start = NaiveDateTime::parse_from_str("2023-01-01 00:00:00", "%Y-%m-%d %H:%M:%S").unwrap();
    let end = NaiveDateTime::parse_from_str("2023-01-03 00:00:00", "%Y-%m-%d %H:%M:%S").unwrap();
    let step = Duration::days(1);

    let mut iter = NaiveDatetimeIterator::new(ts(start), ts(end), span(step)).unwrap();
    assert_eq!(iter.next(), Some(ts(start)));
    assert_eq!(iter.next(), Some(ts(start + step)));
    assert_eq!(iter.next(), Some(ts(end)));
    assert_eq!(iter.next(), None);
}

#[test]
fn test_descending_iteration() {
    let start = NaiveDateTime::parse_from_str("2023-01-01 00:00:00", "%Y-%m-%d %H:%M:%S").unwrap();
    let end = NaiveDateTime::parse_from_str("2023-01-03 00:00:00", "%Y-%m-%d %H:%M:%S").unwrap();
    let step = Duration::days(-1);

    let mut iter = NaiveDatetimeIterator::new(ts(start), ts(end), span(step)).unwrap();
    assert_eq!(iter.next(), Some(ts(end)));
    assert_eq!(iter.next(), Some(ts(end + step)));
    assert_eq!(iter.next(), Some(ts(start)));
    assert_eq!(iter.next(), None);
}

#[test]
fn naive_datetime_iter_test_zero_step_error() {
    let start = NaiveDateTime::parse_from_str("2023-01-01 00:00:00", "%Y-%m-%d %H:%M:%S").unwrap();
    let end = NaiveDateTime::parse_from_str("2023-01-03 00:00:00", "%Y-%m-%d %H:%M:%S").unwrap();
    let step = Duration::zero();

    let result = NaiveDatetimeIterator::new(ts(start), ts(end), span(step));
    assert!(matches!(result, Err(NaiveDatetimeIterError::ZeroStep)));
}

#[test]
fn naive_datetime_iter_test_invalid_range_error() {
    let start = NaiveDateTime::parse_from_str("2023-01-03 00:00:00", "%Y-%m-%d %H:%M:%S").unwrap();
    let end = NaiveDateTime::parse_from_str("2023-01-01 00:00:00", "%Y-%m-%d %H:%M:%S").unwrap();
    let step = Duration::days(1);

    let result = NaiveDatetimeIterator::new(ts(start), ts(end), span(step));
    assert!(matches!(result, Err(NaiveDatetimeIterError::InvalidRange { .. })));
}

#[test]
fn test_non_integer_step() {
    let start = NaiveDateTime::parse_from_str("2023-01-01 00:00:00", "%Y-%m-%d %H:%M:%S").unwrap();
    let end = NaiveDateTime::parse_from_str("2023-01-03 12:00:00", "%Y-%m-%d %H:%M:%S").unwrap();
    let step = Duration::days(1);

    let mut iter = NaiveDatetimeIterator::new(ts(start), ts(end), span(step)).unwrap();
    assert_eq!(iter.next(), Some(ts(start)));
    assert_eq!(iter.next(), Some(ts(start + step)));
    assert_eq!(iter.next(), Some(ts(start + step * 2)));
    assert_eq!(iter.next(), Some(ts(end)));
}
