use chrono::{Duration, NaiveDate, NaiveDateTime, Timelike};
use chrono_kit::iter::naive_datetime_iter::invalid_range_message;
use chrono_kit::iter::{NaiveDatetimeIterError, NaiveDatetimeIterator, NaiveDatetimeRangeIterator};
use chrono_kit::span::{Span, MAX_SPAN_NANOS};
use chrono_kit::timestamp::{Timestamp, MAX_SECONDS, MIN_SECONDS, NANOS_LIMIT, NANOS_PER_SEC};

fn ts(dt: NaiveDateTime) -> Timestamp {
    Timestamp::new(dt.and_utc().timestamp(), dt.and_utc().timestamp_subsec_nanos()).unwrap()
}

fn span(d: Duration) -> Span {
    let nanos = d.subsec_nanos();
    if nanos < 0 {
        Span::new(d.num_seconds() - 1, (nanos + 1_000_000_000) as u32).unwrap()
    } else {
        Span::new(d.num_seconds(), nanos as u32).unwrap()
    }
}

fn at(y: i32, m: u32, d: u32, h: u32, min: u32, s: u32) -> NaiveDateTime {
    NaiveDate::from_ymd_opt(y, m, d).unwrap().and_hms_opt(h, min, s).unwrap()
}

fn collect(mut iter: NaiveDatetimeIterator) -> Vec<Timestamp> {
    let mut out = Vec::new();
    while let Some(p) = iter.next() {
        out.push(p);
        assert!(out.len() < 10_000);
    }
    out
}

#[test]
fn range_constants_match_the_calendar() {
    assert_eq!(MIN_SECONDS, NaiveDateTime::MIN.and_utc().timestamp());
    assert_eq!(MAX_SECONDS, NaiveDateTime::MAX.and_utc().timestamp());
    assert_eq!(NANOS_PER_SEC, 1_000_000_000);
    assert_eq!(NANOS_LIMIT, 2_000_000_000);
    let max = Duration::MAX;
    assert_eq!(
        MAX_SPAN_NANOS,
        max.num_seconds() as i128 * 1_000_000_000 + max.subsec_nanos() as i128
    );
    let min = Duration::MIN;
    assert_eq!(
        -MAX_SPAN_NANOS,
        min.num_seconds() as i128 * 1_000_000_000 + min.subsec_nanos() as i128
    );
}

#[test]
fn timestamp_new_accepts_exactly_the_calendar_range() {
    assert!(Timestamp::new(MIN_SECONDS, 0).is_some());
    assert!(Timestamp::new(MIN_SECONDS - 1, 0).is_none());
    assert!(Timestamp::new(MAX_SECONDS, 999_999_999).is_some());
    assert!(Timestamp::new(MAX_SECONDS, 1_999_999_999).is_some());
    assert!(Timestamp::new(MAX_SECONDS + 1, 0).is_none());
    assert!(Timestamp::new(0, 2_000_000_000).is_none());
    let t = Timestamp::new(1_672_531_200, 5).unwrap();
    assert_eq!(t.secs(), 1_672_531_200);
    assert_eq!(t.nanos(), 5);
    assert_eq!(ts(at(2023, 1, 1, 0, 0, 0)).secs(), 1_672_531_200);
}

#[test]
fn span_new_accepts_exactly_the_duration_range() {
    assert!(Span::new(0, 1_000_000_000).is_none());
    assert!(Span::new(9_223_372_036_854_775, 807_000_000).is_some());
    assert!(Span::new(9_223_372_036_854_775, 807_000_001).is_none());
    assert!(Span::new(9_223_372_036_854_776, 0).is_none());
    assert!(Span::new(-9_223_372_036_854_776, 193_000_000).is_some());
    assert!(Span::new(-9_223_372_036_854_776, 192_999_999).is_none());
    assert!(Span::new(i64::MIN, 0).is_none());
    assert!(Span::new(i64::MAX, 999_999_999).is_none());
    let s = Span::new(-1, 750_000_000).unwrap();
    assert_eq!(s.secs(), -1);
    assert_eq!(s.nanos(), 750_000_000);
    assert_eq!(s, span(Duration::milliseconds(-250)));
}

#[test]
fn span_sign_tests() {
    assert!(Span::new(0, 0).unwrap().is_zero());
    assert!(!Span::new(0, 0).unwrap().is_positive());
    assert!(Span::new(0, 1).unwrap().is_positive());
    assert!(!Span::new(0, 1).unwrap().is_zero());
    assert!(!Span::new(-1, 999_999_999).unwrap().is_positive());
    assert!(!Span::new(-1, 999_999_999).unwrap().is_zero());
    assert!(Span::new(3, 0).unwrap().is_positive());
}

#[test]
fn timestamp_order_is_by_seconds_then_nanoseconds() {
    let a = Timestamp::new(10, 999_999_999).unwrap();
    let b = Timestamp::new(11, 0).unwrap();
    let leap = Timestamp::new(10, 1_500_000_000).unwrap();
    assert!(a.is_before(&b));
    assert!(!b.is_before(&a));
    assert!(!a.is_before(&a));
    assert!(a.is_before(&leap));
    assert!(leap.is_before(&b));
    let neg = Timestamp::new(-5, 3).unwrap();
    assert!(neg.is_before(&a));
    let x = at(2016, 7, 8, 3, 5, 59).with_nanosecond(1_300_000_000).unwrap();
    let y = at(2016, 7, 8, 3, 6, 0);
    assert_eq!(ts(x).is_before(&ts(y)), x < y);
    assert_eq!(ts(y).is_before(&ts(x)), y < x);
}

#[test]
fn steps_are_the_calendars_own_additions() {
    let start = at(2023, 1, 1, 0, 0, 0);
    let end = at(2023, 1, 1, 0, 0, 10);
    let step = Duration::milliseconds(2_500);
    let points = collect(NaiveDatetimeIterator::new(ts(start), ts(end), span(step)).unwrap());
    assert_eq!(
        points,
        vec![
            ts(start),
            ts(start + step),
            ts(start + step * 2),
            ts(start + step * 3),
            ts(end),
        ]
    );
    assert_eq!(points[1], Timestamp::new(1_672_531_202, 500_000_000).unwrap());
}

#[test]
fn negative_fractional_steps_walk_down() {
    let start = at(2023, 1, 1, 0, 0, 0);
    let end = at(2023, 1, 1, 0, 0, 1);
    let step = Duration::milliseconds(-400);
    let points = collect(NaiveDatetimeIterator::new(ts(start), ts(end), span(step)).unwrap());
    assert_eq!(
        points,
        vec![ts(end), ts(end + step), ts(end + step * 2), ts(start)]
    );
    assert_eq!(points[1], Timestamp::new(1_672_531_200, 600_000_000).unwrap());
}

#[test]
fn leap_second_start_follows_the_calendar() {
    let leap = at(2016, 7, 8, 3, 5, 59).with_nanosecond(1_300_000_000).unwrap();
    let end = at(2016, 7, 8, 3, 6, 1);
    let step = Duration::milliseconds(500);
    let points = collect(NaiveDatetimeIterator::new(ts(leap), ts(end), span(step)).unwrap());
    let mut expected = Vec::new();
    let mut cur = leap;
    while cur < end {
        expected.push(ts(cur));
        let next = cur + step;
        cur = if next > end { end } else { next };
    }
    expected.push(ts(end));
    assert_eq!(points, expected);
    assert_eq!(points[1], Timestamp::new(ts(leap).secs(), 1_800_000_000).unwrap());
    assert_eq!(points[2], Timestamp::new(ts(leap).secs() + 1, 300_000_000).unwrap());
}

#[test]
fn leap_second_descending_follows_the_calendar() {
    let start = at(2016, 7, 8, 3, 5, 50);
    let leap = at(2016, 7, 8, 3, 5, 59).with_nanosecond(1_300_000_000).unwrap();
    let step = Duration::seconds(-4);
    let points = collect(NaiveDatetimeIterator::new(ts(start), ts(leap), span(step)).unwrap());
    assert_eq!(
        points,
        vec![ts(leap), ts(leap + step), ts(leap + step + step), ts(start)]
    );
    assert_eq!(points[1], ts(at(2016, 7, 8, 3, 5, 56).with_nanosecond(300_000_000).unwrap()));
}

#[test]
fn step_beyond_the_calendar_clamps_to_the_far_endpoint() {
    let lo = ts(NaiveDateTime::MAX - Duration::days(1));
    let hi = ts(NaiveDateTime::MAX);
    let step = span(Duration::days(3));
    let points = collect(NaiveDatetimeIterator::new(lo, hi, step).unwrap());
    assert_eq!(points, vec![lo, hi]);

    let lo = ts(NaiveDateTime::MIN);
    let hi = ts(NaiveDateTime::MIN + Duration::days(1));
    let step = span(Duration::MIN);
    let points = collect(NaiveDatetimeIterator::new(lo, hi, step).unwrap());
    assert_eq!(points, vec![hi, lo]);

    let step = span(Duration::MAX);
    let mut ranges = NaiveDatetimeRangeIterator::new(lo, hi, step).unwrap();
    assert_eq!(ranges.next(), Some((lo, hi)));
    assert_eq!(ranges.next(), None);
}

#[test]
fn walk_ends_on_the_last_instant_of_the_calendar() {
    let hi = ts(NaiveDateTime::MAX);
    let lo = ts(NaiveDateTime::MAX - Duration::seconds(2));
    let points = collect(NaiveDatetimeIterator::new(lo, hi, span(Duration::seconds(1))).unwrap());
    assert_eq!(points.len(), 3);
    assert_eq!(points[0], lo);
    assert_eq!(points[2], hi);
}

#[test]
fn messages_name_the_error_and_the_endpoints() {
    assert_eq!(NaiveDatetimeIterError::ZeroStep.message(), "Step duration cannot be zero");
    let start = at(2023, 1, 3, 0, 0, 0);
    let end = at(2023, 1, 1, 0, 0, 0);
    let err = match NaiveDatetimeIterator::new(ts(start), ts(end), span(Duration::days(1))) {
        Err(e) => e,
        Ok(_) => panic!("an inverted interval was accepted"),
    };
    assert_eq!(err, NaiveDatetimeIterError::InvalidRange { start: ts(start), end: ts(end) });
    assert_eq!(
        err.message(),
        "Invalid range: start 2023-01-03 00:00:00 must be before end 2023-01-01 00:00:00 for positive step"
    );
    assert_eq!(
        err.message(),
        format!("Invalid range: start {} must be before end {} for positive step", start, end)
    );
    let frac = end.with_nanosecond(250_000_000).unwrap();
    let err = NaiveDatetimeIterError::InvalidRange { start: ts(start), end: ts(frac) };
    assert_eq!(
        err.message(),
        "Invalid range: start 2023-01-03 00:00:00 must be before end 2023-01-01 00:00:00.250 for positive step"
    );
}

#[test]
fn settled_takes_the_sum_only_inside_the_rest_of_the_interval() {
    let lo = Timestamp::new(100, 0).unwrap();
    let hi = Timestamp::new(200, 0).unwrap();
    let t = |s: i64| Timestamp::new(s, 0).unwrap();
    let up = NaiveDatetimeIterator::new(lo, hi, Span::new(30, 0).unwrap()).unwrap();
    assert_eq!(up.settled(t(130), Some(t(160))), t(160));
    assert_eq!(up.settled(t(170), Some(hi)), hi);
    assert_eq!(up.settled(t(190), Some(t(220))), hi);
    assert_eq!(up.settled(t(190), Some(Timestamp::new(200, 1).unwrap())), hi);
    assert_eq!(up.settled(t(190), None), hi);
    assert_eq!(up.settled(t(130), Some(t(130))), hi);
    assert_eq!(up.settled(t(130), Some(t(110))), hi);

    let down = NaiveDatetimeIterator::new(lo, hi, Span::new(-30, 0).unwrap()).unwrap();
    assert_eq!(down.settled(t(170), Some(t(140))), t(140));
    assert_eq!(down.settled(t(130), Some(lo)), lo);
    assert_eq!(down.settled(t(110), Some(t(80))), lo);
    assert_eq!(down.settled(t(110), Some(Timestamp::new(99, 999_999_999).unwrap())), lo);
    assert_eq!(down.settled(t(110), None), lo);
    assert_eq!(down.settled(t(170), Some(t(170))), lo);
    assert_eq!(down.settled(t(170), Some(t(190))), lo);
}

#[test]
fn invalid_range_message_frames_both_texts() {
    assert_eq!(
        invalid_range_message("A", "B"),
        "Invalid range: start A must be before end B for positive step"
    );
    assert_eq!(
        invalid_range_message("", ""),
        "Invalid range: start  must be before end  for positive step"
    );
}
