use chrono::{DateTime, FixedOffset};
use reservation::{NaiveRange, RangeBound, Reservation, ReservationError, ReservationStatus, Timestamp, UtcTime};
use reservation::time::{MAX_UTC_SECONDS, MIN_UTC_SECONDS};
use reservation::{convert_to_timestamp, convert_to_utc_time};

fn instant(s: &str) -> UtcTime {
    let dt: DateTime<FixedOffset> = s.parse().unwrap();
    UtcTime { seconds: dt.timestamp(), nanos: dt.timestamp_subsec_nanos() }
}

fn pending(uid: &str, rid: &str, start: &str, end: &str) -> Reservation {
    Reservation::new_pending(uid, rid, "note", instant(start), instant(end))
}

#[test]
fn new_pending_reservation_is_valid() {
    let r = pending("user_id", "resource_id", "2022-12-25T15:00:00-0700", "2022-12-28T12:00:00-0700");
    assert_eq!(r.id, "");
    assert_eq!(r.user_id, "user_id");
    assert_eq!(r.resource_id, "resource_id");
    assert_eq!(r.notes, "note");
    assert_eq!(r.status, 1);
    assert_eq!(r.start_time, Some(Timestamp { seconds: 1672005600, nanos: 0 }));
    assert_eq!(r.end_time, Some(Timestamp { seconds: 1672254000, nanos: 0 }));
    assert!(r.validate().is_ok());
    let span = r.get_timespan();
    assert_eq!(span.start, instant("2022-12-25T22:00:00+0000"));
    assert_eq!(span.end, instant("2022-12-28T19:00:00+0000"));
}

#[test]
fn validation_reports_the_first_problem() {
    let r = pending("", "", "2022-12-25T15:00:00-0700", "2022-12-28T12:00:00-0700");
    assert!(matches!(r.validate(), Err(ReservationError::InvalidUserId(s)) if s.is_empty()));
    let r = pending("alice", "", "2022-12-25T15:00:00-0700", "2022-12-28T12:00:00-0700");
    assert!(matches!(r.validate(), Err(ReservationError::InvalidResourceId(s)) if s.is_empty()));
    let r = pending("alice", "room", "2022-12-28T12:00:00-0700", "2022-12-25T15:00:00-0700");
    assert!(matches!(r.validate(), Err(ReservationError::InvalidTime)));
    let r = pending("alice", "room", "2022-12-25T15:00:00-0700", "2022-12-25T15:00:00-0700");
    assert!(matches!(r.validate(), Err(ReservationError::InvalidTime)));
    let mut r = pending("alice", "room", "2022-12-25T15:00:00-0700", "2022-12-28T12:00:00-0700");
    r.end_time = None;
    assert!(matches!(r.validate(), Err(ReservationError::InvalidTime)));
    let mut r = pending("alice", "room", "2022-12-25T15:00:00-0700", "2022-12-25T15:00:00-0700");
    r.end_time = Some(Timestamp { seconds: r.start_time.unwrap().seconds, nanos: 1 });
    assert!(r.validate().is_ok());
}

#[test]
fn unreadable_times_are_detected() {
    let mut r = pending("alice", "room", "2022-12-25T15:00:00-0700", "2022-12-28T12:00:00-0700");
    assert!(r.reads_times());
    assert!(r.has_readable_times());
    let mut no_user = r.clone();
    no_user.user_id = String::new();
    assert!(!no_user.reads_times());
    no_user.end_time = Some(Timestamp { seconds: 0, nanos: -1 });
    assert!(matches!(no_user.validate(), Err(ReservationError::InvalidUserId(_))));
    r.start_time = Some(Timestamp { seconds: 0, nanos: -1 });
    assert!(!r.has_readable_times());
    r.start_time = Some(Timestamp { seconds: MAX_UTC_SECONDS + 1, nanos: 0 });
    assert!(!r.has_readable_times());
    r.start_time = Some(Timestamp { seconds: 59, nanos: 1_500_000_000 });
    assert!(r.has_readable_times());
    r.start_time = Some(Timestamp { seconds: 58, nanos: 1_500_000_000 });
    assert!(!r.has_readable_times());
}

#[test]
fn utc_range_limits_are_those_of_chrono() {
    assert!(UtcTime::from_timestamp(MIN_UTC_SECONDS, 0).is_some());
    assert!(UtcTime::from_timestamp(MIN_UTC_SECONDS - 1, 999_999_999).is_none());
    assert!(UtcTime::from_timestamp(MAX_UTC_SECONDS, 999_999_999).is_some());
    assert!(UtcTime::from_timestamp(MAX_UTC_SECONDS + 1, 0).is_none());
    assert!(UtcTime::from_timestamp(0, 2_000_000_000).is_none());
    assert!(UtcTime::from_timestamp(-1, 1_999_999_999).is_some());
    assert!(UtcTime::from_timestamp(-2, 1_000_000_000).is_none());
    assert_eq!(UtcTime::from_timestamp(42, 7), Some(UtcTime { seconds: 42, nanos: 7 }));
}

#[test]
fn timestamps_round_trip() {
    let t = UtcTime { seconds: -12345, nanos: 999_999_999 };
    let ts = convert_to_timestamp(t);
    assert_eq!(ts, Timestamp { seconds: -12345, nanos: 999_999_999 });
    assert_eq!(convert_to_utc_time(ts), t);
    assert!(t.is_before(&UtcTime { seconds: -12344, nanos: 0 }));
    assert!(!t.is_before(&t));
}

#[test]
fn status_labels_and_numbers() {
    assert_eq!(ReservationStatus::Pending.to_string(), "pending");
    assert_eq!(ReservationStatus::Confirmed.to_string(), "confirmed");
    assert_eq!(ReservationStatus::Blocked.to_string(), "blocked");
    assert_eq!(ReservationStatus::Unknown.to_string(), "unknown");
    assert_eq!(ReservationStatus::from_i32(2), Some(ReservationStatus::Confirmed));
    assert_eq!(ReservationStatus::from_i32(4), None);
    assert_eq!(ReservationStatus::from_i32_or_pending(-1), ReservationStatus::Pending);
    assert_eq!(ReservationStatus::from_i32_or_pending(3), ReservationStatus::Blocked);
    assert_eq!(ReservationStatus::Blocked.code(), 3);
}

#[test]
fn row_values_make_a_reservation() {
    let start = instant("2022-12-25T22:00:00+0000");
    let end = instant("2022-12-28T19:00:00+0000");
    let range = NaiveRange::from_bounds(RangeBound::Included(start), RangeBound::Excluded(end));
    assert_eq!(range, NaiveRange { start: Some(start), end: Some(end) });
    let unbounded: NaiveRange<UtcTime> = NaiveRange::from_bounds(RangeBound::Unbounded, RangeBound::Unbounded);
    assert_eq!(unbounded, NaiveRange { start: None, end: None });
    let r = Reservation::from_row_values("id-1".to_string(), "alice".to_string(), "room".to_string(), range, "n".to_string(), 2);
    assert_eq!(r.id, "id-1");
    assert_eq!(r.status, 2);
    let span = r.get_timespan();
    assert_eq!(span.start, start);
    assert_eq!(span.end, end);
}

#[test]
fn reserve_request_carries_the_reservation() {
    let mut r = pending("alice", "room", "2022-12-25T15:00:00-0700", "2022-12-28T12:00:00-0700");
    r.status = 9;
    let q = r.reserve_request().unwrap();
    assert_eq!(q.user_id, "alice");
    assert_eq!(q.resource_id, "room");
    assert_eq!(q.note, "note");
    assert_eq!(q.status, "pending");
    assert_eq!(q.timespan.start, instant("2022-12-25T15:00:00-0700"));
    r.status = 2;
    assert_eq!(r.reserve_request().unwrap().status, "confirmed");
    let bad = pending("", "room", "2022-12-25T15:00:00-0700", "2022-12-28T12:00:00-0700");
    assert!(matches!(bad.reserve_request(), Err(ReservationError::InvalidUserId(_))));
    let stored = r.with_id("abc".to_string());
    assert_eq!(stored.id, "abc");
    assert_eq!(stored.user_id, "alice");
}
