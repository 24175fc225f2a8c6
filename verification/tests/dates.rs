use blog_engine::archive::{format_month_day, year_of_date};
use blog_engine::date_format::{date_or_error, deserialize, serialize, Timestamp};
use chrono::{DateTime, Datelike};

#[test]
fn deserialize_reads_the_fields() {
    let date = deserialize("2024-05-17T10:30:45+0800").unwrap();
    assert_eq!(date.year, 2024);
    assert_eq!(date.month, 5);
    assert_eq!(date.day, 17);
    assert_eq!(date.offset_seconds, 8 * 3600);
    assert_eq!(date.subsec_nanos, 0);
    // 2024-05-17T02:30:45Z
    assert_eq!(date.epoch_seconds, 1715913045);
}

#[test]
fn deserialize_agrees_with_chrono() {
    for text in ["1999-12-31T23:59:59-0500", "2000-02-29T00:00:00+0000", "2038-01-19T03:14:08+0930"] {
        let ours = deserialize(text).unwrap();
        let theirs = DateTime::parse_from_str(text, "%Y-%m-%dT%H:%M:%S%z").unwrap();
        assert_eq!(ours.epoch_seconds, theirs.timestamp());
        assert_eq!(ours.subsec_nanos, theirs.timestamp_subsec_nanos());
        assert_eq!(ours.offset_seconds, theirs.offset().local_minus_utc());
        assert_eq!(ours.year, theirs.year());
        assert_eq!(ours.month, theirs.month());
        assert_eq!(ours.day, theirs.day());
    }
}

#[test]
fn deserialize_rejects_other_layouts() {
    for text in ["", "2024-05-17", "2024-05-17 10:30:45", "2024-05-17T10:30:45", "2024-13-01T00:00:00+0000", "yesterday"] {
        let error = deserialize(text).unwrap_err();
        assert_eq!(error.text, text);
    }
}

#[test]
fn date_or_error_keeps_the_text() {
    let date = Timestamp { epoch_seconds: 1, subsec_nanos: 0, offset_seconds: 0, year: 1970, month: 1, day: 1 };
    assert_eq!(date_or_error("x", Some(date)), Ok(date));
    assert_eq!(date_or_error("x", None).unwrap_err().text, "x");
}

#[test]
fn serialize_writes_the_layout() {
    let date = deserialize("2024-05-17T10:30:45+0800").unwrap();
    assert_eq!(serialize(&date), Some("2024-05-17T10:30:45+0800".to_string()));
    let date = deserialize("1999-12-31T23:59:59-0500").unwrap();
    assert_eq!(serialize(&date), Some("1999-12-31T23:59:59-0500".to_string()));
}

#[test]
fn serialize_refuses_what_is_no_date() {
    let bad_offset = Timestamp { epoch_seconds: 0, subsec_nanos: 0, offset_seconds: 90000, year: 1970, month: 1, day: 1 };
    assert_eq!(serialize(&bad_offset), None);
    let bad_instant = Timestamp { epoch_seconds: i64::MAX, subsec_nanos: 0, offset_seconds: 0, year: 1970, month: 1, day: 1 };
    assert_eq!(serialize(&bad_instant), None);
}

#[test]
fn earlier_instant_is_before() {
    let early = deserialize("2024-05-17T10:00:00+0800").unwrap();
    let late = deserialize("2024-05-17T03:00:00+0000").unwrap();
    assert!(early.before(&late));
    assert!(!late.before(&early));
    assert!(!early.before(&early));
    // The same instant written at two offsets.
    let same = deserialize("2024-05-17T02:00:00+0000").unwrap();
    assert!(!early.before(&same));
    assert!(!same.before(&early));
    let a = Timestamp { epoch_seconds: 5, subsec_nanos: 1, offset_seconds: 0, year: 1970, month: 1, day: 1 };
    let b = Timestamp { epoch_seconds: 5, subsec_nanos: 2, offset_seconds: 0, year: 1970, month: 1, day: 1 };
    assert!(a.before(&b));
    assert!(!b.before(&a));
}

#[test]
fn month_and_day_have_two_digits() {
    let date = deserialize("2024-05-07T10:30:45+0800").unwrap();
    assert_eq!(format_month_day(&date), "05-07");
    let date = deserialize("2024-12-31T10:30:45+0800").unwrap();
    assert_eq!(format_month_day(&date), "12-31");
    let theirs = DateTime::parse_from_str("2024-12-31T10:30:45+0800", "%Y-%m-%dT%H:%M:%S%z").unwrap();
    assert_eq!(format_month_day(&date), theirs.format("%m-%d").to_string());
}

#[test]
fn archive_year_of_a_date() {
    let date = deserialize("2024-05-07T10:30:45+0800").unwrap();
    assert_eq!(year_of_date(&date), 2024);
    let old = Timestamp { epoch_seconds: 0, subsec_nanos: 0, offset_seconds: 0, year: -1, month: 1, day: 1 };
    assert_eq!(year_of_date(&old), u32::MAX);
    assert_eq!(year_of_date(&old), (-1i32) as u32);
}
