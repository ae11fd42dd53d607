use chrono::DateTime;
use chrono::Datelike;
use chrono::NaiveDateTime;
use chrono::Timelike;

use syslog_decode::record::Timestamp;
use syslog_decode::timestamp::parse_timestamp;

const TIMESTAMP_WITH_TZ: &str = "%Y%m%dT%H%M%S%z";
const TIMESTAMP_WITHOUT_TZ: &str = "%Y%m%dT%H%M%S";

#[test]
fn test_parse_timestamp() {
    let s = "20251024T184520-0600";
    let x = parse_timestamp(s);
    assert!(x.is_some());
    if let Some(ts) = x {
        println!("ts={:?}", ts);
    }

    // experimenting
    let x = DateTime::parse_from_str(s, TIMESTAMP_WITHOUT_TZ)
        .inspect_err(|e| println!("error1={}", e));
    assert!(x.is_err());

    let x = DateTime::parse_from_str(s, TIMESTAMP_WITH_TZ)
        .inspect_err(|e| println!("error2={}", e));
    assert!(x.is_ok());

    let s = "20251024T200456-0600 (IBR1700-f11) gps.src.gnssd.firehose: connect";
    match DateTime::parse_and_remainder(s, TIMESTAMP_WITH_TZ) {
        Ok((ts, remainder)) => {
            println!("ts={} remainder={}", ts, remainder);
        }
        Err(e) => {
            println!("error3={}", e);
        }
    }

    let s = "qqqq1024T200456-0600 (IBR1700-f11)";
    match DateTime::parse_and_remainder(s, TIMESTAMP_WITH_TZ) {
        Ok((_x, remainder)) => {
            println!("remainder={}", remainder);
        }
        Err(e) => {
            println!("error4={}", e);
        }
    }
}

#[test]
fn test_parse_timestamp_no_timezone() {
    let s = "20251024T184520";
    let x = parse_timestamp(s);
    assert!(x.is_some());
    if let Some(ts) = x {
        println!("no tz ts={:?}", ts);
    }

    let ts = NaiveDateTime::parse_from_str(s, TIMESTAMP_WITH_TZ);
    assert!(ts.is_err());
}

#[test]
fn offset_timestamp_fields() {
    let ts = parse_timestamp("20251019T070037-0600").unwrap();
    assert_eq!(
        ts,
        Timestamp {
            year: 2025,
            month: 10,
            day: 19,
            hour: 7,
            minute: 0,
            second: 37,
            offset_minutes: -360,
        }
    );
}

#[test]
fn bare_timestamp_is_utc() {
    let ts = parse_timestamp("20251019T070037").unwrap();
    assert_eq!(
        ts,
        Timestamp {
            year: 2025,
            month: 10,
            day: 19,
            hour: 7,
            minute: 0,
            second: 37,
            offset_minutes: 0,
        }
    );
}

#[test]
fn bare_and_offset_forms_agree_with_chrono() {
    // The verified parser and chrono agree on the two shapes the devices send.
    let s = "20251019T070037-0600";
    let ours = parse_timestamp(s).unwrap();
    let theirs = DateTime::parse_from_str(s, TIMESTAMP_WITH_TZ).unwrap();
    assert_eq!(ours.year as i32, theirs.year());
    assert_eq!(ours.month as u32, theirs.month());
    assert_eq!(ours.day as u32, theirs.day());
    assert_eq!(ours.hour as u32, theirs.hour());
    assert_eq!(ours.minute as u32, theirs.minute());
    assert_eq!(ours.second as u32, theirs.second());
    assert_eq!(ours.offset_minutes as i32 * 60, theirs.offset().local_minus_utc());

    let s = "20251019T070037";
    let ours = parse_timestamp(s).unwrap();
    let theirs = NaiveDateTime::parse_from_str(s, TIMESTAMP_WITHOUT_TZ)
        .unwrap()
        .and_utc()
        .fixed_offset();
    assert_eq!(ours.year as i32, theirs.year());
    assert_eq!(ours.second as u32, theirs.second());
    assert_eq!(ours.offset_minutes, 0);
    assert_eq!(theirs.offset().local_minus_utc(), 0);
}

#[test]
fn hyphenless_offset_form_fails() {
    // A plus offset never carries a hyphen, so the bare form is tried and
    // the trailing offset makes it fail.
    assert!(parse_timestamp("20251019T070037+0600").is_none());
}

#[test]
fn invalid_dates_fail() {
    // Month out of range.
    assert!(parse_timestamp("20251319T070037").is_none());
    // Day out of range for November.
    assert!(parse_timestamp("20251131T070037").is_none());
    // February 29 only in leap years.
    assert!(parse_timestamp("20240229T000000").is_some());
    assert!(parse_timestamp("20230229T000000").is_none());
    assert!(parse_timestamp("20000229T000000").is_some());
    assert!(parse_timestamp("21000229T000000").is_none());
    // Time of day out of range.
    assert!(parse_timestamp("20251019T240000").is_none());
    assert!(parse_timestamp("20251019T076000").is_none());
    assert!(parse_timestamp("20251019T070060").is_none());
}

#[test]
fn offset_bounds() {
    assert_eq!(
        parse_timestamp("20251019T070037-2359").unwrap().offset_minutes,
        -1439
    );
    assert!(parse_timestamp("20251019T070037-2400").is_none());
    assert!(parse_timestamp("20251019T070037-0660").is_none());
    // A hyphen elsewhere forces the offset form on a token that does not
    // fit it.
    assert_eq!(parse_timestamp("2025-019T070037+0600"), None);
}

#[test]
fn wrong_shapes_fail() {
    assert!(parse_timestamp("").is_none());
    assert!(parse_timestamp("20251019").is_none());
    assert!(parse_timestamp("20251019T07003").is_none());
    assert!(parse_timestamp("20251019X070037").is_none());
    assert!(parse_timestamp("2025101ST070037").is_none());
    assert!(parse_timestamp("20251019T070037-060").is_none());
    assert!(parse_timestamp("20251019T070037-06000").is_none());
    assert!(parse_timestamp("20251019T070037:0600").is_none());
}
