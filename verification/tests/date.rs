//! Decoding a whole date.

use settime::{parse_http_response_date, Field, ParseError, Time};

fn failure(field: Field, date: &[u8]) -> Result<Time, ParseError> {
    Err(ParseError { field, input: date.to_vec() })
}

#[test]
fn a_date_decodes() {
    assert_eq!(
        parse_http_response_date(b"Sat, 09 Oct 2010 14:28:02 GMT"),
        Ok(Time { year: 2010, month: 10, day_of_week: 6, day: 9, hour: 14, minute: 28, second: 2 })
    );
    assert_eq!(
        parse_http_response_date(b"Sun, 31 Dec 1999 23:59:59 GMT"),
        Ok(Time {
            year: 1999,
            month: 12,
            day_of_week: 0,
            day: 31,
            hour: 23,
            minute: 59,
            second: 59
        })
    );
}

#[test]
fn the_time_zone_is_not_looked_at() {
    let time =
        Time { year: 2010, month: 10, day_of_week: 6, day: 9, hour: 14, minute: 28, second: 2 };
    assert_eq!(parse_http_response_date(b"Sat, 09 Oct 2010 14:28:02"), Ok(time));
    assert_eq!(parse_http_response_date(b"Sat, 09 Oct 2010 14:28:02 "), Ok(time));
    assert_eq!(parse_http_response_date(b"Sat, 09 Oct 2010 14:28:02 CET"), Ok(time));
    assert_eq!(parse_http_response_date(b"Sat, 09 Oct 2010 14:28:02 GMT\r"), Ok(time));
    assert_eq!(parse_http_response_date(b"Sat, 09 Oct 2010 14:28:02 GMT and more"), Ok(time));
    assert_eq!(parse_http_response_date(b"Sat, 09 Oct 2010 14:28:02:\xff"), Ok(time));
}

#[test]
fn the_calendar_is_not_consulted() {
    assert_eq!(
        parse_http_response_date(b"Mon, 31 Apr 0 99:99:99 GMT"),
        Ok(Time { year: 0, month: 4, day_of_week: 1, day: 31, hour: 99, minute: 99, second: 99 })
    );
    assert_eq!(
        parse_http_response_date(b"Tue, 0 Feb 65535 255:255:255 GMT"),
        Ok(Time {
            year: 65535,
            month: 2,
            day_of_week: 2,
            day: 0,
            hour: 255,
            minute: 255,
            second: 255
        })
    );
}

#[test]
fn numbers_wrap_inside_a_date() {
    assert_eq!(
        parse_http_response_date(b"Wed, 256 Mar 65537 257:258:259 GMT"),
        Ok(Time { year: 1, month: 3, day_of_week: 3, day: 0, hour: 1, minute: 2, second: 3 })
    );
}

#[test]
fn each_field_can_fail() {
    let cases: [(&[u8], Field); 7] = [
        (b"Xyz, 09 Oct 2010 14:28:02 GMT", Field::DayOfWeek),
        (b"Sat, 9th Oct 2010 14:28:02 GMT", Field::Day),
        (b"Sat, 09 Xyz 2010 14:28:02 GMT", Field::Month),
        (b"Sat, 09 Oct MMX 14:28:02 GMT", Field::Year),
        (b"Sat, 09 Oct 2010 1x:28:02 GMT", Field::Hour),
        (b"Sat, 09 Oct 2010 14:2x:02 GMT", Field::Minute),
        (b"Sat, 09 Oct 2010 14:28:0x GMT", Field::Second),
    ];
    for (date, field) in cases {
        assert_eq!(parse_http_response_date(date), failure(field, date));
    }
}

#[test]
fn the_first_bad_field_is_reported() {
    let date = b"Xyz, aa Xyz bbbb cc:dd:ee GMT";
    assert_eq!(parse_http_response_date(date), failure(Field::DayOfWeek, date));
    let date = b"Sat, aa Xyz bbbb cc:dd:ee GMT";
    assert_eq!(parse_http_response_date(date), failure(Field::Day, date));
    let date = b"Sat, 09 Oct 2010 cc:dd:ee GMT";
    assert_eq!(parse_http_response_date(date), failure(Field::Hour, date));
}

#[test]
fn a_missing_field_is_reported_by_its_place() {
    let cases: [(&[u8], Field); 8] = [
        (b"", Field::DayOfWeek),
        (b"Sat,", Field::Day),
        (b"Sat, 09", Field::Month),
        (b"Sat, 09 Oct", Field::Year),
        (b"Sat, 09 Oct 2010", Field::Hour),
        (b"Sat, 09 Oct 2010 14", Field::Minute),
        (b"Sat, 09 Oct 2010 14:28", Field::Second),
        (b"Sat, 09 Oct 2010 14:28:", Field::Second),
    ];
    for (date, field) in cases {
        assert_eq!(parse_http_response_date(date), failure(field, date));
    }
}

#[test]
fn every_separator_ends_a_field() {
    let date = b"Sat,  09 Oct 2010 14:28:02 GMT";
    assert_eq!(parse_http_response_date(date), failure(Field::Day, date));
    let date = b" Sat, 09 Oct 2010 14:28:02 GMT";
    assert_eq!(parse_http_response_date(date), failure(Field::DayOfWeek, date));
    let date = b"Sat, 09 Oct 2010 14::28:02 GMT";
    assert_eq!(parse_http_response_date(date), failure(Field::Minute, date));
    let time =
        Time { year: 2010, month: 10, day_of_week: 6, day: 9, hour: 14, minute: 28, second: 2 };
    assert_eq!(parse_http_response_date(b"Sat,:09:Oct:2010 14 28 02 GMT"), Ok(time));
}

#[test]
fn a_carriage_return_after_the_seconds_fails_them() {
    let date = b"Sat, 09 Oct 2010 14:28:02\r";
    assert_eq!(parse_http_response_date(date), failure(Field::Second, date));
}

#[test]
fn other_white_space_is_no_separator() {
    let date = b"Sat,\t09 Oct 2010 14:28:02 GMT";
    assert_eq!(parse_http_response_date(date), failure(Field::DayOfWeek, date));
}

#[test]
fn a_decoded_time_is_well_formed() {
    let dates: [&[u8]; 3] = [
        b"Sun, 255 Jan 65535 255:255:255",
        b"Sat, 0 Dec 0 0:0:0",
        b"Thu, 999 Jun 99999 999:999:999 GMT",
    ];
    for date in dates {
        let time = parse_http_response_date(date).unwrap();
        assert!(1 <= time.month && time.month <= 12);
        assert!(time.day_of_week <= 6);
    }
}
