//! The decoders of the single fields.

use settime::field::{day_of_week, month, parse_u16, parse_u8};
use settime::Field;

#[test]
fn weekday_literals_decode_to_their_index() {
    assert_eq!(day_of_week(b"Sun,"), Some(0));
    assert_eq!(day_of_week(b"Mon,"), Some(1));
    assert_eq!(day_of_week(b"Tue,"), Some(2));
    assert_eq!(day_of_week(b"Wed,"), Some(3));
    assert_eq!(day_of_week(b"Thu,"), Some(4));
    assert_eq!(day_of_week(b"Fri,"), Some(5));
    assert_eq!(day_of_week(b"Sat,"), Some(6));
}

#[test]
fn weekday_needs_its_comma_and_its_case() {
    assert_eq!(day_of_week(b"Sat"), None);
    assert_eq!(day_of_week(b"sat,"), None);
    assert_eq!(day_of_week(b"SAT,"), None);
    assert_eq!(day_of_week(b"Sat,,"), None);
    assert_eq!(day_of_week(b"Saturday,"), None);
    assert_eq!(day_of_week(b"Xyz,"), None);
    assert_eq!(day_of_week(b""), None);
}

#[test]
fn month_literals_decode_to_their_number() {
    assert_eq!(month(b"Jan"), Some(1));
    assert_eq!(month(b"Feb"), Some(2));
    assert_eq!(month(b"Mar"), Some(3));
    assert_eq!(month(b"Apr"), Some(4));
    assert_eq!(month(b"May"), Some(5));
    assert_eq!(month(b"Jun"), Some(6));
    assert_eq!(month(b"Jul"), Some(7));
    assert_eq!(month(b"Aug"), Some(8));
    assert_eq!(month(b"Sep"), Some(9));
    assert_eq!(month(b"Oct"), Some(10));
    assert_eq!(month(b"Nov"), Some(11));
    assert_eq!(month(b"Dec"), Some(12));
}

#[test]
fn other_tokens_are_no_month() {
    assert_eq!(month(b"Xyz"), None);
    assert_eq!(month(b"jan"), None);
    assert_eq!(month(b"JAN"), None);
    assert_eq!(month(b"Ja"), None);
    assert_eq!(month(b"Janu"), None);
    assert_eq!(month(b"10"), None);
    assert_eq!(month(b""), None);
}

#[test]
fn numbers_decode() {
    assert_eq!(parse_u8(b"00"), Some(0));
    assert_eq!(parse_u8(b"23"), Some(23));
    assert_eq!(parse_u8(b"255"), Some(255));
    assert_eq!(parse_u8(b"7"), Some(7));
    assert_eq!(parse_u8(b"007"), Some(7));
    assert_eq!(parse_u16(b"0"), Some(0));
    assert_eq!(parse_u16(b"2010"), Some(2010));
    assert_eq!(parse_u16(b"65535"), Some(65535));
}

#[test]
fn a_non_digit_fails_the_number() {
    assert_eq!(parse_u8(b"2a"), None);
    assert_eq!(parse_u8(b"a2"), None);
    assert_eq!(parse_u8(b"2 "), None);
    assert_eq!(parse_u8(b"02\r"), None);
    assert_eq!(parse_u8(b"+5"), None);
    assert_eq!(parse_u8(b"-5"), None);
    assert_eq!(parse_u8(b"/"), None);
    assert_eq!(parse_u8(b":"), None);
    assert_eq!(parse_u16(b"20x0"), None);
    assert_eq!(parse_u16(b"2010 "), None);
}

#[test]
fn a_token_without_bytes_is_no_number() {
    assert_eq!(parse_u8(b""), None);
    assert_eq!(parse_u16(b""), None);
}

#[test]
fn a_number_too_large_wraps_around() {
    assert_eq!(parse_u8(b"256"), Some(0));
    assert_eq!(parse_u8(b"300"), Some(44));
    assert_eq!(parse_u8(b"1000000"), Some(64));
    assert_eq!(parse_u16(b"65536"), Some(0));
    assert_eq!(parse_u16(b"70000"), Some(4464));
    assert_eq!(parse_u16(b"1000000"), Some(16960));
    assert_eq!(parse_u16(b"18446744073709551616"), Some(0));
}

#[test]
fn fields_have_their_names() {
    assert_eq!(Field::DayOfWeek.name(), "day_of_week");
    assert_eq!(Field::Day.name(), "day");
    assert_eq!(Field::Month.name(), "month");
    assert_eq!(Field::Year.name(), "year");
    assert_eq!(Field::Hour.name(), "hour");
    assert_eq!(Field::Minute.name(), "minute");
    assert_eq!(Field::Second.name(), "second");
}
