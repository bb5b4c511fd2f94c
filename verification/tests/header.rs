//! The time of a header that an HTTP client has found.

use settime::{get_time_from_header, Error, Field, ParseError, Time};

const OCTOBER: Time =
    Time { year: 2010, month: 10, day_of_week: 6, day: 9, hour: 14, minute: 28, second: 2 };

/// Has the `ureq` client read `text` as a response, asks it for the `Date` header,
/// and decodes what it hands over.
fn time_of_response(text: &str) -> Result<Time, Error> {
    let response = match text.parse::<ureq::Response>() {
        Ok(response) => response,
        Err(error) => panic!("no response: {error}"),
    };
    get_time_from_header(response.header("Date"))
}

#[test]
fn a_header_value_is_decoded() {
    assert_eq!(get_time_from_header(Some("Sat, 09 Oct 2010 14:28:02 GMT")), Ok(OCTOBER));
    assert_eq!(get_time_from_header(Some("Sat, 09 Oct 2010 14:28:02")), Ok(OCTOBER));
}

#[test]
fn no_header_value_is_a_missing_date() {
    assert_eq!(get_time_from_header(None), Err(Error::MissingDate));
}

#[test]
fn a_header_value_that_does_not_decode_is_an_error() {
    assert_eq!(
        get_time_from_header(Some("")),
        Err(Error::Parse(ParseError { field: Field::DayOfWeek, input: Vec::new() }))
    );
    assert_eq!(
        get_time_from_header(Some("Sat, 09 Okt 2010 14:28:02 GMT")),
        Err(Error::Parse(ParseError {
            field: Field::Month,
            input: b"Sat, 09 Okt 2010 14:28:02 GMT".to_vec()
        }))
    );
    assert_eq!(
        get_time_from_header(Some("Sat, 09 Oct 2010 14:28:02\r")),
        Err(Error::Parse(ParseError {
            field: Field::Second,
            input: b"Sat, 09 Oct 2010 14:28:02\r".to_vec()
        }))
    );
}

#[test]
fn a_header_value_beyond_ascii_is_kept_byte_for_byte() {
    assert_eq!(
        get_time_from_header(Some("Sat, 09 Oct 2010 14:28:\u{e9}")),
        Err(Error::Parse(ParseError {
            field: Field::Second,
            input: "Sat, 09 Oct 2010 14:28:\u{e9}".as_bytes().to_vec()
        }))
    );
}

#[test]
fn the_date_of_a_response_is_decoded() {
    assert_eq!(
        time_of_response(
            "HTTP/1.1 200 OK\r\nServer: nginx\r\nDate: Sat, 09 Oct 2010 14:28:02 GMT\r\n\r\nbody"
        ),
        Ok(OCTOBER)
    );
}

#[test]
fn the_date_of_an_error_response_is_decoded() {
    assert_eq!(
        time_of_response("HTTP/1.1 404 Not Found\r\nDate: Sat, 09 Oct 2010 14:28:02 GMT\r\n\r\n"),
        Ok(OCTOBER)
    );
}

#[test]
fn what_the_client_finds_under_another_case_is_decoded() {
    assert_eq!(
        time_of_response("HTTP/1.1 200 OK\r\ndate:   Sat, 09 Oct 2010 14:28:02 GMT  \r\n\r\n"),
        Ok(OCTOBER)
    );
}

#[test]
fn only_the_date_header_is_read() {
    assert_eq!(
        time_of_response(
            "HTTP/1.1 200 OK\r\n\
             Last-Modified: Fri, 08 Oct 2010 10:00:00 GMT\r\n\
             Date: Sat, 09 Oct 2010 14:28:02 GMT\r\n\
             Expires: Sun, 10 Oct 2010 10:00:00 GMT\r\n\
             \r\n"
        ),
        Ok(OCTOBER)
    );
}

#[test]
fn a_response_without_the_header_is_missing_the_date() {
    assert_eq!(
        time_of_response("HTTP/1.1 200 OK\r\nServer: nginx\r\n\r\nDate: in the body"),
        Err(Error::MissingDate)
    );
}

#[test]
fn a_malformed_date_of_a_response_is_an_error() {
    assert_eq!(
        time_of_response("HTTP/1.1 200 OK\r\nDate: Sat, 09 Okt 2010 14:28:02 GMT\r\n\r\n"),
        Err(Error::Parse(ParseError {
            field: Field::Month,
            input: b"Sat, 09 Okt 2010 14:28:02 GMT".to_vec()
        }))
    );
}
