//! The time of a `Date` header that an HTTP client has found.
//!
//! A client that reads the response itself hands over the value of the header, or
//! nothing where the response has none. The lookup is the caller's: this library
//! makes no call into a client.

use vstd::prelude::*;
use vstd::string::*;
use vstd::utf8::encode_utf8;

use crate::date::{parse_date, parse_http_response_date};
use crate::error::{fetch_view, Error, ErrorView};
use crate::time::Time;

verus! {

/// What the value of a `Date` header comes to, where `value` is that value or nothing
/// for a response without the header.
pub open spec fn time_from_header(value: Option<Seq<char>>) -> Result<Time, ErrorView> {
    match value {
        None => Err(ErrorView::MissingDate),
        Some(text) => match parse_date(encode_utf8(text)) {
            Ok(time) => Ok(time),
            Err(error) => Err(ErrorView::Parse(error)),
        },
    }
}

/// The text of `value`, if there is one.
pub open spec fn header_text(value: Option<&str>) -> Option<Seq<char>> {
    match value {
        Some(text) => Some(text@),
        None => None,
    }
}

/// Decodes the `Date` header of a response, given as the header's value or as
/// nothing where the response has no such header.
pub fn get_time_from_header(value: Option<&str>) -> (result: Result<Time, Error>)
    ensures
        fetch_view(result) == time_from_header(header_text(value)),
{
    match value {
        None => Err(Error::MissingDate),
        Some(text) => match parse_http_response_date(text.as_bytes()) {
            Ok(time) => Ok(time),
            Err(error) => Err(Error::Parse(error)),
        },
    }
}

} // verus!
