//! What can go wrong between a response and a time.

use vstd::prelude::*;
use vstd::string::*;
use vstd::utf8::*;

use crate::time::Time;

verus! {

/// One of the seven parts of a date, in the order in which they are read.
#[derive(Clone, Copy, Debug, PartialEq, Eq, Structural)]
pub enum Field {
    DayOfWeek,
    Day,
    Month,
    Year,
    Hour,
    Minute,
    Second,
}

impl Field {
    /// The field's place in a date, counted from 0.
    pub open spec fn position(self) -> int {
        match self {
            Field::DayOfWeek => 0,
            Field::Day => 1,
            Field::Month => 2,
            Field::Year => 3,
            Field::Hour => 4,
            Field::Minute => 5,
            Field::Second => 6,
        }
    }

    /// The field's name as it stands in messages.
    pub open spec fn label(self) -> Seq<char> {
        match self {
            Field::DayOfWeek => "day_of_week"@,
            Field::Day => "day"@,
            Field::Month => "month"@,
            Field::Year => "year"@,
            Field::Hour => "hour"@,
            Field::Minute => "minute"@,
            Field::Second => "second"@,
        }
    }

    /// The field's name as it stands in messages.
    pub fn name(self) -> (name: &'static str)
        ensures
            name@ == self.label(),
    {
        match self {
            Field::DayOfWeek => "day_of_week",
            Field::Day => "day",
            Field::Month => "month",
            Field::Year => "year",
            Field::Hour => "hour",
            Field::Minute => "minute",
            Field::Second => "second",
        }
    }
}

/// A date that did not decode: the first field that failed, and the whole value that
/// it stood in.
#[derive(Clone, Debug, PartialEq, Eq)]
pub struct ParseError {
    pub field: Field,
    pub input: Vec<u8>,
}

/// What a [`ParseError`] says, with its bytes as a sequence.
pub struct ParseErrorView {
    pub field: Field,
    pub input: Seq<u8>,
}

impl View for ParseError {
    type V = ParseErrorView;

    open spec fn view(&self) -> ParseErrorView {
        ParseErrorView { field: self.field, input: self.input@ }
    }
}

/// What `String::from_utf8_lossy` makes of bytes that are not UTF-8.
pub uninterp spec fn lossy_text(bytes: Seq<u8>) -> Seq<char>;

/// The text that stands for `bytes` in a message: the text that they encode, where
/// they are UTF-8.
pub open spec fn readable(bytes: Seq<u8>) -> Seq<char> {
    if valid_utf8(bytes) {
        decode_utf8(bytes)
    } else {
        lossy_text(bytes)
    }
}

/// `String::from_utf8_lossy`, with the result as a `String` of its own.
///
/// Bytes that are UTF-8 come back as the text that they encode. Of other bytes the
/// result is only given a name: the standard library puts a replacement character
/// where the bytes are at fault.
#[verifier::external_body]
fn text_of(bytes: &[u8]) -> (text: String)
    ensures
        text@ == if valid_utf8(bytes@) {
            decode_utf8(bytes@)
        } else {
            lossy_text(bytes@)
        },
{
    String::from_utf8_lossy(bytes).into_owned()
}

impl ParseErrorView {
    /// The error in words: the field, and the date within quotes.
    pub open spec fn message(self) -> Seq<char> {
        "Bad field <"@ + self.field.label() + "> in \""@ + readable(self.input) + "\""@
    }
}

/// Where the date is text, the message quotes it as it is.
pub proof fn message_quotes_the_date(field: Field, date: Seq<char>)
    ensures
        (ParseErrorView { field, input: encode_utf8(date) }).message() == "Bad field <"@
            + field.label() + "> in \""@ + date + "\""@,
{
    encode_utf8_valid_utf8(date);
    encode_utf8_decode_utf8(date);
}

impl ParseError {
    /// The error in words.
    pub fn message(&self) -> (text: String)
        ensures
            text@ == self@.message(),
    {
        let input = text_of(self.input.as_slice());
        let mut text = String::from_str("Bad field <");
        text.append(self.field.name());
        text.append("> in \"");
        text.append(input.as_str());
        text.append("\"");
        text
    }
}

/// The outcome of decoding a date, with the error by its view.
pub open spec fn parse_view(result: Result<Time, ParseError>) -> Result<Time, ParseErrorView> {
    match result {
        Ok(time) => Ok(time),
        Err(error) => Err(error@),
    }
}

/// Why no time came out of a response.
#[derive(Clone, Debug, PartialEq, Eq)]
pub enum Error {
    /// The response ended, and none of its lines was a `Date` header.
    MissingDate,
    /// The `Date` header was there and did not decode.
    Parse(ParseError),
}

/// What an [`Error`] says, with its bytes as a sequence.
pub enum ErrorView {
    MissingDate,
    Parse(ParseErrorView),
}

impl View for Error {
    type V = ErrorView;

    open spec fn view(&self) -> ErrorView {
        match self {
            Error::MissingDate => ErrorView::MissingDate,
            Error::Parse(error) => ErrorView::Parse(error@),
        }
    }
}

impl ErrorView {
    /// The error in words.
    pub open spec fn message(self) -> Seq<char> {
        match self {
            ErrorView::MissingDate => "No Date field in response"@,
            ErrorView::Parse(error) => error.message(),
        }
    }
}

impl Error {
    /// The error in words.
    pub fn message(&self) -> (text: String)
        ensures
            text@ == self@.message(),
    {
        match self {
            Error::MissingDate => String::from_str("No Date field in response"),
            Error::Parse(error) => error.message(),
        }
    }
}

/// The outcome of reading a whole response, with the error by its view.
pub open spec fn fetch_view(result: Result<Time, Error>) -> Result<Time, ErrorView> {
    match result {
        Ok(time) => Ok(time),
        Err(error) => Err(error@),
    }
}

} // verus!
