//! Decoding the value of a `Date` header, such as `Sat, 09 Oct 2010 14:28:02 GMT`.

use vstd::prelude::*;
use vstd::slice::slice_to_vec;
use vstd::string::*;

use crate::error::{parse_view, Field, ParseError, ParseErrorView};
use crate::field;
use crate::field::{
    is_digit, is_number, month_number, names_are_in_range, names_hold_no_separator, number_u16,
    number_u8, weekday_index,
};
use crate::text::{
    free_of, lemma_span_over, lemma_split_first, lemma_split_piece, split, Pieces,
};
use crate::time::Time;

verus! {

/// The bytes that part one field of a date from the next: the space and the colon.
pub open spec fn separators() -> Seq<u8> {
    " :".spec_bytes()
}

/// The failure of `field` in the date `text`.
pub open spec fn rejected(text: Seq<u8>, field: Field) -> Result<Time, ParseErrorView> {
    Err(ParseErrorView { field, input: text })
}

/// Whether the date `text` has a piece at the place of `field`, and the piece decodes
/// as that field does: the weekday and the month by their names, the year as a number
/// of 16 bits, and the others as numbers of 8 bits.
pub open spec fn decodes(text: Seq<u8>, field: Field) -> bool {
    let tokens = split(text, separators());
    let at = field.position();
    at < tokens.len() && match field {
        Field::DayOfWeek => weekday_index(tokens[at]) is Some,
        Field::Month => month_number(tokens[at]) is Some,
        Field::Year => number_u16(tokens[at]) is Some,
        _ => number_u8(tokens[at]) is Some,
    }
}

/// The time that seven pieces give, each decoded as its field is.
pub open spec fn time_of(
    weekday: Seq<u8>,
    day: Seq<u8>,
    month: Seq<u8>,
    year: Seq<u8>,
    hour: Seq<u8>,
    minute: Seq<u8>,
    second: Seq<u8>,
) -> Time {
    Time {
        year: number_u16(year)->0,
        month: month_number(month)->0,
        day_of_week: weekday_index(weekday)->0,
        day: number_u8(day)->0,
        hour: number_u8(hour)->0,
        minute: number_u8(minute)->0,
        second: number_u8(second)->0,
    }
}

/// What the date `text` decodes to.
///
/// The text is cut at every space and colon. The first seven pieces are, in this
/// order, the weekday, the day, the month, the year, the hour, the minute and the
/// second. The first of them that is missing or does not decode is the field of the
/// failure. What follows the seventh piece, the time zone as a rule, is not looked at.
pub open spec fn parse_date(text: Seq<u8>) -> Result<Time, ParseErrorView> {
    let tokens = split(text, separators());
    if !decodes(text, Field::DayOfWeek) {
        rejected(text, Field::DayOfWeek)
    } else if !decodes(text, Field::Day) {
        rejected(text, Field::Day)
    } else if !decodes(text, Field::Month) {
        rejected(text, Field::Month)
    } else if !decodes(text, Field::Year) {
        rejected(text, Field::Year)
    } else if !decodes(text, Field::Hour) {
        rejected(text, Field::Hour)
    } else if !decodes(text, Field::Minute) {
        rejected(text, Field::Minute)
    } else if !decodes(text, Field::Second) {
        rejected(text, Field::Second)
    } else {
        Ok(
            time_of(
                tokens[0],
                tokens[1],
                tokens[2],
                tokens[3],
                tokens[4],
                tokens[5],
                tokens[6],
            ),
        )
    }
}

/// The error for `field` in `date`, with a copy of the date.
fn bad_field(date: &[u8], field: Field) -> (result: Result<Time, ParseError>)
    ensures
        parse_view(result) == rejected(date@, field),
{
    Err(ParseError { field, input: slice_to_vec(date) })
}

/// Decodes the value of a `Date` header.
///
/// The fields are decoded one after the other, and the first that fails ends the
/// decoding: the error names it and carries the whole of `date`.
pub fn parse_http_response_date(date: &[u8]) -> (result: Result<Time, ParseError>)
    ensures
        parse_view(result) == parse_date(date@),
        result matches Ok(time) ==> time.well_formed(),
{
    proof {
        parsed_time_is_well_formed(date@);
    }
    let mut parts = Pieces::new(date, " :".as_bytes());
    let day_of_week = match parts.next_piece() {
        Some(token) => match field::day_of_week(token) {
            Some(index) => index,
            None => return bad_field(date, Field::DayOfWeek),
        },
        None => return bad_field(date, Field::DayOfWeek),
    };
    let day = match parts.next_piece() {
        Some(token) => match field::parse_u8(token) {
            Some(number) => number,
            None => return bad_field(date, Field::Day),
        },
        None => return bad_field(date, Field::Day),
    };
    let month = match parts.next_piece() {
        Some(token) => match field::month(token) {
            Some(number) => number,
            None => return bad_field(date, Field::Month),
        },
        None => return bad_field(date, Field::Month),
    };
    let year = match parts.next_piece() {
        Some(token) => match field::parse_u16(token) {
            Some(number) => number,
            None => return bad_field(date, Field::Year),
        },
        None => return bad_field(date, Field::Year),
    };
    let hour = match parts.next_piece() {
        Some(token) => match field::parse_u8(token) {
            Some(number) => number,
            None => return bad_field(date, Field::Hour),
        },
        None => return bad_field(date, Field::Hour),
    };
    let minute = match parts.next_piece() {
        Some(token) => match field::parse_u8(token) {
            Some(number) => number,
            None => return bad_field(date, Field::Minute),
        },
        None => return bad_field(date, Field::Minute),
    };
    let second = match parts.next_piece() {
        Some(token) => match field::parse_u8(token) {
            Some(number) => number,
            None => return bad_field(date, Field::Second),
        },
        None => return bad_field(date, Field::Second),
    };
    Ok(Time { year, month, day_of_week, day, hour, minute, second })
}

/// A date fails at the first field that does not decode: the fields before it do not
/// matter once they decode, and those after it are not looked at.
pub proof fn first_failure_is_reported(text: Seq<u8>, field: Field)
    requires
        !decodes(text, field),
        forall|earlier: Field| earlier.position() < field.position() ==> decodes(text, earlier),
    ensures
        parse_date(text) == rejected(text, field),
{
}

/// A date gives a time exactly when all of its seven fields decode.
pub proof fn time_iff_all_fields_decode(text: Seq<u8>)
    ensures
        parse_date(text) is Ok <==> forall|field: Field| decodes(text, field),
{
    if parse_date(text) is Ok {
        assert forall|field: Field| decodes(text, field) by {
            match field {
                Field::DayOfWeek => {},
                Field::Day => {},
                Field::Month => {},
                Field::Year => {},
                Field::Hour => {},
                Field::Minute => {},
                Field::Second => {},
            }
        }
    }
}

/// A date as it is spelled: a space between one piece and the next, but a colon
/// between the hour, the minute and the second.
pub open spec fn spelled(
    weekday: Seq<u8>,
    day: Seq<u8>,
    month: Seq<u8>,
    year: Seq<u8>,
    hour: Seq<u8>,
    minute: Seq<u8>,
    second: Seq<u8>,
) -> Seq<u8> {
    let space = " ".spec_bytes();
    let colon = ":".spec_bytes();
    weekday + space + (day + space + (month + space + (year + space + (hour + colon + (minute
        + colon + second)))))
}

/// The separators are the space and the colon, and no other byte.
proof fn lemma_separators()
    ensures
        separators() == seq![' ' as u8, ':' as u8],
        " ".spec_bytes() == seq![' ' as u8],
        ":".spec_bytes() == seq![':' as u8],
        separators().contains(' ' as u8),
        separators().contains(':' as u8),
{
    reveal_strlit(" ");
    is_ascii_spec_bytes(" ");
    reveal_strlit(":");
    is_ascii_spec_bytes(":");
    reveal_strlit(" :");
    is_ascii_spec_bytes(" :");
    assert(separators() =~= seq![' ' as u8, ':' as u8]);
    assert(separators()[0] == ' ' as u8 && separators()[1] == ':' as u8);
}

/// A weekday, a month or a number holds no separator.
proof fn lemma_field_is_one_piece(token: Seq<u8>)
    requires
        weekday_index(token) is Some || month_number(token) is Some || is_number(token),
    ensures
        free_of(token, separators()),
{
    lemma_separators();
    if weekday_index(token) is Some || month_number(token) is Some {
        names_hold_no_separator(token);
    }
    assert forall|i: int| 0 <= i < token.len() implies !separators().contains(
        #[trigger] token[i],
    ) by {
        if is_number(token) {
            assert(is_digit(token[i]));
        }
    }
}

/// Six pieces without a separator, spelled with `last` in the place of the second, are
/// the first six pieces of the date, and the pieces of `last` are the others.
proof fn lemma_spelled_pieces(
    weekday: Seq<u8>,
    day: Seq<u8>,
    month: Seq<u8>,
    year: Seq<u8>,
    hour: Seq<u8>,
    minute: Seq<u8>,
    last: Seq<u8>,
)
    requires
        free_of(weekday, separators()),
        free_of(day, separators()),
        free_of(month, separators()),
        free_of(year, separators()),
        free_of(hour, separators()),
        free_of(minute, separators()),
    ensures
        split(spelled(weekday, day, month, year, hour, minute, last), separators()) == seq![
            weekday,
            day,
            month,
            year,
            hour,
            minute,
        ] + split(last, separators()),
{
    lemma_separators();
    let stops = separators();
    let from_minute = minute + seq![':' as u8] + last;
    let from_hour = hour + seq![':' as u8] + from_minute;
    let from_year = year + seq![' ' as u8] + from_hour;
    let from_month = month + seq![' ' as u8] + from_year;
    let from_day = day + seq![' ' as u8] + from_month;
    lemma_split_piece(minute, ':' as u8, last, stops);
    lemma_split_piece(hour, ':' as u8, from_minute, stops);
    lemma_split_piece(year, ' ' as u8, from_hour, stops);
    lemma_split_piece(month, ' ' as u8, from_year, stops);
    lemma_split_piece(day, ' ' as u8, from_month, stops);
    lemma_split_piece(weekday, ' ' as u8, from_day, stops);
    assert(spelled(weekday, day, month, year, hour, minute, last) == weekday + seq![' ' as u8]
        + from_day);
    assert(seq![weekday] + (seq![day] + (seq![month] + (seq![year] + (seq![hour] + (seq![minute]
        + split(last, stops)))))) =~= seq![weekday, day, month, year, hour, minute] + split(
        last,
        stops,
    ));
}

/// Six pieces that decode, spelled with `last` in the place of the second, decode to
/// the time that they give with the first piece of `last`.
proof fn lemma_spelled(
    weekday: Seq<u8>,
    day: Seq<u8>,
    month: Seq<u8>,
    year: Seq<u8>,
    hour: Seq<u8>,
    minute: Seq<u8>,
    second: Seq<u8>,
    last: Seq<u8>,
)
    requires
        weekday_index(weekday) is Some,
        number_u8(day) is Some,
        month_number(month) is Some,
        number_u16(year) is Some,
        number_u8(hour) is Some,
        number_u8(minute) is Some,
        number_u8(second) is Some,
        split(last, separators())[0] == second,
    ensures
        parse_date(spelled(weekday, day, month, year, hour, minute, last)) == Ok::<
            Time,
            ParseErrorView,
        >(time_of(weekday, day, month, year, hour, minute, second)),
{
    lemma_field_is_one_piece(weekday);
    lemma_field_is_one_piece(day);
    lemma_field_is_one_piece(month);
    lemma_field_is_one_piece(year);
    lemma_field_is_one_piece(hour);
    lemma_field_is_one_piece(minute);
    lemma_spelled_pieces(weekday, day, month, year, hour, minute, last);
    lemma_split_first(last, separators());
    let tokens = split(spelled(weekday, day, month, year, hour, minute, last), separators());
    assert(tokens[0] == weekday && tokens[1] == day && tokens[2] == month);
    assert(tokens[3] == year && tokens[4] == hour && tokens[5] == minute);
    assert(tokens[6] == second);
}

/// A date that is spelled with seven pieces that decode gives the time of the pieces.
pub proof fn spelled_date_decodes(
    weekday: Seq<u8>,
    day: Seq<u8>,
    month: Seq<u8>,
    year: Seq<u8>,
    hour: Seq<u8>,
    minute: Seq<u8>,
    second: Seq<u8>,
)
    requires
        weekday_index(weekday) is Some,
        number_u8(day) is Some,
        month_number(month) is Some,
        number_u16(year) is Some,
        number_u8(hour) is Some,
        number_u8(minute) is Some,
        number_u8(second) is Some,
    ensures
        parse_date(spelled(weekday, day, month, year, hour, minute, second)) == Ok::<
            Time,
            ParseErrorView,
        >(time_of(weekday, day, month, year, hour, minute, second)),
{
    lemma_field_is_one_piece(second);
    lemma_span_over(second, Seq::empty(), separators());
    assert(second + Seq::<u8>::empty() =~= second);
    lemma_split_first(second, separators());
    lemma_spelled(weekday, day, month, year, hour, minute, second, second);
}

/// What stands behind the second of a spelled date, parted from it by a space or by a
/// colon, changes nothing: the time zone may be any, and more may follow it.
pub proof fn time_zone_is_not_looked_at(
    weekday: Seq<u8>,
    day: Seq<u8>,
    month: Seq<u8>,
    year: Seq<u8>,
    hour: Seq<u8>,
    minute: Seq<u8>,
    second: Seq<u8>,
    zone: Seq<u8>,
)
    requires
        weekday_index(weekday) is Some,
        number_u8(day) is Some,
        month_number(month) is Some,
        number_u16(year) is Some,
        number_u8(hour) is Some,
        number_u8(minute) is Some,
        number_u8(second) is Some,
    ensures
        parse_date(
            spelled(weekday, day, month, year, hour, minute, second + " ".spec_bytes() + zone),
        ) == Ok::<Time, ParseErrorView>(
            time_of(weekday, day, month, year, hour, minute, second),
        ),
        parse_date(
            spelled(weekday, day, month, year, hour, minute, second + ":".spec_bytes() + zone),
        ) == Ok::<Time, ParseErrorView>(
            time_of(weekday, day, month, year, hour, minute, second),
        ),
{
    lemma_separators();
    lemma_field_is_one_piece(second);
    lemma_split_piece(second, ' ' as u8, zone, separators());
    lemma_spelled(weekday, day, month, year, hour, minute, second, second + seq![' ' as u8] + zone);
    lemma_split_piece(second, ':' as u8, zone, separators());
    lemma_spelled(weekday, day, month, year, hour, minute, second, second + seq![':' as u8] + zone);
}

/// A date that decodes gives a time whose month and weekday lie within their ranges.
pub proof fn parsed_time_is_well_formed(text: Seq<u8>)
    ensures
        parse_date(text) matches Ok(time) ==> time.well_formed(),
{
    let tokens = split(text, separators());
    if parse_date(text) is Ok {
        names_are_in_range(tokens[0]);
        names_are_in_range(tokens[2]);
    }
}

/// A date that does not decode is handed back whole, whichever field failed.
pub proof fn rejected_date_is_kept(text: Seq<u8>)
    ensures
        parse_date(text) matches Err(error) ==> error.input == text,
{
}

} // verus!
