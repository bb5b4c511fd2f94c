//! Decoding the single fields of a date: weekday, month and the decimal numbers.

use vstd::arithmetic::div_mod::lemma_mod_multiples_vanish;
use vstd::prelude::*;
use vstd::string::*;

use crate::text::same_bytes;

verus! {

/// The weekday that `token` names, counted from Sunday as 0.
///
/// A weekday is written as three letters and a comma, in exactly this case.
pub open spec fn weekday_index(token: Seq<u8>) -> Option<u8> {
    if token == "Mon,".spec_bytes() {
        Some(1u8)
    } else if token == "Tue,".spec_bytes() {
        Some(2u8)
    } else if token == "Wed,".spec_bytes() {
        Some(3u8)
    } else if token == "Thu,".spec_bytes() {
        Some(4u8)
    } else if token == "Fri,".spec_bytes() {
        Some(5u8)
    } else if token == "Sat,".spec_bytes() {
        Some(6u8)
    } else if token == "Sun,".spec_bytes() {
        Some(0u8)
    } else {
        None
    }
}

/// The month that `token` names, counted from January as 1.
///
/// A month is written as its three-letter English abbreviation, in exactly this case.
pub open spec fn month_number(token: Seq<u8>) -> Option<u8> {
    if token == "Jan".spec_bytes() {
        Some(1u8)
    } else if token == "Feb".spec_bytes() {
        Some(2u8)
    } else if token == "Mar".spec_bytes() {
        Some(3u8)
    } else if token == "Apr".spec_bytes() {
        Some(4u8)
    } else if token == "May".spec_bytes() {
        Some(5u8)
    } else if token == "Jun".spec_bytes() {
        Some(6u8)
    } else if token == "Jul".spec_bytes() {
        Some(7u8)
    } else if token == "Aug".spec_bytes() {
        Some(8u8)
    } else if token == "Sep".spec_bytes() {
        Some(9u8)
    } else if token == "Oct".spec_bytes() {
        Some(10u8)
    } else if token == "Nov".spec_bytes() {
        Some(11u8)
    } else if token == "Dec".spec_bytes() {
        Some(12u8)
    } else {
        None
    }
}

/// Whether `byte` is one of the ASCII digits `0` to `9`.
pub open spec fn is_digit(byte: u8) -> bool {
    '0' as u8 <= byte <= '9' as u8
}

/// Whether `token` is a decimal number: at least one byte, and digits only.
pub open spec fn is_number(token: Seq<u8>) -> bool {
    token.len() > 0 && forall|i: int| 0 <= i < token.len() ==> is_digit(#[trigger] token[i])
}

/// The number that the digits of `digits` spell in base ten, however long they are.
pub open spec fn digits_value(digits: Seq<u8>) -> nat
    decreases digits.len(),
{
    if digits.len() == 0 {
        0
    } else {
        10 * digits_value(digits.drop_last()) + (digits.last() - '0' as u8) as nat
    }
}

/// What a 16-bit numeric field decodes to: the number that `token` spells, cut to 16
/// bits, and nothing where `token` is no number.
pub open spec fn number_u16(token: Seq<u8>) -> Option<u16> {
    if is_number(token) {
        Some((digits_value(token) % 0x1_0000) as u16)
    } else {
        None
    }
}

/// What an 8-bit numeric field decodes to: the number that `token` spells, cut to 8
/// bits, and nothing where `token` is no number.
pub open spec fn number_u8(token: Seq<u8>) -> Option<u8> {
    if is_number(token) {
        Some((digits_value(token) % 0x100) as u8)
    } else {
        None
    }
}

/// Decodes a weekday.
pub fn day_of_week(token: &[u8]) -> (index: Option<u8>)
    ensures
        index == weekday_index(token@),
{
    if same_bytes(token, "Mon,".as_bytes()) {
        Some(1)
    } else if same_bytes(token, "Tue,".as_bytes()) {
        Some(2)
    } else if same_bytes(token, "Wed,".as_bytes()) {
        Some(3)
    } else if same_bytes(token, "Thu,".as_bytes()) {
        Some(4)
    } else if same_bytes(token, "Fri,".as_bytes()) {
        Some(5)
    } else if same_bytes(token, "Sat,".as_bytes()) {
        Some(6)
    } else if same_bytes(token, "Sun,".as_bytes()) {
        Some(0)
    } else {
        None
    }
}

/// Decodes a month.
pub fn month(token: &[u8]) -> (number: Option<u8>)
    ensures
        number == month_number(token@),
{
    if same_bytes(token, "Jan".as_bytes()) {
        Some(1)
    } else if same_bytes(token, "Feb".as_bytes()) {
        Some(2)
    } else if same_bytes(token, "Mar".as_bytes()) {
        Some(3)
    } else if same_bytes(token, "Apr".as_bytes()) {
        Some(4)
    } else if same_bytes(token, "May".as_bytes()) {
        Some(5)
    } else if same_bytes(token, "Jun".as_bytes()) {
        Some(6)
    } else if same_bytes(token, "Jul".as_bytes()) {
        Some(7)
    } else if same_bytes(token, "Aug".as_bytes()) {
        Some(8)
    } else if same_bytes(token, "Sep".as_bytes()) {
        Some(9)
    } else if same_bytes(token, "Oct".as_bytes()) {
        Some(10)
    } else if same_bytes(token, "Nov".as_bytes()) {
        Some(11)
    } else if same_bytes(token, "Dec".as_bytes()) {
        Some(12)
    } else {
        None
    }
}

/// Taking one more digit into a 16-bit value that wraps around keeps it equal to the
/// number read so far, cut to 16 bits.
proof fn lemma_take_digit(value: u16, seen: nat, digit: u16)
    requires
        value == seen % 0x1_0000,
        digit <= 9,
    ensures
        value.wrapping_mul(10).wrapping_add(digit) == (10 * seen + digit) % 0x1_0000,
{
    let product = value.wrapping_mul(10);
    let carried = (value * 10) / 0x1_0000;
    assert(value * 10 == 0x1_0000 * carried + product);
    assert(10 * seen + digit == 0x1_0000 * (10 * (seen / 0x1_0000) + carried) + (product + digit));
    lemma_mod_multiples_vanish(
        10 * (seen / 0x1_0000) + carried,
        product + digit,
        0x1_0000,
    );
}

/// Decodes a 16-bit numeric field.
///
/// The digits are taken in one by one into a 16-bit value that wraps around where the
/// number outgrows it. A byte that is no digit ends the decoding with nothing, and so
/// does a token without bytes.
pub fn parse_u16(token: &[u8]) -> (number: Option<u16>)
    ensures
        number == number_u16(token@),
{
    if token.len() == 0 {
        return None;
    }
    let mut value: u16 = 0;
    let mut k: usize = 0;
    while k < token.len()
        invariant
            k <= token@.len(),
            forall|j: int| 0 <= j < k ==> is_digit(#[trigger] token@[j]),
            value == digits_value(token@.take(k as int)) % 0x1_0000,
        decreases token@.len() - k,
    {
        let byte = token[k];
        if byte < '0' as u8 || byte > '9' as u8 {
            return None;
        }
        let digit: u16 = (byte - '0' as u8) as u16;
        proof {
            let seen = token@.take(k as int);
            let more = token@.take(k + 1);
            assert(more.drop_last() =~= seen);
            lemma_take_digit(value, digits_value(seen), digit);
        }
        value = value.wrapping_mul(10).wrapping_add(digit);
        k += 1;
    }
    assert(token@.take(k as int) =~= token@);
    Some(value)
}

/// Decodes an 8-bit numeric field.
///
/// The value is the low byte of what [`parse_u16`] reads, which is what taking the
/// digits into an 8-bit value that wraps around comes to.
pub fn parse_u8(token: &[u8]) -> (number: Option<u8>)
    ensures
        number == number_u8(token@),
{
    match parse_u16(token) {
        Some(value) => Some((value % 0x100) as u8),
        None => None,
    }
}

/// The bytes of the names of the weekdays.
proof fn lemma_weekday_names()
    ensures
        "Sun,".spec_bytes() == seq!['S' as u8, 'u' as u8, 'n' as u8, ',' as u8],
        "Mon,".spec_bytes() == seq!['M' as u8, 'o' as u8, 'n' as u8, ',' as u8],
        "Tue,".spec_bytes() == seq!['T' as u8, 'u' as u8, 'e' as u8, ',' as u8],
        "Wed,".spec_bytes() == seq!['W' as u8, 'e' as u8, 'd' as u8, ',' as u8],
        "Thu,".spec_bytes() == seq!['T' as u8, 'h' as u8, 'u' as u8, ',' as u8],
        "Fri,".spec_bytes() == seq!['F' as u8, 'r' as u8, 'i' as u8, ',' as u8],
        "Sat,".spec_bytes() == seq!['S' as u8, 'a' as u8, 't' as u8, ',' as u8],
{
    reveal_strlit("Sun,");
    is_ascii_spec_bytes("Sun,");
    reveal_strlit("Mon,");
    is_ascii_spec_bytes("Mon,");
    reveal_strlit("Tue,");
    is_ascii_spec_bytes("Tue,");
    reveal_strlit("Wed,");
    is_ascii_spec_bytes("Wed,");
    reveal_strlit("Thu,");
    is_ascii_spec_bytes("Thu,");
    reveal_strlit("Fri,");
    is_ascii_spec_bytes("Fri,");
    reveal_strlit("Sat,");
    is_ascii_spec_bytes("Sat,");
}

/// The bytes of the names of the months.
proof fn lemma_month_names()
    ensures
        "Jan".spec_bytes() == seq!['J' as u8, 'a' as u8, 'n' as u8],
        "Feb".spec_bytes() == seq!['F' as u8, 'e' as u8, 'b' as u8],
        "Mar".spec_bytes() == seq!['M' as u8, 'a' as u8, 'r' as u8],
        "Apr".spec_bytes() == seq!['A' as u8, 'p' as u8, 'r' as u8],
        "May".spec_bytes() == seq!['M' as u8, 'a' as u8, 'y' as u8],
        "Jun".spec_bytes() == seq!['J' as u8, 'u' as u8, 'n' as u8],
        "Jul".spec_bytes() == seq!['J' as u8, 'u' as u8, 'l' as u8],
        "Aug".spec_bytes() == seq!['A' as u8, 'u' as u8, 'g' as u8],
        "Sep".spec_bytes() == seq!['S' as u8, 'e' as u8, 'p' as u8],
        "Oct".spec_bytes() == seq!['O' as u8, 'c' as u8, 't' as u8],
        "Nov".spec_bytes() == seq!['N' as u8, 'o' as u8, 'v' as u8],
        "Dec".spec_bytes() == seq!['D' as u8, 'e' as u8, 'c' as u8],
{
    reveal_strlit("Jan");
    is_ascii_spec_bytes("Jan");
    reveal_strlit("Feb");
    is_ascii_spec_bytes("Feb");
    reveal_strlit("Mar");
    is_ascii_spec_bytes("Mar");
    reveal_strlit("Apr");
    is_ascii_spec_bytes("Apr");
    reveal_strlit("May");
    is_ascii_spec_bytes("May");
    reveal_strlit("Jun");
    is_ascii_spec_bytes("Jun");
    reveal_strlit("Jul");
    is_ascii_spec_bytes("Jul");
    reveal_strlit("Aug");
    is_ascii_spec_bytes("Aug");
    reveal_strlit("Sep");
    is_ascii_spec_bytes("Sep");
    reveal_strlit("Oct");
    is_ascii_spec_bytes("Oct");
    reveal_strlit("Nov");
    is_ascii_spec_bytes("Nov");
    reveal_strlit("Dec");
    is_ascii_spec_bytes("Dec");
}

/// Each of the seven weekdays decodes to its index, Sunday to 0 and Saturday to 6.
pub proof fn weekday_table()
    ensures
        weekday_index("Sun,".spec_bytes()) == Some(0u8),
        weekday_index("Mon,".spec_bytes()) == Some(1u8),
        weekday_index("Tue,".spec_bytes()) == Some(2u8),
        weekday_index("Wed,".spec_bytes()) == Some(3u8),
        weekday_index("Thu,".spec_bytes()) == Some(4u8),
        weekday_index("Fri,".spec_bytes()) == Some(5u8),
        weekday_index("Sat,".spec_bytes()) == Some(6u8),
{
    lemma_weekday_names();
}

/// Each of the twelve months decodes to its number, January to 1 and December to 12.
pub proof fn month_table()
    ensures
        month_number("Jan".spec_bytes()) == Some(1u8),
        month_number("Feb".spec_bytes()) == Some(2u8),
        month_number("Mar".spec_bytes()) == Some(3u8),
        month_number("Apr".spec_bytes()) == Some(4u8),
        month_number("May".spec_bytes()) == Some(5u8),
        month_number("Jun".spec_bytes()) == Some(6u8),
        month_number("Jul".spec_bytes()) == Some(7u8),
        month_number("Aug".spec_bytes()) == Some(8u8),
        month_number("Sep".spec_bytes()) == Some(9u8),
        month_number("Oct".spec_bytes()) == Some(10u8),
        month_number("Nov".spec_bytes()) == Some(11u8),
        month_number("Dec".spec_bytes()) == Some(12u8),
{
    lemma_month_names();
}

/// The name of a weekday is four bytes long, and none of them is a space or a colon.
proof fn lemma_weekday_is_plain(token: Seq<u8>)
    requires
        weekday_index(token) is Some,
    ensures
        token.len() == 4,
        token[0] != ' ' as u8 && token[0] != ':' as u8,
        token[1] != ' ' as u8 && token[1] != ':' as u8,
        token[2] != ' ' as u8 && token[2] != ':' as u8,
        token[3] != ' ' as u8 && token[3] != ':' as u8,
{
    lemma_weekday_names();
}

/// The name of a month is three bytes long, and none of them is a space or a colon.
proof fn lemma_month_is_plain(token: Seq<u8>)
    requires
        month_number(token) is Some,
    ensures
        token.len() == 3,
        token[0] != ' ' as u8 && token[0] != ':' as u8,
        token[1] != ' ' as u8 && token[1] != ':' as u8,
        token[2] != ' ' as u8 && token[2] != ':' as u8,
{
    lemma_month_names();
}

/// The name of a weekday or of a month holds neither a space nor a colon.
pub proof fn names_hold_no_separator(token: Seq<u8>)
    requires
        weekday_index(token) is Some || month_number(token) is Some,
    ensures
        forall|i: int|
            0 <= i < token.len() ==> #[trigger] token[i] != ' ' as u8 && token[i] != ':' as u8,
{
    if weekday_index(token) is Some {
        lemma_weekday_is_plain(token);
    } else {
        lemma_month_is_plain(token);
    }
}

/// A weekday lies between 0 and 6, and a month between 1 and 12.
pub proof fn names_are_in_range(token: Seq<u8>)
    ensures
        weekday_index(token) matches Some(index) ==> index <= 6,
        month_number(token) matches Some(number) ==> 1 <= number <= 12,
{
}

/// A byte that is no digit, wherever it stands in a token, keeps the token from
/// decoding as a number of either width.
pub proof fn non_digit_is_rejected(token: Seq<u8>, at: int)
    requires
        0 <= at < token.len(),
        !is_digit(token[at]),
    ensures
        number_u8(token) is None,
        number_u16(token) is None,
{
}

/// A number that fits its field decodes to itself: up to 255 in eight bits, and up to
/// 65535 in sixteen.
pub proof fn fitting_number_is_exact(token: Seq<u8>)
    requires
        is_number(token),
    ensures
        digits_value(token) <= 0xff ==> number_u8(token) == Some(digits_value(token) as u8),
        digits_value(token) <= 0xffff ==> number_u16(token) == Some(digits_value(token) as u16),
{
}

} // verus!
