//! Looking for the `Date` header in what has arrived of a response.

use vstd::prelude::*;
use vstd::slice::slice_subrange;
use vstd::string::*;

use crate::date::{parse_date, parse_http_response_date};
use crate::error::{parse_view, ParseError, ParseErrorView};
use crate::text::{
    free_of, lemma_span, lemma_span_append, lemma_split_first, lemma_split_piece, span, split,
    starts_with, Pieces,
};
use crate::time::Time;

verus! {

/// The byte that ends a line.
pub open spec fn line_end() -> Seq<u8> {
    "\n".spec_bytes()
}

/// The bytes with which a `Date` header line begins, in exactly this case.
pub open spec fn date_prefix() -> Seq<u8> {
    "Date: ".spec_bytes()
}

/// The lines of `buffer` that have their line end, without it. What follows the last
/// line end is a line still on its way, and is left out.
pub open spec fn complete_lines(buffer: Seq<u8>) -> Seq<Seq<u8>> {
    let pieces = split(buffer, line_end());
    pieces.take(pieces.len() - 1)
}

/// Whether `line` is a `Date` header.
pub open spec fn is_date_line(line: Seq<u8>) -> bool {
    date_prefix().is_prefix_of(line)
}

/// What stands after the prefix in the first `Date` header among `lines`: the header's
/// value, with the carriage return where the line had one.
pub open spec fn first_date(lines: Seq<Seq<u8>>) -> Option<Seq<u8>>
    decreases lines.len(),
{
    if lines.len() == 0 {
        None
    } else if is_date_line(lines[0]) {
        Some(lines[0].skip(date_prefix().len() as int))
    } else {
        first_date(lines.skip(1))
    }
}

/// What a scan of `buffer` comes to: nothing while no complete line is a `Date`
/// header, else what the value of the first such line decodes to.
pub open spec fn find_date(buffer: Seq<u8>) -> Option<Result<Time, ParseErrorView>> {
    match first_date(complete_lines(buffer)) {
        Some(value) => Some(parse_date(value)),
        None => None,
    }
}

/// The outcome of a scan, with the error by its view.
pub open spec fn scan_view(found: Option<Result<Time, ParseError>>) -> Option<
    Result<Time, ParseErrorView>,
> {
    match found {
        Some(result) => Some(parse_view(result)),
        None => None,
    }
}

/// Scans what has arrived of a response for the `Date` header.
///
/// The lines are taken in order. The first complete one that begins with `Date: ` is
/// decoded, and the outcome is returned, be it a time or an error: no later line is
/// looked at. Nothing is returned while there is no such line, which asks for more
/// bytes and another scan.
pub fn scan(buffer: &[u8]) -> (found: Option<Result<Time, ParseError>>)
    ensures
        scan_view(found) == find_date(buffer@),
{
    let prefix = "Date: ".as_bytes();
    let mut lines = Pieces::new(buffer, "\n".as_bytes());
    proof {
        lemma_split_first(buffer@, line_end());
    }
    loop
        invariant
            prefix@ == date_prefix(),
            lines.rest().len() > 0,
            first_date(complete_lines(buffer@)) == first_date(
                lines.rest().take(lines.rest().len() - 1),
            ),
        decreases lines.rest().len(),
    {
        let ghost before = lines.rest();
        match lines.next_piece() {
            None => {
                return None;
            },
            Some(line) => {
                if lines.is_done() {
                    return None;
                }
                let ghost complete = before.take(before.len() - 1);
                assert(complete.skip(1) =~= lines.rest().take(lines.rest().len() - 1));
                if starts_with(line, prefix) {
                    let value = slice_subrange(line, prefix.len(), line.len());
                    return Some(parse_http_response_date(value));
                }
            },
        }
    }
}

/// The complete lines of a buffer, line by line: none while it holds no line end, else
/// what stands before the first line end, and then the complete lines of what stands
/// after it.
pub proof fn lemma_complete_lines(buffer: Seq<u8>)
    ensures
        span(buffer, line_end()) >= buffer.len() ==> complete_lines(buffer).len() == 0,
        span(buffer, line_end()) < buffer.len() ==> complete_lines(buffer) == seq![
            buffer.take(span(buffer, line_end()) as int),
        ] + complete_lines(buffer.skip(span(buffer, line_end()) as int + 1)),
{
    let n = span(buffer, line_end()) as int;
    if n < buffer.len() {
        lemma_split_first(buffer.skip(n + 1), line_end());
    }
}

/// No first `Date` header among `lines` means that none of them is one.
pub proof fn lemma_first_date_none(lines: Seq<Seq<u8>>)
    ensures
        first_date(lines) is None <==> forall|i: int|
            0 <= i < lines.len() ==> !is_date_line(#[trigger] lines[i]),
    decreases lines.len(),
{
    if lines.len() > 0 {
        let rest = lines.skip(1);
        lemma_first_date_none(rest);
        if !is_date_line(lines[0]) {
            if first_date(rest) is None {
                assert forall|i: int| 0 <= i < lines.len() implies !is_date_line(
                    #[trigger] lines[i],
                ) by {
                    if i > 0 {
                        assert(lines[i] == rest[i - 1]);
                    }
                }
            }
        }
    }
}

/// A scan finds nothing exactly while no complete line of the buffer is a `Date`
/// header.
pub proof fn nothing_found_iff_no_date_line(buffer: Seq<u8>)
    ensures
        find_date(buffer) is None <==> forall|i: int|
            0 <= i < complete_lines(buffer).len() ==> !is_date_line(
                #[trigger] complete_lines(buffer)[i],
            ),
{
    lemma_first_date_none(complete_lines(buffer));
}

/// The line end is the line feed, and the prefix holds none.
proof fn lemma_line_end()
    ensures
        line_end() == seq!['\n' as u8],
        line_end().contains('\n' as u8),
        free_of(date_prefix(), line_end()),
{
    reveal_strlit("\n");
    is_ascii_spec_bytes("\n");
    reveal_strlit("Date: ");
    is_ascii_spec_bytes("Date: ");
    assert(line_end() =~= seq!['\n' as u8]);
    assert(line_end()[0] == '\n' as u8);
    assert(date_prefix() =~= seq![
        'D' as u8,
        'a' as u8,
        't' as u8,
        'e' as u8,
        ':' as u8,
        ' ' as u8,
    ]);
}

/// A line with its line end, and more behind it: the line is the first complete line,
/// and the complete lines of what is behind it are the others.
proof fn lemma_first_line(line: Seq<u8>, rest: Seq<u8>)
    requires
        free_of(line, line_end()),
    ensures
        complete_lines(line + line_end() + rest) == seq![line] + complete_lines(rest),
{
    lemma_line_end();
    lemma_split_piece(line, '\n' as u8, rest, line_end());
    lemma_split_first(rest, line_end());
    let others = split(rest, line_end());
    assert((seq![line] + others).take(others.len() as int) =~= seq![line] + others.take(
        others.len() - 1,
    ));
}

/// A buffer that ends with a line end is its first line, the line end, and what
/// follows, which is empty or ends with a line end again.
proof fn lemma_cut_first_line(buffer: Seq<u8>)
    requires
        buffer.len() > 0,
        line_end().contains(buffer.last()),
    ensures
        ({
            let n = span(buffer, line_end()) as int;
            &&& n < buffer.len()
            &&& free_of(buffer.take(n), line_end())
            &&& buffer == buffer.take(n) + line_end() + buffer.skip(n + 1)
            &&& buffer.skip(n + 1).len() == 0 || line_end().contains(buffer.skip(n + 1).last())
        }),
{
    lemma_line_end();
    lemma_span(buffer, line_end());
    let n = span(buffer, line_end()) as int;
    if n >= buffer.len() {
        assert(!line_end().contains(buffer[buffer.len() - 1]));
    }
    assert(buffer[n] == '\n' as u8);
    assert(buffer =~= buffer.take(n) + line_end() + buffer.skip(n + 1));
    if buffer.skip(n + 1).len() > 0 {
        assert(buffer.skip(n + 1).last() == buffer.last());
    }
}

/// A `Date` header is found where it stands: behind complete lines of which none is a
/// `Date` header, and with its line end. What is found is what its value decodes to,
/// whatever follows the line.
pub proof fn date_line_is_found(before: Seq<u8>, value: Seq<u8>, after: Seq<u8>)
    requires
        before.len() == 0 || line_end().contains(before.last()),
        find_date(before) is None,
        free_of(value, line_end()),
    ensures
        find_date(before + (date_prefix() + value + line_end() + after)) == Some(
            parse_date(value),
        ),
    decreases before.len(),
{
    let line = date_prefix() + value;
    let added = line + line_end() + after;
    if before.len() == 0 {
        lemma_line_end();
        assert(before + added =~= added);
        assert(line.skip(date_prefix().len() as int) =~= value);
        lemma_first_line(line, after);
    } else {
        lemma_cut_first_line(before);
        let n = span(before, line_end()) as int;
        let first = before.take(n);
        let rest = before.skip(n + 1);
        lemma_first_line(first, rest);
        assert(complete_lines(before).skip(1) =~= complete_lines(rest));
        assert(before + added =~= first + line_end() + (rest + added));
        lemma_first_line(first, rest + added);
        assert(complete_lines(before + added).skip(1) =~= complete_lines(rest + added));
        date_line_is_found(rest, value, after);
    }
}

/// What a scan has found, it finds again when more bytes have arrived: a later line
/// changes nothing, whatever it holds.
pub proof fn found_stays_found(buffer: Seq<u8>, more: Seq<u8>)
    requires
        find_date(buffer) is Some,
    ensures
        find_date(buffer + more) == find_date(buffer),
    decreases buffer.len(),
{
    let n = span(buffer, line_end()) as int;
    lemma_span(buffer, line_end());
    lemma_complete_lines(buffer);
    lemma_complete_lines(buffer + more);
    lemma_span_append(buffer, more, line_end());
    assert((buffer + more).skip(n + 1) =~= buffer.skip(n + 1) + more);
    let first = buffer.take(n);
    let lines = complete_lines(buffer);
    let longer = complete_lines(buffer + more);
    assert(lines[0] == first && longer[0] == first);
    assert(lines.skip(1) =~= complete_lines(buffer.skip(n + 1)));
    assert(longer.skip(1) =~= complete_lines(buffer.skip(n + 1) + more));
    if !is_date_line(first) {
        found_stays_found(buffer.skip(n + 1), more);
    }
}

/// Two scans of one buffer come to the same outcome.
pub proof fn scan_is_repeatable(
    buffer: Seq<u8>,
    first: Option<Result<Time, ParseError>>,
    second: Option<Result<Time, ParseError>>,
)
    requires
        scan_view(first) == find_date(buffer),
        scan_view(second) == find_date(buffer),
    ensures
        scan_view(first) == scan_view(second),
{
}

} // verus!
