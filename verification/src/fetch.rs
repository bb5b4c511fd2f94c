//! Fetching the time from a response that arrives piece by piece.
//!
//! The caller owns the connection and the buffer. It hands each thing that happens on
//! the connection to [`run`], and does what [`run`] answers: [`run`] is one step of a
//! fetch, and the loop that goes from step to step is the caller's.

use vstd::prelude::*;

use crate::error::{Error, ErrorView};
use crate::scan::{
    complete_lines, find_date, found_stays_found, is_date_line, nothing_found_iff_no_date_line,
    scan,
};
use crate::time::Time;

verus! {

/// What happened on the connection.
#[derive(Clone, Copy, Debug)]
pub enum Event<'a> {
    /// These bytes arrived.
    Bytes(&'a [u8]),
    /// The other side closed the connection: no more bytes will arrive.
    Closed,
}

impl<'a> Event<'a> {
    /// The bytes that the event brings.
    pub open spec fn bytes(self) -> Seq<u8> {
        match self {
            Event::Bytes(chunk) => chunk@,
            Event::Closed => Seq::empty(),
        }
    }
}

/// What the caller is to do next.
#[derive(Clone, Debug, PartialEq, Eq)]
pub enum Action {
    /// Read from the connection, and report what came of it.
    Read,
    /// Set the clock to this time. The fetch is over.
    SetClock(Time),
    /// Give up with this error. The fetch is over.
    Fail(Error),
}

/// An [`Action`], with the error by its view.
pub enum ActionView {
    Read,
    SetClock(Time),
    Fail(ErrorView),
}

impl View for Action {
    type V = ActionView;

    open spec fn view(&self) -> ActionView {
        match self {
            Action::Read => ActionView::Read,
            Action::SetClock(time) => ActionView::SetClock(*time),
            Action::Fail(error) => ActionView::Fail(error@),
        }
    }
}

/// What is to be done when `buffer` is all that has arrived, and the connection is
/// `closed` or still open.
///
/// The first `Date` header decides, whether it decodes or not. While there is none,
/// an open connection is read on, and a closed one has failed to give the date.
pub open spec fn next_action(buffer: Seq<u8>, closed: bool) -> ActionView {
    match find_date(buffer) {
        Some(Ok(time)) => ActionView::SetClock(time),
        Some(Err(error)) => ActionView::Fail(ErrorView::Parse(error)),
        None => if closed {
            ActionView::Fail(ErrorView::MissingDate)
        } else {
            ActionView::Read
        },
    }
}

/// Runs a fetch one step further: takes one event of the connection in, and says what
/// to do next.
///
/// `buffer` holds what has arrived so far, and is empty before the first event. The
/// bytes of the event are added to it, and the whole of it is scanned.
pub fn run(buffer: &mut Vec<u8>, event: Event) -> (action: Action)
    ensures
        final(buffer)@ == old(buffer)@ + event.bytes(),
        action@ == next_action(final(buffer)@, event is Closed),
{
    if let Event::Bytes(chunk) = event {
        buffer.extend_from_slice(chunk);
    }
    match scan(buffer.as_slice()) {
        Some(Ok(time)) => Action::SetClock(time),
        Some(Err(error)) => Action::Fail(Error::Parse(error)),
        None => match event {
            Event::Closed => Action::Fail(Error::MissingDate),
            Event::Bytes(_) => Action::Read,
        },
    }
}

/// How the bytes are cut into events does not matter: two events leave the buffer
/// that one event with the bytes of both leaves, and so lead to the same action. And
/// where the first of the two already ends the fetch, the second changes nothing.
pub proof fn delivery_in_pieces(buffer: Seq<u8>, first: Seq<u8>, second: Seq<u8>, closed: bool)
    ensures
        (buffer + first) + second == buffer + (first + second),
        next_action((buffer + first) + second, closed) == next_action(
            buffer + (first + second),
            closed,
        ),
        !(next_action(buffer + first, false) is Read) ==> next_action(
            (buffer + first) + second,
            closed,
        ) == next_action(buffer + first, false),
{
    assert((buffer + first) + second =~= buffer + (first + second));
    if find_date(buffer + first) is Some {
        found_stays_found(buffer + first, second);
    }
}

/// A closed connection has failed to give the date exactly when no complete line of
/// the response is a `Date` header. A header that is there and does not decode is
/// another failure, and comes whether the connection is closed or not.
pub proof fn missing_date_iff_no_date_line(buffer: Seq<u8>)
    ensures
        next_action(buffer, true) == ActionView::Fail(ErrorView::MissingDate) <==> forall|i: int|
            0 <= i < complete_lines(buffer).len() ==> !is_date_line(
                #[trigger] complete_lines(buffer)[i],
            ),
        next_action(buffer, true) matches ActionView::Fail(ErrorView::Parse(error))
            ==> next_action(buffer, false) == next_action(buffer, true),
{
    nothing_found_iff_no_date_line(buffer);
}

} // verus!
