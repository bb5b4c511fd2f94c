//! Reading the time of day out of an HTTP response.
//!
//! A web server says what time it is in the `Date` header of every response. This
//! library finds that header in the bytes of a response and decodes it:
//!
//! - [`scan`] looks through what has arrived of a response for the first complete
//!   `Date` line. It takes the bytes as they are, however few have arrived, and can be
//!   called again when more are there.
//! - [`parse_http_response_date`] decodes the value of the header, such as
//!   `Sat, 09 Oct 2010 14:28:02 GMT`, into a [`Time`], or says which field of it failed.
//! - [`run`] runs a fetch one step further, over a connection that the caller owns: the
//!   caller reports what happened on the connection, and is told what to do next. The
//!   loop around it, which reads and in the end sets the clock, is the caller's.
//! - [`get_time_from_header`] decodes the header that an HTTP client has found in a
//!   response that it read itself.
//!
//! ```
//! use settime::{run, Action, Event, Time};
//!
//! let mut buffer = Vec::new();
//! assert_eq!(run(&mut buffer, Event::Bytes(b"HTTP/1.1 200 OK\r\nDat")), Action::Read);
//! assert_eq!(
//!     run(&mut buffer, Event::Bytes(b"e: Sat, 09 Oct 2010 14:28:02 GMT\r\n")),
//!     Action::SetClock(Time {
//!         year: 2010,
//!         month: 10,
//!         day_of_week: 6,
//!         day: 9,
//!         hour: 14,
//!         minute: 28,
//!         second: 2,
//!     })
//! );
//! ```
//!
//! Every function is verified against a contract that says what it returns for every
//! input. The contracts speak of the functions of this crate that are marked `spec`:
//! [`date::parse_date`] says what a date decodes to, [`scan::find_date`] what a scan
//! finds, and [`fetch::next_action`] what a fetch does next.
//!
//! One call is believed and not proved: `String::from_utf8_lossy`, which puts the
//! bytes of a date into a message, is taken to hand back the text of bytes that are
//! UTF-8, see [`error::readable`].

pub mod date;
pub mod error;
pub mod fetch;
pub mod field;
pub mod header;
pub mod scan;
pub mod text;
pub mod time;

pub use date::parse_http_response_date;
pub use error::{Error, ErrorView, Field, ParseError, ParseErrorView};
pub use fetch::{run, Action, ActionView, Event};
pub use header::get_time_from_header;
pub use scan::scan;
pub use time::Time;
