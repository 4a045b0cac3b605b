//! One connection, from its single read to its close.
//!
//! A connection is read from once, answered once and then closed. Parsing,
//! routing, handling and serializing need nothing from outside, so they
//! happen in the one step that leads from reading to writing. No step leads
//! back to reading.

use crate::app::{is_encoded, is_reply, App, Reply};
use crate::error::ReasonPhraseLookupError;
use crate::message::{Request, Response};
use crate::text::{reads_utf8_as_it_is, utf8_lossy};
use vstd::prelude::*;

verus! {

/// How a connection ended.
#[derive(Clone, Copy, Debug, PartialEq, Eq)]
pub enum Outcome {
    /// The read failed. No handler was asked.
    ReadFailed,
    /// The reply was handed to the transport, which took this many bytes.
    Sent(usize),
    /// The write failed. Nothing is known to have been sent.
    WriteFailed,
    /// A handler answered with a status that has no reason phrase, so there
    /// was nothing to send.
    NoReply(ReasonPhraseLookupError),
}

/// Where a connection stands.
#[derive(Debug, PartialEq, Eq)]
pub enum Connection {
    /// Waiting for the one read.
    Reading,
    /// Waiting for the write of these bytes.
    Writing(Vec<u8>),
    /// Closed, with how it ended.
    Closed(Outcome),
}

/// What the transport reports.
#[derive(Debug, PartialEq, Eq)]
pub enum Signal {
    /// The read is over: with the bytes it gave, or `None` if it failed.
    Read(Option<Vec<u8>>),
    /// The write is over: with the number of bytes it took, or `None` if it
    /// failed.
    Wrote(Option<usize>),
}

impl Connection {
    /// How far the connection is from its close, in steps.
    pub open spec fn steps_left(self) -> nat {
        match self {
            Connection::Reading => 2,
            Connection::Writing(_) => 1,
            Connection::Closed(_) => 0,
        }
    }

    /// Whether `signal` is what the connection waits for.
    pub open spec fn awaits(self, signal: Signal) -> bool {
        match (self, signal) {
            (Connection::Reading, Signal::Read(_)) => true,
            (Connection::Writing(_), Signal::Wrote(_)) => true,
            _ => false,
        }
    }
}

/// Whether `next` can follow `state` on `signal` with the routes `routes`.
/// A failed read closes the connection. What was read is answered, and the
/// reply is what the connection then has to write; without a reply it is
/// closed. A write closes it, whether it failed or not. A signal that the
/// connection does not wait for changes nothing.
pub open spec fn is_step<H: Fn(Request) -> Response>(
    routes: Seq<(Seq<char>, H)>,
    state: Connection,
    signal: Signal,
    next: Connection,
) -> bool {
    match (state, signal) {
        (Connection::Reading, Signal::Read(None)) => next == Connection::Closed(
            Outcome::ReadFailed,
        ),
        (Connection::Reading, Signal::Read(Some(bytes))) => exists|text: Reply| #[trigger]
            is_reply(routes, utf8_lossy(bytes@), text) && match next {
                Connection::Reading => false,
                Connection::Writing(reply) => is_encoded(text, Ok(reply)),
                Connection::Closed(outcome) => outcome matches Outcome::NoReply(e) && is_encoded(
                    text,
                    Err(e),
                ),
            },
        (Connection::Writing(_), Signal::Wrote(Some(count))) => next == Connection::Closed(
            Outcome::Sent(count),
        ),
        (Connection::Writing(_), Signal::Wrote(None)) => next == Connection::Closed(
            Outcome::WriteFailed,
        ),
        _ => next == state,
    }
}

impl<H: Fn(Request) -> Response> App<H> {
    /// Takes a connection one step further, on what the transport reports.
    /// Every step that the connection waited for brings it nearer to its
    /// close, and none brings it back to reading.
    pub fn advance(&self, state: Connection, signal: Signal) -> (next: Connection)
        ensures
            is_step(self@, state, signal, next),
            state.awaits(signal) ==> next.steps_left() < state.steps_left(),
            !state.awaits(signal) ==> next == state,
            next is Reading ==> state is Reading,
            state is Reading ==> (signal matches Signal::Read(Some(bytes)) ==> reads_utf8_as_it_is(
                bytes@,
            )),
    {
        match (state, signal) {
            (Connection::Reading, Signal::Read(None)) => Connection::Closed(Outcome::ReadFailed),
            (Connection::Reading, Signal::Read(Some(bytes))) => {
                match self.respond_bytes(bytes.as_slice()) {
                    Ok(reply) => Connection::Writing(reply),
                    Err(e) => Connection::Closed(Outcome::NoReply(e)),
                }
            },
            (Connection::Writing(_), Signal::Wrote(Some(count))) => Connection::Closed(
                Outcome::Sent(count),
            ),
            (Connection::Writing(_), Signal::Wrote(None)) => Connection::Closed(
                Outcome::WriteFailed,
            ),
            (state, _) => state,
        }
    }
}

} // verus!
