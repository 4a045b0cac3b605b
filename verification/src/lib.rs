//! Quick and small HTTP library for handling simple web requests.
//!
//! The library is the part of a web server that computes: it reads a
//! request from what a connection received ([`http_util::parse_request`]),
//! finds the handler of the first registered route whose pattern matches
//! the path ([`App::resolve`]), lets it answer ([`App::dispatch`]) and
//! writes the answer out ([`http_util::serialize_response`]).
//! [`App::respond`] does all of it for one connection, and [`App::advance`]
//! says what becomes of a connection on what its transport reports. Sockets
//! are left to the program around the library.
//!
//! The modules [`grammar`] and [`wire`] say what the text of a request and
//! of a response is, and [`round_trip`] proves that the two fit together.

pub mod app;
pub mod connection;
pub mod default_handlers;
pub mod error;
pub mod grammar;
pub mod handlers;
pub mod http_util;
pub mod matcher;
pub mod message;
pub mod round_trip;
pub mod status;
pub mod text;
pub mod wire;

pub use crate::app::{App, HandlerList, RequestHandler};
pub use crate::matcher::PathMatcher;
pub use crate::message::{Request, Response};
