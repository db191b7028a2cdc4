//! What the HTTP layer answers with: the health check, the fallback for
//! unknown routes, and the data of one server-sent event.
//!
//! The routing, headers and response plumbing live outside the library;
//! these functions decide the bodies and status codes.

use crate::codec::{decode_batch, parse_batch};
use crate::json::{batch_json, json_of_batch};
use vstd::prelude::*;

verus! {

/// A client-facing request failure and the status it answers with.
#[derive(Clone, Copy, PartialEq, Eq, Structural, Debug)]
pub enum Error {
    /// No route matches the request.
    NotFound,
    /// An unexpected internal fault.
    InternalServerError,
    /// The request body failed validation.
    BadRequest,
}

impl Error {
    /// The HTTP status this error answers with.
    pub open spec fn spec_status(self) -> u16 {
        match self {
            Error::NotFound => 404,
            Error::InternalServerError => 500,
            Error::BadRequest => 400,
        }
    }

    /// Executable form of [`Error::spec_status`].
    pub fn status(&self) -> (r: u16)
        ensures
            r == self.spec_status(),
    {
        match self {
            Error::NotFound => 404,
            Error::InternalServerError => 500,
            Error::BadRequest => 400,
        }
    }

    /// The message of the error response body.
    pub open spec fn spec_message(self) -> Seq<char> {
        match self {
            Error::NotFound => "Resource not found"@,
            Error::InternalServerError => "Internal server error"@,
            Error::BadRequest => "Validation error"@,
        }
    }

    /// Executable form of [`Error::spec_message`].
    pub fn message(&self) -> (r: &'static str)
        ensures
            r@ == self.spec_message(),
    {
        match self {
            Error::NotFound => "Resource not found",
            Error::InternalServerError => "Internal server error",
            Error::BadRequest => "Validation error",
        }
    }
}

/// The answer for a request no route matches.
pub fn not_found() -> (r: Error)
    ensures
        r == Error::NotFound,
{
    Error::NotFound
}

/// The body of a healthy health-check answer.
#[derive(Debug)]
pub struct HealthResponse {
    pub message: String,
}

/// The health check: the service is up, status 200, message `"ok."`.
pub fn health() -> (r: (u16, HealthResponse))
    ensures
        r.0 == 200,
        r.1.message@ == "ok."@,
{
    let mut message = String::new();
    message.append("ok.");
    (200, HealthResponse { message })
}

/// The `Last-Event-Id` request header of a reconnecting event-stream
/// client.  It is captured per connection but not used to replay: the
/// pub/sub channel keeps no history, a known limitation this gateway
/// preserves.
#[derive(Debug, Clone)]
pub struct LastEventId(pub String);

impl LastEventId {
    /// The header's name on the wire.
    pub fn name() -> (r: &'static str)
        ensures
            r@ == "last-event-id"@,
    {
        "last-event-id"
    }
}

/// Marker for the generated API documentation of the HTTP surface; the
/// documentation itself is produced outside the library.
#[derive(Debug)]
pub struct ApiDoc;

/// The data of one server-sent event, for one message received from the
/// pub/sub channel: the batch it carries, rendered as JSON text.  A
/// message that does not parse as a batch yields nothing — the gateway
/// logs it and moves to the next message, and the stream stays alive.
pub fn sse_event_data(payload: &Vec<u8>) -> (r: Option<String>)
    ensures
        match r {
            Some(s) => parse_batch(payload@) matches Some(ps) && s@ == json_of_batch(ps),
            None => parse_batch(payload@) is None,
        },
{
    match decode_batch(payload.as_slice()) {
        Some(posts) => Some(batch_json(&posts)),
        None => None,
    }
}

} // verus!
