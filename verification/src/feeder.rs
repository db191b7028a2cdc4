//! The boundary to the upstream social service.
//!
//! The upstream client pushes status events through a callback; the
//! callback's whole job is to translate each event with
//! [`post_from_status`] and send the result into the feeder queue — no
//! business logic lives there.  [`Mastodon`] holds the checked
//! configuration the client is built from.

use crate::post::{Post, Timestamp, SERVICE_MASTODON};
use vstd::prelude::*;

verus! {

/// Why the upstream feeder could not be configured.
#[derive(Debug, PartialEq, Eq)]
pub enum Error {
    /// The access token for the named service is empty.
    EmptyAccessToken { service: String },
    /// The named service's client could not be built.
    FailedToInitialize { service: String, reason: String },
}

/// The checked configuration of the upstream Mastodon client: where to
/// connect and the token to present.
#[derive(Debug, Clone, PartialEq, Eq)]
pub struct Mastodon {
    pub url: String,
    pub token: String,
}

impl Mastodon {
    /// Accept a configuration: any URL, but never an empty access token.
    pub fn new(url: String, token: String) -> (r: Result<Mastodon, Error>)
        ensures
            token@.len() == 0 ==> (r matches Err(e) && e matches Error::EmptyAccessToken {
                service,
            } && service@ == "mastodon"@),
            token@.len() > 0 ==> (r matches Ok(m) && m.url@ == url@ && m.token@ == token@),
    {
        if token.as_str().is_empty() {
            let mut service = String::new();
            service.append("mastodon");
            return Err(Error::EmptyAccessToken { service });
        }
        Ok(Mastodon { url, token })
    }
}

/// Translate one upstream status event into a post: the status id, its
/// creation time, and its content, marked as coming from Mastodon.
pub fn post_from_status(id: String, seconds: i64, nanos: i32, content: String) -> (r: Post)
    ensures
        r@.id == id@,
        r@.service == SERVICE_MASTODON,
        r@.timestamp == Some(Timestamp { seconds, nanos }),
        r@.content == content@,
{
    Post { id, service: SERVICE_MASTODON, timestamp: Some(Timestamp { seconds, nanos }), content }
}

} // verus!
