//! The pipeline's error taxonomy.
//!
//! Registry and framing faults are kept apart from single-record payload
//! faults because they warrant different recovery: the former may mean a
//! systemic outage, the latter one bad record to skip.

use vstd::prelude::*;

verus! {

/// What went wrong in the pipeline.
#[derive(Clone, Copy, PartialEq, Eq, Structural, Debug)]
pub enum Error {
    /// The schema-registry framing of a record was malformed, or the
    /// registry could not be reached.
    SchemaRegistry,
    /// A record's payload did not parse as the expected message.
    PayloadDecode,
    /// A send into the feeder queue found its receiving side torn down.
    QueueClosed,
    /// The broker producer failed or timed out; fatal for the producer
    /// task.
    Producer,
    /// A caller-supplied handler rejected a message.
    Handler,
}

impl Error {
    /// The text that describes this error.
    pub open spec fn spec_description(self) -> Seq<char> {
        match self {
            Error::SchemaRegistry => "schema registry error"@,
            Error::PayloadDecode => "payload decode error"@,
            Error::QueueClosed => "feeder queue closed"@,
            Error::Producer => "producer send failed"@,
            Error::Handler => "handler rejected message"@,
        }
    }

    /// Describe this error for a log line or a response body.
    pub fn description(&self) -> (r: &'static str)
        ensures
            r@ == self.spec_description(),
    {
        match self {
            Error::SchemaRegistry => "schema registry error",
            Error::PayloadDecode => "payload decode error",
            Error::QueueClosed => "feeder queue closed",
            Error::Producer => "producer send failed",
            Error::Handler => "handler rejected message",
        }
    }
}

} // verus!
