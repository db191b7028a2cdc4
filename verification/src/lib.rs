//! A verified core for a social-media post distribution pipeline.
//!
//! Posts flow from upstream social services through a bounded feeder queue
//! into a durable log, are consumed and re-batched, and finally fan out to
//! browsers over server-sent events.  This crate holds the logic of that
//! pipeline — the wire codecs, the typed endpoint builder, the per-message
//! decisions of the consumer loop, the batching aggregator, and the fan-out
//! model — each with a contract checked by Verus.  The surrounding I/O
//! (broker clients, HTTP, pub/sub connections) lives outside the library and
//! hands it plain values.

pub mod aggregator;
pub mod codec;
pub mod engine;
pub mod envelope;
pub mod error;
pub mod feeder;
pub mod json;
pub mod post;
pub mod pubsub;
pub mod queue;
pub mod routes;
pub mod varint;
pub mod wire;
