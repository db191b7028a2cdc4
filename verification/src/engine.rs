//! The transport endpoints and the decisions of their task loops.
//!
//! The builder is a construction-order state machine carried in the type:
//! from [`Start`] one chooses a codec side, which yields an encoder or a
//! decoder; only an encoder can take producer transport parameters, only a
//! decoder consumer ones.  A producer or consumer without a matching codec
//! is not expressible.
//!
//! The per-record work of the two task loops lives here as plain
//! functions: [`make_record`] builds what the producer publishes, and
//! [`SocialConsumer::step`] decides what one received record leads to —
//! skip, or dispatch to the handler.  The offset bookkeeping of
//! commit-after-success is modelled by [`session_committed`] and
//! [`OffsetTracker`].

use crate::codec::{
    encodable, encode_post, lemma_post_round_trip, parse_post, post_bytes, post_fields,
};
use crate::envelope::{
    decode_envelope, encode_envelope, envelope_bytes, lemma_envelope_round_trip, parse_envelope,
};
use crate::error::Error;
use crate::post::{composite_id, Post, PostId, PostView};
use crate::queue::FeederQueue;
use crate::wire::lemma_fields_bytes_nonempty;
use vstd::prelude::*;

verus! {

/// Marker for the states of the endpoint builder.
pub trait SocialEngine {}

/// The builder before a codec side is chosen.
pub struct Start;

impl SocialEngine for Start {}

/// An encoder bound to its schema registry.
pub struct SocialEncoder {
    pub registry_url: String,
}

impl SocialEngine for SocialEncoder {}

/// A decoder bound to its schema registry.
pub struct SocialDecoder {
    pub registry_url: String,
}

impl SocialEngine for SocialDecoder {}

/// An encoder bound to the broker it publishes to.
pub struct SocialProducer {
    pub registry_url: String,
    pub brokers: String,
}

impl SocialEngine for SocialProducer {}

/// A decoder bound to the broker it polls and the credentials it polls
/// with.
pub struct SocialConsumer {
    pub registry_url: String,
    pub brokers: String,
    pub username: String,
    pub password: String,
}

impl SocialEngine for SocialConsumer {}

/// The construction-order builder.  Each transition consumes the previous
/// state, so no state is reachable twice, and the type of `E` admits only
/// the next legal step.
pub struct SocialEngineBuilder<E: SocialEngine> {
    pub inner: E,
}

impl SocialEngineBuilder<Start> {
    /// Choose the encoding side and bind the schema registry.
    pub fn encoder(url: String) -> (r: SocialEngineBuilder<SocialEncoder>)
        ensures
            r.inner.registry_url@ == url@,
    {
        SocialEngineBuilder { inner: SocialEncoder { registry_url: url } }
    }

    /// Choose the decoding side and bind the schema registry.
    pub fn decoder(url: String) -> (r: SocialEngineBuilder<SocialDecoder>)
        ensures
            r.inner.registry_url@ == url@,
    {
        SocialEngineBuilder { inner: SocialDecoder { registry_url: url } }
    }
}

impl SocialEngineBuilder<SocialEncoder> {
    /// Attach the producer transport.  Binding parameters cannot fail
    /// here; connecting to the broker happens in the surrounding runtime,
    /// and its faults surface there.
    pub fn with_producer(self, brokers: String) -> (r: Result<
        SocialEngineBuilder<SocialProducer>,
        Error,
    >)
        ensures
            r matches Ok(b) && b.inner.registry_url@ == self.inner.registry_url@
                && b.inner.brokers@ == brokers@,
    {
        Ok(
            SocialEngineBuilder {
                inner: SocialProducer { registry_url: self.inner.registry_url, brokers },
            },
        )
    }
}

impl SocialEngineBuilder<SocialDecoder> {
    /// Attach the consumer transport and its credentials.  As with the
    /// producer, binding cannot fail here.
    pub fn with_consumer(self, brokers: String, username: String, password: String) -> (r: Result<
        SocialEngineBuilder<SocialConsumer>,
        Error,
    >)
        ensures
            r matches Ok(b) && b.inner.registry_url@ == self.inner.registry_url@
                && b.inner.brokers@ == brokers@ && b.inner.username@ == username@
                && b.inner.password@ == password@,
    {
        Ok(
            SocialEngineBuilder {
                inner: SocialConsumer {
                    registry_url: self.inner.registry_url,
                    brokers,
                    username,
                    password,
                },
            },
        )
    }
}

impl SocialEngineBuilder<SocialConsumer> {
    /// Finalise: the consumer owns its configuration.
    pub fn build(self) -> (r: SocialConsumer)
        ensures
            r == self.inner,
    {
        self.inner
    }
}

impl SocialEngineBuilder<SocialProducer> {
    /// Finalise: the producer owns its configuration.
    pub fn build(self) -> (r: SocialProducer)
        ensures
            r == self.inner,
    {
        self.inner
    }

    /// Finalise with a feeder queue of the given capacity.  The returned
    /// handle is the only way to submit posts: nothing can bypass the
    /// queue.
    pub fn build_multi(self, buffer: usize) -> (r: (MultiSocialProducer, FeederQueue))
        ensures
            r.0.config == self.inner,
            r.1@.capacity == buffer,
            r.1@.items.len() == 0,
            !r.1@.closed,
            r.1.wf(),
    {
        let config = self.inner;
        let queue = FeederQueue::create(buffer);
        (MultiSocialProducer { config }, queue)
    }
}

/// The producer endpoint that drains the feeder queue.
pub struct MultiSocialProducer {
    pub config: SocialProducer,
}

/// What the producer publishes for one post: the partition key and the
/// framed payload.
pub struct ProducerRecord {
    pub key: String,
    pub payload: Vec<u8>,
}

/// Build the record the producer publishes for `post` under `schema_id`:
/// keyed by the composite id, so all messages about one post share a
/// partition, and framed so the consumer can check the schema.
pub fn make_record(post: &Post, schema_id: u32) -> (r: ProducerRecord)
    ensures
        r.key@ == composite_id(post@),
        r.payload@ == envelope_bytes(schema_id, post_bytes(post@)),
{
    let key = post.id();
    let bytes = encode_post(post);
    let payload = encode_envelope(schema_id, bytes.as_slice());
    ProducerRecord { key, payload }
}

impl MultiSocialProducer {
    /// One turn of the producer loop: take the oldest queued post and
    /// build its record.  Nothing leaves the queue without becoming a
    /// record — a failed publish of that record is fatal for the task, so
    /// no post is ever silently dropped.
    pub fn step(&self, queue: &mut FeederQueue, schema_id: u32) -> (r: Option<ProducerRecord>)
        requires
            old(queue).wf(),
        ensures
            final(queue).wf(),
            old(queue)@.items.len() == 0 ==> r is None && final(queue)@ == old(queue)@,
            old(queue)@.items.len() > 0 ==> ({
                &&& final(queue)@.items == old(queue)@.items.drop_first()
                &&& final(queue)@.capacity == old(queue)@.capacity
                &&& final(queue)@.closed == old(queue)@.closed
                &&& match r {
                    Some(rec) => {
                        let front = old(queue)@.items[0];
                        &&& rec.key@ == composite_id(front)
                        &&& rec.payload@ == envelope_bytes(schema_id, post_bytes(front))
                    },
                    None => false,
                }
            }),
    {
        match queue.recv() {
            Some(post) => Some(make_record(&post, schema_id)),
            None => None,
        }
    }
}

// ---------------------------------------------------------------------------
// The consumer loop's per-record decision.
// ---------------------------------------------------------------------------

/// What one received record leads to.
#[derive(Debug, PartialEq, Eq)]
pub enum StepAction {
    /// No payload, or an empty one: log and poll on; nothing to commit.
    SkipEmpty,
    /// The record could not be decoded: log the kind, skip it, poll on —
    /// a bad record never halts the stream — and do not commit it.
    SkipError(Error),
    /// A post decoded; hand it to the caller's handler.
    Dispatch(Post),
}

/// The mathematical value of a [`StepAction`].
pub enum StepActionView {
    SkipEmpty,
    SkipError(Error),
    Dispatch(PostView),
}

impl View for StepAction {
    type V = StepActionView;

    open spec fn view(&self) -> StepActionView {
        match self {
            StepAction::SkipEmpty => StepActionView::SkipEmpty,
            StepAction::SkipError(e) => StepActionView::SkipError(*e),
            StepAction::Dispatch(p) => StepActionView::Dispatch(p@),
        }
    }
}

/// The decision for one record's payload: skip absent and empty records,
/// skip records whose framing is bad (a registry fault) or whose payload
/// does not parse (a payload fault), and dispatch the rest.
pub open spec fn consume_step_spec(payload: Option<Seq<u8>>) -> StepActionView {
    match payload {
        None => StepActionView::SkipEmpty,
        Some(b) => if b.len() == 0 {
            StepActionView::SkipEmpty
        } else {
            match parse_envelope(b) {
                None => StepActionView::SkipError(Error::SchemaRegistry),
                Some((schema_id, inner)) => if inner.len() == 0 {
                    StepActionView::SkipEmpty
                } else {
                    match parse_post(inner) {
                        None => StepActionView::SkipError(Error::PayloadDecode),
                        Some(pv) => StepActionView::Dispatch(pv),
                    }
                },
            }
        },
    }
}

/// The view of an optional payload.
pub open spec fn payload_view(payload: Option<&Vec<u8>>) -> Option<Seq<u8>> {
    match payload {
        Some(b) => Some(b@),
        None => None,
    }
}

impl SocialConsumer {
    /// Decide one record.  Exactly [`consume_step_spec`].
    pub fn step(&self, payload: Option<&Vec<u8>>) -> (r: StepAction)
        ensures
            r@ == consume_step_spec(payload_view(payload)),
    {
        let b = match payload {
            Some(b) => b,
            None => {
                return StepAction::SkipEmpty;
            },
        };
        let envelope = match decode_envelope(b.as_slice()) {
            Ok(Some(e)) => e,
            Ok(None) => {
                return StepAction::SkipEmpty;
            },
            Err(e) => {
                return StepAction::SkipError(e);
            },
        };
        if envelope.payload.len() == 0 {
            return StepAction::SkipEmpty;
        }
        match crate::codec::decode_post(envelope.payload.as_slice()) {
            Some(post) => StepAction::Dispatch(post),
            None => StepAction::SkipError(Error::PayloadDecode),
        }
    }
}

/// Whether a record's payload dispatches a post to the handler.
pub open spec fn dispatches(payload: Option<Seq<u8>>) -> bool {
    consume_step_spec(payload) is Dispatch
}

// ---------------------------------------------------------------------------
// Commit-after-success.
// ---------------------------------------------------------------------------

/// The committed offset after one pass over `log`, where `ok[i]` says
/// whether the handler succeeded on record `i`: the offset past the last
/// record that was dispatched and handled.  A restart resumes at this
/// offset, so every record at or past it is delivered again.
pub open spec fn session_committed(log: Seq<Option<Seq<u8>>>, ok: Seq<bool>) -> int
    decreases log.len(),
{
    if log.len() == 0 {
        0
    } else {
        let i = log.len() - 1;
        if dispatches(log[i]) && ok[i] {
            i + 1
        } else {
            session_committed(log.take(i), ok)
        }
    }
}

/// The committed offset stays within the log.
proof fn lemma_session_committed_in_range(log: Seq<Option<Seq<u8>>>, ok: Seq<bool>)
    ensures
        0 <= session_committed(log, ok) <= log.len(),
    decreases log.len(),
{
    if log.len() > 0 {
        lemma_session_committed_in_range(log.take(log.len() - 1), ok);
    }
}

/// Commit-after-success, the failing side: when no record from `i` on was
/// both dispatched and handled, nothing past `i` is committed — a restart
/// resumes at or before `i` and redelivers record `i` before any record
/// after it.
pub proof fn lemma_failed_record_redelivered(log: Seq<Option<Seq<u8>>>, ok: Seq<bool>, i: int)
    requires
        0 <= i <= log.len(),
        forall|k: int| i <= k < log.len() ==> !(dispatches(log[k]) && ok[k]),
    ensures
        session_committed(log, ok) <= i,
    decreases log.len(),
{
    if log.len() > 0 {
        let j = log.len() - 1;
        if !(dispatches(log[j]) && ok[j]) {
            assert(forall|k: int|
                i <= k < log.take(j).len() ==> log.take(j)[k] == log[k] && !(dispatches(log[k])
                    && ok[k]));
            if i <= j {
                lemma_failed_record_redelivered(log.take(j), ok, i);
            } else {
                lemma_session_committed_in_range(log.take(j), ok);
            }
        }
    }
}

/// Commit-after-success, the succeeding side: a record that was
/// dispatched and handled is committed — a restart resumes past it and
/// never redelivers it.
pub proof fn lemma_handled_record_committed(log: Seq<Option<Seq<u8>>>, ok: Seq<bool>, j: int)
    requires
        0 <= j < log.len(),
        dispatches(log[j]),
        ok[j],
    ensures
        session_committed(log, ok) >= j + 1,
    decreases log.len(),
{
    let i = log.len() - 1;
    if !(dispatches(log[i]) && ok[i]) {
        assert(log.take(i)[j] == log[j]);
        lemma_handled_record_committed(log.take(i), ok, j);
    }
}

/// Skip-on-decode-failure: a malformed record between two well-formed,
/// well-handled records does not block the one after it — the session
/// ends committed past all three, while a session that saw only the
/// malformed record committed nothing.
pub proof fn lemma_skip_on_decode_failure(
    a: Option<Seq<u8>>,
    b: Option<Seq<u8>>,
    c: Option<Seq<u8>>,
    ok: Seq<bool>,
)
    requires
        dispatches(a),
        !dispatches(b),
        dispatches(c),
        ok.len() >= 3,
        ok[0],
        ok[2],
    ensures
        session_committed(seq![a, b, c], ok) == 3,
        session_committed(seq![b], ok) == 0,
{
    let log = seq![a, b, c];
    assert(log[2] == c);
    let solo = seq![b];
    assert(solo[0] == b);
    assert(solo.take(0) =~= Seq::<Option<Seq<u8>>>::empty());
    assert(session_committed(Seq::<Option<Seq<u8>>>::empty(), ok) == 0);
}

/// The consumer's offset bookkeeping: `committed` is the offset a restart
/// resumes from.  Offsets below it are never redelivered; everything at
/// or past it is.
pub struct OffsetTracker {
    pub committed: u64,
}

impl OffsetTracker {
    /// A fresh session: nothing committed, a restart redelivers from the
    /// start.
    pub fn new() -> (r: OffsetTracker)
        ensures
            r.committed == 0,
    {
        OffsetTracker { committed: 0 }
    }

    /// Account for one record: the offset is committed exactly when the
    /// record was dispatched and its handler succeeded; a skipped record
    /// or a handler failure leaves the committed offset alone, so the
    /// record stays eligible for redelivery.
    pub fn record(&mut self, offset: u64, dispatched: bool, handler_ok: bool)
        requires
            old(self).committed <= offset,
            offset < u64::MAX,
        ensures
            final(self).committed == if dispatched && handler_ok {
                offset + 1
            } else {
                old(self).committed as int
            },
    {
        if dispatched && handler_ok {
            self.committed = offset + 1;
        }
    }
}

// ---------------------------------------------------------------------------
// The pipeline end to end.
// ---------------------------------------------------------------------------

/// What the producer publishes for a well-formed post, the consumer step
/// dispatches back, unchanged: the framing and the codec cancel out over
/// the durable log.
pub proof fn lemma_produce_consume_round_trip(p: PostView, schema_id: u32)
    requires
        p.wf(),
        encodable(p),
    ensures
        consume_step_spec(Some(envelope_bytes(schema_id, post_bytes(p))))
            == StepActionView::Dispatch(p),
{
    let inner = post_bytes(p);
    assert(post_fields(p).len() > 0);
    lemma_fields_bytes_nonempty(post_fields(p));
    lemma_envelope_round_trip(schema_id, inner);
    lemma_post_round_trip(p);
    assert(envelope_bytes(schema_id, inner).len() > 0);
}

} // verus!
