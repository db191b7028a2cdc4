//! The pipeline's behaviour: identifiers, queueing, batching, the
//! consumer loop's decisions, commits, fan-out and the HTTP answers.

use social_pipeline::aggregator::BatchAggregator;
use social_pipeline::engine::{
    make_record, OffsetTracker, SocialEngineBuilder, StepAction,
};
use social_pipeline::error::Error;
use social_pipeline::feeder::{post_from_status, Mastodon};
use social_pipeline::feeder::Error as UpstreamError;
use social_pipeline::json::batch_json;
use social_pipeline::post::{Post, PostId, Service, Timestamp};
use social_pipeline::pubsub::PubSubChannel;
use social_pipeline::queue::{FeederQueue, SendOutcome};
use social_pipeline::routes::{health, not_found, sse_event_data, LastEventId};
use social_pipeline::routes::Error as RouteError;

fn post(id: &str, service: i32, ts: Option<(i64, i32)>, content: &str) -> Post {
    Post {
        id: id.to_string(),
        service,
        timestamp: ts.map(|(seconds, nanos)| Timestamp { seconds, nanos }),
        content: content.to_string(),
    }
}

// --- Composite id -----------------------------------------------------------

#[test]
fn composite_id_known_services() {
    assert_eq!(post("123", 1, None, "").id(), "mastodon:123");
    assert_eq!(post("9", 2, None, "").id(), "x:9");
}

#[test]
fn composite_id_unknown_service() {
    assert_eq!(post("123", 0, None, "").id(), "unknown:123");
    assert_eq!(post("123", 77, None, "").id(), "unknown:123");
    assert_eq!(post("123", -1, None, "").id(), "unknown:123");
}

#[test]
fn service_codes_round_trip() {
    assert_eq!(Service::Mastodon.code(), 1);
    assert_eq!(Service::X.code(), 2);
    assert_eq!(Service::Unspecified.code(), 0);
    assert_eq!(Service::of_code(1), Service::Mastodon);
    assert_eq!(Service::of_code(2), Service::X);
    assert_eq!(Service::of_code(0), Service::Unspecified);
    assert_eq!(Service::of_code(99), Service::Unspecified);
}

// --- The typed builder and the two endpoints --------------------------------

fn consumer() -> social_pipeline::engine::SocialConsumer {
    SocialEngineBuilder::decoder("http://registry.local".to_string())
        .with_consumer("broker:9092".to_string(), "user".to_string(), "pass".to_string())
        .expect("binding cannot fail")
        .build()
}

#[test]
fn builder_binds_configuration() {
    let c = consumer();
    assert_eq!(c.registry_url, "http://registry.local");
    assert_eq!(c.brokers, "broker:9092");
    assert_eq!(c.username, "user");
    assert_eq!(c.password, "pass");

    let (producer, queue) = SocialEngineBuilder::encoder("http://registry.local".to_string())
        .with_producer("broker:9092".to_string())
        .expect("binding cannot fail")
        .build_multi(100);
    assert_eq!(producer.config.brokers, "broker:9092");
    assert_eq!(queue.len(), 0);
}

#[test]
fn record_is_keyed_by_composite_id() {
    let p = post("42", 1, Some((5, 6)), "hi");
    let rec = make_record(&p, 7);
    assert_eq!(rec.key, "mastodon:42");
    assert_eq!(rec.payload[0], 0);
    assert_eq!(&rec.payload[1..5], &[0, 0, 0, 7]);
}

#[test]
fn produced_record_dispatches_back() {
    let p = post("42", 1, Some((5, 6)), "hi");
    let rec = make_record(&p, 7);
    match consumer().step(Some(&rec.payload)) {
        StepAction::Dispatch(q) => assert_eq!(q, p),
        other => panic!("expected a dispatch, got {other:?}"),
    }
}

// --- The consumer loop's decisions ------------------------------------------

#[test]
fn empty_records_are_skipped() {
    let c = consumer();
    assert_eq!(c.step(None), StepAction::SkipEmpty);
    assert_eq!(c.step(Some(&Vec::new())), StepAction::SkipEmpty);
    // A well-formed envelope around an empty payload is a skip, not an error.
    let framed = social_pipeline::envelope::encode_envelope(1, &[]);
    assert_eq!(c.step(Some(&framed)), StepAction::SkipEmpty);
}

#[test]
fn decode_failures_are_skipped_by_kind() {
    let c = consumer();
    // Bad framing: a registry fault.
    let bad_magic = vec![9u8, 0, 0, 0, 1, 5];
    assert_eq!(c.step(Some(&bad_magic)), StepAction::SkipError(Error::SchemaRegistry));
    // Good framing, bad message: a payload fault.
    let bad_inner = social_pipeline::envelope::encode_envelope(1, &[0xff, 0xff]);
    assert_eq!(c.step(Some(&bad_inner)), StepAction::SkipError(Error::PayloadDecode));
}

#[test]
fn three_records_malformed_between() {
    let c = consumer();
    let first = make_record(&post("1", 1, None, "a"), 3).payload;
    let bad = social_pipeline::envelope::encode_envelope(3, &[0xff]);
    let third = make_record(&post("2", 1, None, "b"), 3).payload;
    assert!(matches!(c.step(Some(&first)), StepAction::Dispatch(_)));
    assert!(matches!(c.step(Some(&bad)), StepAction::SkipError(_)));
    // The malformed record does not block the record after it.
    match c.step(Some(&third)) {
        StepAction::Dispatch(q) => assert_eq!(q.id, "2"),
        other => panic!("expected a dispatch, got {other:?}"),
    }
}

// --- Commit-after-success ----------------------------------------------------

#[test]
fn failed_handler_leaves_offset_for_redelivery() {
    let mut session = OffsetTracker::new();
    // The handler fails the first message: nothing is committed, so a
    // restart resumes at offset zero and redelivers it first.
    session.record(0, true, false);
    assert_eq!(session.committed, 0);
    // After the restart the first message is handled, then the second:
    // both commit, and neither is ever redelivered.
    let mut restarted = OffsetTracker::new();
    assert_eq!(restarted.committed, 0);
    restarted.record(0, true, true);
    assert_eq!(restarted.committed, 1);
    restarted.record(1, true, true);
    assert_eq!(restarted.committed, 2);
}

#[test]
fn skipped_records_are_not_committed() {
    let mut session = OffsetTracker::new();
    session.record(0, false, false);
    assert_eq!(session.committed, 0);
    session.record(1, true, true);
    assert_eq!(session.committed, 2);
}

// --- Backpressure ------------------------------------------------------------

#[test]
fn full_queue_blocks_until_receive() {
    let capacity = 4usize;
    let mut queue = FeederQueue::create(capacity);
    for i in 0..capacity {
        assert_eq!(queue.send(post(&format!("{i}"), 1, None, "")), SendOutcome::Accepted);
    }
    // The (capacity + 1)th send finds no room and must wait.
    assert_eq!(queue.send(post("extra", 1, None, "")), SendOutcome::WouldBlock);
    assert_eq!(queue.len(), capacity);
    // One receive frees a slot, and the same send is accepted.
    let first = queue.recv().expect("the queue is not empty");
    assert_eq!(first.id, "0");
    assert_eq!(queue.send(post("extra", 1, None, "")), SendOutcome::Accepted);
}

#[test]
fn closed_queue_refuses_sends() {
    let mut queue = FeederQueue::create(2);
    queue.close();
    assert_eq!(queue.send(post("1", 1, None, "")), SendOutcome::Closed);
}

// --- Batch flush triggers -----------------------------------------------------

#[test]
fn fifty_posts_flush_immediately() {
    let mut agg = BatchAggregator::new(50);
    for i in 0..49 {
        assert!(agg.on_post(post(&format!("{i}"), 1, None, "")).is_none());
    }
    let flushed = agg.on_post(post("49", 1, None, "")).expect("the fiftieth post flushes");
    assert_eq!(flushed.len(), 50);
    for (i, p) in flushed.iter().enumerate() {
        assert_eq!(p.id, format!("{i}"));
    }
    assert_eq!(agg.len(), 0);
}

#[test]
fn three_posts_flush_on_tick() {
    let mut agg = BatchAggregator::new(50);
    for i in 0..3 {
        assert!(agg.on_post(post(&format!("{i}"), 1, None, "")).is_none());
    }
    let flushed = agg.on_tick().expect("a non-empty buffer flushes on the tick");
    assert_eq!(flushed.len(), 3);
    assert_eq!(agg.len(), 0);
    // An empty buffer does not flush.
    assert!(agg.on_tick().is_none());
}

#[test]
fn queue_is_first_in_first_out() {
    let mut queue = FeederQueue::create(8);
    for i in 0..5 {
        assert_eq!(queue.send(post(&format!("{i}"), 1, None, "")), SendOutcome::Accepted);
    }
    for i in 0..5 {
        assert_eq!(queue.recv().expect("not empty").id, format!("{i}"));
    }
    assert!(queue.recv().is_none());
}

// --- Fan-out ------------------------------------------------------------------

#[test]
fn two_subscribers_both_receive() {
    let mut channel = PubSubChannel::new();
    let a = channel.subscribe();
    let b = channel.subscribe();
    let payload = social_pipeline::codec::encode_batch(&vec![post("1", 1, None, "x")]);
    channel.publish(payload.clone());
    assert_eq!(channel.recv(a), Some(payload.clone()));
    assert_eq!(channel.recv(b), Some(payload));
    assert_eq!(channel.recv(a), None);
    assert_eq!(channel.recv(b), None);
}

#[test]
fn late_subscriber_sees_no_history() {
    let mut channel = PubSubChannel::new();
    let a = channel.subscribe();
    channel.publish(vec![1, 2, 3]);
    let late = channel.subscribe();
    assert_eq!(channel.recv(a), Some(vec![1, 2, 3]));
    assert_eq!(channel.recv(late), None);
}

// --- The gateway's JSON -------------------------------------------------------

#[test]
fn sse_event_carries_batch_as_json() {
    let batch = vec![
        post("123", 1, Some((1700000000, 0)), "hello"),
        post("9", 0, None, "quote \" backslash \\ newline \n tab \t bell \u{7}"),
    ];
    let payload = social_pipeline::codec::encode_batch(&batch);
    let data = sse_event_data(&payload).expect("a well-formed batch renders");

    let ts_text = prost_types::Timestamp { seconds: 1700000000, nanos: 0 }.to_string();
    let expected = format!(
        "{{\"posts\":[{{\"id\":\"123\",\"service\":1,\"timestamp\":\"{ts_text}\",\"content\":\"hello\"}},\
{{\"id\":\"9\",\"service\":0,\"timestamp\":null,\"content\":\
\"quote \\\" backslash \\\\ newline \\n tab \\t bell \\u0007\"}}]}}"
    );
    assert_eq!(data, expected);

    // serde_json agrees that it is valid JSON with the same values.
    let parsed: serde_json::Value = serde_json::from_str(&data).expect("valid JSON");
    assert_eq!(parsed["posts"][0]["id"], "123");
    assert_eq!(parsed["posts"][0]["service"], 1);
    assert_eq!(parsed["posts"][0]["timestamp"], ts_text.as_str());
    assert_eq!(parsed["posts"][1]["timestamp"], serde_json::Value::Null);
    assert_eq!(
        parsed["posts"][1]["content"],
        "quote \" backslash \\ newline \n tab \t bell \u{7}"
    );
}

#[test]
fn sse_event_skips_malformed_payload() {
    assert_eq!(sse_event_data(&vec![0xff, 0xff, 0xff]), None);
}

#[test]
fn negative_service_renders_signed() {
    let data = batch_json(&vec![post("n", -12, None, "")]);
    let parsed: serde_json::Value = serde_json::from_str(&data).expect("valid JSON");
    assert_eq!(parsed["posts"][0]["service"], -12);
}

// --- The HTTP answers ---------------------------------------------------------

#[test]
fn health_gives_ok() {
    let (status, body) = health();
    assert_eq!(status, 200);
    assert_eq!(body.message, "ok.");
}

#[test]
fn test_fallback() {
    let error = not_found();
    assert_eq!(error, RouteError::NotFound);
    assert_eq!(error.status(), 404);
    assert_eq!(error.message(), "Resource not found");
}

#[test]
fn api_error_statuses() {
    assert_eq!(RouteError::InternalServerError.status(), 500);
    assert_eq!(RouteError::BadRequest.status(), 400);
}

#[test]
fn last_event_id_header_name() {
    assert_eq!(LastEventId::name(), "last-event-id");
    let header = LastEventId("41".to_string());
    assert_eq!(header.0, "41");
}

// --- The upstream boundary ----------------------------------------------------

#[test]
fn empty_token_is_refused() {
    let refused = Mastodon::new("https://m.example".to_string(), String::new());
    assert_eq!(
        refused,
        Err(UpstreamError::EmptyAccessToken { service: "mastodon".to_string() })
    );
    let accepted = Mastodon::new("https://m.example".to_string(), "tok".to_string())
        .expect("a non-empty token is accepted");
    assert_eq!(accepted.url, "https://m.example");
    assert_eq!(accepted.token, "tok");
}

#[test]
fn status_translates_to_post() {
    let p = post_from_status("55".to_string(), 1700000001, 42, "text".to_string());
    assert_eq!(p, post("55", 1, Some((1700000001, 42)), "text"));
    assert_eq!(p.id(), "mastodon:55");
}

// --- The pipeline end to end --------------------------------------------------

#[test]
fn pipeline_source_to_event() {
    // An upstream status enters the queue.
    let mut queue = FeederQueue::create(8);
    let incoming = post_from_status("77".to_string(), 1700000000, 0, "hi".to_string());
    assert_eq!(queue.send(incoming), SendOutcome::Accepted);

    // The producer drains it into a keyed, framed record.
    let (producer, _handle) = SocialEngineBuilder::encoder("http://registry.local".to_string())
        .with_producer("broker:9092".to_string())
        .expect("binding cannot fail")
        .build_multi(8);
    let record = producer.step(&mut queue, 11).expect("a queued post yields a record");
    assert_eq!(record.key, "mastodon:77");

    // The consumer decodes and dispatches it to the aggregator.
    let dispatched = match consumer().step(Some(&record.payload)) {
        StepAction::Dispatch(p) => p,
        other => panic!("expected a dispatch, got {other:?}"),
    };
    let mut agg = BatchAggregator::new(1);
    let batch = agg.on_post(dispatched).expect("threshold one flushes at once");

    // The flushed batch crosses the channel and reaches both clients.
    let mut channel = PubSubChannel::new();
    let a = channel.subscribe();
    let b = channel.subscribe();
    channel.publish(social_pipeline::codec::encode_batch(&batch));
    let for_a = channel.recv(a).expect("first client receives");
    let for_b = channel.recv(b).expect("second client receives");
    assert_eq!(for_a, for_b);

    // Each client's event shows the post.
    let data = sse_event_data(&for_a).expect("the batch renders");
    let parsed: serde_json::Value = serde_json::from_str(&data).expect("valid JSON");
    assert_eq!(parsed["posts"][0]["id"], "77");
    assert_eq!(parsed["posts"][0]["content"], "hi");
}
