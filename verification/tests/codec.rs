//! The wire codecs against concrete bytes and against prost.

use prost::Message;
use social_pipeline::codec::{
    decode_batch, decode_post, decode_timestamp, encode_batch, encode_post, encode_timestamp,
};
use social_pipeline::envelope::{decode_envelope, encode_envelope};
use social_pipeline::error::Error;
use social_pipeline::post::{Post, Timestamp};
use social_pipeline::varint::{decode_varint, encode_varint_to};

fn post(id: &str, service: i32, ts: Option<(i64, i32)>, content: &str) -> Post {
    Post {
        id: id.to_string(),
        service,
        timestamp: ts.map(|(seconds, nanos)| Timestamp { seconds, nanos }),
        content: content.to_string(),
    }
}

#[test]
fn varint_matches_prost() {
    let values: Vec<u64> = vec![
        0,
        1,
        127,
        128,
        300,
        16383,
        16384,
        u64::from(u32::MAX),
        u64::MAX - 1,
        u64::MAX,
    ];
    for &v in &values {
        let mut ours: Vec<u8> = Vec::new();
        encode_varint_to(v, &mut ours);
        let mut theirs: Vec<u8> = Vec::new();
        prost::encoding::encode_varint(v, &mut theirs);
        assert_eq!(ours, theirs, "encoding of {v}");

        let decoded = decode_varint(&ours, 0).expect("decodes");
        assert_eq!(decoded, (v, ours.len()));

        let mut buf: &[u8] = &ours;
        let theirs_back = prost::encoding::decode_varint(&mut buf).expect("prost decodes");
        assert_eq!(theirs_back, v);
    }
}

#[test]
fn varint_rejects_garbage() {
    // An unterminated run of continuation bytes.
    assert_eq!(decode_varint(&[0x80, 0x80, 0x80], 0), None);
    // Eleven bytes is past the limit even if terminated.
    let long = vec![0x80u8; 10];
    let mut eleven = long.clone();
    eleven.push(0x01);
    assert_eq!(decode_varint(&eleven, 0), None);
    // An overflowing value.
    let mut over = vec![0xffu8; 9];
    over.push(0x02);
    assert_eq!(decode_varint(&over, 0), None);
}

#[test]
fn timestamp_matches_prost() {
    let cases = vec![
        (0i64, 0i32),
        (1i64, 0i32),
        (0i64, 7i32),
        (1700000000i64, 123456789i32),
        (-1i64, 500i32),
        (i64::MIN, i32::MIN),
        (i64::MAX, i32::MAX),
    ];
    for (seconds, nanos) in cases {
        let ours = encode_timestamp(&Timestamp { seconds, nanos });
        let theirs = prost_types::Timestamp { seconds, nanos }.encode_to_vec();
        assert_eq!(ours, theirs, "encoding of {seconds}s {nanos}ns");

        let back = decode_timestamp(&ours).expect("decodes");
        assert_eq!(back, Timestamp { seconds, nanos });

        let prost_back = prost_types::Timestamp::decode(ours.as_slice()).expect("prost decodes");
        assert_eq!((prost_back.seconds, prost_back.nanos), (seconds, nanos));
    }
}

#[test]
fn post_encoding_is_canonical() {
    let p = post("a", 1, None, "b");
    let bytes = encode_post(&p);
    // field 1 "a", field 2 varint 1, field 4 "b"; no timestamp field.
    assert_eq!(bytes, vec![0x0a, 0x01, b'a', 0x10, 0x01, 0x22, 0x01, b'b']);
}

#[test]
fn post_defaults_are_omitted() {
    let p = post("", 0, None, "");
    assert_eq!(encode_post(&p), Vec::<u8>::new());
    let back = decode_post(&[]).expect("empty message decodes");
    assert_eq!(back, p);
}

#[test]
fn post_round_trips() {
    let cases = vec![
        post("123", 1, Some((1700000000, 5)), "hello world"),
        post("x-9", 2, None, ""),
        post("id", -5, Some((-62135596800, 0)), "unicode: \u{e9}\u{4e16}\u{1f600}"),
        post("q", 77, Some((0, 0)), "with \"quotes\" and \\slashes\\ and\nnewlines"),
        post("", 0, Some((1, 1)), "content only"),
    ];
    for p in cases {
        let bytes = encode_post(&p);
        let back = decode_post(&bytes).expect("round trip decodes");
        assert_eq!(back, p);
    }
}

#[test]
fn post_decode_rejects_bad_utf8() {
    // field 1 with one 0xff byte: not UTF-8.
    let bytes = vec![0x0a, 0x01, 0xff];
    assert_eq!(decode_post(&bytes), None);
}

#[test]
fn post_decode_rejects_trailing_garbage() {
    let mut bytes = encode_post(&post("a", 1, None, ""));
    bytes.push(0x99);
    assert_eq!(decode_post(&bytes), None);
}

#[test]
fn batch_round_trips() {
    let batch = vec![
        post("1", 1, Some((10, 20)), "first"),
        post("2", 2, None, "second"),
        post("3", 0, None, ""),
    ];
    let bytes = encode_batch(&batch);
    let back = decode_batch(&bytes).expect("batch decodes");
    assert_eq!(back, batch);

    let empty = encode_batch(&Vec::new());
    assert_eq!(empty, Vec::<u8>::new());
    assert_eq!(decode_batch(&empty), Some(Vec::new()));
}

#[test]
fn full_flush_batch_round_trips() {
    let batch: Vec<Post> = (0..50)
        .map(|i| post(&format!("id-{i}"), (i % 3) as i32, Some((i as i64, i as i32)), "body"))
        .collect();
    let bytes = encode_batch(&batch);
    assert_eq!(decode_batch(&bytes), Some(batch));
}

#[test]
fn long_strings_round_trip() {
    // A content field long enough that its length needs a two-byte varint.
    let long = "x".repeat(300);
    let p = post("1", 1, None, &long);
    let bytes = encode_post(&p);
    assert_eq!(decode_post(&bytes), Some(p));
}

#[test]
fn envelope_round_trips() {
    let payload = vec![1u8, 2, 3, 4, 5];
    let framed = encode_envelope(0x01020304, &payload);
    assert_eq!(framed[0], 0);
    assert_eq!(&framed[1..5], &[1, 2, 3, 4]);
    let opened = decode_envelope(&framed).expect("ok").expect("some");
    assert_eq!(opened.schema_id, 0x01020304);
    assert_eq!(opened.payload, payload);
}

#[test]
fn envelope_empty_is_skip_not_error() {
    assert!(matches!(decode_envelope(&[]), Ok(None)));
}

#[test]
fn envelope_errors_are_registry_kind() {
    // Too short for a header.
    assert_eq!(decode_envelope(&[0, 1, 2]).unwrap_err(), Error::SchemaRegistry);
    // Wrong magic byte.
    assert_eq!(decode_envelope(&[9, 0, 0, 0, 1, 7]).unwrap_err(), Error::SchemaRegistry);
}
