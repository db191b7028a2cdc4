//! The message layer of the wire format: timestamps, posts and batches of
//! posts as runs of wire fields.
//!
//! The encoders write canonical bytes — fields in ascending number order,
//! default values omitted — and the parsers accept exactly that shape,
//! reading an omitted field as its default.  Parsing is total: every byte
//! string either yields a value or is rejected, and
//! [`lemma_post_round_trip`] and [`lemma_batch_round_trip`] show that a
//! parse inverts the encoding.

use crate::post::{posts_view, Post, PostBatch, PostView, Timestamp};
use crate::varint::lemma_varint_len;
use crate::wire::{
    decode_fields, encode_chunk_field, encode_uint_field, field_bytes, field_wf, fields_bytes,
    fields_wf, lemma_fields_bytes_app, lemma_fields_bytes_singleton, lemma_parse_fields_encode,
    parse_fields, raw_fields_view, FieldVal, RawField,
};
use vstd::prelude::*;
use vstd::utf8::{
    decode_utf8, encode_utf8, encode_utf8_decode_utf8, encode_utf8_valid_utf8, valid_utf8,
};

verus! {

/// The wire fields of a timestamp: seconds then nanoseconds, zeroes
/// omitted.
pub open spec fn ts_fields(t: Timestamp) -> Seq<(u64, FieldVal)> {
    (if t.seconds != 0 {
        seq![(1u64, FieldVal::Uint(t.seconds as u64))]
    } else {
        Seq::empty()
    }) + (if t.nanos != 0 {
        seq![(2u64, FieldVal::Uint(t.nanos as u64))]
    } else {
        Seq::empty()
    })
}

/// The bytes of a timestamp message.
pub open spec fn ts_bytes(t: Timestamp) -> Seq<u8> {
    fields_bytes(ts_fields(t))
}

/// The wire fields of a post: id, service, timestamp, content, defaults
/// omitted.  The strings travel as UTF-8 bytes.
pub open spec fn post_fields(p: PostView) -> Seq<(u64, FieldVal)> {
    (if p.id.len() > 0 {
        seq![(1u64, FieldVal::Chunk(encode_utf8(p.id)))]
    } else {
        Seq::empty()
    }) + (if p.service != 0 {
        seq![(2u64, FieldVal::Uint(p.service as u64))]
    } else {
        Seq::empty()
    }) + (match p.timestamp {
        Some(t) => seq![(3u64, FieldVal::Chunk(ts_bytes(t)))],
        None => Seq::empty(),
    }) + (if p.content.len() > 0 {
        seq![(4u64, FieldVal::Chunk(encode_utf8(p.content)))]
    } else {
        Seq::empty()
    })
}

/// The bytes of a post message.
pub open spec fn post_bytes(p: PostView) -> Seq<u8> {
    fields_bytes(post_fields(p))
}

/// A post whose strings fit on the wire; every post held in memory is.
pub open spec fn encodable(p: PostView) -> bool {
    &&& encode_utf8(p.id).len() <= u64::MAX
    &&& encode_utf8(p.content).len() <= u64::MAX
}

/// The wire fields of a batch: one length-delimited field per post, in
/// order.
pub open spec fn batch_fields(ps: Seq<PostView>) -> Seq<(u64, FieldVal)> {
    ps.map_values(|p: PostView| (1u64, FieldVal::Chunk(post_bytes(p))))
}

/// The bytes of a batch message.
pub open spec fn batch_bytes(ps: Seq<PostView>) -> Seq<u8> {
    fields_bytes(batch_fields(ps))
}

/// Every post of the batch fits on the wire.
pub open spec fn batch_encodable(ps: Seq<PostView>) -> bool {
    &&& forall|i: int| 0 <= i < ps.len() ==> #[trigger] encodable(ps[i])
    &&& forall|i: int| 0 <= i < ps.len() ==> #[trigger] post_bytes(ps[i]).len() <= u64::MAX
}

// ---------------------------------------------------------------------------
// Reading a run of fields back into a message.
// ---------------------------------------------------------------------------

/// Read an optional varint field `num` from the front of `fs`: its value
/// and the remaining fields, the default zero when the field is absent,
/// nothing when the field is present with the wrong wire type.
pub open spec fn take_uint(fs: Seq<(u64, FieldVal)>, num: u64) -> Option<
    (u64, Seq<(u64, FieldVal)>),
> {
    if fs.len() > 0 && fs[0].0 == num {
        match fs[0].1 {
            FieldVal::Uint(v) => Some((v, fs.drop_first())),
            FieldVal::Chunk(_) => None,
        }
    } else {
        Some((0u64, fs))
    }
}

/// Read an optional length-delimited field `num` from the front of `fs`.
pub open spec fn take_chunk(fs: Seq<(u64, FieldVal)>, num: u64) -> Option<
    (Option<Seq<u8>>, Seq<(u64, FieldVal)>),
> {
    if fs.len() > 0 && fs[0].0 == num {
        match fs[0].1 {
            FieldVal::Chunk(b) => Some((Some(b), fs.drop_first())),
            FieldVal::Uint(_) => None,
        }
    } else {
        Some((None, fs))
    }
}

/// Assemble a timestamp from its run of fields; the run must hold nothing
/// else.
pub open spec fn ts_of_fields(fs: Seq<(u64, FieldVal)>) -> Option<Timestamp> {
    match take_uint(fs, 1) {
        None => None,
        Some((sec, fs1)) => match take_uint(fs1, 2) {
            None => None,
            Some((nan, fs2)) => if fs2.len() == 0 {
                Some(Timestamp { seconds: sec as i64, nanos: nan as i32 })
            } else {
                None
            },
        },
    }
}

/// What a parse of `s` as a timestamp message yields.
pub open spec fn parse_ts(s: Seq<u8>) -> Option<Timestamp> {
    match parse_fields(s) {
        Some(fs) => ts_of_fields(fs),
        None => None,
    }
}

/// Assemble a post from its run of fields; the strings must be valid
/// UTF-8, a present timestamp field must itself parse, and the run must
/// hold nothing else.
pub open spec fn post_of_fields(fs: Seq<(u64, FieldVal)>) -> Option<PostView> {
    match take_chunk(fs, 1) {
        None => None,
        Some((idb, fs1)) => match take_uint(fs1, 2) {
            None => None,
            Some((svc, fs2)) => match take_chunk(fs2, 3) {
                None => None,
                Some((tsb, fs3)) => match take_chunk(fs3, 4) {
                    None => None,
                    Some((ctb, fs4)) => if fs4.len() != 0 {
                        None
                    } else {
                        let id_bytes = match idb {
                            Some(b) => b,
                            None => Seq::empty(),
                        };
                        let ct_bytes = match ctb {
                            Some(b) => b,
                            None => Seq::empty(),
                        };
                        if !valid_utf8(id_bytes) || !valid_utf8(ct_bytes) {
                            None
                        } else {
                            match (match tsb {
                                None => Some(None),
                                Some(b) => match parse_ts(b) {
                                    Some(t) => Some(Some(t)),
                                    None => None,
                                },
                            }) {
                                None => None,
                                Some(topt) => Some(
                                    PostView {
                                        id: decode_utf8(id_bytes),
                                        service: svc as i32,
                                        timestamp: topt,
                                        content: decode_utf8(ct_bytes),
                                    },
                                ),
                            }
                        }
                    },
                },
            },
        },
    }
}

/// What a parse of `s` as a post message yields.
pub open spec fn parse_post(s: Seq<u8>) -> Option<PostView> {
    match parse_fields(s) {
        Some(fs) => post_of_fields(fs),
        None => None,
    }
}

/// Assemble a batch from its run of fields: every field must be a
/// length-delimited post field, in order.
pub open spec fn batch_of_fields(fs: Seq<(u64, FieldVal)>) -> Option<Seq<PostView>>
    decreases fs.len(),
{
    if fs.len() == 0 {
        Some(Seq::empty())
    } else if fs[0].0 == 1 {
        match fs[0].1 {
            FieldVal::Chunk(b) => match parse_post(b) {
                None => None,
                Some(p) => match batch_of_fields(fs.drop_first()) {
                    None => None,
                    Some(ps) => Some(seq![p] + ps),
                },
            },
            FieldVal::Uint(_) => None,
        }
    } else {
        None
    }
}

/// What a parse of `s` as a batch message yields.
pub open spec fn parse_batch(s: Seq<u8>) -> Option<Seq<PostView>> {
    match parse_fields(s) {
        Some(fs) => batch_of_fields(fs),
        None => None,
    }
}

// ---------------------------------------------------------------------------
// Bounds.
// ---------------------------------------------------------------------------

/// A timestamp message is at most forty bytes.
proof fn lemma_ts_bytes_len(t: Timestamp)
    ensures
        ts_bytes(t).len() <= 40,
{
    let a = if t.seconds != 0 {
        seq![(1u64, FieldVal::Uint(t.seconds as u64))]
    } else {
        Seq::empty()
    };
    let b = if t.nanos != 0 {
        seq![(2u64, FieldVal::Uint(t.nanos as u64))]
    } else {
        Seq::empty()
    };
    lemma_fields_bytes_app(a, b);
    lemma_varint_len(8);
    lemma_varint_len(16);
    lemma_varint_len(t.seconds as u64);
    lemma_varint_len(t.nanos as u64);
    lemma_fields_bytes_singleton(1u64, FieldVal::Uint(t.seconds as u64));
    lemma_fields_bytes_singleton(2u64, FieldVal::Uint(t.nanos as u64));
}

// ---------------------------------------------------------------------------
// Round trips.
// ---------------------------------------------------------------------------

/// Casting an `i64` through `u64` and back returns it.
proof fn lemma_i64_cast_round_trip(x: i64)
    ensures
        (x as u64) as i64 == x,
{
    assert((x as u64) as i64 == x) by (bit_vector);
}

/// Casting an `i32` through `u64` and back returns it.
proof fn lemma_i32_cast_round_trip(x: i32)
    ensures
        ((x as u64) as i32) == x,
{
    assert(((x as u64) as i32) == x) by (bit_vector);
}

/// Reading back the fields of a timestamp returns the timestamp.
proof fn lemma_ts_of_fields_encode(t: Timestamp)
    ensures
        ts_of_fields(ts_fields(t)) == Some(t),
{
    let a = if t.seconds != 0 {
        seq![(1u64, FieldVal::Uint(t.seconds as u64))]
    } else {
        Seq::empty()
    };
    let b = if t.nanos != 0 {
        seq![(2u64, FieldVal::Uint(t.nanos as u64))]
    } else {
        Seq::empty()
    };
    let fs = ts_fields(t);
    lemma_i64_cast_round_trip(t.seconds);
    lemma_i32_cast_round_trip(t.nanos);
    if t.seconds != 0 {
        assert(fs[0] == (1u64, FieldVal::Uint(t.seconds as u64)));
        assert(fs.drop_first() =~= b);
    } else {
        assert(fs =~= b);
    }
    if t.nanos != 0 {
        assert(b[0] == (2u64, FieldVal::Uint(t.nanos as u64)));
        assert(b.drop_first() =~= Seq::<(u64, FieldVal)>::empty());
        assert((0u64 as i64) == 0);
    }
}

/// The fields of a timestamp are well formed.
proof fn lemma_ts_fields_wf(t: Timestamp)
    ensures
        fields_wf(ts_fields(t)),
{
    assert forall|i: int| 0 <= i < ts_fields(t).len() implies #[trigger] field_wf(
        ts_fields(t)[i].0,
        ts_fields(t)[i].1,
    ) by {
        assert(ts_fields(t)[i].0 == 1 || ts_fields(t)[i].0 == 2);
    }
}

/// A parse of an encoded timestamp returns the timestamp.
pub proof fn lemma_ts_round_trip(t: Timestamp)
    ensures
        parse_ts(ts_bytes(t)) == Some(t),
{
    lemma_ts_fields_wf(t);
    lemma_parse_fields_encode(ts_fields(t));
    lemma_ts_of_fields_encode(t);
}


/// Reading an absent field yields its default and consumes nothing.
proof fn lemma_take_uint_skip(fs: Seq<(u64, FieldVal)>, num: u64)
    requires
        fs.len() == 0 || fs[0].0 != num,
    ensures
        take_uint(fs, num) == Some((0u64, fs)),
{
}

/// Reading a varint field at the front of the run yields it.
proof fn lemma_take_uint_hit(v: u64, tail: Seq<(u64, FieldVal)>, num: u64)
    ensures
        take_uint(seq![(num, FieldVal::Uint(v))] + tail, num) == Some((v, tail)),
{
    let fs = seq![(num, FieldVal::Uint(v))] + tail;
    assert(fs[0] == (num, FieldVal::Uint(v)));
    assert(fs.drop_first() =~= tail);
}

/// Reading an absent chunk field yields nothing and consumes nothing.
proof fn lemma_take_chunk_skip(fs: Seq<(u64, FieldVal)>, num: u64)
    requires
        fs.len() == 0 || fs[0].0 != num,
    ensures
        take_chunk(fs, num) == Some((None::<Seq<u8>>, fs)),
{
}

/// Reading a chunk field at the front of the run yields it.
proof fn lemma_take_chunk_hit(b: Seq<u8>, tail: Seq<(u64, FieldVal)>, num: u64)
    ensures
        take_chunk(seq![(num, FieldVal::Chunk(b))] + tail, num) == Some((Some(b), tail)),
{
    let fs = seq![(num, FieldVal::Chunk(b))] + tail;
    assert(fs[0] == (num, FieldVal::Chunk(b)));
    assert(fs.drop_first() =~= tail);
}

/// Reading back the fields of a post returns the post.
#[verifier::rlimit(100)]
#[verifier::spinoff_prover]
proof fn lemma_post_of_fields_encode(p: PostView)
    ensures
        post_of_fields(post_fields(p)) == Some(p),
{
    let a = if p.id.len() > 0 {
        seq![(1u64, FieldVal::Chunk(encode_utf8(p.id)))]
    } else {
        Seq::<(u64, FieldVal)>::empty()
    };
    let b = if p.service != 0 {
        seq![(2u64, FieldVal::Uint(p.service as u64))]
    } else {
        Seq::<(u64, FieldVal)>::empty()
    };
    let c = match p.timestamp {
        Some(t) => seq![(3u64, FieldVal::Chunk(ts_bytes(t)))],
        None => Seq::<(u64, FieldVal)>::empty(),
    };
    let d = if p.content.len() > 0 {
        seq![(4u64, FieldVal::Chunk(encode_utf8(p.content)))]
    } else {
        Seq::<(u64, FieldVal)>::empty()
    };
    let fs = post_fields(p);
    assert(fs == ((a + b) + c) + d);

    // Field 1: the id.
    let fs1 = (b + c) + d;
    if p.id.len() > 0 {
        assert(fs =~= seq![(1u64, FieldVal::Chunk(encode_utf8(p.id)))] + fs1);
        lemma_take_chunk_hit(encode_utf8(p.id), fs1, 1u64);
    } else {
        assert(fs =~= fs1);
        assert(fs.len() == 0 || fs[0].0 != 1);
        lemma_take_chunk_skip(fs, 1u64);
    }

    // Field 2: the service code.
    let fs2 = c + d;
    if p.service != 0 {
        assert(fs1 =~= seq![(2u64, FieldVal::Uint(p.service as u64))] + fs2);
        lemma_take_uint_hit(p.service as u64, fs2, 2u64);
    } else {
        assert(fs1 =~= fs2);
        assert(fs1.len() == 0 || fs1[0].0 != 2);
        lemma_take_uint_skip(fs1, 2u64);
    }

    // Field 3: the timestamp.
    let fs3 = d;
    match p.timestamp {
        Some(t) => {
            assert(fs2 =~= seq![(3u64, FieldVal::Chunk(ts_bytes(t)))] + fs3);
            lemma_take_chunk_hit(ts_bytes(t), fs3, 3u64);
            lemma_ts_round_trip(t);
        },
        None => {
            assert(fs2 =~= fs3);
            assert(fs2.len() == 0 || fs2[0].0 != 3);
            lemma_take_chunk_skip(fs2, 3u64);
        },
    }

    // Field 4: the content.
    let fs4 = Seq::<(u64, FieldVal)>::empty();
    if p.content.len() > 0 {
        assert(fs3 =~= seq![(4u64, FieldVal::Chunk(encode_utf8(p.content)))] + fs4);
        lemma_take_chunk_hit(encode_utf8(p.content), fs4, 4u64);
    } else {
        assert(fs3 =~= fs4);
        lemma_take_chunk_skip(fs3, 4u64);
    }

    // The strings decode back to themselves.
    encode_utf8_valid_utf8(p.id);
    encode_utf8_decode_utf8(p.id);
    encode_utf8_valid_utf8(p.content);
    encode_utf8_decode_utf8(p.content);
    if p.id.len() == 0 {
        assert(p.id =~= Seq::<char>::empty());
        assert(encode_utf8(p.id) =~= Seq::<u8>::empty());
    }
    if p.content.len() == 0 {
        assert(p.content =~= Seq::<char>::empty());
        assert(encode_utf8(p.content) =~= Seq::<u8>::empty());
    }
    lemma_i32_cast_round_trip(p.service);
    assert((0u64 as i32) == 0);
    assert(post_of_fields(fs) matches Some(q) && q =~= p);
}

/// Well-formedness is preserved by concatenation of runs.
proof fn lemma_fields_wf_app(a: Seq<(u64, FieldVal)>, b: Seq<(u64, FieldVal)>)
    requires
        fields_wf(a),
        fields_wf(b),
    ensures
        fields_wf(a + b),
{
    assert forall|i: int| 0 <= i < (a + b).len() implies #[trigger] field_wf(
        (a + b)[i].0,
        (a + b)[i].1,
    ) by {
        if i < a.len() {
            assert((a + b)[i] == a[i]);
            assert(field_wf(a[i].0, a[i].1));
        } else {
            assert((a + b)[i] == b[i - a.len()]);
            assert(field_wf(b[i - a.len()].0, b[i - a.len()].1));
        }
    }
}

/// The fields of an encodable post are well formed.
proof fn lemma_post_fields_wf(p: PostView)
    requires
        encodable(p),
    ensures
        fields_wf(post_fields(p)),
{
    let a = if p.id.len() > 0 {
        seq![(1u64, FieldVal::Chunk(encode_utf8(p.id)))]
    } else {
        Seq::<(u64, FieldVal)>::empty()
    };
    let b = if p.service != 0 {
        seq![(2u64, FieldVal::Uint(p.service as u64))]
    } else {
        Seq::<(u64, FieldVal)>::empty()
    };
    let c = match p.timestamp {
        Some(t) => seq![(3u64, FieldVal::Chunk(ts_bytes(t)))],
        None => Seq::<(u64, FieldVal)>::empty(),
    };
    let d = if p.content.len() > 0 {
        seq![(4u64, FieldVal::Chunk(encode_utf8(p.content)))]
    } else {
        Seq::<(u64, FieldVal)>::empty()
    };
    if p.timestamp is Some {
        lemma_ts_bytes_len(p.timestamp->Some_0);
    }
    assert(fields_wf(a));
    assert(fields_wf(b));
    assert(fields_wf(c));
    assert(fields_wf(d));
    lemma_fields_wf_app(a, b);
    lemma_fields_wf_app(a + b, c);
    lemma_fields_wf_app((a + b) + c, d);
}

/// A parse of an encoded post returns the post: nothing is lost, nothing
/// is invented, for every post whose strings fit on the wire.
pub proof fn lemma_post_round_trip(p: PostView)
    requires
        encodable(p),
    ensures
        parse_post(post_bytes(p)) == Some(p),
{
    lemma_post_fields_wf(p);
    lemma_parse_fields_encode(post_fields(p));
    lemma_post_of_fields_encode(p);
}


/// Reading back the fields of a batch returns the batch.
proof fn lemma_batch_of_fields_encode(ps: Seq<PostView>)
    requires
        forall|i: int| 0 <= i < ps.len() ==> #[trigger] encodable(ps[i]),
    ensures
        batch_of_fields(batch_fields(ps)) == Some(ps),
    decreases ps.len(),
{
    if ps.len() == 0 {
        assert(batch_fields(ps) =~= Seq::<(u64, FieldVal)>::empty());
    } else {
        let fs = batch_fields(ps);
        assert(fs[0] == (1u64, FieldVal::Chunk(post_bytes(ps[0]))));
        lemma_post_round_trip(ps[0]);
        assert(fs.drop_first() =~= batch_fields(ps.drop_first()));
        assert(forall|i: int|
            0 <= i < ps.drop_first().len() ==> #[trigger] encodable(ps.drop_first()[i]));
        lemma_batch_of_fields_encode(ps.drop_first());
        assert(seq![ps[0]] + ps.drop_first() =~= ps);
    }
}

/// The fields of an encodable batch are well formed.
proof fn lemma_batch_fields_wf(ps: Seq<PostView>)
    requires
        batch_encodable(ps),
    ensures
        fields_wf(batch_fields(ps)),
{
    let fs = batch_fields(ps);
    assert forall|i: int| 0 <= i < fs.len() implies #[trigger] field_wf(fs[i].0, fs[i].1) by {
        assert(fs[i] == (1u64, FieldVal::Chunk(post_bytes(ps[i]))));
        assert(post_bytes(ps[i]).len() <= u64::MAX);
    }
}

/// A parse of an encoded batch returns the batch: the posts in order,
/// nothing lost, nothing added.
pub proof fn lemma_batch_round_trip(ps: Seq<PostView>)
    requires
        batch_encodable(ps),
    ensures
        parse_batch(batch_bytes(ps)) == Some(ps),
{
    lemma_batch_fields_wf(ps);
    lemma_parse_fields_encode(batch_fields(ps));
    lemma_batch_of_fields_encode(ps);
}

// ---------------------------------------------------------------------------
// Encoding.
// ---------------------------------------------------------------------------

/// Encode a timestamp message.
pub fn encode_timestamp(t: &Timestamp) -> (r: Vec<u8>)
    ensures
        r@ == ts_bytes(*t),
{
    let mut out: Vec<u8> = Vec::new();
    if t.seconds != 0 {
        encode_uint_field(1, #[verifier::truncate] (t.seconds as u64), &mut out);
    }
    if t.nanos != 0 {
        encode_uint_field(2, #[verifier::truncate] (t.nanos as u64), &mut out);
    }
    proof {
        let a = if t.seconds != 0 {
            seq![(1u64, FieldVal::Uint(t.seconds as u64))]
        } else {
            Seq::<(u64, FieldVal)>::empty()
        };
        let b = if t.nanos != 0 {
            seq![(2u64, FieldVal::Uint(t.nanos as u64))]
        } else {
            Seq::<(u64, FieldVal)>::empty()
        };
        lemma_fields_bytes_app(a, b);
        lemma_fields_bytes_singleton(1u64, FieldVal::Uint(t.seconds as u64));
        lemma_fields_bytes_singleton(2u64, FieldVal::Uint(t.nanos as u64));
        assert(out@ =~= ts_bytes(*t));
    }
    out
}

/// Encode a post message.
pub fn encode_post(p: &Post) -> (r: Vec<u8>)
    ensures
        r@ == post_bytes(p@),
{
    let mut out: Vec<u8> = Vec::new();
    if !p.id.as_str().is_empty() {
        encode_chunk_field(1, p.id.as_str().as_bytes(), &mut out);
    }
    if p.service != 0 {
        encode_uint_field(2, #[verifier::truncate] (p.service as u64), &mut out);
    }
    match &p.timestamp {
        Some(t) => {
            let tsb = encode_timestamp(t);
            proof {
                lemma_ts_bytes_len(*t);
            }
            encode_chunk_field(3, tsb.as_slice(), &mut out);
        },
        None => {},
    }
    if !p.content.as_str().is_empty() {
        encode_chunk_field(4, p.content.as_str().as_bytes(), &mut out);
    }
    proof {
        let a = if p.id@.len() > 0 {
            seq![(1u64, FieldVal::Chunk(encode_utf8(p.id@)))]
        } else {
            Seq::<(u64, FieldVal)>::empty()
        };
        let b = if p.service != 0 {
            seq![(2u64, FieldVal::Uint(p.service as u64))]
        } else {
            Seq::<(u64, FieldVal)>::empty()
        };
        let c = match p.timestamp {
            Some(t) => seq![(3u64, FieldVal::Chunk(ts_bytes(t)))],
            None => Seq::<(u64, FieldVal)>::empty(),
        };
        let d = if p.content@.len() > 0 {
            seq![(4u64, FieldVal::Chunk(encode_utf8(p.content@)))]
        } else {
            Seq::<(u64, FieldVal)>::empty()
        };
        lemma_fields_bytes_app(a, b);
        lemma_fields_bytes_app(a + b, c);
        lemma_fields_bytes_app((a + b) + c, d);
        lemma_fields_bytes_singleton(1u64, FieldVal::Chunk(encode_utf8(p.id@)));
        lemma_fields_bytes_singleton(2u64, FieldVal::Uint(p.service as u64));
        if p.timestamp is Some {
            lemma_fields_bytes_singleton(
                3u64,
                FieldVal::Chunk(ts_bytes(p.timestamp->Some_0)),
            );
        }
        lemma_fields_bytes_singleton(4u64, FieldVal::Chunk(encode_utf8(p.content@)));
        assert(post_fields(p@) == ((a + b) + c) + d);
        assert(out@ =~= post_bytes(p@));
    }
    out
}

/// Encode a batch message: one post field per post, in order.
pub fn encode_batch(posts: &Vec<Post>) -> (r: Vec<u8>)
    ensures
        r@ == batch_bytes(posts_view(posts@)),
{
    let mut out: Vec<u8> = Vec::new();
    let mut idx: usize = 0;
    proof {
        assert(posts_view(posts@.take(0)) =~= Seq::<PostView>::empty());
        assert(batch_fields(Seq::<PostView>::empty()) =~= Seq::<(u64, FieldVal)>::empty());
    }
    while idx < posts.len()
        invariant
            idx <= posts@.len(),
            out@ == batch_bytes(posts_view(posts@.take(idx as int))),
        decreases posts@.len() - idx,
    {
        let pb = encode_post(&posts[idx]);
        encode_chunk_field(1, pb.as_slice(), &mut out);
        proof {
            let prev = posts_view(posts@.take(idx as int));
            let here = posts@[idx as int]@;
            assert(posts_view(posts@.take(idx + 1)) =~= prev + seq![here]);
            assert(batch_fields(prev + seq![here]) =~= batch_fields(prev) + seq![
                (1u64, FieldVal::Chunk(post_bytes(here))),
            ]);
            lemma_fields_bytes_app(
                batch_fields(prev),
                seq![(1u64, FieldVal::Chunk(post_bytes(here)))],
            );
            lemma_fields_bytes_singleton(1u64, FieldVal::Chunk(post_bytes(here)));
            assert(out@ =~= batch_bytes(posts_view(posts@.take(idx + 1))));
        }
        idx = idx + 1;
    }
    proof {
        assert(posts@.take(posts@.len() as int) =~= posts@);
    }
    out
}


// ---------------------------------------------------------------------------
// Decoding.
// ---------------------------------------------------------------------------

/// Relies on std's `str::from_utf8`: it accepts exactly the byte strings
/// that are valid UTF-8 and yields their decoding.
#[verifier::external_body]
fn bytes_to_string(b: &[u8]) -> (r: Option<String>)
    ensures
        match r {
            Some(s) => valid_utf8(b@) && s@ == decode_utf8(b@),
            None => !valid_utf8(b@),
        },
{
    match std::str::from_utf8(b) {
        Ok(s) => Some(s.to_owned()),
        Err(_) => None,
    }
}

/// Read an optional varint field `num` at cursor `idx`, as
/// [`take_uint`] does on the corresponding suffix of the run.
fn take_uint_at(fields: &Vec<(u64, RawField)>, idx: usize, num: u64) -> (r: Option<(u64, usize)>)
    requires
        idx <= fields@.len(),
    ensures
        ({
            let fsv = raw_fields_view(fields@);
            let fs = fsv.subrange(idx as int, fsv.len() as int);
            match r {
                Some(pr) => idx <= pr.1 <= fields@.len() && take_uint(fs, num) == Some(
                    (pr.0, fsv.subrange(pr.1 as int, fsv.len() as int)),
                ),
                None => take_uint(fs, num) is None,
            }
        }),
{
    let ghost fsv = raw_fields_view(fields@);
    let ghost fs = fsv.subrange(idx as int, fsv.len() as int);
    if idx < fields.len() && fields[idx].0 == num {
        proof {
            assert(fs[0] == fsv[idx as int]);
        }
        match &fields[idx].1 {
            RawField::Uint(v) => {
                proof {
                    assert(fs.drop_first() =~= fsv.subrange(idx + 1, fsv.len() as int));
                }
                Some((*v, idx + 1))
            },
            RawField::Chunk(_) => None,
        }
    } else {
        proof {
            if idx < fields@.len() {
                assert(fs[0] == fsv[idx as int]);
            }
            assert(fs.len() == 0 || fs[0].0 != num);
        }
        Some((0, idx))
    }
}

/// Read an optional chunk field `num` at cursor `idx`, as
/// [`take_chunk`] does on the corresponding suffix of the run.
fn take_chunk_at<'a>(fields: &'a Vec<(u64, RawField)>, idx: usize, num: u64) -> (r: Option<
    (Option<&'a Vec<u8>>, usize),
>)
    requires
        idx <= fields@.len(),
    ensures
        ({
            let fsv = raw_fields_view(fields@);
            let fs = fsv.subrange(idx as int, fsv.len() as int);
            match r {
                Some(pr) => idx <= pr.1 <= fields@.len() && take_chunk(fs, num) == Some(
                    (
                        match pr.0 {
                            Some(bv) => Some(bv@),
                            None => None,
                        },
                        fsv.subrange(pr.1 as int, fsv.len() as int),
                    ),
                ),
                None => take_chunk(fs, num) is None,
            }
        }),
{
    let ghost fsv = raw_fields_view(fields@);
    let ghost fs = fsv.subrange(idx as int, fsv.len() as int);
    if idx < fields.len() && fields[idx].0 == num {
        proof {
            assert(fs[0] == fsv[idx as int]);
        }
        match &fields[idx].1 {
            RawField::Chunk(b) => {
                proof {
                    assert(fs.drop_first() =~= fsv.subrange(idx + 1, fsv.len() as int));
                }
                Some((Some(b), idx + 1))
            },
            RawField::Uint(_) => None,
        }
    } else {
        proof {
            if idx < fields@.len() {
                assert(fs[0] == fsv[idx as int]);
            }
            assert(fs.len() == 0 || fs[0].0 != num);
        }
        Some((None, idx))
    }
}

/// Parse a timestamp message.  The result follows [`parse_ts`] exactly.
pub fn decode_timestamp(s: &[u8]) -> (r: Option<Timestamp>)
    ensures
        match r {
            Some(t) => parse_ts(s@) == Some(t),
            None => parse_ts(s@) is None,
        },
{
    let fields = match decode_fields(s) {
        Some(f) => f,
        None => {
            return None;
        },
    };
    let ghost fsv = raw_fields_view(fields@);
    proof {
        assert(fsv.subrange(0, fsv.len() as int) =~= fsv);
    }
    let (sec, i1) = match take_uint_at(&fields, 0, 1) {
        Some(p) => p,
        None => {
            return None;
        },
    };
    let (nan, i2) = match take_uint_at(&fields, i1, 2) {
        Some(p) => p,
        None => {
            return None;
        },
    };
    if i2 != fields.len() {
        proof {
            assert(fsv.subrange(i2 as int, fsv.len() as int).len() != 0);
        }
        return None;
    }
    proof {
        assert(fsv.subrange(i2 as int, fsv.len() as int).len() == 0);
    }
    Some(
        Timestamp {
            seconds: #[verifier::truncate] (sec as i64),
            nanos: #[verifier::truncate] (nan as i32),
        },
    )
}

/// Parse a post message.  The result follows [`parse_post`] exactly.
pub fn decode_post(s: &[u8]) -> (r: Option<Post>)
    ensures
        match r {
            Some(q) => parse_post(s@) == Some(q@),
            None => parse_post(s@) is None,
        },
{
    let fields = match decode_fields(s) {
        Some(f) => f,
        None => {
            return None;
        },
    };
    let ghost fsv = raw_fields_view(fields@);
    proof {
        assert(fsv.subrange(0, fsv.len() as int) =~= fsv);
    }
    let (idb, i1) = match take_chunk_at(&fields, 0, 1) {
        Some(p) => p,
        None => {
            return None;
        },
    };
    let (svc, i2) = match take_uint_at(&fields, i1, 2) {
        Some(p) => p,
        None => {
            return None;
        },
    };
    let (tsb, i3) = match take_chunk_at(&fields, i2, 3) {
        Some(p) => p,
        None => {
            return None;
        },
    };
    let (ctb, i4) = match take_chunk_at(&fields, i3, 4) {
        Some(p) => p,
        None => {
            return None;
        },
    };
    if i4 != fields.len() {
        proof {
            assert(fsv.subrange(i4 as int, fsv.len() as int).len() != 0);
        }
        return None;
    }
    proof {
        assert(fsv.subrange(i4 as int, fsv.len() as int).len() == 0);
        assert(valid_utf8(Seq::<u8>::empty()));
        assert(decode_utf8(Seq::<u8>::empty()) =~= Seq::<char>::empty());
    }
    let id_s: String = match idb {
        Some(bv) => match bytes_to_string(bv.as_slice()) {
            Some(x) => x,
            None => {
                return None;
            },
        },
        None => String::new(),
    };
    let ct_s: String = match ctb {
        Some(bv) => match bytes_to_string(bv.as_slice()) {
            Some(x) => x,
            None => {
                return None;
            },
        },
        None => String::new(),
    };
    let ts: Option<Timestamp> = match tsb {
        Some(bv) => match decode_timestamp(bv.as_slice()) {
            Some(t) => Some(t),
            None => {
                return None;
            },
        },
        None => None,
    };
    let q = Post {
        id: id_s,
        service: #[verifier::truncate] (svc as i32),
        timestamp: ts,
        content: ct_s,
    };
    proof {
        assert(post_of_fields(fsv) matches Some(pv) && pv =~= q@);
    }
    Some(q)
}

/// Parse a batch message.  The result follows [`parse_batch`] exactly.
pub fn decode_batch(s: &[u8]) -> (r: Option<Vec<Post>>)
    ensures
        match r {
            Some(v) => parse_batch(s@) == Some(posts_view(v@)),
            None => parse_batch(s@) is None,
        },
{
    let fields = match decode_fields(s) {
        Some(f) => f,
        None => {
            return None;
        },
    };
    let ghost fsv = raw_fields_view(fields@);
    let len = fields.len();
    let mut out: Vec<Post> = Vec::new();
    let mut idx: usize = 0;
    proof {
        assert(fsv.subrange(0, fsv.len() as int) =~= fsv);
        if batch_of_fields(fsv) is Some {
            let ps = batch_of_fields(fsv)->Some_0;
            assert(posts_view(out@) + ps =~= ps);
        }
    }
    while idx < len
        invariant
            idx <= len,
            len == fields@.len(),
            fsv == raw_fields_view(fields@),
            parse_fields(s@) == Some(fsv),
            batch_of_fields(fsv) == (match batch_of_fields(
                fsv.subrange(idx as int, fsv.len() as int),
            ) {
                Some(ps) => Some(posts_view(out@) + ps),
                None => None::<Seq<PostView>>,
            }),
        decreases len - idx,
    {
        let ghost fs = fsv.subrange(idx as int, fsv.len() as int);
        proof {
            assert(fs[0] == fsv[idx as int]);
            assert(fsv[idx as int] == (fields@[idx as int].0, fields@[idx as int].1@));
            assert(fs.drop_first() =~= fsv.subrange(idx + 1, fsv.len() as int));
        }
        if fields[idx].0 != 1 {
            return None;
        }
        match &fields[idx].1 {
            RawField::Chunk(bv) => {
                match decode_post(bv.as_slice()) {
                    Some(p) => {
                        let ghost old_out = out@;
                        let ghost pv = p@;
                        out.push(p);
                        proof {
                            assert(posts_view(out@) =~= posts_view(old_out) + seq![pv]);
                            let after = fsv.subrange(idx + 1, fsv.len() as int);
                            if batch_of_fields(after) is Some {
                                let ps = batch_of_fields(after)->Some_0;
                                assert((posts_view(old_out) + (seq![pv] + ps)) =~= (posts_view(
                                    out@,
                                ) + ps));
                            }
                        }
                        idx = idx + 1;
                    },
                    None => {
                        return None;
                    },
                }
            },
            RawField::Uint(_) => {
                return None;
            },
        }
    }
    proof {
        assert(fsv.subrange(idx as int, fsv.len() as int).len() == 0);
        assert(posts_view(out@) + Seq::<PostView>::empty() =~= posts_view(out@));
    }
    Some(out)
}

impl PostBatch {
    /// The batch as one pub/sub message.
    pub fn encode(&self) -> (r: Vec<u8>)
        ensures
            r@ == batch_bytes(self@),
    {
        encode_batch(&self.posts)
    }

    /// A pub/sub message read back as a batch.  The result follows
    /// [`parse_batch`] exactly.
    pub fn decode(s: &[u8]) -> (r: Option<PostBatch>)
        ensures
            match r {
                Some(b) => parse_batch(s@) == Some(b@),
                None => parse_batch(s@) is None,
            },
    {
        match decode_batch(s) {
            Some(posts) => Some(PostBatch { posts }),
            None => None,
        }
    }
}

} // verus!
