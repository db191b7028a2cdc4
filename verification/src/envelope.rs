//! The registry framing of the durable log: a magic byte, a four-byte
//! big-endian schema id, then the raw message bytes.
//!
//! Producers and consumers agree on the wire schema through the id alone,
//! so the schema itself never travels with a message.

use crate::error::Error;
use vstd::prelude::*;
use vstd::slice::{slice_index_get, slice_subrange, slice_to_vec};

verus! {

/// A framed message: which schema its payload was written under, and the
/// payload itself.  Opaque to everything but the codec.
#[derive(Debug, PartialEq, Eq)]
pub struct Envelope {
    pub schema_id: u32,
    pub payload: Vec<u8>,
}

/// The four bytes of `x`, most significant first.
pub open spec fn u32_be_bytes(x: u32) -> Seq<u8> {
    seq![
        (x / 0x100_0000) as u8,
        ((x / 0x1_0000) % 0x100) as u8,
        ((x / 0x100) % 0x100) as u8,
        (x % 0x100) as u8,
    ]
}

/// The bytes of a framed message.
pub open spec fn envelope_bytes(schema_id: u32, payload: Seq<u8>) -> Seq<u8> {
    seq![0u8] + u32_be_bytes(schema_id) + payload
}

/// What a parse of `s` as a framed message yields: the header must be the
/// magic byte and a schema id; everything after it is the payload.
pub open spec fn parse_envelope(s: Seq<u8>) -> Option<(u32, Seq<u8>)> {
    if s.len() >= 5 && s[0] == 0 {
        Some(
            (
                (s[1] * 0x100_0000 + s[2] * 0x1_0000 + s[3] * 0x100 + s[4]) as u32,
                s.subrange(5, s.len() as int),
            ),
        )
    } else {
        None
    }
}

/// Frame `payload` under `schema_id`.
pub fn encode_envelope(schema_id: u32, payload: &[u8]) -> (r: Vec<u8>)
    ensures
        r@ == envelope_bytes(schema_id, payload@),
{
    let mut out: Vec<u8> = Vec::new();
    out.push(0u8);
    out.push(#[verifier::truncate] ((schema_id / 0x100_0000) as u8));
    out.push(#[verifier::truncate] (((schema_id / 0x1_0000) % 0x100) as u8));
    out.push(#[verifier::truncate] (((schema_id / 0x100) % 0x100) as u8));
    out.push(#[verifier::truncate] ((schema_id % 0x100) as u8));
    out.extend_from_slice(payload);
    proof {
        assert(out@ =~= envelope_bytes(schema_id, payload@));
    }
    out
}

/// Unframing inverts framing, and yields the whole payload.
pub proof fn lemma_envelope_round_trip(schema_id: u32, payload: Seq<u8>)
    ensures
        parse_envelope(envelope_bytes(schema_id, payload)) == Some((schema_id, payload)),
{
    let s = envelope_bytes(schema_id, payload);
    assert(s.len() == 5 + payload.len());
    assert(s[0] == 0);
    assert(s[1] == (schema_id / 0x100_0000) as u8);
    assert(s[2] == ((schema_id / 0x1_0000) % 0x100) as u8);
    assert(s[3] == ((schema_id / 0x100) % 0x100) as u8);
    assert(s[4] == (schema_id % 0x100) as u8);
    let x = schema_id;
    assert(((x / 0x100_0000) % 0x100) * 0x100_0000 + ((x / 0x1_0000) % 0x100) * 0x1_0000 + ((x
        / 0x100) % 0x100) * 0x100 + (x % 0x100) == x) by (bit_vector);
    assert(x / 0x100_0000 < 0x100) by (bit_vector);
    assert(s.subrange(5, s.len() as int) =~= payload);
}

/// Unframe a record's bytes.  An absent or empty record is no message at
/// all — the caller skips it without error — a malformed header is a
/// registry-framing fault, and anything else yields the schema id and the
/// payload.
pub fn decode_envelope(b: &[u8]) -> (r: Result<Option<Envelope>, Error>)
    ensures
        match r {
            Ok(None) => b@.len() == 0,
            Ok(Some(e)) => parse_envelope(b@) == Some((e.schema_id, e.payload@)),
            Err(e) => b@.len() > 0 && e == Error::SchemaRegistry && parse_envelope(b@) is None,
        },
        b@.len() == 0 ==> r is Ok,
{
    let len = b.len();
    if len == 0 {
        return Ok(None);
    }
    if len < 5 || *slice_index_get(b, 0) != 0 {
        return Err(Error::SchemaRegistry);
    }
    let b1 = *slice_index_get(b, 1) as u32;
    let b2 = *slice_index_get(b, 2) as u32;
    let b3 = *slice_index_get(b, 3) as u32;
    let b4 = *slice_index_get(b, 4) as u32;
    let schema_id = b1 * 0x100_0000 + b2 * 0x1_0000 + b3 * 0x100 + b4;
    let payload = slice_to_vec(slice_subrange(b, 5, len));
    proof {
        assert(payload@ =~= b@.subrange(5, b@.len() as int));
    }
    Ok(Some(Envelope { schema_id, payload }))
}

} // verus!
