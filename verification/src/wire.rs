//! The field layer of the wire format: a message is a run of numbered
//! fields, each either a varint or a length-delimited chunk of bytes.
//!
//! A field's key is the varint `number * 8 + wire_type`; the pipeline's
//! messages use wire type 0 (varint) and wire type 2 (chunk) only, and a
//! parse rejects anything else.

use crate::varint::{
    decode_varint, encode_varint_to, lemma_parse_varint_encode, lemma_parse_varint_shape,
    parse_varint, varint,
};
use vstd::prelude::*;
use vstd::slice::{slice_subrange, slice_to_vec};

verus! {

/// The value of one wire field, at the specification level.
pub enum FieldVal {
    Uint(u64),
    Chunk(Seq<u8>),
}

/// The value of one wire field, as parsed.
pub enum RawField {
    Uint(u64),
    Chunk(Vec<u8>),
}

impl View for RawField {
    type V = FieldVal;

    open spec fn view(&self) -> FieldVal {
        match self {
            RawField::Uint(v) => FieldVal::Uint(*v),
            RawField::Chunk(b) => FieldVal::Chunk(b@),
        }
    }
}

/// The view of a parsed field together with its number.
pub open spec fn raw_field_view(f: (u64, RawField)) -> (u64, FieldVal) {
    (f.0, f.1@)
}

/// The view of a run of parsed fields.
pub open spec fn raw_fields_view(v: Seq<(u64, RawField)>) -> Seq<(u64, FieldVal)> {
    v.map_values(|f: (u64, RawField)| raw_field_view(f))
}

/// Largest field number whose key still fits in a `u64`.
pub open spec fn max_field_num() -> u64 {
    0x1fff_ffff_ffff_ffff
}

/// A field that can be written: its key fits in a `u64` and a chunk's
/// length fits in a `u64`.
pub open spec fn field_wf(num: u64, val: FieldVal) -> bool {
    &&& 1 <= num <= max_field_num()
    &&& match val {
        FieldVal::Chunk(b) => b.len() <= u64::MAX,
        FieldVal::Uint(_) => true,
    }
}

/// The bytes of one field: key, then the value.
pub open spec fn field_bytes(num: u64, val: FieldVal) -> Seq<u8> {
    match val {
        FieldVal::Uint(v) => varint((num * 8) as u64) + varint(v),
        FieldVal::Chunk(b) => varint((num * 8 + 2) as u64) + varint(b.len() as u64) + b,
    }
}

/// The bytes of a run of fields, in order.
pub open spec fn fields_bytes(fs: Seq<(u64, FieldVal)>) -> Seq<u8>
    decreases fs.len(),
{
    if fs.len() == 0 {
        Seq::empty()
    } else {
        field_bytes(fs[0].0, fs[0].1) + fields_bytes(fs.drop_first())
    }
}

/// Every field of the run can be written.
pub open spec fn fields_wf(fs: Seq<(u64, FieldVal)>) -> bool {
    forall|i: int| 0 <= i < fs.len() ==> #[trigger] field_wf(fs[i].0, fs[i].1)
}

/// What a parse of `s` as a run of fields yields: all of `s` must be
/// consumed, field numbers must be non-zero, and only wire types 0 and 2
/// are accepted.
pub open spec fn parse_fields(s: Seq<u8>) -> Option<Seq<(u64, FieldVal)>>
    decreases s.len(),
    via parse_fields_decreases
{
    if s.len() == 0 {
        Some(Seq::empty())
    } else {
        match parse_varint(s) {
            None => None,
            Some((key, n)) => {
                let num = key / 8;
                let wt = key % 8;
                let rest = s.subrange(n as int, s.len() as int);
                if num == 0 {
                    None
                } else if wt == 0 {
                    match parse_varint(rest) {
                        None => None,
                        Some((v, m)) => {
                            match parse_fields(rest.subrange(m as int, rest.len() as int)) {
                                None => None,
                                Some(fs) => Some(seq![(num, FieldVal::Uint(v))] + fs),
                            }
                        },
                    }
                } else if wt == 2 {
                    match parse_varint(rest) {
                        None => None,
                        Some((l, m)) => {
                            if m + l <= rest.len() {
                                match parse_fields(
                                    rest.subrange(m + l, rest.len() as int),
                                ) {
                                    None => None,
                                    Some(fs) => Some(
                                        seq![
                                            (num, FieldVal::Chunk(
                                                rest.subrange(m as int, m + l),
                                            )),
                                        ] + fs,
                                    ),
                                }
                            } else {
                                None
                            }
                        },
                    }
                } else {
                    None
                }
            },
        }
    }
}

#[via_fn]
proof fn parse_fields_decreases(s: Seq<u8>) {
    if s.len() != 0 {
        lemma_parse_varint_shape(s);
        if parse_varint(s) is Some {
            let n = parse_varint(s)->Some_0.1;
            let rest = s.subrange(n as int, s.len() as int);
            lemma_parse_varint_shape(rest);
        }
    }
}

/// A parse inverts the encoding of a well-formed run of fields.
#[verifier::rlimit(100)]
#[verifier::spinoff_prover]
pub proof fn lemma_parse_fields_encode(fs: Seq<(u64, FieldVal)>)
    requires
        fields_wf(fs),
    ensures
        parse_fields(fields_bytes(fs)) == Some(fs),
    decreases fs.len(),
{
    if fs.len() == 0 {
        assert(fields_bytes(fs) =~= Seq::empty());
    } else {
        let num = fs[0].0;
        let val = fs[0].1;
        let tail = fs.drop_first();
        assert(field_wf(num, val));
        assert(fields_wf(tail)) by {
            assert(forall|i: int|
                0 <= i < tail.len() ==> tail[i] == fs[i + 1] && #[trigger] field_wf(
                    fs[i + 1].0,
                    fs[i + 1].1,
                ));
        }
        lemma_parse_fields_encode(tail);
        let tb = fields_bytes(tail);
        let s = fields_bytes(fs);
        match val {
            FieldVal::Uint(v) => {
                let key = (num * 8) as u64;
                assert(num * 8 <= u64::MAX) by (nonlinear_arith)
                    requires
                        num <= max_field_num(),
                ;
                assert(key == num * 8);
                assert(key / 8 == num && key % 8 == 0) by (nonlinear_arith)
                    requires
                        key == num * 8,
                ;
                assert(s =~= varint(key) + (varint(v) + tb));
                lemma_parse_varint_encode(key, varint(v) + tb);
                let n = varint(key).len();
                let rest = s.subrange(n as int, s.len() as int);
                assert(rest =~= varint(v) + tb);
                lemma_parse_varint_encode(v, tb);
                let m = varint(v).len();
                assert(rest.subrange(m as int, rest.len() as int) =~= tb);
                assert(key >= 8);
                assert(seq![(num, val)] + tail =~= fs);
            },
            FieldVal::Chunk(b) => {
                let key = (num * 8 + 2) as u64;
                assert(num * 8 + 2 <= u64::MAX) by (nonlinear_arith)
                    requires
                        num <= max_field_num(),
                ;
                assert(key == num * 8 + 2);
                assert(key / 8 == num && key % 8 == 2) by (nonlinear_arith)
                    requires
                        key == num * 8 + 2,
                ;
                let lv = b.len() as u64;
                assert(s =~= varint(key) + (varint(lv) + (b + tb)));
                lemma_parse_varint_encode(key, varint(lv) + (b + tb));
                let n = varint(key).len();
                let rest = s.subrange(n as int, s.len() as int);
                assert(rest =~= varint(lv) + (b + tb));
                lemma_parse_varint_encode(lv, b + tb);
                let m = varint(lv).len();
                assert(m + lv <= rest.len());
                assert(rest.subrange(m as int, m + lv as int) =~= b);
                assert(rest.subrange(m + lv as int, rest.len() as int) =~= tb);
                assert(seq![(num, FieldVal::Chunk(b))] + tail =~= fs);
            },
        }
    }
}

/// A non-empty run of fields writes at least one byte.
pub proof fn lemma_fields_bytes_nonempty(fs: Seq<(u64, FieldVal)>)
    requires
        fs.len() > 0,
    ensures
        fields_bytes(fs).len() > 0,
{
    match fs[0].1 {
        FieldVal::Uint(v) => {
            crate::varint::lemma_varint_len((fs[0].0 * 8) as u64);
        },
        FieldVal::Chunk(b) => {
            crate::varint::lemma_varint_len((fs[0].0 * 8 + 2) as u64);
        },
    }
}

/// A run of one field writes exactly that field.
pub proof fn lemma_fields_bytes_singleton(num: u64, val: FieldVal)
    ensures
        fields_bytes(seq![(num, val)]) == field_bytes(num, val),
{
    let fs = seq![(num, val)];
    assert(fs.len() == 1);
    assert(fs[0] == (num, val));
    assert(fs.drop_first() =~= Seq::<(u64, FieldVal)>::empty());
    assert(fields_bytes(fs.drop_first()) =~= Seq::<u8>::empty());
    assert(fields_bytes(fs) == field_bytes(fs[0].0, fs[0].1) + fields_bytes(fs.drop_first()));
    assert(field_bytes(num, val) + Seq::<u8>::empty() =~= field_bytes(num, val));
}

/// Concatenating runs of fields concatenates their bytes.
pub proof fn lemma_fields_bytes_app(a: Seq<(u64, FieldVal)>, b: Seq<(u64, FieldVal)>)
    ensures
        fields_bytes(a + b) == fields_bytes(a) + fields_bytes(b),
    decreases a.len(),
{
    if a.len() == 0 {
        assert(a + b =~= b);
        assert(fields_bytes(a) + fields_bytes(b) =~= fields_bytes(b));
    } else {
        assert((a + b).drop_first() =~= a.drop_first() + b);
        lemma_fields_bytes_app(a.drop_first(), b);
        assert(fields_bytes(a + b) =~= fields_bytes(a) + fields_bytes(b));
    }
}

/// Write one varint field.
pub fn encode_uint_field(num: u64, v: u64, out: &mut Vec<u8>)
    requires
        field_wf(num, FieldVal::Uint(v)),
    ensures
        final(out)@ == old(out)@ + field_bytes(num, FieldVal::Uint(v)),
{
    proof {
        assert(num * 8 <= u64::MAX) by (nonlinear_arith)
            requires
                num <= max_field_num(),
        ;
    }
    encode_varint_to(num * 8, out);
    encode_varint_to(v, out);
    proof {
        assert(final(out)@ =~= old(out)@ + field_bytes(num, FieldVal::Uint(v)));
    }
}

/// Write one length-delimited field.  A slice always fits: its length is
/// a machine word.
pub fn encode_chunk_field(num: u64, b: &[u8], out: &mut Vec<u8>)
    requires
        1 <= num <= max_field_num(),
    ensures
        final(out)@ == old(out)@ + field_bytes(num, FieldVal::Chunk(b@)),
        field_wf(num, FieldVal::Chunk(b@)),
{
    let ghost blen = b.len();
    proof {
        assert(b@.len() <= u64::MAX);
        assert(num * 8 + 2 <= u64::MAX) by (nonlinear_arith)
            requires
                num <= max_field_num(),
        ;
    }
    encode_varint_to(num * 8 + 2, out);
    encode_varint_to(b.len() as u64, out);
    out.extend_from_slice(b);
    proof {
        assert(final(out)@ =~= old(out)@ + field_bytes(num, FieldVal::Chunk(b@)));
    }
}

/// Parse all of `s` as a run of fields.  The result follows
/// [`parse_fields`] exactly.
#[verifier::rlimit(100)]
#[verifier::spinoff_prover]
pub fn decode_fields(s: &[u8]) -> (r: Option<Vec<(u64, RawField)>>)
    ensures
        match r {
            Some(v) => parse_fields(s@) == Some(raw_fields_view(v@)),
            None => parse_fields(s@) is None,
        },
{
    let len = s.len();
    let mut i: usize = 0;
    let mut acc: Vec<(u64, RawField)> = Vec::new();
    proof {
        assert(s@.subrange(0, len as int) =~= s@);
        if parse_fields(s@) is Some {
            let fs = parse_fields(s@)->Some_0;
            assert(raw_fields_view(acc@) + fs =~= fs);
        }
    }
    while i < len
        invariant
            i <= len,
            len == s@.len(),
            parse_fields(s@) == (match parse_fields(s@.subrange(i as int, len as int)) {
                Some(fs) => Some(raw_fields_view(acc@) + fs),
                None => None::<Seq<(u64, FieldVal)>>,
            }),
        decreases len - i,
    {
        let ghost ti = s@.subrange(i as int, len as int);
        let (key, n) = match decode_varint(s, i) {
            Some(p) => p,
            None => {
                return None;
            },
        };
        let num = key / 8;
        let wt = key % 8;
        let ghost rest = ti.subrange(n as int, ti.len() as int);
        proof {
            assert(rest =~= s@.subrange((i + n) as int, len as int));
        }
        if num == 0 {
            return None;
        }
        if wt == 0 {
            let (v, m) = match decode_varint(s, i + n) {
                Some(p) => p,
                None => {
                    return None;
                },
            };
            proof {
                let after = rest.subrange(m as int, rest.len() as int);
                assert(after =~= s@.subrange((i + n + m) as int, len as int));
                let f = (num, FieldVal::Uint(v));
                assert(parse_fields(ti) == (match parse_fields(after) {
                    Some(fs) => Some(seq![f] + fs),
                    None => None::<Seq<(u64, FieldVal)>>,
                }));
            }
            let ghost old_acc = acc@;
            acc.push((num, RawField::Uint(v)));
            proof {
                let ghost after = s@.subrange((i + n + m) as int, len as int);
                assert(raw_fields_view(acc@) =~= raw_fields_view(old_acc)
                    + seq![(num, FieldVal::Uint(v))]);
                if parse_fields(after) is Some {
                    let fs = parse_fields(after)->Some_0;
                    assert((raw_fields_view(old_acc) + (seq![(num, FieldVal::Uint(v))] + fs))
                        =~= (raw_fields_view(acc@) + fs));
                }
            }
            i = i + n + m;
        } else if wt == 2 {
            let (l, m) = match decode_varint(s, i + n) {
                Some(p) => p,
                None => {
                    return None;
                },
            };
            let start = i + n + m;
            if l > (len - start) as u64 {
                proof {
                    assert(m + l > rest.len());
                }
                return None;
            }
            let l_sz = l as usize;
            let chunk = slice_to_vec(slice_subrange(s, start, start + l_sz));
            proof {
                let after = rest.subrange(m + l as int, rest.len() as int);
                assert(after =~= s@.subrange((i + n + m + l_sz) as int, len as int));
                assert(chunk@ =~= rest.subrange(m as int, m + l as int));
                let f = (num, FieldVal::Chunk(chunk@));
                assert(parse_fields(ti) == (match parse_fields(after) {
                    Some(fs) => Some(seq![f] + fs),
                    None => None::<Seq<(u64, FieldVal)>>,
                }));
            }
            let ghost old_acc = acc@;
            let ghost chunk_v = chunk@;
            acc.push((num, RawField::Chunk(chunk)));
            proof {
                let ghost after = s@.subrange((i + n + m + l_sz) as int, len as int);
                assert(raw_fields_view(acc@) =~= raw_fields_view(old_acc)
                    + seq![(num, FieldVal::Chunk(chunk_v))]);
                if parse_fields(after) is Some {
                    let fs = parse_fields(after)->Some_0;
                    assert((raw_fields_view(old_acc) + (seq![(num, FieldVal::Chunk(chunk_v))]
                        + fs)) =~= (raw_fields_view(acc@) + fs));
                }
            }
            i = i + n + m + l_sz;
        } else {
            return None;
        }
    }
    proof {
        assert(s@.subrange(i as int, len as int) =~= Seq::<u8>::empty());
        assert(raw_fields_view(acc@) + Seq::<(u64, FieldVal)>::empty()
            =~= raw_fields_view(acc@));
    }
    Some(acc)
}

} // verus!
