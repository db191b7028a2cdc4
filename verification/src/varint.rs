//! Base-128 variable-length integers, the primitive of the wire format.
//!
//! A value is written in little-endian groups of seven bits; every byte but
//! the last carries a continuation bit.  An encoding is at most ten bytes
//! long, and a parse rejects longer runs as well as runs whose value would
//! not fit in a `u64`.

use vstd::arithmetic::div_mod::lemma_fundamental_div_mod;
use vstd::arithmetic::power2::{lemma_pow2_adds, pow2};
use vstd::prelude::*;
use vstd::slice::slice_index_get;

verus! {

/// The bytes that encode `x`.
pub open spec fn varint(x: u64) -> Seq<u8>
    decreases x,
{
    if x < 128 {
        seq![x as u8]
    } else {
        seq![(128 + x % 128) as u8] + varint(x / 128)
    }
}

/// What a parse of the front of `s` yields: the value and how many bytes it
/// took, or nothing when `s` does not begin with a well-formed encoding.
pub open spec fn parse_varint(s: Seq<u8>) -> Option<(u64, nat)>
    decreases s.len(),
{
    if s.len() == 0 {
        None
    } else if s[0] < 128 {
        Some((s[0] as u64, 1nat))
    } else {
        match parse_varint(s.drop_first()) {
            None => None,
            Some((v, n)) => {
                let total = (s[0] - 128) + 128 * (v as int);
                if n + 1 <= 10 && total <= u64::MAX {
                    Some((total as u64, (n + 1) as nat))
                } else {
                    None
                }
            },
        }
    }
}

/// An encoding takes at most `k` bytes when the value is below `2^(7 k)`.
proof fn lemma_varint_len_bounded(x: u64, k: nat)
    requires
        1 <= k,
        x < pow2(7 * k),
    ensures
        varint(x).len() <= k,
    decreases x,
{
    if x < 128 {
    } else {
        assert(pow2(7) == 128) by {
            vstd::arithmetic::power2::lemma2_to64();
        }
        assert(k >= 2);
        lemma_pow2_adds(7 * (k - 1) as nat, 7);
        assert(7 * k == 7 * (k - 1) + 7) by (nonlinear_arith);
        assert(pow2(7 * k) == pow2(7 * (k - 1) as nat) * 128);
        assert(x as int / 128 < pow2(7 * (k - 1) as nat)) by (nonlinear_arith)
            requires
                x < pow2(7 * (k - 1) as nat) * 128,
        ;
        lemma_varint_len_bounded(x / 128, (k - 1) as nat);
    }
}

/// Every encoding is one to ten bytes long.
pub proof fn lemma_varint_len(x: u64)
    ensures
        1 <= varint(x).len() <= 10,
{
    assert(x < pow2(70)) by {
        vstd::arithmetic::power2::lemma2_to64();
        vstd::arithmetic::power2::lemma_pow2_strictly_increases(64, 70);
    }
    lemma_varint_len_bounded(x, 10);
}

/// A parse inverts the encoding, whatever follows it.
pub proof fn lemma_parse_varint_encode(x: u64, rest: Seq<u8>)
    ensures
        parse_varint(varint(x) + rest) == Some((x, varint(x).len() as nat)),
    decreases x,
{
    let s = varint(x) + rest;
    if x < 128 {
        assert(s[0] == x as u8);
    } else {
        assert(s[0] == (128 + x % 128) as u8);
        assert(s[0] >= 128);
        assert(s.drop_first() =~= varint(x / 128) + rest);
        lemma_parse_varint_encode(x / 128, rest);
        let v = x / 128;
        let n = varint(x / 128).len();
        assert(parse_varint(s.drop_first()) == Some((v, n as nat)));
        lemma_fundamental_div_mod(x as int, 128);
        assert((s[0] - 128) + 128 * (v as int) == x);
        lemma_varint_len(x);
        assert(varint(x).len() == n + 1);
    }
}

/// On a successful parse, the terminator is the last byte consumed and all
/// bytes before it are continuations.
pub proof fn lemma_parse_varint_shape(s: Seq<u8>)
    ensures
        parse_varint(s) matches Some((v, n)) ==> {
            &&& 1 <= n <= 10
            &&& n <= s.len()
            &&& s[n - 1] < 128
            &&& forall|j: int| 0 <= j < n - 1 ==> s[j] >= 128
        },
    decreases s.len(),
{
    if s.len() == 0 {
    } else if s[0] < 128 {
    } else {
        lemma_parse_varint_shape(s.drop_first());
        if parse_varint(s) is Some {
            let (v1, n1) = parse_varint(s.drop_first())->Some_0;
            let n = parse_varint(s)->Some_0.1;
            assert(n == n1 + 1);
            assert(s[n - 1] == s.drop_first()[n1 - 1]);
            assert(forall|j: int| 1 <= j < n - 1 ==> s[j] == s.drop_first()[j - 1]);
        }
    }
}

/// A failed parse of the tail, behind nothing but continuation bytes, is a
/// failed parse of the whole.
proof fn lemma_parse_varint_none_propagates(s: Seq<u8>, j: nat)
    requires
        j <= s.len(),
        forall|m: int| 0 <= m < j ==> s[m] >= 128,
        parse_varint(s.subrange(j as int, s.len() as int)) is None,
    ensures
        parse_varint(s) is None,
    decreases j,
{
    if j == 0 {
        assert(s.subrange(0, s.len() as int) =~= s);
    } else {
        assert(s.subrange(j as int, s.len() as int) =~= s.drop_first().subrange(
            j - 1,
            s.drop_first().len() as int,
        ));
        lemma_parse_varint_none_propagates(s.drop_first(), (j - 1) as nat);
        assert(s[0] >= 128);
    }
}

/// Append `varint(x)` to `out`.
#[verifier::loop_isolation(false)]
pub fn encode_varint_to(x: u64, out: &mut Vec<u8>)
    ensures
        final(out)@ == old(out)@ + varint(x),
{
    let mut v: u64 = x;
    while v >= 128
        invariant
            old(out)@ + varint(x) == out@ + varint(v),
        decreases v,
    {
        let b: u8 = 128 + (v % 128) as u8;
        proof {
            assert(varint(v) == seq![(128 + v % 128) as u8] + varint(v / 128));
            assert(out@ + varint(v) =~= (out@ + seq![b]) + varint(v / 128));
        }
        out.push(b);
        v = v / 128;
    }
    proof {
        assert(varint(v) == seq![v as u8]);
    }
    out.push(v as u8);
    proof {
        assert(out@ =~= old(out)@ + varint(x));
    }
}

/// Parse a varint beginning at index `i` of `s`.  The result follows
/// [`parse_varint`] on the remainder of `s` exactly: the value and the
/// count of bytes consumed on success, and nothing when no well-formed
/// encoding starts there.
pub fn decode_varint(s: &[u8], i: usize) -> (r: Option<(u64, usize)>)
    requires
        i <= s@.len(),
    ensures
        ({
            let p = parse_varint(s@.subrange(i as int, s@.len() as int));
            match r {
                Some(pair) => p == Some((pair.0, pair.1 as nat)) && i + pair.1 <= s@.len(),
                None => p is None,
            }
        }),
{
    let ghost t0 = s@.subrange(i as int, s@.len() as int);
    let len = s.len();
    // Find the terminator: the first byte without the continuation bit.
    let mut k: usize = 0;
    loop
        invariant
            i <= len,
            len == s@.len(),
            t0 == s@.subrange(i as int, len as int),
            i + k <= len,
            k <= 10,
            forall|m: int| i <= m < i + k ==> s@[m] >= 128,
        ensures
            k < 10,
            i + k < len,
            s@[i + k as int] < 128,
            forall|m: int| i <= m < i + k ==> s@[m] >= 128,
        decreases 10 - k,
    {
        if k == 10 || i + k == len {
            proof {
                lemma_parse_varint_shape(t0);
                if parse_varint(t0) is Some {
                    let n = parse_varint(t0)->Some_0.1;
                    assert(t0[n - 1] == s@[i + n - 1]);
                    assert(s@[i + n - 1] >= 128);
                    assert(false);
                }
            }
            return None;
        }
        if *slice_index_get(s, i + k) < 128 {
            break;
        }
        k = k + 1;
    }
    // Fold the groups back, last byte first, mirroring the parse.
    let mut acc: u64 = *slice_index_get(s, i + k) as u64;
    let mut j: usize = k;
    proof {
        let tk = s@.subrange((i + k) as int, len as int);
        assert(tk[0] == s@[i + k as int]);
        assert(parse_varint(tk) == Some((acc, 1nat)));
    }
    while j > 0
        invariant
            i <= len,
            len == s@.len(),
            t0 == s@.subrange(i as int, len as int),
            i + k < len,
            j <= k <= 9,
            forall|m: int| i <= m < i + k ==> s@[m] >= 128,
            parse_varint(s@.subrange((i + j) as int, len as int)) == Some(
                (acc, (k - j + 1) as nat),
            ),
        decreases j,
    {
        j = j - 1;
        let b = *slice_index_get(s, i + j);
        proof {
            assert(s@[i + j as int] >= 128);
        }
        let low: u64 = (b - 128) as u64;
        let ghost tj = s@.subrange((i + j) as int, len as int);
        proof {
            assert(tj[0] == b);
            assert(tj.drop_first() =~= s@.subrange((i + j + 1) as int, len as int));
        }
        let total: Option<u64> = match acc.checked_mul(128) {
            Some(m) => m.checked_add(low),
            None => None,
        };
        match total {
            Some(t) => {
                proof {
                    assert(parse_varint(tj) == Some((t, (k - j + 1) as nat)));
                }
                acc = t;
            },
            None => {
                proof {
                    assert((tj[0] - 128) + 128 * (acc as int) > u64::MAX);
                    assert(parse_varint(tj) is None);
                    assert(tj =~= t0.subrange(j as int, t0.len() as int));
                    lemma_parse_varint_none_propagates(t0, j as nat);
                }
                return None;
            },
        }
    }
    proof {
        assert(s@.subrange((i + j) as int, len as int) =~= t0);
    }
    Some((acc, k + 1))
}

} // verus!
