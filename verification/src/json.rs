//! Rendering a batch of posts as the JSON text the gateway pushes to
//! browsers.
//!
//! The shape is fixed: an object with one `posts` array, each post an
//! object with `id`, `service`, `timestamp` and `content`, in that order.
//! String values are escaped the way serde's JSON writer escapes them —
//! quote, backslash and the control characters.  A present timestamp is
//! rendered as the RFC 3339 text prost-types prints, quoted; an absent
//! one as `null`.

use crate::post::{posts_view, Post, PostView, Timestamp};
use vstd::prelude::*;

verus! {

/// A value that arrived as JSON and passed validation; the HTTP layer
/// unwraps it before handing it to the pipeline.
#[derive(Debug, Clone, Copy)]
pub struct ValidJson<T>(pub T);

impl<T> ValidJson<T> {
    /// The validated value itself.
    pub fn into_inner(self) -> (r: T)
        ensures
            r == self.0,
    {
        self.0
    }
}

/// The text prost-types renders a timestamp as: RFC 3339, a function of
/// the seconds and nanoseconds alone.
pub uninterp spec fn timestamp_text(seconds: i64, nanos: i32) -> Seq<char>;

/// Relies on prost-types' `Display` for `Timestamp`: deterministic
/// RFC 3339 text computed from the two fields, for every value of them.
#[verifier::external_body]
fn render_timestamp(seconds: i64, nanos: i32) -> (r: String)
    ensures
        r@ == timestamp_text(seconds, nanos),
{
    format!("{}", prost_types::Timestamp { seconds, nanos })
}

/// Relies on std's `String::push`: appends exactly one character.
#[verifier::external_body]
fn push_char(out: &mut String, c: char)
    ensures
        final(out)@ == old(out)@ + seq![c],
{
    out.push(c);
}

/// The decimal digit for a value below ten.
pub open spec fn dec_digit(n: int) -> char {
    if n == 0 {
        '0'
    } else if n == 1 {
        '1'
    } else if n == 2 {
        '2'
    } else if n == 3 {
        '3'
    } else if n == 4 {
        '4'
    } else if n == 5 {
        '5'
    } else if n == 6 {
        '6'
    } else if n == 7 {
        '7'
    } else if n == 8 {
        '8'
    } else {
        '9'
    }
}

/// The hexadecimal digit for a value below sixteen, lower case.
pub open spec fn hex_digit(n: int) -> char {
    if n < 10 {
        dec_digit(n)
    } else if n == 10 {
        'a'
    } else if n == 11 {
        'b'
    } else if n == 12 {
        'c'
    } else if n == 13 {
        'd'
    } else if n == 14 {
        'e'
    } else {
        'f'
    }
}

/// The decimal text of a non-negative number, no leading zeroes.
pub open spec fn dec_rep(n: nat) -> Seq<char>
    decreases n,
{
    if n < 10 {
        seq![dec_digit(n as int)]
    } else {
        dec_rep(n / 10) + seq![dec_digit((n % 10) as int)]
    }
}

/// The decimal text of a service code, signed.
pub open spec fn dec_i32(v: i32) -> Seq<char> {
    if v < 0 {
        seq!['-'] + dec_rep((-v) as nat)
    } else {
        dec_rep(v as nat)
    }
}

/// How one character appears inside a JSON string.
pub open spec fn json_escape_char(c: char) -> Seq<char> {
    if c == '"' {
        seq!['\\', '"']
    } else if c == '\\' {
        seq!['\\', '\\']
    } else if c == '\u{8}' {
        seq!['\\', 'b']
    } else if c == '\u{c}' {
        seq!['\\', 'f']
    } else if c == '\n' {
        seq!['\\', 'n']
    } else if c == '\r' {
        seq!['\\', 'r']
    } else if c == '\t' {
        seq!['\\', 't']
    } else if (c as u32) < 0x20 {
        seq!['\\', 'u', '0', '0', hex_digit((c as u32 / 16) as int), hex_digit((c as u32 % 16) as int)]
    } else {
        seq![c]
    }
}

/// How a whole string appears inside JSON quotes.
pub open spec fn json_escape(s: Seq<char>) -> Seq<char>
    decreases s.len(),
{
    if s.len() == 0 {
        Seq::empty()
    } else {
        json_escape_char(s[0]) + json_escape(s.drop_first())
    }
}

/// A quoted, escaped JSON string.
pub open spec fn json_of_string(s: Seq<char>) -> Seq<char> {
    seq!['"'] + json_escape(s) + seq!['"']
}

/// One post as a JSON object.
pub open spec fn json_of_post(p: PostView) -> Seq<char> {
    "{\"id\":"@ + json_of_string(p.id) + ",\"service\":"@ + dec_i32(p.service) + ",\"timestamp\":"@
        + (match p.timestamp {
        Some(t) => json_of_string(timestamp_text(t.seconds, t.nanos)),
        None => "null"@,
    }) + ",\"content\":"@ + json_of_string(p.content) + "}"@
}

/// The posts of a batch, comma separated.
pub open spec fn json_of_posts(ps: Seq<PostView>) -> Seq<char>
    decreases ps.len(),
{
    if ps.len() == 0 {
        Seq::empty()
    } else if ps.len() == 1 {
        json_of_post(ps[0])
    } else {
        json_of_post(ps[0]) + ","@ + json_of_posts(ps.drop_first())
    }
}

/// A whole batch as the JSON object the gateway sends.
pub open spec fn json_of_batch(ps: Seq<PostView>) -> Seq<char> {
    "{\"posts\":["@ + json_of_posts(ps) + "]}"@
}

/// Escaping a string one character longer escapes the new character at
/// the end.
proof fn lemma_json_escape_push(s: Seq<char>, c: char)
    ensures
        json_escape(s.push(c)) == json_escape(s) + json_escape_char(c),
    decreases s.len(),
{
    if s.len() == 0 {
        assert(s.push(c)[0] == c);
        assert(s.push(c).drop_first() =~= Seq::<char>::empty());
        assert(json_escape(Seq::<char>::empty()) =~= Seq::<char>::empty());
        assert(json_escape(s.push(c)) =~= json_escape_char(c));
        assert(json_escape(s) + json_escape_char(c) =~= json_escape_char(c));
    } else {
        assert(s.push(c)[0] == s[0]);
        assert(s.push(c).drop_first() =~= s.drop_first().push(c));
        lemma_json_escape_push(s.drop_first(), c);
        assert(json_escape(s.push(c)) =~= json_escape(s) + json_escape_char(c));
    }
}

/// Joining one more post appends a comma — unless it is the first.
proof fn lemma_json_of_posts_push(ps: Seq<PostView>, p: PostView)
    ensures
        json_of_posts(ps.push(p)) == if ps.len() == 0 {
            json_of_post(p)
        } else {
            json_of_posts(ps) + ","@ + json_of_post(p)
        },
    decreases ps.len(),
{
    if ps.len() == 0 {
        assert(ps.push(p)[0] == p);
    } else {
        assert(ps.push(p)[0] == ps[0]);
        assert(ps.push(p).drop_first() =~= ps.drop_first().push(p));
        lemma_json_of_posts_push(ps.drop_first(), p);
        if ps.len() == 1 {
            assert(json_of_posts(ps) =~= json_of_post(ps[0]));
            assert(json_of_posts(ps.push(p)) =~= json_of_posts(ps) + ","@ + json_of_post(p));
        } else {
            assert(json_of_posts(ps.push(p)) =~= json_of_posts(ps) + ","@ + json_of_post(p));
        }
    }
}

/// The hexadecimal digit of a value below sixteen.
fn hex_digit_char(n: u32) -> (r: char)
    requires
        n < 16,
    ensures
        r == hex_digit(n as int),
{
    if n == 0 {
        '0'
    } else if n == 1 {
        '1'
    } else if n == 2 {
        '2'
    } else if n == 3 {
        '3'
    } else if n == 4 {
        '4'
    } else if n == 5 {
        '5'
    } else if n == 6 {
        '6'
    } else if n == 7 {
        '7'
    } else if n == 8 {
        '8'
    } else if n == 9 {
        '9'
    } else if n == 10 {
        'a'
    } else if n == 11 {
        'b'
    } else if n == 12 {
        'c'
    } else if n == 13 {
        'd'
    } else if n == 14 {
        'e'
    } else {
        'f'
    }
}

/// Append the decimal text of `n`.
fn append_dec_u64(n: u64, out: &mut String)
    ensures
        final(out)@ == old(out)@ + dec_rep(n as nat),
    decreases n,
{
    if n >= 10 {
        append_dec_u64(n / 10, out);
    }
    push_char(out, hex_digit_char((n % 10) as u32));
    proof {
        if n < 10 {
            assert(out@ =~= old(out)@ + dec_rep(n as nat));
        } else {
            assert(out@ =~= old(out)@ + dec_rep(n as nat));
        }
    }
}

/// Append the decimal text of a signed service code.
fn append_dec_i32(v: i32, out: &mut String)
    ensures
        final(out)@ == old(out)@ + dec_i32(v),
{
    proof {
        reveal_strlit("-");
        assert("-"@ =~= seq!['-']);
    }
    if v < 0 {
        out.append("-");
        let magnitude: u64 = #[verifier::truncate] ((-(v as i64)) as u64);
        proof {
            assert(magnitude == (-v) as nat);
        }
        append_dec_u64(magnitude, out);
        proof {
            assert(out@ =~= old(out)@ + dec_i32(v));
        }
    } else {
        append_dec_u64(#[verifier::truncate] (v as u64), out);
        proof {
            assert(out@ =~= old(out)@ + dec_i32(v));
        }
    }
}

/// Append `s`, escaped for a JSON string body.
fn append_escaped(s: &str, out: &mut String)
    ensures
        final(out)@ == old(out)@ + json_escape(s@),
{
    let n = s.unicode_len();
    let mut i: usize = 0;
    proof {
        assert(s@.take(0) =~= Seq::<char>::empty());
        assert(out@ =~= old(out)@ + json_escape(s@.take(0)));
    }
    while i < n
        invariant
            i <= n,
            n == s@.len(),
            out@ == old(out)@ + json_escape(s@.take(i as int)),
        decreases n - i,
    {
        let c = s.get_char(i);
        proof {
            reveal_strlit("\\\"");
            reveal_strlit("\\\\");
            reveal_strlit("\\b");
            reveal_strlit("\\f");
            reveal_strlit("\\n");
            reveal_strlit("\\r");
            reveal_strlit("\\t");
            reveal_strlit("\\u00");
            assert(s@.take(i + 1) =~= s@.take(i as int).push(s@[i as int]));
            lemma_json_escape_push(s@.take(i as int), s@[i as int]);
        }
        if c == '"' {
            out.append("\\\"");
        } else if c == '\\' {
            out.append("\\\\");
        } else if c == '\u{8}' {
            out.append("\\b");
        } else if c == '\u{c}' {
            out.append("\\f");
        } else if c == '\n' {
            out.append("\\n");
        } else if c == '\r' {
            out.append("\\r");
        } else if c == '\t' {
            out.append("\\t");
        } else if (c as u32) < 0x20 {
            out.append("\\u00");
            push_char(out, hex_digit_char((c as u32) / 16));
            push_char(out, hex_digit_char((c as u32) % 16));
        } else {
            push_char(out, c);
        }
        proof {
            assert(out@ =~= old(out)@ + json_escape(s@.take(i + 1)));
        }
        i = i + 1;
    }
    proof {
        assert(s@.take(n as int) =~= s@);
    }
}

/// Append `s` as a quoted JSON string.
fn append_json_string(s: &str, out: &mut String)
    ensures
        final(out)@ == old(out)@ + json_of_string(s@),
{
    proof {
        reveal_strlit("\"");
        assert("\""@ =~= seq!['"']);
    }
    out.append("\"");
    append_escaped(s, out);
    out.append("\"");
    proof {
        assert(out@ =~= old(out)@ + json_of_string(s@));
    }
}

/// Append one post as a JSON object.
fn append_post_json(p: &Post, out: &mut String)
    ensures
        final(out)@ == old(out)@ + json_of_post(p@),
{
    out.append("{\"id\":");
    append_json_string(p.id.as_str(), out);
    out.append(",\"service\":");
    append_dec_i32(p.service, out);
    out.append(",\"timestamp\":");
    match &p.timestamp {
        Some(t) => {
            let text = render_timestamp(t.seconds, t.nanos);
            append_json_string(text.as_str(), out);
        },
        None => {
            out.append("null");
        },
    }
    out.append(",\"content\":");
    append_json_string(p.content.as_str(), out);
    out.append("}");
    proof {
        assert(out@ =~= old(out)@ + json_of_post(p@));
    }
}

/// The JSON text for a batch of posts: what one server-sent event
/// carries as its data.
pub fn batch_json(posts: &Vec<Post>) -> (r: String)
    ensures
        r@ == json_of_batch(posts_view(posts@)),
{
    let mut out = String::new();
    out.append("{\"posts\":[");
    let n = posts.len();
    let mut i: usize = 0;
    proof {
        assert(posts_view(posts@.take(0)) =~= Seq::<PostView>::empty());
        assert(out@ =~= "{\"posts\":["@ + json_of_posts(posts_view(posts@.take(0))));
    }
    while i < n
        invariant
            i <= n,
            n == posts@.len(),
            out@ == "{\"posts\":["@ + json_of_posts(posts_view(posts@.take(i as int))),
        decreases n - i,
    {
        if i > 0 {
            out.append(",");
        }
        append_post_json(&posts[i], &mut out);
        proof {
            let prev = posts_view(posts@.take(i as int));
            assert(posts_view(posts@.take(i + 1)) =~= prev.push(posts@[i as int]@));
            lemma_json_of_posts_push(prev, posts@[i as int]@);
            assert(prev.len() == i);
            assert(out@ =~= "{\"posts\":["@ + json_of_posts(posts_view(posts@.take(i + 1))));
        }
        i = i + 1;
    }
    out.append("]}");
    proof {
        assert(posts@.take(n as int) =~= posts@);
        assert(out@ =~= json_of_batch(posts_view(posts@)));
    }
    out
}

} // verus!
