//! The framing of JSON-RPC messages on a byte stream: a `Content-Length`
//! header, a blank line, then exactly that many bytes of JSON.

use vstd::prelude::*;
use vstd::utf8::{decode_utf8, encode_utf8, valid_utf8};
use vstd::utf8::is_ascii_chars;
use crate::text::{
    all_ws, chars_of, dec, has_prefix, is_digit, is_ws, lemma_dec_digits, lemma_dec_len_u64,
    lemma_parse_dec, lemma_trim_end_no_ws, lemma_trim_end_ws_suffix, lemma_trim_space_digits,
    parse_usize, parse_usize_spec, starts_with, string_of, trim, trim_end, trim_end_chars,
    trim_str, usize_to_string,
};

verus! {

/// What `String::from_utf8_lossy` makes of `bytes`: the decoded text, each
/// ill-formed sequence replaced by U+FFFD.
pub uninterp spec fn lossy_utf8(bytes: Seq<u8>) -> Seq<char>;

/// The text `String::from_utf8_lossy` makes of `bytes`: the decoded text
/// when they are well-formed UTF-8, as its documentation says, and what
/// [`lossy_utf8`] names otherwise.
pub open spec fn line_text(bytes: Seq<u8>) -> Seq<char> {
    if valid_utf8(bytes) {
        decode_utf8(bytes)
    } else {
        lossy_utf8(bytes)
    }
}

/// `String::from_utf8_lossy`, owned (see [`line_text`]).
#[verifier::external_body]
pub(crate) fn utf8_lossy(bytes: &[u8]) -> (s: String)
    ensures
        valid_utf8(bytes@) ==> s@ == decode_utf8(bytes@),
        !valid_utf8(bytes@) ==> s@ == lossy_utf8(bytes@),
{
    String::from_utf8_lossy(bytes).into_owned()
}

/// `String::from_utf8`: the text of `bytes` when they are well-formed UTF-8.
#[verifier::external_body]
pub fn utf8_decode(bytes: Vec<u8>) -> (r: Option<String>)
    ensures
        r is Some <==> valid_utf8(bytes@),
        r matches Some(s) ==> s@ == decode_utf8(bytes@),
{
    String::from_utf8(bytes).ok()
}

/// The text of `s` before its first `:` (all of it if there is none).
pub open spec fn before_colon(s: Seq<char>) -> Seq<char>
    decreases s.len(),
{
    if s.len() == 0 || s[0] == ':' {
        Seq::empty()
    } else {
        seq![s[0]] + before_colon(s.drop_first())
    }
}

/// `s.split(':').nth(1)`: the text between the first and the second `:`.
pub open spec fn second_field(s: Seq<char>) -> Option<Seq<char>> {
    let f = before_colon(s);
    if f.len() < s.len() {
        Some(before_colon(s.skip(f.len() + 1int)))
    } else {
        None
    }
}

/// The header that carries the body's length.
pub open spec fn content_length_prefix() -> Seq<char> {
    "Content-Length:"@
}

/// Lines longer than this many bytes end the read.
pub const MAX_HEADER_LINE: usize = 4096;

/// What one header line does to the read.
pub enum LineOutcome {
    /// Go on with the next line, with this content length so far.
    Next(Option<usize>),
    /// The blank line: the headers are over.
    End,
    /// The read fails with this message.
    Fail(Seq<char>),
}

/// The effect of the header line `bytes` (with its line end) when the
/// content length read so far is `cl`.
pub open spec fn line_outcome(cl: Option<usize>, bytes: Seq<u8>) -> LineOutcome {
    let line = trim_end(line_text(bytes));
    if line.len() == 0 {
        LineOutcome::End
    } else {
        let next: Result<Option<usize>, Seq<char>> = if has_prefix(line, content_length_prefix()) {
            match second_field(line) {
                Some(f) => match parse_usize_spec(trim(f)) {
                    Some(n) => Ok(Some(n)),
                    None => Err("Invalid Content-Length value: "@ + f),
                },
                None => Ok(cl),
            }
        } else {
            Ok(cl)
        };
        match next {
            Err(m) => LineOutcome::Fail(m),
            Ok(c) => if bytes.len() > MAX_HEADER_LINE {
                LineOutcome::Fail("Header section too large"@)
            } else {
                LineOutcome::Next(c)
            },
        }
    }
}

/// The step the reader takes after one header line.
pub enum HeaderStep {
    Next(Option<usize>),
    End,
    Fail(String),
}

/// The text before the first `:` of `v`.
fn before_colon_chars(v: &Vec<char>, from: usize) -> (r: Vec<char>)
    requires
        from <= v@.len(),
    ensures
        r@ == before_colon(v@.skip(from as int)),
{
    let mut r: Vec<char> = Vec::new();
    let mut i: usize = from;
    assert(before_colon(v@.skip(from as int)) =~= r@ + before_colon(v@.skip(i as int)));
    while i < v.len() && v[i] != ':'
        invariant
            from <= i <= v@.len(),
            before_colon(v@.skip(from as int)) == r@ + before_colon(v@.skip(i as int)),
        decreases v@.len() - i,
    {
        assert(v@.skip(i as int).drop_first() =~= v@.skip(i as int + 1));
        assert(v@.skip(i as int)[0] == v@[i as int]);
        r.push(v[i]);
        assert(before_colon(v@.skip(from as int)) =~= r@ + before_colon(v@.skip(i as int + 1)));
        i = i + 1;
    }
    assert(before_colon(v@.skip(i as int)) =~= Seq::<char>::empty());
    assert(r@ + Seq::<char>::empty() =~= r@);
    r
}

/// The length of the text before the first `:` never exceeds the text.
proof fn lemma_before_colon_len(s: Seq<char>)
    ensures
        before_colon(s).len() <= s.len(),
        before_colon(s).len() < s.len() ==> s[before_colon(s).len() as int] == ':',
        before_colon(s) == s.take(before_colon(s).len() as int),
    decreases s.len(),
{
    if s.len() > 0 && s[0] != ':' {
        lemma_before_colon_len(s.drop_first());
        let b = before_colon(s.drop_first());
        assert(before_colon(s) =~= seq![s[0]] + b);
        assert(s.take(b.len() + 1int) =~= seq![s[0]] + s.drop_first().take(b.len() as int));
    } else {
        assert(s.take(0) =~= Seq::<char>::empty());
    }
}

/// What one header line does (see [`line_outcome`]).
pub fn header_step(content_length: Option<usize>, line: &[u8]) -> (r: HeaderStep)
    ensures
        match line_outcome(content_length, line@) {
            LineOutcome::Next(c) => r == HeaderStep::Next(c),
            LineOutcome::End => r is End,
            LineOutcome::Fail(m) => r matches HeaderStep::Fail(s) && s@ == m,
        },
{
    let text = utf8_lossy(line);
    let chars = chars_of(text.as_str());
    let t = trim_end_chars(&chars);
    if t.len() == 0 {
        return HeaderStep::End;
    }
    let mut cl = content_length;
    let prefix = chars_of("Content-Length:");
    if starts_with(&t, &prefix) {
        let f = before_colon_chars(&t, 0);
        assert(t@.skip(0) =~= t@);
        proof {
            lemma_before_colon_len(t@);
        }
        if f.len() < t.len() {
            let field = before_colon_chars(&t, f.len() + 1);
            let fs = string_of(field.as_slice());
            let trimmed = trim_str(fs.as_str());
            match parse_usize(trimmed.as_str()) {
                Some(n) => {
                    cl = Some(n);
                },
                None => {
                    let mut msg = String::from_str("Invalid Content-Length value: ");
                    msg.append(fs.as_str());
                    return HeaderStep::Fail(msg);
                },
            }
        }
    }
    if line.len() > MAX_HEADER_LINE {
        return HeaderStep::Fail(String::from_str("Header section too large"));
    }
    HeaderStep::Next(cl)
}

/// The length of the first line of `s`, its line end included.
pub open spec fn line_len(s: Seq<u8>) -> nat
    decreases s.len(),
{
    if s.len() == 0 {
        0
    } else if s[0] == 10u8 {
        1
    } else {
        1 + line_len(s.drop_first())
    }
}

/// Facts about the first line of a byte stream.
pub proof fn lemma_line_len(s: Seq<u8>)
    ensures
        line_len(s) <= s.len(),
        s.len() > 0 ==> line_len(s) >= 1,
        forall|i: int| 0 <= i < line_len(s) - 1 ==> s[i] != 10u8,
        line_len(s) > 0 && line_len(s) < s.len() ==> s[line_len(s) - 1] == 10u8,
        line_len(s) == s.len() && s.len() > 0 ==> (s[s.len() - 1] == 10u8 || forall|i: int|
            0 <= i < s.len() ==> s[i] != 10u8),
    decreases s.len(),
{
    if s.len() > 0 && s[0] != 10u8 {
        lemma_line_len(s.drop_first());
        assert forall|i: int| 0 <= i < line_len(s) - 1 implies s[i] != 10u8 by {
            if i > 0 {
                assert(s[i] == s.drop_first()[i - 1]);
            }
        }
        if line_len(s) > 0 && line_len(s) < s.len() {
            assert(s[line_len(s) - 1] == s.drop_first()[line_len(s) - 2]);
        }
        if line_len(s) == s.len() {
            if s[s.len() - 1] != 10u8 {
                assert forall|i: int| 0 <= i < s.len() implies s[i] != 10u8 by {
                    if i > 0 {
                        assert(s[i] == s.drop_first()[i - 1]);
                    }
                }
            }
        }
    }
}

/// What reading one message from `stream` gives.
pub enum ReadSpec {
    /// The body's text, and how many bytes of the stream the message took.
    Message(Seq<char>, nat),
    /// The stream ended before any byte was read.
    Closed,
    /// The headers were refused, with this message.
    Invalid(Seq<char>),
    /// The stream ended inside the body.
    Truncated,
    /// The body is not UTF-8.
    NotUtf8,
}

/// Reading the body of `len` bytes from `rest`, `used` bytes having gone
/// to the headers.
pub open spec fn body_from(rest: Seq<u8>, len: usize, used: nat) -> ReadSpec {
    if rest.len() < len {
        ReadSpec::Truncated
    } else if valid_utf8(rest.take(len as int)) {
        ReadSpec::Message(decode_utf8(rest.take(len as int)), used + len as nat)
    } else {
        ReadSpec::NotUtf8
    }
}

/// Reading header lines from `stream` with the content length `cl` seen so
/// far and `used` bytes read, then the body.
pub open spec fn read_from(stream: Seq<u8>, cl: Option<usize>, used: nat) -> ReadSpec
    decreases stream.len(),
{
    if stream.len() == 0 {
        if used == 0 {
            ReadSpec::Closed
        } else {
            ReadSpec::Invalid("Connection closed unexpectedly during headers"@)
        }
    } else {
        let n = line_len(stream);
        proof {
            lemma_line_len(stream);
        }
        match line_outcome(cl, stream.take(n as int)) {
            LineOutcome::Next(c) => read_from(stream.skip(n as int), c, used + n),
            LineOutcome::End => match cl {
                None => ReadSpec::Invalid("Missing Content-Length header"@),
                Some(len) => body_from(stream.skip(n as int), len, used + n),
            },
            LineOutcome::Fail(m) => ReadSpec::Invalid(m),
        }
    }
}

/// Reading one message from the start of `stream`.
pub open spec fn read_message_spec(stream: Seq<u8>) -> ReadSpec {
    read_from(stream, None, 0)
}

/// What reading one message gave.
pub enum ReadOutcome {
    /// The body, and how many bytes of the input the message took.
    Message(String, usize),
    Closed,
    Invalid(String),
    Truncated,
    NotUtf8,
}

/// Reads one framed message from the start of `stream` (see
/// [`read_message_spec`]).
pub fn read_json_rpc_message(stream: &[u8]) -> (r: ReadOutcome)
    ensures
        match read_message_spec(stream@) {
            ReadSpec::Message(body, used) => r matches ReadOutcome::Message(b, u) && b@ == body && u == used,
            ReadSpec::Closed => r is Closed,
            ReadSpec::Invalid(m) => r matches ReadOutcome::Invalid(s) && s@ == m,
            ReadSpec::Truncated => r is Truncated,
            ReadSpec::NotUtf8 => r is NotUtf8,
        },
{
    let n = stream.len();
    let mut pos: usize = 0;
    let mut cl: Option<usize> = None;
    assert(stream@.skip(0) =~= stream@);
    while pos < n
        invariant
            n == stream@.len(),
            pos <= n,
            read_message_spec(stream@) == read_from(stream@.skip(pos as int), cl, pos as nat),
        decreases n - pos,
    {
        let ghost rest = stream@.skip(pos as int);
        let mut end: usize = pos;
        while end < n && stream[end] != 10u8
            invariant
                n == stream@.len(),
                pos <= end <= n,
                rest == stream@.skip(pos as int),
                forall|i: int| pos <= i < end ==> stream@[i] != 10u8,
            decreases n - end,
        {
            end = end + 1;
        }
        if end < n {
            end = end + 1;
        }
        proof {
            lemma_line_len(rest);
            assert(line_len(rest) == end - pos) by {
                if line_len(rest) < end - pos {
                    if line_len(rest) < rest.len() {
                        assert(rest[line_len(rest) - 1] == 10u8);
                        assert(stream@[pos + line_len(rest) - 1] == 10u8);
                    }
                } else if line_len(rest) > end - pos {
                    assert(rest[end - pos - 1] == stream@[end - 1]);
                }
            }
        }
        let line = &stream[pos..end];
        assert(line@ =~= rest.take(line_len(rest) as int));
        assert(rest.skip(line_len(rest) as int) =~= stream@.skip(end as int));
        match header_step(cl, line) {
            HeaderStep::Next(c) => {
                cl = c;
                pos = end;
            },
            HeaderStep::End => {
                match cl {
                    None => {
                        return ReadOutcome::Invalid(String::from_str("Missing Content-Length header"));
                    },
                    Some(len) => {
                        if n - end < len {
                            return ReadOutcome::Truncated;
                        }
                        let body_slice = &stream[end..end + len];
                        assert(body_slice@ =~= stream@.skip(end as int).take(len as int));
                        let mut body: Vec<u8> = Vec::new();
                        let mut k: usize = 0;
                        while k < len
                            invariant
                                body_slice@.len() == len,
                                k <= len,
                                body@ =~= body_slice@.take(k as int),
                            decreases len - k,
                        {
                            body.push(body_slice[k]);
                            k = k + 1;
                        }
                        assert(body@ =~= body_slice@);
                        match utf8_decode(body) {
                            Some(s) => {
                                return ReadOutcome::Message(s, end + len);
                            },
                            None => {
                                return ReadOutcome::NotUtf8;
                            },
                        }
                    },
                }
            },
            HeaderStep::Fail(m) => {
                return ReadOutcome::Invalid(m);
            },
        }
    }
    if n == 0 {
        ReadOutcome::Closed
    } else {
        ReadOutcome::Invalid(String::from_str("Connection closed unexpectedly during headers"))
    }
}

/// The line end of a frame: `\r\n` when `crlf`, else `\n`.
pub open spec fn line_end(crlf: bool) -> Seq<char> {
    if crlf {
        seq!['\r', '\n']
    } else {
        seq!['\n']
    }
}

/// The header line of a body of `n` bytes, without its line end.
pub open spec fn length_line(n: nat) -> Seq<char> {
    "Content-Length: "@ + dec(n)
}

/// The header of a frame around a body of `n` bytes: the length line and a
/// blank line.
pub open spec fn frame_header(n: nat, crlf: bool) -> Seq<char> {
    length_line(n) + line_end(crlf) + line_end(crlf)
}

/// The bytes of a framed message with the body `body`; the length is the
/// body's byte length as a `usize`.
pub open spec fn frame_spec(body: Seq<char>, crlf: bool) -> Seq<u8> {
    encode_utf8(frame_header((encode_utf8(body).len() as usize) as nat, crlf) + body)
}

/// The UTF-8 encoding of two texts one after the other is their encodings
/// one after the other.
pub proof fn lemma_encode_concat(a: Seq<char>, b: Seq<char>)
    ensures
        encode_utf8(a + b) == encode_utf8(a) + encode_utf8(b),
    decreases a.len(),
{
    if a.len() > 0 {
        assert((a + b).drop_first() =~= a.drop_first() + b);
        assert((a + b)[0] == a[0]);
        lemma_encode_concat(a.drop_first(), b);
        assert(encode_utf8(a + b) =~= encode_utf8(a) + encode_utf8(b));
    } else {
        assert(a + b =~= b);
        assert(encode_utf8(a) =~= Seq::<u8>::empty());
        assert(encode_utf8(a) + encode_utf8(b) =~= encode_utf8(b));
    }
}

/// Frames `json` as `Content-Length: <bytes>`, a blank line and the JSON;
/// `crlf` picks `\r\n` line ends, else `\n`.
pub fn frame_message(json: &str, crlf: bool) -> (r: Vec<u8>)
    ensures
        r@ == frame_spec(json@, crlf),
{
    let mut s = String::from_str("Content-Length: ");
    let n = json.len();
    let digits = usize_to_string(n);
    s.append(digits.as_str());
    let end = if crlf {
        "\r\n"
    } else {
        "\n"
    };
    proof {
        reveal_strlit("\r\n");
        reveal_strlit("\n");
        assert(end@ =~= line_end(crlf));
    }
    s.append(end);
    s.append(end);
    s.append(json);
    assert(s@ =~= frame_header(n as nat, crlf) + json@);
    let bytes = s.as_str().as_bytes();
    let mut r: Vec<u8> = Vec::new();
    let mut i: usize = 0;
    while i < bytes.len()
        invariant
            i <= bytes@.len(),
            r@ =~= bytes@.take(i as int),
        decreases bytes@.len() - i,
    {
        r.push(bytes[i]);
        i = i + 1;
    }
    assert(bytes@.take(bytes@.len() as int) =~= bytes@);
    r
}

/// The first line of `x + y`, where `x` ends in its only line feed, is `x`.
proof fn lemma_line_len_prefix(x: Seq<u8>, y: Seq<u8>)
    requires
        x.len() > 0,
        x.last() == 10u8,
        forall|i: int| 0 <= i < x.len() - 1 ==> x[i] != 10u8,
    ensures
        line_len(x + y) == x.len(),
    decreases x.len(),
{
    if x.len() > 1 {
        assert((x + y)[0] == x[0]);
        assert((x + y).drop_first() =~= x.drop_first() + y);
        assert forall|i: int| 0 <= i < x.drop_first().len() - 1 implies x.drop_first()[i] != 10u8 by {
            assert(x.drop_first()[i] == x[i + 1]);
        }
        lemma_line_len_prefix(x.drop_first(), y);
    } else {
        assert((x + y)[0] == x[0]);
    }
}

/// ASCII text is encoded one byte per character.
proof fn lemma_ascii_encode(c: Seq<char>)
    requires
        is_ascii_chars(c),
    ensures
        encode_utf8(c) == c.map_values(|ch: char| ch as u8),
        decode_utf8(encode_utf8(c)) == c,
        valid_utf8(encode_utf8(c)),
{
    vstd::utf8::is_ascii_chars_encode_utf8(c);
    vstd::utf8::encode_utf8_decode_utf8(c);
    vstd::utf8::encode_utf8_valid_utf8(c);
    assert(encode_utf8(c) =~= c.map_values(|ch: char| ch as u8));
}

/// The length line of a frame, with its line end, sets the content length.
proof fn lemma_length_line_outcome(n: nat, crlf: bool)
    requires
        n <= usize::MAX,
    ensures
        is_ascii_chars(length_line(n) + line_end(crlf)),
        line_outcome(None, encode_utf8(length_line(n) + line_end(crlf))) == LineOutcome::Next(
            Some(n as usize),
        ),
        forall|i: int|
            0 <= i < encode_utf8(length_line(n) + line_end(crlf)).len() - 1 ==> #[trigger] encode_utf8(
                length_line(n) + line_end(crlf),
            )[i] != 10u8,
        encode_utf8(length_line(n) + line_end(crlf)).last() == 10u8,
{
    reveal_strlit("Content-Length: ");
    reveal_strlit("Content-Length:");
    reveal_strlit("Content-Length");
    let d = dec(n);
    lemma_dec_digits(n);
    lemma_dec_len_u64(n);
    let eol = line_end(crlf);
    let h1 = length_line(n);
    let first = h1 + eol;
    assert(is_ascii_chars(first)) by {
        assert forall|i: int| 0 <= i < first.len() implies '\0' <= #[trigger] first[i] <= '\u{7f}' by {
            if 16 <= i < 16 + d.len() {
                assert(first[i] == d[i - 16]);
                assert(is_digit(d[i - 16]));
            }
        }
    }
    let a = encode_utf8(first);
    lemma_ascii_encode(first);
    assert(line_text(a) == first);
    assert forall|i: int| 0 <= i < a.len() - 1 implies #[trigger] a[i] != 10u8 by {
        if i < 16 {
            assert(first[i] == h1[i]);
            assert(h1[i] == "Content-Length: "@[i]);
        } else if i < h1.len() {
            assert(first[i] == h1[i]);
            assert(h1[i] == d[i - 16]);
            assert(is_digit(d[i - 16]));
        } else {
            assert(first[i] == eol[i - h1.len()]);
        }
        assert(a[i] == first[i] as u8);
    }
    assert(a.last() == first.last() as u8);
    assert(all_ws(eol));
    lemma_trim_end_ws_suffix(h1, eol);
    assert(h1.last() == d.last());
    assert(is_digit(d.last()));
    lemma_trim_end_no_ws(h1);
    assert(trim_end(line_text(a)) == h1);
    assert(h1.subrange(0, 15) =~= content_length_prefix());
    assert(has_prefix(h1, content_length_prefix()));
    let name = "Content-Length"@;
    let value = seq![' '] + d;
    assert(h1 =~= name + seq![':'] + value);
    lemma_before_colon_stops(name, value);
    assert forall|i: int| 0 <= i < value.len() implies value[i] != ':' by {
        if i > 0 {
            assert(value[i] == d[i - 1]);
            assert(is_digit(d[i - 1]));
        }
    }
    lemma_before_colon_none(value);
    assert(h1.skip(15) =~= value);
    assert(second_field(h1) == Some(value));
    lemma_trim_space_digits(n);
    lemma_parse_dec(n);
    assert(a.len() <= MAX_HEADER_LINE);
}

/// A line end alone is the blank line that ends the headers.
proof fn lemma_blank_line_outcome(cl: Option<usize>, crlf: bool)
    ensures
        is_ascii_chars(line_end(crlf)),
        line_outcome(cl, encode_utf8(line_end(crlf))) == LineOutcome::End,
{
    let eol = line_end(crlf);
    assert(is_ascii_chars(eol));
    lemma_ascii_encode(eol);
    assert(all_ws(eol));
    lemma_trim_end_ws_suffix(Seq::<char>::empty(), eol);
    assert(Seq::<char>::empty() + eol =~= eol);
}

/// Reading from a stream that starts with a framed message gives back the
/// body that was framed and takes exactly the frame's bytes, whatever follows
/// it; the next read starts at what follows.
#[verifier::rlimit(60)]
#[verifier::spinoff_prover]
pub proof fn lemma_frame_then_read(body: Seq<char>, crlf: bool, rest: Seq<u8>)
    requires
        encode_utf8(body).len() <= usize::MAX,
    ensures
        read_message_spec(frame_spec(body, crlf) + rest) == ReadSpec::Message(
            body,
            frame_spec(body, crlf).len(),
        ),
        (frame_spec(body, crlf) + rest).skip(frame_spec(body, crlf).len() as int) == rest,
{
    let n = encode_utf8(body).len();
    let eol = line_end(crlf);
    let first = length_line(n) + eol;
    lemma_length_line_outcome(n, crlf);
    lemma_blank_line_outcome(Some(n as usize), crlf);
    let a = encode_utf8(first);
    let b = encode_utf8(eol);
    let c = encode_utf8(body);
    lemma_ascii_encode(first);
    lemma_ascii_encode(eol);
    vstd::utf8::encode_utf8_valid_utf8(body);
    vstd::utf8::encode_utf8_decode_utf8(body);
    assert(frame_header(n, crlf) + body =~= first + (eol + body));
    lemma_encode_concat(first, eol + body);
    lemma_encode_concat(eol, body);
    let frame = frame_spec(body, crlf);
    assert(frame =~= a + (b + c));
    let stream = frame + rest;
    let crest = c + rest;
    let bc = b + crest;
    assert(stream =~= a + bc);
    lemma_line_len_prefix(a, bc);
    assert(stream.take(a.len() as int) =~= a);
    assert(stream.skip(a.len() as int) =~= bc);
    assert(b.len() > 0 && b.last() == 10u8 && forall|i: int| 0 <= i < b.len() - 1 ==> b[i] != 10u8);
    lemma_line_len_prefix(b, crest);
    assert(bc.take(b.len() as int) =~= b);
    assert(bc.skip(b.len() as int) =~= crest);
    assert(crest.take(n as int) =~= c);
    assert(read_from(bc, Some(n as usize), a.len()) == ReadSpec::Message(body, a.len() + b.len() + n));
    assert(read_from(stream, None, 0) == read_from(bc, Some(n as usize), a.len()));
    assert(stream.skip(frame.len() as int) =~= rest);
}

/// The text before the first `:` of `p:r`, where `p` holds no `:`, is `p`.
proof fn lemma_before_colon_stops(p: Seq<char>, r: Seq<char>)
    requires
        forall|i: int| 0 <= i < p.len() ==> p[i] != ':',
    ensures
        before_colon(p + seq![':'] + r) == p,
    decreases p.len(),
{
    let s = p + seq![':'] + r;
    if p.len() > 0 {
        assert(s.drop_first() =~= p.drop_first() + seq![':'] + r);
        assert(s[0] == p[0]);
        lemma_before_colon_stops(p.drop_first(), r);
        assert(seq![p[0]] + p.drop_first() =~= p);
    } else {
        assert(s[0] == ':');
    }
}

/// Text without `:` is all before the first `:`.
proof fn lemma_before_colon_none(s: Seq<char>)
    requires
        forall|i: int| 0 <= i < s.len() ==> s[i] != ':',
    ensures
        before_colon(s) == s,
    decreases s.len(),
{
    if s.len() > 0 {
        assert forall|i: int| 0 <= i < s.drop_first().len() implies s.drop_first()[i] != ':' by {
            assert(s.drop_first()[i] == s[i + 1]);
        }
        lemma_before_colon_none(s.drop_first());
        assert(seq![s[0]] + s.drop_first() =~= s);
    }
}


} // verus!
