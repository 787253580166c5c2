//! The request parser: one request line split into exactly three
//! whitespace-separated tokens, then header lines (lower-cased and
//! concatenated) up to a blank `\r\n` line, then a body of exactly
//! `content-length` bytes.
//!
//! The parser works on a byte buffer that the caller fills from the
//! connection. `parse_request` says when it needs more bytes, when the
//! request line is malformed, and when the stream ended before the header
//! block did.

use vstd::prelude::*;

use crate::bytes::{
    byte_is_space, is_space, lower, lower_byte, lower_seq, first_with_prefix, split_on, split_vec,
    find_line_with_prefix, strip_cr, strip_cr_vec, sub_vec, trim, trim_vec,
};
use crate::decimal::{digits_val, parse_usize, parses_as_usize, sign_stripped};
use crate::literals::{cl_prefix, cl_prefix_v, colon_sp, colon_sp_v, lf, lf_v};

verus! {

/// Exclusive end of the line that starts at `i`: one past the first line
/// feed at or after `i`, or the end of the buffer if there is none.
pub open spec fn line_end(s: Seq<u8>, i: int) -> int
    decreases s.len() - i,
{
    if !(0 <= i < s.len()) {
        s.len() as int
    } else if s[i] == 10 {
        i + 1
    } else {
        line_end(s, i + 1)
    }
}

/// Whether the line starting at `i` is terminated by a line feed inside the
/// buffer.
pub open spec fn line_done(s: Seq<u8>, i: int) -> bool {
    let e = line_end(s, i);
    i < e <= s.len() && s[e - 1] == 10
}

fn find_line_end(v: &Vec<u8>, i: usize) -> (r: usize)
    requires
        i <= v@.len(),
    ensures
        r == line_end(v@, i as int),
        i <= r <= v@.len(),
{
    let mut j: usize = i;
    while j < v.len() && v[j] != 10
        invariant
            i <= j <= v@.len(),
            line_end(v@, i as int) == line_end(v@, j as int),
        decreases v@.len() - j,
    {
        j += 1;
    }
    if j < v.len() {
        j + 1
    } else {
        j
    }
}

/// End of the run of non-whitespace bytes that starts at `i`.
pub open spec fn token_end(s: Seq<u8>, i: int) -> int
    decreases s.len() - i,
{
    if !(0 <= i < s.len()) {
        s.len() as int
    } else if is_space(s[i]) {
        i
    } else {
        token_end(s, i + 1)
    }
}

proof fn lemma_token_end_bounds(s: Seq<u8>, i: int)
    requires
        0 <= i <= s.len(),
    ensures
        i <= token_end(s, i) <= s.len(),
    decreases s.len() - i,
{
    if i < s.len() && !is_space(s[i]) {
        lemma_token_end_bounds(s, i + 1);
    }
}

/// The whitespace-separated tokens of `s`, scanning from `i`.
pub open spec fn tokens_from(s: Seq<u8>, i: int) -> Seq<Seq<u8>>
    decreases s.len() - i,
{
    if !(0 <= i < s.len()) {
        seq![]
    } else if is_space(s[i]) {
        tokens_from(s, i + 1)
    } else {
        let e = token_end(s, i);
        if i < e <= s.len() {
            seq![s.subrange(i, e)] + tokens_from(s, e)
        } else {
            seq![]
        }
    }
}

/// The whitespace-separated tokens of `s`, as `split_whitespace` yields
/// them.
pub open spec fn tokens_of(s: Seq<u8>) -> Seq<Seq<u8>> {
    tokens_from(s, 0)
}

fn find_token_end(v: &Vec<u8>, i: usize) -> (r: usize)
    requires
        i <= v@.len(),
    ensures
        r == token_end(v@, i as int),
        i <= r <= v@.len(),
{
    let mut j: usize = i;
    while j < v.len() && !byte_is_space(v[j])
        invariant
            i <= j <= v@.len(),
            token_end(v@, i as int) == token_end(v@, j as int),
        decreases v@.len() - j,
    {
        j += 1;
    }
    j
}

/// The tokens of the line `v[0..to]`, collected as vectors.
fn collect_tokens(v: &Vec<u8>, to: usize) -> (r: Vec<Vec<u8>>)
    requires
        to <= v@.len(),
    ensures
        r@.map_values(|x: Vec<u8>| x@) == tokens_of(v@.subrange(0, to as int)),
{
    let ghost line = v@.subrange(0, to as int);
    let mut r: Vec<Vec<u8>> = Vec::new();
    let mut i: usize = 0;
    while i < to
        invariant
            0 <= i <= to <= v@.len(),
            line == v@.subrange(0, to as int),
            tokens_of(line) == r@.map_values(|x: Vec<u8>| x@) + tokens_from(line, i as int),
        decreases to - i,
    {
        proof {
            assert(line[i as int] == v@[i as int]);
        }
        if byte_is_space(v[i]) {
            i += 1;
        } else {
            let e0 = find_token_end(v, i);
            let e = if e0 < to {
                e0
            } else {
                to
            };
            proof {
                lemma_token_end_on_prefix(v@, to as int, i as int);
            }
            let ghost m0 = r@.map_values(|x: Vec<u8>| x@);
            let tok = sub_vec(v, i, e);
            r.push(tok);
            proof {
                assert(v@.subrange(i as int, e as int) =~= line.subrange(
                    i as int,
                    token_end(line, i as int),
                ));
                assert(r@.map_values(|x: Vec<u8>| x@) =~= m0.push(line.subrange(
                    i as int,
                    token_end(line, i as int),
                )));
                assert(m0 + (seq![line.subrange(i as int, token_end(line, i as int))]
                    + tokens_from(line, token_end(line, i as int))) =~= r@.map_values(
                    |x: Vec<u8>| x@,
                ) + tokens_from(line, token_end(line, i as int)));
                lemma_token_end_bounds(line, i + 1);
            }
            i = e;
        }
    }
    proof {
        assert(tokens_from(line, i as int) =~= Seq::<Seq<u8>>::empty());
        assert(r@.map_values(|x: Vec<u8>| x@) + Seq::<Seq<u8>>::empty() =~= r@.map_values(
            |x: Vec<u8>| x@,
        ));
    }
    r
}

/// `token_end` agrees on a buffer and on its prefix `s[0..to]` for
/// positions inside the prefix, as long as the scan stays inside it.
proof fn lemma_token_end_on_prefix(s: Seq<u8>, to: int, i: int)
    requires
        0 <= i <= to <= s.len(),
    ensures
        token_end(s.subrange(0, to), i) == if token_end(s, i) <= to {
            token_end(s, i)
        } else {
            to
        },
    decreases to - i,
{
    let p = s.subrange(0, to);
    if i < to {
        if !is_space(s[i]) {
            lemma_token_end_on_prefix(s, to, i + 1);
        }
    } else {
        lemma_token_end_bounds(s, i);
    }
}

/// Scan of the header block that starts at `i`: `None` when the buffer runs
/// out before a blank `\r\n` line, otherwise the lower-cased concatenation
/// of the header lines and the position just past the blank line.
pub open spec fn scan_headers(s: Seq<u8>, i: int) -> Option<(Seq<u8>, int)>
    decreases s.len() - i,
{
    if !(0 <= i <= s.len()) {
        None
    } else {
        let e = line_end(s, i);
        if !(i < e <= s.len() && s[e - 1] == 10) {
            None
        } else if s.subrange(i, e) == seq![13u8, 10u8] {
            Some((Seq::empty(), e))
        } else {
            match scan_headers(s, e) {
                None => None,
                Some((block, p)) => Some((lower_seq(s.subrange(i, e)) + block, p)),
            }
        }
    }
}

#[derive(Clone, Copy, PartialEq, Eq, Structural, Debug)]
pub enum ParseError {
    /// The request line did not split into exactly three tokens.
    MalformedRequestLine,
    /// The stream ended before the blank line that closes the header block.
    IncompleteHeaders,
}

pub struct ParsedRequest {
    /// First token of the request line.
    pub method: Vec<u8>,
    /// Second token of the request line.
    pub path: Vec<u8>,
    /// The header lines, lower-cased, each keeping the terminator it
    /// arrived with.
    pub headers: Vec<u8>,
}

pub enum ParseResult {
    /// The buffer holds no complete request head yet; read more and retry.
    NeedMore,
    Failed(ParseError),
    /// The parsed head and the number of bytes it occupied; the body, if
    /// any, starts right after.
    Parsed(ParsedRequest, usize),
}

/// Spec-level mirror of `ParseResult`.
pub enum ParseOutcome {
    NeedMore,
    BadRequestLine,
    TruncatedHeaders,
    Head { method: Seq<u8>, path: Seq<u8>, headers: Seq<u8>, end: int },
}

/// What parsing the buffer `s` yields, `eof` saying whether the stream can
/// still grow. A request line that never saw its line feed is still
/// tokenized at end of stream; a header block that never saw its blank line
/// is truncated.
pub open spec fn spec_parse(s: Seq<u8>, eof: bool) -> ParseOutcome {
    let e0 = line_end(s, 0);
    if !line_done(s, 0) && !eof {
        ParseOutcome::NeedMore
    } else {
        let line = if line_done(s, 0) {
            s.subrange(0, e0)
        } else {
            s
        };
        let toks = tokens_of(line);
        if toks.len() != 3 {
            ParseOutcome::BadRequestLine
        } else if !line_done(s, 0) {
            ParseOutcome::TruncatedHeaders
        } else {
            match scan_headers(s, e0) {
                None => if eof {
                    ParseOutcome::TruncatedHeaders
                } else {
                    ParseOutcome::NeedMore
                },
                Some((block, end)) => ParseOutcome::Head {
                    method: toks[0],
                    path: toks[1],
                    headers: block,
                    end,
                },
            }
        }
    }
}

/// Parse the request head out of `data`; `eof` says the connection will
/// deliver no further bytes.
#[verifier::loop_isolation(false)]
pub fn parse_request(data: &Vec<u8>, eof: bool) -> (r: ParseResult)
    ensures
        match r {
            ParseResult::NeedMore => spec_parse(data@, eof) is NeedMore,
            ParseResult::Failed(ParseError::MalformedRequestLine) => spec_parse(data@, eof)
                is BadRequestLine,
            ParseResult::Failed(ParseError::IncompleteHeaders) => spec_parse(data@, eof)
                is TruncatedHeaders,
            ParseResult::Parsed(req, end) => spec_parse(data@, eof) == (ParseOutcome::Head {
                method: req.method@,
                path: req.path@,
                headers: req.headers@,
                end: end as int,
            }),
        },
{
    let e0 = find_line_end(data, 0);
    let first_line_done = e0 > 0 && data[e0 - 1] == 10;
    if !first_line_done && !eof {
        return ParseResult::NeedMore;
    }
    let line_to = if first_line_done {
        e0
    } else {
        data.len()
    };
    proof {
        if !first_line_done {
            assert(data@.subrange(0, data@.len() as int) =~= data@);
        }
    }
    let mut toks = collect_tokens(data, line_to);
    if toks.len() != 3 {
        return ParseResult::Failed(ParseError::MalformedRequestLine);
    }
    if !first_line_done {
        return ParseResult::Failed(ParseError::IncompleteHeaders);
    }
    let ghost toks_spec = toks@.map_values(|x: Vec<u8>| x@);
    // the tokens are [method, target, version]; the version is accepted
    // without being looked at
    let _version = toks.pop().unwrap();
    let target = toks.pop().unwrap();
    let method = toks.pop().unwrap();
    proof {
        assert(toks_spec[0] == method@);
        assert(toks_spec[1] == target@);
    }
    let mut headers: Vec<u8> = Vec::new();
    let mut pos: usize = e0;
    loop
        invariant
            0 < pos <= data@.len(),
            scan_headers(data@, e0 as int) == match scan_headers(data@, pos as int) {
                None => None::<(Seq<u8>, int)>,
                Some((block, p)) => Some((headers@ + block, p)),
            },
        decreases data@.len() - pos,
    {
        let e = find_line_end(data, pos);
        if !(e > pos && data[e - 1] == 10) {
            // the buffer ran out inside a header line
            if eof {
                return ParseResult::Failed(ParseError::IncompleteHeaders);
            } else {
                return ParseResult::NeedMore;
            }
        }
        if e - pos == 2 && data[pos] == 13 {
            // the blank line that closes the header block
            proof {
                assert(data@.subrange(pos as int, e as int) =~= seq![13u8, 10u8]);
                assert(headers@ + Seq::<u8>::empty() =~= headers@);
            }
            return ParseResult::Parsed(
                ParsedRequest { method, path: target, headers },
                e,
            );
        }
        proof {
            if data@.subrange(pos as int, e as int) == seq![13u8, 10u8] {
                assert(data@[pos as int] == 13);
            }
        }
        let ghost h0 = headers@;
        let mut k: usize = pos;
        while k < e
            invariant
                pos <= k <= e <= data@.len(),
                headers@ == h0 + lower_seq(data@.subrange(pos as int, k as int)),
            decreases e - k,
        {
            headers.push(lower_byte(data[k]));
            proof {
                assert(lower_seq(data@.subrange(pos as int, k + 1)) =~= lower_seq(
                    data@.subrange(pos as int, k as int),
                ).push(lower(data@[k as int])));
                assert(h0 + lower_seq(data@.subrange(pos as int, k as int)).push(
                    lower(data@[k as int]),
                ) =~= (h0 + lower_seq(data@.subrange(pos as int, k as int))).push(
                    lower(data@[k as int]),
                ));
            }
            k += 1;
        }
        proof {
            if let Some((block, p)) = scan_headers(data@, e as int) {
                assert((h0 + lower_seq(data@.subrange(pos as int, e as int))) + block =~= h0 + (
                lower_seq(data@.subrange(pos as int, e as int)) + block));
            }
        }
        pos = e;
    }
}

/// The Content-Length a header block declares: the first `content-length`
/// line's value, split off after `": "` and trimmed; absent or unparsable
/// values count as 0.
pub open spec fn spec_content_length(h: Seq<u8>) -> nat {
    match first_with_prefix(split_on(h, lf()), cl_prefix()) {
        None => 0,
        Some(l) => {
            let pieces = split_on(strip_cr(l), colon_sp());
            if pieces.len() < 2 {
                0
            } else {
                let t = trim(pieces[1]);
                if parses_as_usize(t) {
                    digits_val(sign_stripped(t))
                } else {
                    0
                }
            }
        },
    }
}

pub fn content_length(headers: &Vec<u8>) -> (n: usize)
    ensures
        n == spec_content_length(headers@),
{
    let lines = split_vec(headers, &lf_v());
    match find_line_with_prefix(&lines, &cl_prefix_v()) {
        None => 0,
        Some(k) => {
            let l = strip_cr_vec(&lines[k]);
            let pieces = split_vec(&l, &colon_sp_v());
            if pieces.len() < 2 {
                0
            } else {
                let t = trim_vec(&pieces[1]);
                match parse_usize(&t) {
                    Some(n) => n,
                    None => 0,
                }
            }
        },
    }
}

/// Extract the request body from the bytes that follow the head: exactly
/// the declared `content-length` bytes, or nothing when the stream ended
/// short of that (the caller only hands over a short buffer at end of
/// stream).
pub fn parse_body(data: &Vec<u8>, headers: &Vec<u8>) -> (r: Option<Vec<u8>>)
    ensures
        match r {
            Some(b) => data@.len() >= spec_content_length(headers@) && b@ == data@.subrange(
                0,
                spec_content_length(headers@) as int,
            ),
            None => data@.len() < spec_content_length(headers@),
        },
{
    let n = content_length(headers);
    if data.len() < n {
        None
    } else {
        Some(sub_vec(data, 0, n))
    }
}

} // verus!
