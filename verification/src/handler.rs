//! The router: given a parsed request and the serving directory, decide
//! which of the five routes applies, in fixed priority order, and either
//! assemble the complete response or name the one file operation the
//! caller must perform.
//!
//! File reads and writes are the only work left to the caller; the
//! decisions about their outcomes (`file_read_response`, `post_outcome`)
//! are taken here.

use vstd::prelude::*;

use crate::bytes::{has_at, starts_with, sub_vec, vecs_equal};
use crate::decimal::dec_rep;
use crate::gzip::{gzip_compress, gzip_of};
use crate::headers::{gzip_accepted, spec_gzip_accepted, spec_user_agent, user_agent};
use crate::literals::{
    crlf, echo_prefix, echo_prefix_v, echo_slash, echo_slash_v, files_slash, files_slash_v,
    get_method, get_method_v, h_content_encoding, h_content_length, h_ct_text, http11,
    post_method, post_method_v, root_path, root_path_v, st_bad_request, st_ok, user_agent_path,
    user_agent_path_v,
};
use crate::parsing::{line_done, line_end, spec_parse, tokens_of, ParsedRequest};
use crate::response::{
    empty_msg, spec_serialize, ContentType, MsgView, ResponseMessage, Status,
};

verus! {

/// Everything after the fixed `/echo/` prefix, verbatim, further slashes
/// and further `/echo/` copies included: what the echo route sends back.
/// A path that matched the route without the trailing slash (`/echoxyz`)
/// has no such prefix and is echoed whole.
pub open spec fn trim_echo(p: Seq<u8>) -> Seq<u8> {
    if p.len() >= 6 && p.take(6) == echo_slash() {
        p.skip(6)
    } else {
        p
    }
}

pub fn trim_echo_vec(v: &Vec<u8>) -> (r: Vec<u8>)
    ensures
        r@ == trim_echo(v@),
{
    let pat = echo_slash_v();
    if v.len() >= 6 && has_at(v, 0, &pat) {
        proof {
            assert(v@.take(6) =~= v@.subrange(0, 6));
            assert(v@.skip(6) =~= v@.subrange(6, v@.len() as int));
        }
        sub_vec(v, 6, v.len())
    } else {
        proof {
            if v@.len() >= 6 && v@.take(6) == echo_slash() {
                assert(v@.subrange(0, 6) =~= v@.take(6));
            }
            assert(v@.subrange(0, v@.len() as int) =~= v@);
        }
        sub_vec(v, 0, v.len())
    }
}

/// The path with every occurrence of `/files/` removed, scanning left to
/// right without overlap: the file name the file routes use.
pub open spec fn replace_files(p: Seq<u8>) -> Seq<u8>
    decreases p.len(),
{
    if p.len() < 7 {
        p
    } else if p.take(7) == files_slash() {
        replace_files(p.skip(7))
    } else {
        seq![p.first()] + replace_files(p.drop_first())
    }
}

pub fn replace_files_vec(v: &Vec<u8>) -> (r: Vec<u8>)
    ensures
        r@ == replace_files(v@),
{
    let pat = files_slash_v();
    let mut out: Vec<u8> = Vec::new();
    let mut i: usize = 0;
    proof {
        assert(v@.skip(0) =~= v@);
        assert(Seq::<u8>::empty() + replace_files(v@) =~= replace_files(v@));
    }
    while i < v.len()
        invariant
            0 <= i <= v@.len(),
            pat@ == files_slash(),
            replace_files(v@) == out@ + replace_files(v@.skip(i as int)),
        decreases v@.len() - i,
    {
        let ghost rest = v@.skip(i as int);
        if v.len() - i >= 7 && has_at(v, i, &pat) {
            proof {
                assert(rest.take(7) =~= v@.subrange(i as int, i + 7));
                assert(rest.skip(7) =~= v@.skip(i + 7));
            }
            i += 7;
        } else {
            proof {
                if rest.len() >= 7 {
                    if rest.take(7) == files_slash() {
                        assert(v@.subrange(i as int, i + 7) =~= rest.take(7));
                    }
                    assert(rest.first() == v@[i as int]);
                    assert(rest.drop_first() =~= v@.skip(i + 1));
                    assert((out@ + (seq![v@[i as int]] + replace_files(v@.skip(i + 1)))) =~= (
                    out@.push(v@[i as int]) + replace_files(v@.skip(i + 1))));
                } else {
                    assert(rest =~= seq![v@[i as int]] + v@.skip(i + 1));
                    assert(v@.skip(i + 1).len() < 7);
                    assert((out@ + (seq![v@[i as int]] + v@.skip(i + 1))) =~= (out@.push(
                        v@[i as int],
                    ) + v@.skip(i + 1)));
                }
            }
            out.push(v[i]);
            i += 1;
        }
    }
    proof {
        assert(v@.skip(v@.len() as int) =~= Seq::<u8>::empty());
        assert(out@ + Seq::<u8>::empty() =~= out@);
    }
    out
}

/// A file name resolved under the serving directory: the directory, a
/// path separator, the name.
pub open spec fn spec_resolve_path(dir: Seq<u8>, name: Seq<u8>) -> Seq<u8> {
    dir + seq![47u8] + name
}

pub fn resolve_path(dir: &Vec<u8>, name: &Vec<u8>) -> (r: Vec<u8>)
    ensures
        r@ == spec_resolve_path(dir@, name@),
{
    let mut r = sub_vec(dir, 0, dir.len());
    r.push(47);
    let mut n = sub_vec(name, 0, name.len());
    r.append(&mut n);
    proof {
        assert(dir@.subrange(0, dir@.len() as int) =~= dir@);
        assert(name@.subrange(0, name@.len() as int) =~= name@);
        assert(dir@.push(47u8) + name@ =~= spec_resolve_path(dir@, name@));
    }
    r
}

/// A 200 reply carrying `body` as text/plain.
pub open spec fn text_msg(body: Seq<u8>) -> MsgView {
    MsgView {
        status: Status::Ok200,
        gzip: false,
        content_type: Some(ContentType::TextPlain),
        body: Some(body),
    }
}

/// A 200 reply carrying the gzip encoding of `body` as text/plain, with
/// the negotiated Content-Encoding announced.
pub open spec fn gzip_text_msg(body: Seq<u8>) -> MsgView {
    MsgView {
        status: Status::Ok200,
        gzip: true,
        content_type: Some(ContentType::TextPlain),
        body: Some(gzip_of(body)),
    }
}

/// A 200 reply carrying file contents as application/octet-stream.
pub open spec fn file_msg(body: Seq<u8>) -> MsgView {
    MsgView {
        status: Status::Ok200,
        gzip: false,
        content_type: Some(ContentType::OctetStream),
        body: Some(body),
    }
}

/// What the router decides; file contents flow through the caller.
pub enum SpecStep {
    Reply(MsgView),
    /// Read the file at this resolved path, then build the reply with
    /// `file_read_response`.
    ReadFile(Seq<u8>),
    /// Create the file at this resolved path, write the request body to
    /// it, and build the reply with `post_outcome`.
    StoreFile(Seq<u8>),
}

/// The dispatch table, in priority order, first match wins.
pub open spec fn spec_route(method: Seq<u8>, path: Seq<u8>, headers: Seq<u8>, dir: Seq<u8>) -> SpecStep {
    if method == get_method() && path == root_path() {
        SpecStep::Reply(empty_msg(Status::Ok200))
    } else if method == get_method() && echo_prefix().is_prefix_of(path) {
        if spec_gzip_accepted(headers) {
            SpecStep::Reply(gzip_text_msg(trim_echo(path)))
        } else {
            SpecStep::Reply(text_msg(trim_echo(path)))
        }
    } else if method == get_method() && user_agent_path().is_prefix_of(path) {
        match spec_user_agent(headers) {
            None => SpecStep::Reply(empty_msg(Status::BadRequest400)),
            Some(v) => SpecStep::Reply(text_msg(v)),
        }
    } else if method == get_method() && files_slash().is_prefix_of(path) {
        SpecStep::ReadFile(spec_resolve_path(dir, replace_files(path)))
    } else if method == post_method() && files_slash().is_prefix_of(path) {
        SpecStep::StoreFile(spec_resolve_path(dir, replace_files(path)))
    } else {
        SpecStep::Reply(empty_msg(Status::NotFound404))
    }
}

pub enum Action {
    /// Write this response and close the connection.
    Reply(ResponseMessage),
    /// Read the file at this path, then ask `file_read_response`.
    ReadFile(Vec<u8>),
    /// Store the request body at this path, then ask `post_outcome`.
    StoreFile(Vec<u8>),
}

/// Decide the route. The result follows `spec_route` exactly: every
/// request is owed its reply or its one file operation.
pub fn route_request(req: &ParsedRequest, directory: &Vec<u8>) -> (r: Action)
    ensures
        ({
            let step = spec_route(req.method@, req.path@, req.headers@, directory@);
            match r {
                Action::Reply(m) => step == SpecStep::Reply(m@),
                Action::ReadFile(p) => step == SpecStep::ReadFile(p@),
                Action::StoreFile(p) => step == SpecStep::StoreFile(p@),
            }
        }),
{
    let get = get_method_v();
    let post = post_method_v();
    let is_get = vecs_equal(&req.method, &get);
    let is_post = vecs_equal(&req.method, &post);
    let root = root_path_v();
    if is_get && vecs_equal(&req.path, &root) {
        return Action::Reply(ResponseMessage::status_only(Status::Ok200));
    }
    let echo = echo_prefix_v();
    if is_get && starts_with(&req.path, &echo) {
        let message = trim_echo_vec(&req.path);
        if gzip_accepted(&req.headers) {
            let compressed = gzip_compress(&message);
            return Action::Reply(
                ResponseMessage {
                    status: Status::Ok200,
                    gzip: true,
                    content_type: Some(ContentType::TextPlain),
                    body: Some(compressed),
                },
            );
        } else {
            return Action::Reply(
                ResponseMessage {
                    status: Status::Ok200,
                    gzip: false,
                    content_type: Some(ContentType::TextPlain),
                    body: Some(message),
                },
            );
        }
    }
    let ua = user_agent_path_v();
    if is_get && starts_with(&req.path, &ua) {
        match user_agent(&req.headers) {
            None => {
                return Action::Reply(ResponseMessage::status_only(Status::BadRequest400));
            },
            Some(value) => {
                return Action::Reply(
                    ResponseMessage {
                        status: Status::Ok200,
                        gzip: false,
                        content_type: Some(ContentType::TextPlain),
                        body: Some(value),
                    },
                );
            },
        }
    }
    let files = files_slash_v();
    if is_get && starts_with(&req.path, &files) {
        let name = replace_files_vec(&req.path);
        return Action::ReadFile(resolve_path(directory, &name));
    }
    if is_post && starts_with(&req.path, &files) {
        let name = replace_files_vec(&req.path);
        return Action::StoreFile(resolve_path(directory, &name));
    }
    Action::Reply(ResponseMessage::status_only(Status::NotFound404))
}

/// The reply a file read leads to: the bytes as an octet-stream on
/// success, 404 with no body when the file was missing or unreadable.
pub open spec fn spec_file_read_response(contents: Option<Seq<u8>>) -> MsgView {
    match contents {
        None => empty_msg(Status::NotFound404),
        Some(b) => file_msg(b),
    }
}

pub fn file_read_response(contents: Option<Vec<u8>>) -> (r: ResponseMessage)
    ensures
        contents matches Some(b) ==> r@ == spec_file_read_response(Some(b@)),
        contents is None ==> r@ == spec_file_read_response(None),
{
    match contents {
        None => ResponseMessage::status_only(Status::NotFound404),
        Some(b) => ResponseMessage {
            status: Status::Ok200,
            gzip: false,
            content_type: Some(ContentType::OctetStream),
            body: Some(b),
        },
    }
}

/// The reply a file store leads to, from what the caller observed, in the
/// order the route proceeds: creation failed — 500; the body could not be
/// read in full — 400; the write failed — 500; otherwise 201. No reply
/// carries a body.
pub open spec fn spec_post_outcome(created: bool, body_ok: bool, written: bool) -> MsgView {
    if !created {
        empty_msg(Status::ServerError500)
    } else if !body_ok {
        empty_msg(Status::BadRequest400)
    } else if !written {
        empty_msg(Status::ServerError500)
    } else {
        empty_msg(Status::Created201)
    }
}

pub fn post_outcome(created: bool, body_ok: bool, written: bool) -> (r: ResponseMessage)
    ensures
        r@ == spec_post_outcome(created, body_ok, written),
{
    if !created {
        ResponseMessage::status_only(Status::ServerError500)
    } else if !body_ok {
        ResponseMessage::status_only(Status::BadRequest400)
    } else if !written {
        ResponseMessage::status_only(Status::ServerError500)
    } else {
        ResponseMessage::status_only(Status::Created201)
    }
}

/// Echoing without an accepted encoding returns the suffix verbatim: a
/// `GET` of `/echo/` followed by any `s` — further slashes and `/echo/`
/// copies included — replies 200 with body exactly `s`, and the
/// serialized response declares Content-Length equal to `s`'s byte
/// length and ends in `s`.
pub proof fn lemma_echo_plain_identity(s: Seq<u8>, headers: Seq<u8>, dir: Seq<u8>)
    requires
        !spec_gzip_accepted(headers),
    ensures
        spec_route(get_method(), echo_slash() + s, headers, dir) == SpecStep::Reply(text_msg(s)),
        spec_serialize(text_msg(s)) == http11() + st_ok() + crlf() + h_ct_text()
            + h_content_length() + dec_rep(s.len()) + crlf() + crlf() + s,
{
    let path = echo_slash() + s;
    assert(path.len() >= 6);
    assert(path.subrange(0, 5) =~= echo_prefix());
    assert(echo_prefix().is_prefix_of(path));
    assert(path.take(6) =~= echo_slash());
    assert(path.skip(6) =~= s);
    assert(trim_echo(path) == s);
    assert(spec_serialize(text_msg(s)) =~= http11() + st_ok() + crlf() + h_ct_text()
        + h_content_length() + dec_rep(s.len()) + crlf() + crlf() + s);
}

/// Echoing with `gzip` among the accepted encodings compresses: the reply
/// announces `Content-Encoding: gzip` and its body is `gzip_of(s)`, the
/// gzip encoding of the echoed suffix — the matching decompressor
/// recovers exactly `s` from it. Content-Length states the compressed
/// length.
pub proof fn lemma_echo_gzip_encodes(s: Seq<u8>, headers: Seq<u8>, dir: Seq<u8>)
    requires
        spec_gzip_accepted(headers),
    ensures
        spec_route(get_method(), echo_slash() + s, headers, dir) == SpecStep::Reply(
            gzip_text_msg(s),
        ),
        gzip_text_msg(s).gzip,
        gzip_text_msg(s).body == Some(gzip_of(s)),
        spec_serialize(gzip_text_msg(s)) == http11() + st_ok() + crlf() + h_content_encoding()
            + h_ct_text() + h_content_length() + dec_rep(gzip_of(s).len()) + crlf() + crlf()
            + gzip_of(s),
{
    let path = echo_slash() + s;
    assert(path.len() >= 6);
    assert(path.subrange(0, 5) =~= echo_prefix());
    assert(echo_prefix().is_prefix_of(path));
    assert(path.take(6) =~= echo_slash());
    assert(path.skip(6) =~= s);
    assert(trim_echo(path) == s);
    assert(spec_serialize(gzip_text_msg(s)) =~= http11() + st_ok() + crlf()
        + h_content_encoding() + h_ct_text() + h_content_length() + dec_rep(gzip_of(s).len())
        + crlf() + crlf() + gzip_of(s));
}

/// Round trip through the file routes: a POST and a GET for the same
/// `/files/` path resolve to one and the same stored path, whatever
/// headers either request carries; and reading back the bytes the POST
/// stored yields a 200 reply whose body is exactly those bytes.
pub proof fn lemma_files_round_trip(
    path: Seq<u8>,
    b: Seq<u8>,
    post_headers: Seq<u8>,
    get_headers: Seq<u8>,
    dir: Seq<u8>,
)
    requires
        path.len() >= 7,
        path.take(7) == files_slash(),
    ensures
        spec_route(post_method(), path, post_headers, dir) == SpecStep::StoreFile(
            spec_resolve_path(dir, replace_files(path)),
        ),
        spec_route(get_method(), path, get_headers, dir) == SpecStep::ReadFile(
            spec_resolve_path(dir, replace_files(path)),
        ),
        spec_file_read_response(Some(b)) == file_msg(b),
        file_msg(b).status is Ok200,
        file_msg(b).body == Some(b),
{
    assert(path.subrange(0, 7) =~= files_slash());
    assert(files_slash().is_prefix_of(path));
    assert(path[1] == 102);
    assert(path != root_path());
    assert(!echo_prefix().is_prefix_of(path)) by {
        if echo_prefix().is_prefix_of(path) {
            assert(path.subrange(0, 5)[1] == path[1]);
        }
    }
    assert(!user_agent_path().is_prefix_of(path)) by {
        if user_agent_path().is_prefix_of(path) {
            assert(path.subrange(0, 11)[1] == path[1]);
        }
    }
}

/// A request line that does not split into exactly three tokens — two,
/// say — is rejected outright, whatever else the buffer holds: parsing
/// reports a bad request line, no body is ever looked at, and the reply
/// owed for it is the bare 400 status line with no body.
pub proof fn lemma_malformed_request_line(s: Seq<u8>, eof: bool)
    requires
        line_done(s, 0) || eof,
        tokens_of(
            if line_done(s, 0) {
                s.subrange(0, line_end(s, 0))
            } else {
                s
            },
        ).len() != 3,
    ensures
        spec_parse(s, eof) is BadRequestLine,
        empty_msg(Status::BadRequest400).body is None,
        spec_serialize(empty_msg(Status::BadRequest400)) == http11() + st_bad_request() + crlf()
            + crlf(),
{
    assert(spec_serialize(empty_msg(Status::BadRequest400)) =~= http11() + st_bad_request()
        + crlf() + crlf());
}

/// One request, one reply: the route is a function of the request and the
/// serving directory alone, so any two replies the router can return for
/// the very same request serialize to identical bytes.
pub proof fn lemma_identical_requests_identical_replies(
    method: Seq<u8>,
    path: Seq<u8>,
    headers: Seq<u8>,
    dir: Seq<u8>,
    m1: MsgView,
    m2: MsgView,
)
    requires
        spec_route(method, path, headers, dir) == SpecStep::Reply(m1),
        spec_route(method, path, headers, dir) == SpecStep::Reply(m2),
    ensures
        m1 == m2,
        spec_serialize(m1) == spec_serialize(m2),
{
}

} // verus!
