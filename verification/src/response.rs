//! Responses: a status line, the ordered header set, and an optional body.
//!
//! Serialization is byte-exact: `Content-Encoding` (only when gzip was
//! negotiated) comes before `Content-Type`, which comes before
//! `Content-Length`, and `Content-Length` is present exactly when a body is
//! and states its exact byte length.

use vstd::prelude::*;

use crate::decimal::dec_rep;
use crate::decimal::usize_to_decimal;
use crate::literals::{
    crlf, crlf_v, h_content_encoding, h_content_encoding_v, h_content_length, h_content_length_v,
    h_ct_octet, h_ct_octet_v, h_ct_text, h_ct_text_v, http11, http11_v, st_bad_request,
    st_bad_request_v, st_created, st_created_v, st_not_found, st_not_found_v, st_ok, st_ok_v,
    st_server_error, st_server_error_v,
};

verus! {

#[derive(Clone, Copy, PartialEq, Eq, Structural, Debug)]
pub enum Status {
    Ok200,
    Created201,
    BadRequest400,
    NotFound404,
    ServerError500,
}

#[derive(Clone, Copy, PartialEq, Eq, Structural, Debug)]
pub enum ContentType {
    TextPlain,
    OctetStream,
}

/// One complete response, still structured.
pub struct ResponseMessage {
    pub status: Status,
    /// Whether gzip content-encoding was negotiated for the body.
    pub gzip: bool,
    pub content_type: Option<ContentType>,
    pub body: Option<Vec<u8>>,
}

/// The mathematical shape of a response.
pub struct MsgView {
    pub status: Status,
    pub gzip: bool,
    pub content_type: Option<ContentType>,
    pub body: Option<Seq<u8>>,
}

impl View for ResponseMessage {
    type V = MsgView;

    open spec fn view(&self) -> MsgView {
        MsgView {
            status: self.status,
            gzip: self.gzip,
            content_type: self.content_type,
            body: match self.body {
                Some(ref b) => Some(b@),
                None => None,
            },
        }
    }
}

/// The status text that follows `HTTP/1.1 `.
pub open spec fn status_text(s: Status) -> Seq<u8> {
    match s {
        Status::Ok200 => st_ok(),
        Status::Created201 => st_created(),
        Status::BadRequest400 => st_bad_request(),
        Status::NotFound404 => st_not_found(),
        Status::ServerError500 => st_server_error(),
    }
}

/// The exact bytes a response serializes to.
pub open spec fn spec_serialize(m: MsgView) -> Seq<u8> {
    http11() + status_text(m.status) + crlf() + (if m.gzip {
        h_content_encoding()
    } else {
        Seq::empty()
    }) + (match m.content_type {
        Some(ContentType::TextPlain) => h_ct_text(),
        Some(ContentType::OctetStream) => h_ct_octet(),
        None => Seq::empty(),
    }) + (match m.body {
        Some(b) => h_content_length() + dec_rep(b.len()) + crlf(),
        None => Seq::empty(),
    }) + crlf() + (match m.body {
        Some(b) => b,
        None => Seq::empty(),
    })
}

/// A response with the given status and neither content headers nor body.
pub open spec fn empty_msg(s: Status) -> MsgView {
    MsgView { status: s, gzip: false, content_type: None, body: None }
}

impl ResponseMessage {
    /// A response carrying only a status line.
    pub fn status_only(status: Status) -> (r: ResponseMessage)
        ensures
            r@ == empty_msg(status),
    {
        ResponseMessage { status, gzip: false, content_type: None, body: None }
    }

    /// The response as the bytes that go on the wire.
    #[verifier::rlimit(60)]
    pub fn serialize(&self) -> (r: Vec<u8>)
        ensures
            r@ == spec_serialize(self@),
    {
        let mut out = http11_v();
        let mut st = match self.status {
            Status::Ok200 => st_ok_v(),
            Status::Created201 => st_created_v(),
            Status::BadRequest400 => st_bad_request_v(),
            Status::NotFound404 => st_not_found_v(),
            Status::ServerError500 => st_server_error_v(),
        };
        out.append(&mut st);
        let mut nl = crlf_v();
        out.append(&mut nl);
        if self.gzip {
            let mut ce = h_content_encoding_v();
            out.append(&mut ce);
        }
        match self.content_type {
            Some(ContentType::TextPlain) => {
                let mut ct = h_ct_text_v();
                out.append(&mut ct);
            },
            Some(ContentType::OctetStream) => {
                let mut ct = h_ct_octet_v();
                out.append(&mut ct);
            },
            None => {},
        }
        match &self.body {
            Some(b) => {
                let mut cl = h_content_length_v();
                out.append(&mut cl);
                let mut n = usize_to_decimal(b.len());
                out.append(&mut n);
                let mut nl2 = crlf_v();
                out.append(&mut nl2);
            },
            None => {},
        }
        let mut blank = crlf_v();
        out.append(&mut blank);
        match &self.body {
            Some(b) => {
                let mut copy = crate::bytes::sub_vec(b, 0, b.len());
                proof {
                    assert(b@.subrange(0, b@.len() as int) =~= b@);
                }
                out.append(&mut copy);
            },
            None => {},
        }
        proof {
            assert(out@ =~= spec_serialize(self@));
        }
        out
    }
}

} // verus!
