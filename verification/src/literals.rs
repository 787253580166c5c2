//! The fixed byte strings of the wire format, each as a spec sequence
//! and an executable constructor proved to produce exactly it.

use vstd::prelude::*;

verus! {

/// `"\r\n"`: the CRLF line terminator.
pub open spec fn crlf() -> Seq<u8> {
    seq![13u8, 10u8]
}

pub fn crlf_v() -> (r: Vec<u8>)
    ensures
        r@ == crlf(),
{
    let mut v: Vec<u8> = Vec::new();
    v.push(13u8);
    v.push(10u8);
    proof {
        assert(v@ =~= crlf());
    }
    v
}

/// `"\n"`: a bare line feed.
pub open spec fn lf() -> Seq<u8> {
    seq![10u8]
}

pub fn lf_v() -> (r: Vec<u8>)
    ensures
        r@ == lf(),
{
    let mut v: Vec<u8> = Vec::new();
    v.push(10u8);
    proof {
        assert(v@ =~= lf());
    }
    v
}

/// `","`: the Accept-Encoding token separator.
pub open spec fn comma() -> Seq<u8> {
    seq![44u8]
}

pub fn comma_v() -> (r: Vec<u8>)
    ensures
        r@ == comma(),
{
    let mut v: Vec<u8> = Vec::new();
    v.push(44u8);
    proof {
        assert(v@ =~= comma());
    }
    v
}

/// `": "`: the name/value separator a Content-Length line is split on.
pub open spec fn colon_sp() -> Seq<u8> {
    seq![58u8, 32u8]
}

pub fn colon_sp_v() -> (r: Vec<u8>)
    ensures
        r@ == colon_sp(),
{
    let mut v: Vec<u8> = Vec::new();
    v.push(58u8);
    v.push(32u8);
    proof {
        assert(v@ =~= colon_sp());
    }
    v
}

/// `"accept-encoding:"`: the lower-cased Accept-Encoding line prefix.
pub open spec fn ae_prefix() -> Seq<u8> {
    seq![97u8, 99u8, 99u8, 101u8, 112u8, 116u8, 45u8, 101u8, 110u8, 99u8, 111u8, 100u8, 105u8, 110u8, 103u8, 58u8]
}

pub fn ae_prefix_v() -> (r: Vec<u8>)
    ensures
        r@ == ae_prefix(),
{
    let mut v: Vec<u8> = Vec::new();
    v.push(97u8);
    v.push(99u8);
    v.push(99u8);
    v.push(101u8);
    v.push(112u8);
    v.push(116u8);
    v.push(45u8);
    v.push(101u8);
    v.push(110u8);
    v.push(99u8);
    v.push(111u8);
    v.push(100u8);
    v.push(105u8);
    v.push(110u8);
    v.push(103u8);
    v.push(58u8);
    proof {
        assert(v@ =~= ae_prefix());
    }
    v
}

/// `"user-agent:"`: the lower-cased User-Agent line prefix.
pub open spec fn ua_prefix() -> Seq<u8> {
    seq![117u8, 115u8, 101u8, 114u8, 45u8, 97u8, 103u8, 101u8, 110u8, 116u8, 58u8]
}

pub fn ua_prefix_v() -> (r: Vec<u8>)
    ensures
        r@ == ua_prefix(),
{
    let mut v: Vec<u8> = Vec::new();
    v.push(117u8);
    v.push(115u8);
    v.push(101u8);
    v.push(114u8);
    v.push(45u8);
    v.push(97u8);
    v.push(103u8);
    v.push(101u8);
    v.push(110u8);
    v.push(116u8);
    v.push(58u8);
    proof {
        assert(v@ =~= ua_prefix());
    }
    v
}

/// `"content-length:"`: the lower-cased Content-Length line prefix.
pub open spec fn cl_prefix() -> Seq<u8> {
    seq![99u8, 111u8, 110u8, 116u8, 101u8, 110u8, 116u8, 45u8, 108u8, 101u8, 110u8, 103u8, 116u8, 104u8, 58u8]
}

pub fn cl_prefix_v() -> (r: Vec<u8>)
    ensures
        r@ == cl_prefix(),
{
    let mut v: Vec<u8> = Vec::new();
    v.push(99u8);
    v.push(111u8);
    v.push(110u8);
    v.push(116u8);
    v.push(101u8);
    v.push(110u8);
    v.push(116u8);
    v.push(45u8);
    v.push(108u8);
    v.push(101u8);
    v.push(110u8);
    v.push(103u8);
    v.push(116u8);
    v.push(104u8);
    v.push(58u8);
    proof {
        assert(v@ =~= cl_prefix());
    }
    v
}

/// `"gzip"`: the single supported content encoding.
pub open spec fn gzip_token() -> Seq<u8> {
    seq![103u8, 122u8, 105u8, 112u8]
}

pub fn gzip_token_v() -> (r: Vec<u8>)
    ensures
        r@ == gzip_token(),
{
    let mut v: Vec<u8> = Vec::new();
    v.push(103u8);
    v.push(122u8);
    v.push(105u8);
    v.push(112u8);
    proof {
        assert(v@ =~= gzip_token());
    }
    v
}

/// `"GET"`: the GET method token.
pub open spec fn get_method() -> Seq<u8> {
    seq![71u8, 69u8, 84u8]
}

pub fn get_method_v() -> (r: Vec<u8>)
    ensures
        r@ == get_method(),
{
    let mut v: Vec<u8> = Vec::new();
    v.push(71u8);
    v.push(69u8);
    v.push(84u8);
    proof {
        assert(v@ =~= get_method());
    }
    v
}

/// `"POST"`: the POST method token.
pub open spec fn post_method() -> Seq<u8> {
    seq![80u8, 79u8, 83u8, 84u8]
}

pub fn post_method_v() -> (r: Vec<u8>)
    ensures
        r@ == post_method(),
{
    let mut v: Vec<u8> = Vec::new();
    v.push(80u8);
    v.push(79u8);
    v.push(83u8);
    v.push(84u8);
    proof {
        assert(v@ =~= post_method());
    }
    v
}

/// `"/"`: the bare root path.
pub open spec fn root_path() -> Seq<u8> {
    seq![47u8]
}

pub fn root_path_v() -> (r: Vec<u8>)
    ensures
        r@ == root_path(),
{
    let mut v: Vec<u8> = Vec::new();
    v.push(47u8);
    proof {
        assert(v@ =~= root_path());
    }
    v
}

/// `"/echo"`: the prefix that selects the echo route.
pub open spec fn echo_prefix() -> Seq<u8> {
    seq![47u8, 101u8, 99u8, 104u8, 111u8]
}

pub fn echo_prefix_v() -> (r: Vec<u8>)
    ensures
        r@ == echo_prefix(),
{
    let mut v: Vec<u8> = Vec::new();
    v.push(47u8);
    v.push(101u8);
    v.push(99u8);
    v.push(104u8);
    v.push(111u8);
    proof {
        assert(v@ =~= echo_prefix());
    }
    v
}

/// `"/echo/"`: the prefix stripped from an echo path.
pub open spec fn echo_slash() -> Seq<u8> {
    seq![47u8, 101u8, 99u8, 104u8, 111u8, 47u8]
}

pub fn echo_slash_v() -> (r: Vec<u8>)
    ensures
        r@ == echo_slash(),
{
    let mut v: Vec<u8> = Vec::new();
    v.push(47u8);
    v.push(101u8);
    v.push(99u8);
    v.push(104u8);
    v.push(111u8);
    v.push(47u8);
    proof {
        assert(v@ =~= echo_slash());
    }
    v
}

/// `"/user-agent"`: the prefix that selects the user-agent route.
pub open spec fn user_agent_path() -> Seq<u8> {
    seq![47u8, 117u8, 115u8, 101u8, 114u8, 45u8, 97u8, 103u8, 101u8, 110u8, 116u8]
}

pub fn user_agent_path_v() -> (r: Vec<u8>)
    ensures
        r@ == user_agent_path(),
{
    let mut v: Vec<u8> = Vec::new();
    v.push(47u8);
    v.push(117u8);
    v.push(115u8);
    v.push(101u8);
    v.push(114u8);
    v.push(45u8);
    v.push(97u8);
    v.push(103u8);
    v.push(101u8);
    v.push(110u8);
    v.push(116u8);
    proof {
        assert(v@ =~= user_agent_path());
    }
    v
}

/// `"/files/"`: the prefix that selects the file routes.
pub open spec fn files_slash() -> Seq<u8> {
    seq![47u8, 102u8, 105u8, 108u8, 101u8, 115u8, 47u8]
}

pub fn files_slash_v() -> (r: Vec<u8>)
    ensures
        r@ == files_slash(),
{
    let mut v: Vec<u8> = Vec::new();
    v.push(47u8);
    v.push(102u8);
    v.push(105u8);
    v.push(108u8);
    v.push(101u8);
    v.push(115u8);
    v.push(47u8);
    proof {
        assert(v@ =~= files_slash());
    }
    v
}

/// `"HTTP/1.1 "`: the status-line protocol part.
pub open spec fn http11() -> Seq<u8> {
    seq![72u8, 84u8, 84u8, 80u8, 47u8, 49u8, 46u8, 49u8, 32u8]
}

pub fn http11_v() -> (r: Vec<u8>)
    ensures
        r@ == http11(),
{
    let mut v: Vec<u8> = Vec::new();
    v.push(72u8);
    v.push(84u8);
    v.push(84u8);
    v.push(80u8);
    v.push(47u8);
    v.push(49u8);
    v.push(46u8);
    v.push(49u8);
    v.push(32u8);
    proof {
        assert(v@ =~= http11());
    }
    v
}

/// `"200 OK"`: the 200 status text.
pub open spec fn st_ok() -> Seq<u8> {
    seq![50u8, 48u8, 48u8, 32u8, 79u8, 75u8]
}

pub fn st_ok_v() -> (r: Vec<u8>)
    ensures
        r@ == st_ok(),
{
    let mut v: Vec<u8> = Vec::new();
    v.push(50u8);
    v.push(48u8);
    v.push(48u8);
    v.push(32u8);
    v.push(79u8);
    v.push(75u8);
    proof {
        assert(v@ =~= st_ok());
    }
    v
}

/// `"201 Created"`: the 201 status text.
pub open spec fn st_created() -> Seq<u8> {
    seq![50u8, 48u8, 49u8, 32u8, 67u8, 114u8, 101u8, 97u8, 116u8, 101u8, 100u8]
}

pub fn st_created_v() -> (r: Vec<u8>)
    ensures
        r@ == st_created(),
{
    let mut v: Vec<u8> = Vec::new();
    v.push(50u8);
    v.push(48u8);
    v.push(49u8);
    v.push(32u8);
    v.push(67u8);
    v.push(114u8);
    v.push(101u8);
    v.push(97u8);
    v.push(116u8);
    v.push(101u8);
    v.push(100u8);
    proof {
        assert(v@ =~= st_created());
    }
    v
}

/// `"400 Bad Request"`: the 400 status text.
pub open spec fn st_bad_request() -> Seq<u8> {
    seq![52u8, 48u8, 48u8, 32u8, 66u8, 97u8, 100u8, 32u8, 82u8, 101u8, 113u8, 117u8, 101u8, 115u8, 116u8]
}

pub fn st_bad_request_v() -> (r: Vec<u8>)
    ensures
        r@ == st_bad_request(),
{
    let mut v: Vec<u8> = Vec::new();
    v.push(52u8);
    v.push(48u8);
    v.push(48u8);
    v.push(32u8);
    v.push(66u8);
    v.push(97u8);
    v.push(100u8);
    v.push(32u8);
    v.push(82u8);
    v.push(101u8);
    v.push(113u8);
    v.push(117u8);
    v.push(101u8);
    v.push(115u8);
    v.push(116u8);
    proof {
        assert(v@ =~= st_bad_request());
    }
    v
}

/// `"404 Not Found"`: the 404 status text.
pub open spec fn st_not_found() -> Seq<u8> {
    seq![52u8, 48u8, 52u8, 32u8, 78u8, 111u8, 116u8, 32u8, 70u8, 111u8, 117u8, 110u8, 100u8]
}

pub fn st_not_found_v() -> (r: Vec<u8>)
    ensures
        r@ == st_not_found(),
{
    let mut v: Vec<u8> = Vec::new();
    v.push(52u8);
    v.push(48u8);
    v.push(52u8);
    v.push(32u8);
    v.push(78u8);
    v.push(111u8);
    v.push(116u8);
    v.push(32u8);
    v.push(70u8);
    v.push(111u8);
    v.push(117u8);
    v.push(110u8);
    v.push(100u8);
    proof {
        assert(v@ =~= st_not_found());
    }
    v
}

/// `"500 Internal Server Error"`: the 500 status text.
pub open spec fn st_server_error() -> Seq<u8> {
    seq![53u8, 48u8, 48u8, 32u8, 73u8, 110u8, 116u8, 101u8, 114u8, 110u8, 97u8, 108u8, 32u8, 83u8, 101u8, 114u8, 118u8, 101u8, 114u8, 32u8, 69u8, 114u8, 114u8, 111u8, 114u8]
}

pub fn st_server_error_v() -> (r: Vec<u8>)
    ensures
        r@ == st_server_error(),
{
    let mut v: Vec<u8> = Vec::new();
    v.push(53u8);
    v.push(48u8);
    v.push(48u8);
    v.push(32u8);
    v.push(73u8);
    v.push(110u8);
    v.push(116u8);
    v.push(101u8);
    v.push(114u8);
    v.push(110u8);
    v.push(97u8);
    v.push(108u8);
    v.push(32u8);
    v.push(83u8);
    v.push(101u8);
    v.push(114u8);
    v.push(118u8);
    v.push(101u8);
    v.push(114u8);
    v.push(32u8);
    v.push(69u8);
    v.push(114u8);
    v.push(114u8);
    v.push(111u8);
    v.push(114u8);
    proof {
        assert(v@ =~= st_server_error());
    }
    v
}

/// `"Content-Encoding: gzip\r\n"`: the negotiated-encoding header line.
pub open spec fn h_content_encoding() -> Seq<u8> {
    seq![67u8, 111u8, 110u8, 116u8, 101u8, 110u8, 116u8, 45u8, 69u8, 110u8, 99u8, 111u8, 100u8, 105u8, 110u8, 103u8, 58u8, 32u8, 103u8, 122u8, 105u8, 112u8, 13u8, 10u8]
}

pub fn h_content_encoding_v() -> (r: Vec<u8>)
    ensures
        r@ == h_content_encoding(),
{
    let mut v: Vec<u8> = Vec::new();
    v.push(67u8);
    v.push(111u8);
    v.push(110u8);
    v.push(116u8);
    v.push(101u8);
    v.push(110u8);
    v.push(116u8);
    v.push(45u8);
    v.push(69u8);
    v.push(110u8);
    v.push(99u8);
    v.push(111u8);
    v.push(100u8);
    v.push(105u8);
    v.push(110u8);
    v.push(103u8);
    v.push(58u8);
    v.push(32u8);
    v.push(103u8);
    v.push(122u8);
    v.push(105u8);
    v.push(112u8);
    v.push(13u8);
    v.push(10u8);
    proof {
        assert(v@ =~= h_content_encoding());
    }
    v
}

/// `"Content-Type: text/plain\r\n"`: the text/plain header line.
pub open spec fn h_ct_text() -> Seq<u8> {
    seq![67u8, 111u8, 110u8, 116u8, 101u8, 110u8, 116u8, 45u8, 84u8, 121u8, 112u8, 101u8, 58u8, 32u8, 116u8, 101u8, 120u8, 116u8, 47u8, 112u8, 108u8, 97u8, 105u8, 110u8, 13u8, 10u8]
}

pub fn h_ct_text_v() -> (r: Vec<u8>)
    ensures
        r@ == h_ct_text(),
{
    let mut v: Vec<u8> = Vec::new();
    v.push(67u8);
    v.push(111u8);
    v.push(110u8);
    v.push(116u8);
    v.push(101u8);
    v.push(110u8);
    v.push(116u8);
    v.push(45u8);
    v.push(84u8);
    v.push(121u8);
    v.push(112u8);
    v.push(101u8);
    v.push(58u8);
    v.push(32u8);
    v.push(116u8);
    v.push(101u8);
    v.push(120u8);
    v.push(116u8);
    v.push(47u8);
    v.push(112u8);
    v.push(108u8);
    v.push(97u8);
    v.push(105u8);
    v.push(110u8);
    v.push(13u8);
    v.push(10u8);
    proof {
        assert(v@ =~= h_ct_text());
    }
    v
}

/// `"Content-Type: application/octet-stream\r\n"`: the octet-stream header line.
pub open spec fn h_ct_octet() -> Seq<u8> {
    seq![67u8, 111u8, 110u8, 116u8, 101u8, 110u8, 116u8, 45u8, 84u8, 121u8, 112u8, 101u8, 58u8, 32u8, 97u8, 112u8, 112u8, 108u8, 105u8, 99u8, 97u8, 116u8, 105u8, 111u8, 110u8, 47u8, 111u8, 99u8, 116u8, 101u8, 116u8, 45u8, 115u8, 116u8, 114u8, 101u8, 97u8, 109u8, 13u8, 10u8]
}

pub fn h_ct_octet_v() -> (r: Vec<u8>)
    ensures
        r@ == h_ct_octet(),
{
    let mut v: Vec<u8> = Vec::new();
    v.push(67u8);
    v.push(111u8);
    v.push(110u8);
    v.push(116u8);
    v.push(101u8);
    v.push(110u8);
    v.push(116u8);
    v.push(45u8);
    v.push(84u8);
    v.push(121u8);
    v.push(112u8);
    v.push(101u8);
    v.push(58u8);
    v.push(32u8);
    v.push(97u8);
    v.push(112u8);
    v.push(112u8);
    v.push(108u8);
    v.push(105u8);
    v.push(99u8);
    v.push(97u8);
    v.push(116u8);
    v.push(105u8);
    v.push(111u8);
    v.push(110u8);
    v.push(47u8);
    v.push(111u8);
    v.push(99u8);
    v.push(116u8);
    v.push(101u8);
    v.push(116u8);
    v.push(45u8);
    v.push(115u8);
    v.push(116u8);
    v.push(114u8);
    v.push(101u8);
    v.push(97u8);
    v.push(109u8);
    v.push(13u8);
    v.push(10u8);
    proof {
        assert(v@ =~= h_ct_octet());
    }
    v
}

/// `"Content-Length: "`: the Content-Length header name and separator.
pub open spec fn h_content_length() -> Seq<u8> {
    seq![67u8, 111u8, 110u8, 116u8, 101u8, 110u8, 116u8, 45u8, 76u8, 101u8, 110u8, 103u8, 116u8, 104u8, 58u8, 32u8]
}

pub fn h_content_length_v() -> (r: Vec<u8>)
    ensures
        r@ == h_content_length(),
{
    let mut v: Vec<u8> = Vec::new();
    v.push(67u8);
    v.push(111u8);
    v.push(110u8);
    v.push(116u8);
    v.push(101u8);
    v.push(110u8);
    v.push(116u8);
    v.push(45u8);
    v.push(76u8);
    v.push(101u8);
    v.push(110u8);
    v.push(103u8);
    v.push(116u8);
    v.push(104u8);
    v.push(58u8);
    v.push(32u8);
    proof {
        assert(v@ =~= h_content_length());
    }
    v
}

} // verus!
