//! Lookups over the lower-cased header block: the Accept-Encoding
//! negotiation against the single supported scheme ("gzip") and the
//! User-Agent value.
//!
//! The block is split into lines on `\r\n`; the first line carrying the
//! wanted prefix wins, later ones are ignored.

use vstd::prelude::*;

use crate::bytes::{
    find_line_with_prefix, first_with_prefix, split_on, split_vec, sub_vec, trim, trim_vec,
    vecs_equal,
};
use crate::literals::{
    ae_prefix, ae_prefix_v, comma, comma_v, crlf, crlf_v, gzip_token, gzip_token_v, ua_prefix,
    ua_prefix_v,
};

verus! {

/// Whether one of the comma-separated tokens, once trimmed, is exactly
/// `gzip`.
pub open spec fn has_gzip_token(toks: Seq<Seq<u8>>) -> bool {
    exists|k: int| 0 <= k < toks.len() && trim(#[trigger] toks[k]) == gzip_token()
}

/// Whether the first `accept-encoding` line offers the supported scheme:
/// its value is split on commas, each token trimmed, and the scan stops at
/// the first token equal to `gzip`.
pub open spec fn spec_gzip_accepted(h: Seq<u8>) -> bool {
    match first_with_prefix(split_on(h, crlf()), ae_prefix()) {
        None => false,
        Some(line) => has_gzip_token(split_on(line.skip(ae_prefix().len() as int), comma())),
    }
}

#[verifier::loop_isolation(false)]
pub fn gzip_accepted(headers: &Vec<u8>) -> (r: bool)
    ensures
        r == spec_gzip_accepted(headers@),
{
    let lines = split_vec(headers, &crlf_v());
    let prefix = ae_prefix_v();
    match find_line_with_prefix(&lines, &prefix) {
        None => false,
        Some(k) => {
            let line = &lines[k];
            let rest = sub_vec(line, prefix.len(), line.len());
            proof {
                assert(rest@ =~= lines@[k as int]@.skip(ae_prefix().len() as int));
            }
            let toks = split_vec(&rest, &comma_v());
            let gz = gzip_token_v();
            let ghost toks_spec = toks@.map_values(|x: Vec<u8>| x@);
            let mut j: usize = 0;
            while j < toks.len()
                invariant
                    0 <= j <= toks@.len(),
                    gz@ == gzip_token(),
                    toks_spec == toks@.map_values(|x: Vec<u8>| x@),
                    forall|t: int| 0 <= t < j ==> trim(#[trigger] toks_spec[t]) != gzip_token(),
                decreases toks@.len() - j,
            {
                let tr = trim_vec(&toks[j]);
                if vecs_equal(&tr, &gz) {
                    proof {
                        assert(trim(toks_spec[j as int]) == gzip_token());
                    }
                    return true;
                }
                j += 1;
            }
            false
        },
    }
}

/// The User-Agent value: the first `user-agent` line's remainder, trimmed.
pub open spec fn spec_user_agent(h: Seq<u8>) -> Option<Seq<u8>> {
    match first_with_prefix(split_on(h, crlf()), ua_prefix()) {
        None => None,
        Some(line) => Some(trim(line.skip(ua_prefix().len() as int))),
    }
}

pub fn user_agent(headers: &Vec<u8>) -> (r: Option<Vec<u8>>)
    ensures
        match r {
            Some(v) => spec_user_agent(headers@) == Some(v@),
            None => spec_user_agent(headers@) is None,
        },
{
    let lines = split_vec(headers, &crlf_v());
    let prefix = ua_prefix_v();
    match find_line_with_prefix(&lines, &prefix) {
        None => None,
        Some(k) => {
            let line = &lines[k];
            let rest = sub_vec(line, prefix.len(), line.len());
            proof {
                assert(rest@ =~= lines@[k as int]@.skip(ua_prefix().len() as int));
            }
            Some(trim_vec(&rest))
        },
    }
}

} // verus!
