//! The one outside computation the pipeline leans on: gzip compression of
//! an echo body.

use vstd::prelude::*;

verus! {

/// The gzip encoding of `b`, as flate2's encoder at the default level
/// produces it. The encoding is a function of the input bytes alone:
/// flate2 writes a fixed header (mtime 0, operating-system byte 255, by
/// its own comment "to have cross-platform reproducible streams") and the
/// DEFLATE stream, checksum and length that follow are computed from the
/// input deterministically.
pub uninterp spec fn gzip_of(b: Seq<u8>) -> Seq<u8>;

/// Relies on flate2::write::GzEncoder with Compression::default():
/// writing all of `data` and finishing yields the gzip encoding of
/// `data`, named `gzip_of`. The call cannot fail on any input: the sink
/// is a `Vec`, whose writes never error, and the deflate backend
/// (miniz_oxide) reports an error only for a bad parameter — the level
/// here is fixed and valid — or a put-buffer failure its source rules
/// out without a custom callback.
#[verifier::external_body]
pub(crate) fn gzip_compress(data: &Vec<u8>) -> (r: Vec<u8>)
    ensures
        r@ == gzip_of(data@),
{
    let mut encoder = flate2::write::GzEncoder::new(Vec::new(), flate2::Compression::default());
    std::io::Write::write_all(&mut encoder, data.as_slice())
        .expect("writing into a Vec cannot fail");
    encoder.finish().expect("finishing into a Vec cannot fail")
}

} // verus!
