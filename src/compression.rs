//! zlib compression of container payloads, at the default level.

use std::io::Read;
use std::io::Write;
use vstd::prelude::*;

use crate::error::CodecError;

verus! {

/// What zlib inflation makes of a byte sequence, `None` where it is no valid
/// stream.
pub uninterp spec fn zlib_inflated(b: Seq<u8>) -> Option<Seq<u8>>;

/// The zlib stream that deflation at the default level makes of some bytes.
pub uninterp spec fn zlib_deflated(b: Seq<u8>) -> Seq<u8>;

/// The error type of reads from flate2's decoder, carried through opaquely.
#[verifier::external_type_specification]
#[verifier::external_body]
pub struct ExIoError(std::io::Error);

/// Relies on flate2's `ZlibEncoder` at `Compression::default()`: writing into
/// a `Vec` cannot fail, and zlib is lossless, so the stream inflates back to
/// the input.
#[verifier::external_body]
fn zlib_deflate(data: &[u8]) -> (r: Vec<u8>)
    ensures
        r@ == zlib_deflated(data@),
        zlib_inflated(r@) == Some(data@),
{
    let mut encoder = flate2::write::ZlibEncoder::new(Vec::new(), flate2::Compression::default());
    encoder.write_all(data).expect("writing into a Vec does not fail");
    encoder.finish().expect("writing into a Vec does not fail")
}

/// Relies on flate2's `ZlibDecoder` read to the end: it fails exactly when
/// the input is no valid zlib stream.
#[verifier::external_body]
fn zlib_inflate(data: &[u8]) -> (r: Result<Vec<u8>, std::io::Error>)
    ensures
        r is Ok <==> zlib_inflated(data@) is Some,
        r is Ok ==> zlib_inflated(data@) == Some(r->Ok_0@),
{
    let mut out = Vec::new();
    match flate2::read::ZlibDecoder::new(data).read_to_end(&mut out) {
        Ok(_) => Ok(out),
        Err(e) => Err(e),
    }
}

/// Compresses bytes into a zlib stream; never fails.
pub fn compress(data: &[u8]) -> (r: Vec<u8>)
    ensures
        r@ == zlib_deflated(data@),
        zlib_inflated(r@) == Some(data@),
{
    zlib_deflate(data)
}

/// Decompresses a zlib stream; fails with `CorruptStream` where the input is
/// no valid stream.
pub fn decompress(data: &[u8]) -> (r: Result<Vec<u8>, CodecError>)
    ensures
        match zlib_inflated(data@) {
            Some(b) => r is Ok && r->Ok_0@ == b,
            None => r is Err && r->Err_0 == CodecError::CorruptStream,
        },
{
    match zlib_inflate(data) {
        Ok(b) => Ok(b),
        Err(_) => Err(CodecError::CorruptStream),
    }
}

} // verus!
