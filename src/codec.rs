//! Decompression of one operation's data segment.

use vstd::prelude::*;
use crate::error::{Codec, PayloadError};
use crate::manifest::{REPLACE_BZ, REPLACE_XZ};

verus! {

/// What an XZ stream decodes to, or `None` where it is not a valid stream.
pub uninterp spec fn xz_decoded(data: Seq<u8>) -> Option<Seq<u8>>;

/// What a bzip2 stream decodes to, or `None` where it is not a valid stream.
pub uninterp spec fn bz2_decoded(data: Seq<u8>) -> Option<Seq<u8>>;

/// Relies on xz2::read::XzDecoder, read to its end: it decodes one XZ stream,
/// or fails on a truncated, malformed or corrupt one.  The text is the error's.
#[verifier::external_body]
fn xz_read_all(data: &[u8]) -> (r: Result<Vec<u8>, String>)
    ensures
        r is Ok <==> xz_decoded(data@) is Some,
        r matches Ok(v) ==> xz_decoded(data@) == Some(v@),
{
    let mut out = Vec::new();
    match std::io::Read::read_to_end(&mut xz2::read::XzDecoder::new(data), &mut out) {
        Ok(_) => Ok(out),
        Err(e) => Err(e.to_string()),
    }
}

/// Relies on bzip2::read::BzDecoder, read to its end: it decodes a bzip2
/// stream, or fails on a truncated, malformed or corrupt one.  The text is the
/// error's.
#[verifier::external_body]
fn bz2_read_all(data: &[u8]) -> (r: Result<Vec<u8>, String>)
    ensures
        r is Ok <==> bz2_decoded(data@) is Some,
        r matches Ok(v) ==> bz2_decoded(data@) == Some(v@),
{
    let mut out = Vec::new();
    match std::io::Read::read_to_end(&mut bzip2::read::BzDecoder::new(data), &mut out) {
        Ok(_) => Ok(out),
        Err(e) => Err(e.to_string()),
    }
}

/// Decompresses an XZ data segment.
pub fn decompress_xz(data: &[u8]) -> (r: Result<Vec<u8>, PayloadError>)
    ensures
        match xz_decoded(data@) {
            Some(v) => r matches Ok(o) && o@ == v,
            None => r matches Err(PayloadError::CodecFailure(Codec::Xz, _)),
        },
{
    match xz_read_all(data) {
        Ok(v) => Ok(v),
        Err(detail) => Err(PayloadError::CodecFailure(Codec::Xz, detail)),
    }
}

/// Decompresses a bzip2 data segment.
pub fn decompress_bz2(data: &[u8]) -> (r: Result<Vec<u8>, PayloadError>)
    ensures
        match bz2_decoded(data@) {
            Some(v) => r matches Ok(o) && o@ == v,
            None => r matches Err(PayloadError::CodecFailure(Codec::Bzip2, _)),
        },
{
    match bz2_read_all(data) {
        Ok(v) => Ok(v),
        Err(detail) => Err(PayloadError::CodecFailure(Codec::Bzip2, detail)),
    }
}

/// The bytes that an operation of type `op_type` with data segment `data`
/// contributes to the image: REPLACE_XZ and REPLACE_BZ segments decoded,
/// every other segment as it is (REPLACE, and types this reader does not
/// support, whose image is then not guaranteed).
pub fn decode_segment(op_type: u32, data: Vec<u8>) -> (r: Result<Vec<u8>, PayloadError>)
    ensures
        op_type == REPLACE_XZ ==> match xz_decoded(data@) {
            Some(v) => r matches Ok(o) && o@ == v,
            None => r matches Err(PayloadError::CodecFailure(Codec::Xz, _)),
        },
        op_type == REPLACE_BZ ==> match bz2_decoded(data@) {
            Some(v) => r matches Ok(o) && o@ == v,
            None => r matches Err(PayloadError::CodecFailure(Codec::Bzip2, _)),
        },
        op_type != REPLACE_XZ && op_type != REPLACE_BZ ==> (r matches Ok(o) && o@ == data@),
{
    if op_type == REPLACE_XZ {
        decompress_xz(data.as_slice())
    } else if op_type == REPLACE_BZ {
        decompress_bz2(data.as_slice())
    } else {
        Ok(data)
    }
}

} // verus!
