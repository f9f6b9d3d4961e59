use vstd::prelude::*;
use crate::error::HwpError;
use std::io::{Read, Write};

verus! {

/// What reading a raw DEFLATE stream to its end with
/// `flate2::read::DeflateDecoder` yields for the given bytes: `None` where the
/// read fails.
pub uninterp spec fn deflate_decoding(data: Seq<u8>) -> Option<Seq<u8>>;

/// What reading a zlib stream to its end with `flate2::read::ZlibDecoder`
/// yields for the given bytes: `None` where the read fails.
pub uninterp spec fn zlib_decoding(data: Seq<u8>) -> Option<Seq<u8>>;

/// Inflates raw DEFLATE data with `flate2::read::DeflateDecoder` and
/// `read_to_end`; the outcome, failure included, is named by `deflate_decoding`.
#[verifier::external_body]
fn inflate_raw(data: &[u8]) -> (r: Option<Vec<u8>>)
    ensures
        r is Some <==> deflate_decoding(data@) is Some,
        r matches Some(v) ==> deflate_decoding(data@) == Some(v@),
{
    let mut decoder = flate2::read::DeflateDecoder::new(data);
    let mut out = Vec::new();
    match decoder.read_to_end(&mut out) {
        Ok(_) => Some(out),
        Err(_) => None,
    }
}

/// Inflates zlib data with `flate2::read::ZlibDecoder` and `read_to_end`; the
/// outcome, failure included, is named by `zlib_decoding`.
#[verifier::external_body]
fn inflate_zlib(data: &[u8]) -> (r: Option<Vec<u8>>)
    ensures
        r is Some <==> zlib_decoding(data@) is Some,
        r matches Some(v) ==> zlib_decoding(data@) == Some(v@),
{
    let mut decoder = flate2::read::ZlibDecoder::new(data);
    let mut out = Vec::new();
    match decoder.read_to_end(&mut out) {
        Ok(_) => Some(out),
        Err(_) => None,
    }
}

/// The bytes of a stream after decompression: empty input stays empty, then
/// raw DEFLATE is tried, then zlib, and input that neither inflates is kept.
pub open spec fn decompressed(data: Seq<u8>) -> Seq<u8> {
    if data.len() == 0 {
        seq![]
    } else {
        match deflate_decoding(data) {
            Some(out) => out,
            None => match zlib_decoding(data) {
                Some(out) => out,
                None => data,
            },
        }
    }
}

/// Decompresses an HWP stream (raw DEFLATE, or zlib, or stored as is).
pub fn decompress_stream(data: &[u8]) -> (res: Result<Vec<u8>, HwpError>)
    ensures
        res matches Ok(v) && v@ == decompressed(data@),
{
    if data.len() == 0 {
        return Ok(Vec::new());
    }
    match inflate_raw(data) {
        Some(out) => Ok(out),
        None => match inflate_zlib(data) {
            Some(out) => Ok(out),
            None => {
                let mut copy: Vec<u8> = Vec::new();
                crate::utils::bytes::put_bytes(&mut copy, data);
                Ok(copy)
            },
        },
    }
}

/// What compressing bytes as raw DEFLATE with `flate2::write::DeflateEncoder`
/// at the default level yields.
pub uninterp spec fn deflate_encoding(data: Seq<u8>) -> Seq<u8>;

/// Compresses bytes as raw DEFLATE with `flate2::write::DeflateEncoder` at
/// the default level, writing into a vector and finishing the stream. The
/// output is named by `deflate_encoding`; DEFLATE is lossless, so inflating
/// the output with `flate2::read::DeflateDecoder` gives the input back, and
/// the finished stream holds at least the final block's header, so it is
/// never empty. Writing into a vector does not fail, nor does the encoder
/// when it compresses, so the result is always `Ok`.
#[verifier::external_body]
pub(crate) fn deflate(data: &[u8]) -> (r: Result<Vec<u8>, std::io::Error>)
    ensures
        r is Ok,
        r matches Ok(v) ==> v@ == deflate_encoding(data@),
        r matches Ok(v) ==> deflate_decoding(v@) == Some(data@),
        r matches Ok(v) ==> v@.len() > 0,
{
    let mut encoder = flate2::write::DeflateEncoder::new(Vec::new(), flate2::Compression::default());
    encoder.write_all(data)?;
    encoder.finish()
}

/// Compressed data reads back as the data it was made from.
pub proof fn law_compression_roundtrip(data: Seq<u8>, compressed: Seq<u8>)
    requires
        deflate_decoding(compressed) == Some(data),
        compressed.len() > 0,
    ensures
        decompressed(compressed) == data,
{
}

} // verus!
