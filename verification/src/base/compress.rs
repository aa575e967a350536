use std::io::Read;
use std::io::Write;

use vstd::prelude::*;

use crate::error::Error;

verus! {

/// What an LZ4 frame inflates to: `Some` of the original bytes for a
/// well-formed frame, `None` for input the decoder rejects.
pub uninterp spec fn lz4_inflate(s: Seq<u8>) -> Option<Seq<u8>>;

/// Compress a buffer into one LZ4 frame.
///
/// Relies on `lz4::EncoderBuilder` and `lz4::Encoder`: the frame it writes
/// decompresses back to exactly the bytes that were written into it.
#[verifier::external_body]
pub fn compress_buffer(data: &Vec<u8>) -> (r: Result<Vec<u8>, Error>)
    ensures
        r matches Ok(c) ==> lz4_inflate(c@) == Some(data@),
{
    let mut buf: Vec<u8> = Vec::new();
    let mut encoder = lz4::EncoderBuilder::new().build(&mut buf).map_err(|e| {
        Error::StorageOther(format!("lz4 encode error: {}", e))
    })?;
    encoder.write_all(data.as_slice()).map_err(|e| {
        Error::StorageOther(format!("lz4 encode error: {}", e))
    })?;
    let (_, result) = encoder.finish();
    result.map_err(|e| Error::StorageOther(format!("lz4 encode error: {}", e)))?;
    Ok(buf)
}

/// Decompress one LZ4 frame.
///
/// Relies on `lz4::Decoder`: what a frame inflates to is a function of its
/// bytes alone, so decoding succeeds and yields the same bytes wherever the
/// same frame is read.
#[verifier::external_body]
pub fn decompressed_data(compressed_data: Vec<u8>) -> (r: Result<Vec<u8>, Error>)
    ensures
        (r is Ok) == (lz4_inflate(compressed_data@) is Some),
        r matches Ok(d) ==> lz4_inflate(compressed_data@) == Some(d@),
        r matches Err(e) ==> e is StorageOther,
{
    let mut decoder = lz4::Decoder::new(compressed_data.as_slice()).map_err(|e| {
        Error::StorageOther(format!("lz4 decode error: {}", e))
    })?;
    let mut out = Vec::new();
    decoder.read_to_end(&mut out).map_err(|e| {
        Error::StorageOther(format!("lz4 decode error: {}", e))
    })?;
    Ok(out)
}

} // verus!
