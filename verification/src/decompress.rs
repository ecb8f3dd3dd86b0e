//! Decoding of compressed staged data. The Brotli decoder is the `brotli` crate's.

use crate::error::{invalid_stream, ExtractError};
use vstd::prelude::*;

verus! {

/// What the Brotli decoder makes of `stream`: the decoded bytes, or `None` where
/// it rejects the stream.
pub uninterp spec fn brotli_decoded(stream: Seq<u8>) -> Option<Seq<u8>>;

/// Runs `brotli::Decompressor`, with its buffer of 4096 bytes, over `stream` and
/// reads it to its end. The decoder works on the bytes handed in and on nothing
/// else, so what it makes of them is `brotli_decoded`; the contract says no more
/// of that than its name.
#[verifier::external_body]
fn brotli_decode(stream: &[u8]) -> (decoded: Option<Vec<u8>>)
    ensures
        decoded matches Some(bytes) ==> brotli_decoded(stream@) == Some(bytes@),
        decoded is None ==> brotli_decoded(stream@) is None,
{
    let mut bytes: Vec<u8> = Vec::new();
    match std::io::Read::read_to_end(&mut brotli::Decompressor::new(stream, 4096), &mut bytes) {
        Ok(_) => Some(bytes),
        Err(_) => None,
    }
}

/// Turns what a decoder gave into the result of decompression: the bytes, or
/// the failure of an invalid stream where it gave none.
pub fn decoded_or_invalid(decoded: Option<Vec<u8>>) -> (result: Result<Vec<u8>, ExtractError>)
    ensures
        decoded matches Some(bytes) ==> result == Ok::<Vec<u8>, ExtractError>(bytes),
        decoded is None ==> result is Err && result->Err_0@ == invalid_stream(),
{
    match decoded {
        Some(bytes) => Ok(bytes),
        None => Err(ExtractError::invalid_stream()),
    }
}

/// Decompresses a Brotli stream held in memory.
pub fn decompress_brotli(stream: &[u8]) -> (result: Result<Vec<u8>, ExtractError>)
    ensures
        brotli_decoded(stream@) matches Some(bytes) ==> result is Ok && result->Ok_0@ == bytes,
        brotli_decoded(stream@) is None ==> result is Err && result->Err_0@ == invalid_stream(),
{
    decoded_or_invalid(brotli_decode(stream))
}

} // verus!
