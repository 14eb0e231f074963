//! The compression codec boundary.  Compression and decompression are
//! delegated to the zstd crate; the library names their results and
//! states the round-trip that ties the two together: decompressing what
//! was compressed gives the original bytes back.

use vstd::prelude::*;
use vstd::pervasive::unreached;
use crate::errors::Error;

verus! {

/// The zstd frame produced for `data` at `level`: a pure function of the
/// two arguments, not further specified.
pub uninterp spec fn zstd_encode(data: Seq<u8>, level: int) -> Seq<u8>;

/// The decompression of `data`: the original bytes for a well-formed
/// frame, `None` for anything else.  A pure function of `data`.
pub uninterp spec fn zstd_decode(data: Seq<u8>) -> Option<Seq<u8>>;

/// Relies on zstd::encode_all: for one input and level it always produces
/// the same frame, and zstd is lossless, so zstd::decode_all inverts it.
#[verifier::external_body]
fn zstd_compress(data: &[u8], level: i32) -> (r: Result<Vec<u8>, Error>)
    requires
        1 <= level <= 21,
    ensures
        match r {
            Ok(c) => c@ == zstd_encode(data@, level as int) && zstd_decode(c@) == Some(data@),
            Err(e) => e matches Error::Io(_),
        },
{
    match zstd::encode_all(data, level) {
        Ok(v) => Ok(v),
        Err(e) => Err(Error::Io(e.to_string())),
    }
}

/// Relies on zstd::decode_all: deterministic, returns the decompressed
/// bytes of a well-formed frame and an error for anything else.
#[verifier::external_body]
fn zstd_decompress(data: &[u8]) -> (r: Option<Vec<u8>>)
    ensures
        match r {
            Some(v) => zstd_decode(data@) == Some(v@),
            None => zstd_decode(data@) is None,
        },
{
    zstd::decode_all(data).ok()
}

/// Compresses `data` at the given level.  On success the result is the
/// frame for exactly these inputs, and decompressing it gives `data`
/// back — the round-trip that both embedding paths depend on.
pub fn compress(data: &[u8], level: i32) -> (r: Result<Vec<u8>, Error>)
    requires
        1 <= level <= 21,
    ensures
        match r {
            Ok(c) => c@ == zstd_encode(data@, level as int) && zstd_decode(c@) == Some(data@),
            Err(e) => e matches Error::Io(_),
        },
{
    zstd_compress(data, level)
}

/// Decompresses a buffer known to hold a well-formed frame, as every
/// buffer this library itself produced is.
pub fn decompress(data: &[u8]) -> (r: Vec<u8>)
    requires
        zstd_decode(data@) is Some,
    ensures
        Some(r@) == zstd_decode(data@),
{
    match zstd_decompress(data) {
        Some(v) => v,
        None => unreached(),
    }
}

/// Decompresses an arbitrary buffer, reporting whether it was a
/// well-formed frame.  The probe call settles whether `data` decodes;
/// only then is the decompressor proper entitled to run.
pub fn try_decompress(data: &[u8]) -> (r: Option<Vec<u8>>)
    ensures
        match r {
            Some(v) => zstd_decode(data@) == Some(v@),
            None => zstd_decode(data@) is None,
        },
{
    match zstd_decompress(data) {
        Some(_probe) => Some(decompress(data)),
        None => None,
    }
}

} // verus!
