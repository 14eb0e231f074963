//! The per-use-site phase: re-derive the identifier with the identical
//! derivation the preparation phase used, read the side-channel length
//! record, and resolve to a reference to the linked symbol — or, on
//! targets without native linking, compress the asset inline.  The two
//! strategies form a two-variant dispatch selected once per build by the
//! single target-architecture signal.

use vstd::prelude::*;
use vstd::string::StringExecFns;
use crate::codec::compress;
use crate::codec::zstd_decode;
use crate::codec::zstd_encode;
use crate::errors::Error;
use crate::ident::Mtime;
use crate::ident::derive_identifier;
use crate::ident::identifier_chars;
use crate::text::dec_val;
use crate::text::is_dec_seq;
use crate::text::parse_dec;
use crate::text::str_eq;

verus! {

/// The embedding strategy of a build: link against a prepared object
/// artifact, or inline the compressed bytes at the use-site.
#[derive(Debug, Clone, Copy, PartialEq, Eq, Structural)]
pub enum Strategy {
    Native,
    Inline,
}

/// The strategy selected by the target-architecture signal.
pub open spec fn strategy_of(target_arch: Seq<char>) -> Strategy {
    if target_arch == "wasm32"@ {
        Strategy::Inline
    } else {
        Strategy::Native
    }
}

/// Selects the strategy from the target-architecture signal published by
/// preparation.  Every code-generation invocation observes the same
/// signal, so every use-site lands on the same strategy.
pub fn strategy_for(target_arch: &str) -> (r: Strategy)
    ensures
        r == strategy_of(target_arch@),
{
    if str_eq(target_arch, "wasm32") {
        Strategy::Inline
    } else {
        Strategy::Native
    }
}

/// A resolved native use-site: the linked symbol's name and its size,
/// read from the length record.
#[derive(Debug, PartialEq, Eq)]
pub struct NativeRef {
    pub symbol: String,
    pub len: u64,
}

/// The file name the length record is expected under.
pub open spec fn len_record_name(path: Seq<char>, m: Mtime) -> Seq<char> {
    identifier_chars(path, m) + ".len"@
}

/// A well-resolved native reference for an asset and its length record.
pub open spec fn native_ok(path: Seq<char>, m: Mtime, rec: Seq<char>, nr: NativeRef) -> bool {
    &&& is_dec_seq(rec)
    &&& dec_val(rec) <= u64::MAX
    &&& nr.symbol@ == identifier_chars(path, m)
    &&& nr.len as int == dec_val(rec)
}

/// The error owed to a native use-site whose record is absent or corrupt.
pub open spec fn native_err(path: Seq<char>, m: Mtime, rec: Option<Seq<char>>, e: Error) -> bool {
    match e {
        Error::LenRecordMissing(record, p) => {
            &&& rec is None
            &&& record@ == len_record_name(path, m)
            &&& p@ == path
        },
        Error::LenRecordCorrupt(record) => {
            &&& rec matches Some(s) && !(is_dec_seq(s) && dec_val(s) <= u64::MAX)
            &&& record@ == len_record_name(path, m)
        },
        _ => false,
    }
}

/// Resolves one native use-site.  Succeeds exactly when a well-formed
/// length record was found, yielding the re-derived symbol name and the
/// recorded size; otherwise the error cites the expected record file and
/// suggests rerunning preparation.
pub fn resolve_native(rel_path: &str, mtime: &Mtime, len_record: Option<&str>) -> (r: Result<NativeRef, Error>)
    ensures
        match r {
            Ok(nr) => len_record matches Some(s) && native_ok(rel_path@, *mtime, s@, nr),
            Err(e) => native_err(
                rel_path@,
                *mtime,
                match len_record {
                    Some(s) => Some(s@),
                    None => None,
                },
                e,
            ),
        },
{
    let symbol: String = derive_identifier(rel_path, mtime);
    match len_record {
        None => {
            let mut record: String = symbol;
            record.append(".len");
            Err(Error::LenRecordMissing(record, String::from_str(rel_path)))
        },
        Some(s) => {
            match parse_dec(s) {
                Some(v) => Ok(NativeRef { symbol, len: v }),
                None => {
                    let mut record: String = symbol;
                    record.append(".len");
                    Err(Error::LenRecordCorrupt(record))
                },
            }
        },
    }
}

/// The fixed compression level of the embedding fallback path.
pub const FALLBACK_COMPRESSION_LEVEL: i32 = 3;

/// The embedding fallback: compresses the asset at generation time with
/// the fixed fallback level; the resulting bytes are placed literally at
/// the use-site and decompress back to the asset.
pub fn embed_inline(content: &Vec<u8>) -> (r: Result<Vec<u8>, Error>)
    ensures
        match r {
            Ok(b) => b@ == zstd_encode(content@, FALLBACK_COMPRESSION_LEVEL as int)
                && zstd_decode(b@) == Some(content@),
            Err(e) => e matches Error::Io(_),
        },
{
    compress(content.as_slice(), FALLBACK_COMPRESSION_LEVEL)
}

/// What one use-site hands to code generation, by strategy.
#[derive(Debug)]
pub enum UseSiteInput {
    Native { rel_path: String, mtime: Mtime, len_record: Option<String> },
    Inline { content: Vec<u8> },
}

/// What code generation emits at one use-site: a reference to the linked
/// symbol, or the compressed bytes to inline.
#[derive(Debug, PartialEq, Eq)]
pub enum Expansion {
    Native(NativeRef),
    Inline(Vec<u8>),
}

/// Resolves one use-site under the selected strategy: re-derives the
/// identifier and reads the length record on the native path, or
/// compresses the asset inline on the fallback path.
pub fn include_packed(input: &UseSiteInput) -> (r: Result<Expansion, Error>)
    ensures
        match input {
            UseSiteInput::Native { rel_path, mtime, len_record } => match r {
                Ok(Expansion::Native(nr)) => len_record matches Some(s)
                    && native_ok(rel_path@, *mtime, s@, nr),
                Ok(Expansion::Inline(_)) => false,
                Err(e) => native_err(
                    rel_path@,
                    *mtime,
                    match len_record {
                        Some(s) => Some(s@),
                        None => None,
                    },
                    e,
                ),
            },
            UseSiteInput::Inline { content } => match r {
                Ok(Expansion::Inline(b)) => b@ == zstd_encode(content@, FALLBACK_COMPRESSION_LEVEL as int)
                    && zstd_decode(b@) == Some(content@),
                Ok(Expansion::Native(_)) => false,
                Err(e) => e matches Error::Io(_),
            },
        },
{
    match input {
        UseSiteInput::Native { rel_path, mtime, len_record } => {
            let rec: Option<&str> = match len_record {
                Some(s) => Some(s.as_str()),
                None => None,
            };
            match resolve_native(rel_path.as_str(), mtime, rec) {
                Ok(nr) => Ok(Expansion::Native(nr)),
                Err(e) => Err(e),
            }
        },
        UseSiteInput::Inline { content } => {
            match embed_inline(content) {
                Ok(b) => Ok(Expansion::Inline(b)),
                Err(e) => Err(e),
            }
        },
    }
}

} // verus!
