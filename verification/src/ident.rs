//! The identifier deriver: a pure, reproducible token derived from an
//! asset's relative path and modification time.  It is the sole
//! coordination key between the one-time preparation phase and every
//! independent use-site, so both sides call this one implementation.
//!
//! The token is a constant prefix followed by a fixed-width hexadecimal
//! digest of a 64-bit FNV-1a hash over the path's characters and the
//! modification time.

use vstd::prelude::*;
use vstd::string::StrSliceExecFns;
use vstd::string::StringExecFns;
use crate::text::hex16;
use crate::text::push_hex16;

verus! {

/// A file's last-modification time, as seconds and nanoseconds.
#[derive(Debug, Clone, Copy, PartialEq, Eq, Structural)]
pub struct Mtime {
    pub secs: u64,
    pub nanos: u32,
}

pub const FNV_OFFSET_BASIS: u64 = 0xcbf2_9ce4_8422_2325;

pub const FNV_PRIME: u64 = 0x0000_0100_0000_01b3;

/// One FNV-1a step: fold one byte into the running hash.
pub open spec fn fnv_step(h: u64, b: u8) -> u64 {
    (h ^ (b as u64)).wrapping_mul(FNV_PRIME)
}

/// The FNV-1a hash of a byte sequence, folded left to right onto `h`.
pub open spec fn fnv_seq(h: u64, s: Seq<u8>) -> u64
    decreases s.len(),
{
    if s.len() == 0 {
        h
    } else {
        fnv_seq(fnv_step(h, s[0]), s.drop_first())
    }
}

/// The four little-endian bytes of `v`.
pub open spec fn le4(v: u32) -> Seq<u8> {
    Seq::new(4, |i: int| ((v >> ((8 * i) as u32)) & 0xff) as u8)
}

/// The eight little-endian bytes of `v`.
pub open spec fn le8(v: u64) -> Seq<u8> {
    Seq::new(8, |i: int| ((v >> ((8 * i) as u64)) & 0xff) as u8)
}

/// Each character of the path, widened to four little-endian bytes.
pub open spec fn char_bytes(s: Seq<char>) -> Seq<u8>
    decreases s.len(),
{
    if s.len() == 0 {
        Seq::empty()
    } else {
        le4(s[0] as u32) + char_bytes(s.drop_first())
    }
}

/// The hash input is the path's characters followed by the modification
/// time, so distinct paths or times feed distinct inputs to the hash.
pub open spec fn ident_hash(path: Seq<char>, m: Mtime) -> u64 {
    fnv_seq(FNV_OFFSET_BASIS, char_bytes(path) + le8(m.secs) + le4(m.nanos))
}

/// The identifier token: constant prefix plus fixed-width digest.
pub open spec fn identifier_chars(path: Seq<char>, m: Mtime) -> Seq<char> {
    "include_packed_"@ + hex16(ident_hash(path, m))
}

proof fn lemma_char_bytes_push(s: Seq<char>, c: char)
    ensures
        char_bytes(s.push(c)) == char_bytes(s) + le4(c as u32),
    decreases s.len(),
{
    assert(s.push(c).len() == s.len() + 1);
    assert(char_bytes(s.push(c)) == le4(s.push(c)[0] as u32) + char_bytes(s.push(c).drop_first()));
    if s.len() == 0 {
        assert(s.push(c)[0] == c);
        assert(s.push(c).drop_first() =~= Seq::<char>::empty());
        assert(char_bytes(Seq::<char>::empty()) =~= Seq::<u8>::empty());
        assert(char_bytes(s.push(c)) =~= char_bytes(s) + le4(c as u32));
    } else {
        lemma_char_bytes_push(s.drop_first(), c);
        assert(s.push(c)[0] == s[0]);
        assert(s.push(c).drop_first() =~= s.drop_first().push(c));
        assert(char_bytes(s.push(c)) =~= char_bytes(s) + le4(c as u32));
    }
}

/// Appends the four little-endian bytes of `v`.
fn append_le4(out: &mut Vec<u8>, v: u32)
    ensures
        final(out)@ == old(out)@ + le4(v),
{
    let mut i: usize = 0;
    while i < 4
        invariant
            0 <= i <= 4,
            out@ == old(out)@ + le4(v).take(i as int),
        decreases 4 - i,
    {
        let sh: u32 = 8 * (i as u32);
        let b: u32 = (v >> sh) & 0xff;
        proof {
            assert((v >> sh) & 0xff < 256) by (bit_vector);
        }
        out.push(b as u8);
        proof {
            assert(le4(v).take(i + 1) =~= le4(v).take(i as int).push(le4(v)[i as int]));
            assert(le4(v)[i as int] == b as u8);
            assert(out@ =~= old(out)@ + le4(v).take(i + 1));
        }
        i = i + 1;
    }
    proof {
        assert(le4(v).take(4) =~= le4(v));
    }
}

/// Appends the eight little-endian bytes of `v`.
fn append_le8(out: &mut Vec<u8>, v: u64)
    ensures
        final(out)@ == old(out)@ + le8(v),
{
    let mut i: usize = 0;
    while i < 8
        invariant
            0 <= i <= 8,
            out@ == old(out)@ + le8(v).take(i as int),
        decreases 8 - i,
    {
        let sh: u64 = 8 * (i as u64);
        let b: u64 = (v >> sh) & 0xff;
        proof {
            assert((v >> sh) & 0xff < 256) by (bit_vector);
        }
        out.push(b as u8);
        proof {
            assert(le8(v).take(i + 1) =~= le8(v).take(i as int).push(le8(v)[i as int]));
            assert(le8(v)[i as int] == b as u8);
            assert(out@ =~= old(out)@ + le8(v).take(i + 1));
        }
        i = i + 1;
    }
    proof {
        assert(le8(v).take(8) =~= le8(v));
    }
}

/// Folds every byte of `bytes` into the hash, left to right.
fn fnv_hash_bytes(h0: u64, bytes: &Vec<u8>) -> (r: u64)
    ensures
        r == fnv_seq(h0, bytes@),
{
    let n: usize = bytes.len();
    let mut h: u64 = h0;
    let mut i: usize = 0;
    proof {
        assert(bytes@.skip(0) =~= bytes@);
    }
    while i < n
        invariant
            n == bytes@.len(),
            0 <= i <= n,
            fnv_seq(h, bytes@.skip(i as int)) == fnv_seq(h0, bytes@),
        decreases n - i,
    {
        let b: u8 = bytes[i];
        proof {
            assert(bytes@.skip(i as int)[0] == bytes@[i as int]);
            assert(bytes@.skip(i as int).drop_first() =~= bytes@.skip(i + 1));
        }
        h = (h ^ (b as u64)).wrapping_mul(FNV_PRIME);
        i = i + 1;
    }
    proof {
        assert(bytes@.skip(n as int) =~= Seq::<u8>::empty());
    }
    h
}

/// Derives the identifier token for an asset.  Deterministic: the result
/// is a function of the relative path and modification time alone, so the
/// preparation phase and every use-site derive the same token.
pub fn derive_identifier(rel_path: &str, mtime: &Mtime) -> (r: String)
    ensures
        r@ == identifier_chars(rel_path@, *mtime),
{
    let n: usize = rel_path.unicode_len();
    let mut buf: Vec<u8> = Vec::new();
    let mut i: usize = 0;
    while i < n
        invariant
            n == rel_path@.len(),
            0 <= i <= n,
            buf@ == char_bytes(rel_path@.take(i as int)),
        decreases n - i,
    {
        let c: char = rel_path.get_char(i);
        append_le4(&mut buf, c as u32);
        proof {
            assert(rel_path@.take(i + 1) =~= rel_path@.take(i as int).push(rel_path@[i as int]));
            lemma_char_bytes_push(rel_path@.take(i as int), rel_path@[i as int]);
        }
        i = i + 1;
    }
    proof {
        assert(rel_path@.take(n as int) =~= rel_path@);
    }
    append_le8(&mut buf, mtime.secs);
    append_le4(&mut buf, mtime.nanos);
    proof {
        assert(buf@ =~= char_bytes(rel_path@) + le8(mtime.secs) + le4(mtime.nanos));
    }
    let h: u64 = fnv_hash_bytes(FNV_OFFSET_BASIS, &buf);
    let mut s: String = String::from_str("include_packed_");
    push_hex16(&mut s, h);
    proof {
        assert(s@ =~= identifier_chars(rel_path@, *mtime));
    }
    s
}

/// The coordination law: the identifier is a pure function of path and
/// modification time, so independent invocations on an identical asset
/// always meet at the same token.
pub proof fn lemma_identifier_deterministic(path: Seq<char>, a: Mtime, b: Mtime)
    requires
        a == b,
    ensures
        identifier_chars(path, a) == identifier_chars(path, b),
{
}

/// The fixed format of the token: the constant prefix followed by a
/// 16-digit digest, whatever the asset.
pub proof fn lemma_identifier_format(path: Seq<char>, m: Mtime)
    ensures
        identifier_chars(path, m).len() == "include_packed_"@.len() + 16,
        identifier_chars(path, m).take("include_packed_"@.len() as int) == "include_packed_"@,
{
    assert(identifier_chars(path, m).take("include_packed_"@.len() as int) =~= "include_packed_"@);
}

} // verus!
