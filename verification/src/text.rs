//! Text groundwork shared by both phases of the embedding protocol: string
//! equality, decimal rendering and parsing for the side-channel length
//! record, and fixed-width hexadecimal rendering for identifier digests.

use vstd::prelude::*;
use vstd::string::StrSliceExecFns;
use vstd::string::StringExecFns;

verus! {

/// Compares two string slices character by character.
pub fn str_eq(a: &str, b: &str) -> (r: bool)
    ensures
        r == (a@ == b@),
{
    let na: usize = a.unicode_len();
    let nb: usize = b.unicode_len();
    if na != nb {
        return false;
    }
    let mut i: usize = 0;
    while i < na
        invariant
            na == a@.len(),
            na == b@.len(),
            0 <= i <= na,
            forall|j: int| 0 <= j < i ==> a@[j] == b@[j],
        decreases na - i,
    {
        let ca: char = a.get_char(i);
        let cb: char = b.get_char(i);
        if ca != cb {
            return false;
        }
        i = i + 1;
    }
    proof {
        assert(a@ =~= b@);
    }
    true
}

/// The character for one decimal or hexadecimal digit value.
pub open spec fn digit_char(d: nat) -> char {
    if d < 10 {
        ((48 + d) as char)
    } else {
        ((87 + d) as char)
    }
}

/// The decimal rendering of a natural number, most significant digit first.
pub open spec fn dec_chars(n: nat) -> Seq<char>
    decreases n,
{
    if n < 10 {
        seq![digit_char(n)]
    } else {
        dec_chars(n / 10) + seq![digit_char(n % 10)]
    }
}

/// All characters of the sequence are decimal digits.
pub open spec fn all_digits(s: Seq<char>) -> bool {
    forall|j: int| 0 <= j < s.len() ==> 48 <= #[trigger] (s[j] as u32) <= 57
}

/// A well-formed length record: non-empty and entirely decimal digits.
pub open spec fn is_dec_seq(s: Seq<char>) -> bool {
    s.len() > 0 && all_digits(s)
}

/// The numeric value of a digit sequence, read most significant digit first.
pub open spec fn dec_val(s: Seq<char>) -> int
    decreases s.len(),
{
    if s.len() == 0 {
        0
    } else {
        dec_val(s.drop_last()) * 10 + (s.last() as u32 - 48)
    }
}

fn digit_str(d: u8) -> (r: &'static str)
    requires
        d < 16,
    ensures
        r@ =~= seq![digit_char(d as nat)],
{
    if d == 0 {
        proof { reveal_strlit("0"); }
        "0"
    } else if d == 1 {
        proof { reveal_strlit("1"); }
        "1"
    } else if d == 2 {
        proof { reveal_strlit("2"); }
        "2"
    } else if d == 3 {
        proof { reveal_strlit("3"); }
        "3"
    } else if d == 4 {
        proof { reveal_strlit("4"); }
        "4"
    } else if d == 5 {
        proof { reveal_strlit("5"); }
        "5"
    } else if d == 6 {
        proof { reveal_strlit("6"); }
        "6"
    } else if d == 7 {
        proof { reveal_strlit("7"); }
        "7"
    } else if d == 8 {
        proof { reveal_strlit("8"); }
        "8"
    } else if d == 9 {
        proof { reveal_strlit("9"); }
        "9"
    } else if d == 10 {
        proof { reveal_strlit("a"); }
        "a"
    } else if d == 11 {
        proof { reveal_strlit("b"); }
        "b"
    } else if d == 12 {
        proof { reveal_strlit("c"); }
        "c"
    } else if d == 13 {
        proof { reveal_strlit("d"); }
        "d"
    } else if d == 14 {
        proof { reveal_strlit("e"); }
        "e"
    } else {
        proof { reveal_strlit("f"); }
        "f"
    }
}

/// Appends the decimal rendering of `n` to `s`.
pub fn push_dec(s: &mut String, n: u64)
    ensures
        final(s)@ == old(s)@ + dec_chars(n as nat),
    decreases n,
{
    if n >= 10 {
        proof {
            assert(10 * (n / 10) + n % 10 == n);
        }
        push_dec(s, n / 10);
    }
    let r: &'static str = digit_str((n % 10) as u8);
    s.append(r);
    proof {
        assert(s@ =~= old(s)@ + dec_chars(n as nat));
    }
}

/// Renders `n` in decimal, as the side-channel length record stores it.
pub fn u64_to_dec(n: u64) -> (r: String)
    ensures
        r@ == dec_chars(n as nat),
{
    let mut s: String = String::new();
    push_dec(&mut s, n);
    proof {
        assert(s@ =~= dec_chars(n as nat));
    }
    s
}

/// The value of a digit sequence is non-negative, and no prefix exceeds it.
pub proof fn lemma_dec_val_bounds(s: Seq<char>, i: int)
    requires
        all_digits(s),
        0 <= i <= s.len(),
    ensures
        0 <= dec_val(s.take(i)) <= dec_val(s),
    decreases 2 * s.len() - i,
{
    if i == s.len() {
        assert(s.take(i) =~= s);
        if s.len() > 0 {
            assert(all_digits(s.drop_last())) by {
                assert(forall|j: int| 0 <= j < s.len() - 1 ==> s.drop_last()[j] == s[j]);
            }
            lemma_dec_val_bounds(s.drop_last(), s.len() - 1);
            assert(s.drop_last().take(s.len() - 1) =~= s.drop_last());
            assert(48 <= s.last() as u32 <= 57);
            assert(dec_val(s) == dec_val(s.drop_last()) * 10 + (s.last() as u32 - 48));
        }
    } else {
        assert(all_digits(s.drop_last())) by {
            assert(forall|j: int| 0 <= j < s.len() - 1 ==> s.drop_last()[j] == s[j]);
        }
        lemma_dec_val_bounds(s.drop_last(), i);
        assert(s.drop_last().take(i) =~= s.take(i));
        lemma_dec_val_bounds(s, s.len() as int);
        assert(s.take(s.len() as int) =~= s);
    }
}

/// Rendering then parsing a number gives the number back: the preparation
/// phase's length record is read back exactly by every use site.
pub proof fn lemma_dec_round_trip(n: nat)
    ensures
        is_dec_seq(dec_chars(n)),
        dec_val(dec_chars(n)) == n,
    decreases n,
{
    if n < 10 {
        let s = dec_chars(n);
        assert(s.drop_last() =~= Seq::<char>::empty());
        assert(s.last() == digit_char(n));
        assert(digit_char(n) as u32 == 48 + n);
        assert(dec_val(Seq::<char>::empty()) == 0);
        assert(dec_val(s) == dec_val(s.drop_last()) * 10 + (s.last() as u32 - 48));
    } else {
        assert(10 * (n / 10) + n % 10 == n);
        lemma_dec_round_trip(n / 10);
        let p = dec_chars(n / 10);
        let s = dec_chars(n);
        assert(s == p + seq![digit_char(n % 10)]);
        assert(s.drop_last() =~= p);
        assert(s.last() == digit_char(n % 10));
        assert(digit_char(n % 10) as u32 == 48 + n % 10);
        assert(dec_val(s) == dec_val(p) * 10 + n % 10);
        assert forall|j: int| 0 <= j < s.len() implies 48 <= #[trigger] (s[j] as u32) <= 57 by {
            if j < p.len() {
                assert(s[j] == p[j]);
            } else {
                assert(s[j] == digit_char(n % 10));
            }
        }
    }
}

/// Parses a decimal length record.  Returns the value exactly when the
/// record is non-empty, entirely decimal digits, and fits in a `u64`.
pub fn parse_dec(s: &str) -> (r: Option<u64>)
    ensures
        match r {
            Some(v) => is_dec_seq(s@) && dec_val(s@) == v as int,
            None => !(is_dec_seq(s@) && dec_val(s@) <= u64::MAX),
        },
{
    let n: usize = s.unicode_len();
    if n == 0 {
        return None;
    }
    let mut v: u64 = 0;
    let mut i: usize = 0;
    while i < n
        invariant
            n == s@.len(),
            0 <= i <= n,
            all_digits(s@.take(i as int)),
            v as int == dec_val(s@.take(i as int)),
        decreases n - i,
    {
        let c: char = s.get_char(i);
        let cv: u32 = c as u32;
        if cv < 48 || cv > 57 {
            proof {
                assert(!all_digits(s@));
            }
            return None;
        }
        let d: u64 = (cv - 48) as u64;
        proof {
            assert(s@.take(i + 1).drop_last() =~= s@.take(i as int));
            assert(s@.take(i + 1).last() == s@[i as int]);
            assert forall|j: int| 0 <= j < i + 1 implies 48 <= #[trigger] (s@.take(i + 1)[j] as u32) <= 57 by {
                if j < i {
                    assert(s@.take(i + 1)[j] == s@.take(i as int)[j]);
                }
            }
            assert(dec_val(s@.take(i + 1)) == v * 10 + d);
        }
        if v > (u64::MAX - d) / 10 {
            proof {
                let x: int = u64::MAX - d;
                let q: int = x / 10;
                assert(10 * q + x % 10 == x);
                assert(v as int >= q + 1);
                assert(v * 10 >= (q + 1) * 10);
                assert(v * 10 + d > u64::MAX);
                if is_dec_seq(s@) {
                    lemma_dec_val_bounds(s@, i + 1);
                }
            }
            return None;
        }
        proof {
            let x: int = u64::MAX - d;
            let q: int = x / 10;
            assert(10 * q + x % 10 == x);
            assert(v * 10 <= q * 10);
            assert(v * 10 + d <= u64::MAX);
        }
        v = v * 10 + d;
        i = i + 1;
    }
    proof {
        assert(s@.take(n as int) =~= s@);
    }
    Some(v)
}

/// One nibble of `h`, counted from the most significant end.
pub open spec fn nibble(h: u64, i: int) -> u64 {
    (h >> ((4 * (15 - i)) as u64)) & 0xf
}

/// The fixed-width, 16-digit lowercase hexadecimal rendering of `h`.
pub open spec fn hex16(h: u64) -> Seq<char> {
    Seq::new(16, |i: int| digit_char(nibble(h, i) as nat))
}

/// Appends the 16-digit hexadecimal rendering of `h` to `s`.
pub fn push_hex16(s: &mut String, h: u64)
    ensures
        final(s)@ == old(s)@ + hex16(h),
{
    let mut i: usize = 0;
    while i < 16
        invariant
            0 <= i <= 16,
            s@ == old(s)@ + hex16(h).take(i as int),
        decreases 16 - i,
    {
        let sh: u64 = 4 * (15 - (i as u64));
        let nib: u64 = (h >> sh) & 0xf;
        proof {
            assert((h >> sh) & 0xf < 16) by (bit_vector);
            assert(nib == nibble(h, i as int));
        }
        let r: &'static str = digit_str(nib as u8);
        s.append(r);
        proof {
            assert(hex16(h).take(i + 1) =~= hex16(h).take(i as int) + seq![digit_char(nibble(h, i as int) as nat)]);
            assert(s@ =~= old(s)@ + hex16(h).take(i + 1));
        }
        i = i + 1;
    }
    proof {
        assert(hex16(h).take(16) =~= hex16(h));
    }
}

} // verus!
