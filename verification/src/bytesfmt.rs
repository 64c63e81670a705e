//! Byte-level helpers: decimal rendering and parsing of unsigned integers,
//! and concatenation of byte vectors. Every path and map entry the library
//! writes is built from these.

use vstd::prelude::*;

verus! {

/// The decimal digits of `n`, most significant first, as ASCII bytes.
pub open spec fn spec_u32_dec(n: u32) -> Seq<u8>
    decreases n,
{
    if n < 10 {
        seq![(n + 48) as u8]
    } else {
        spec_u32_dec((n / 10) as u32).push(((n % 10) + 48) as u8)
    }
}

/// Renders `n` in decimal, most significant digit first.
pub fn u32_dec(n: u32) -> (r: Vec<u8>)
    ensures
        r@ == spec_u32_dec(n),
    decreases n,
{
    if n < 10 {
        let mut v: Vec<u8> = Vec::new();
        v.push((n as u8) + 48);
        assert(v@ =~= spec_u32_dec(n));
        v
    } else {
        let mut v = u32_dec(n / 10);
        v.push(((n % 10) as u8) + 48);
        assert(v@ =~= spec_u32_dec(n));
        v
    }
}

/// Whether every byte of `s` is an ASCII decimal digit.
pub open spec fn spec_all_digits(s: Seq<u8>) -> bool {
    forall|i: int| 0 <= i < s.len() ==> 48 <= #[trigger] s[i] <= 57
}

/// The value of the digit string `s`, read most significant digit first.
pub open spec fn spec_dec_val(s: Seq<u8>) -> int
    decreases s.len(),
{
    if s.len() == 0 {
        0
    } else {
        spec_dec_val(s.drop_last()) * 10 + (s.last() - 48)
    }
}

/// A digit string's value does not shrink when digits are appended.
proof fn lemma_dec_val_prefix(s: Seq<u8>, n: int)
    requires
        0 <= n <= s.len(),
        spec_all_digits(s),
    ensures
        spec_dec_val(s.take(n)) <= spec_dec_val(s),
        spec_dec_val(s) >= 0,
    decreases s.len() - n,
{
    if n == s.len() {
        assert(s.take(n) =~= s);
        lemma_dec_val_nonneg(s);
    } else {
        lemma_dec_val_prefix(s, n + 1);
        assert(s.take(n + 1).drop_last() =~= s.take(n));
        assert(spec_dec_val(s.take(n + 1)) == spec_dec_val(s.take(n)) * 10 + (s.take(n + 1).last()
            - 48));
        lemma_dec_val_nonneg(s.take(n));
    }
}

/// A digit string's value is never negative.
proof fn lemma_dec_val_nonneg(s: Seq<u8>)
    requires
        spec_all_digits(s),
    ensures
        spec_dec_val(s) >= 0,
    decreases s.len(),
{
    if s.len() > 0 {
        lemma_dec_val_nonneg(s.drop_last());
    }
}

/// Parses a nonempty ASCII digit string as an unsigned integer; yields
/// nothing when a byte is not a digit or the value does not fit.
pub fn parse_u32_dec(s: &Vec<u8>) -> (r: Option<u32>)
    ensures
        r matches Some(v) <==> (s@.len() > 0 && spec_all_digits(s@) && spec_dec_val(s@)
            <= u32::MAX),
        r matches Some(v) ==> v == spec_dec_val(s@),
{
    if s.len() == 0 {
        return None;
    }
    let mut acc: u32 = 0;
    let mut i: usize = 0;
    while i < s.len()
        invariant
            0 <= i <= s@.len(),
            spec_all_digits(s@.take(i as int)),
            acc == spec_dec_val(s@.take(i as int)),
        decreases s@.len() - i,
    {
        let b = s[i];
        if b < 48 || b > 57 {
            assert(!spec_all_digits(s@)) by {
                assert(s@[i as int] == b);
            }
            return None;
        }
        let d = (b - 48) as u32;
        if acc > (u32::MAX - d) / 10 {
            proof {
                assert(s@.take(i as int + 1).drop_last() =~= s@.take(i as int));
                assert(spec_dec_val(s@.take(i as int + 1)) == acc * 10 + d);
                if spec_all_digits(s@) {
                    lemma_dec_val_prefix(s@, i as int + 1);
                    assert(spec_dec_val(s@) >= spec_dec_val(s@.take(i as int + 1)));
                    assert(acc * 10 + d > u32::MAX) by (nonlinear_arith)
                        requires
                            acc > (u32::MAX - d) / 10,
                            0 <= d <= 9,
                    ;
                }
            }
            return None;
        }
        proof {
            assert(acc * 10 + d <= u32::MAX) by (nonlinear_arith)
                requires
                    acc <= (u32::MAX - d) / 10,
                    0 <= d <= 9,
            ;
            assert(s@.take(i as int + 1).drop_last() =~= s@.take(i as int));
        }
        acc = acc * 10 + d;
        i = i + 1;
    }
    proof {
        assert(s@.take(s@.len() as int) =~= s@);
    }
    Some(acc)
}

/// Rendering then parsing an integer gives the integer back.
pub proof fn lemma_dec_roundtrip(n: u32)
    ensures
        spec_u32_dec(n).len() > 0,
        spec_all_digits(spec_u32_dec(n)),
        spec_dec_val(spec_u32_dec(n)) == n,
    decreases n,
{
    if n < 10 {
        assert(spec_u32_dec(n) =~= seq![(n + 48) as u8]);
        assert(spec_u32_dec(n).drop_last() =~= Seq::<u8>::empty());
        assert(spec_dec_val(Seq::<u8>::empty()) == 0);
        assert(spec_dec_val(spec_u32_dec(n)) == 0 * 10 + (((n + 48) as u8) - 48));
    } else {
        lemma_dec_roundtrip(n / 10);
        assert(spec_u32_dec(n).drop_last() =~= spec_u32_dec(n / 10));
        assert(spec_u32_dec(n).last() == ((n % 10) + 48) as u8);
        assert(spec_dec_val(spec_u32_dec(n)) == spec_dec_val(spec_u32_dec(n / 10)) * 10 + (n % 10));
        assert(n / 10 * 10 + n % 10 == n) by {
            vstd::arithmetic::div_mod::lemma_fundamental_div_mod(n as int, 10);
        }
    }
}

/// Appends every byte of `src` to `dst`.
pub fn push_all(dst: &mut Vec<u8>, src: &Vec<u8>)
    ensures
        final(dst)@ == old(dst)@ + src@,
{
    let mut i: usize = 0;
    while i < src.len()
        invariant
            0 <= i <= src@.len(),
            dst@ == old(dst)@ + src@.take(i as int),
        decreases src@.len() - i,
    {
        dst.push(src[i]);
        proof {
            assert(old(dst)@ + src@.take(i as int + 1) =~= (old(dst)@ + src@.take(i as int)).push(
                src@[i as int]));
        }
        i = i + 1;
    }
    proof {
        assert(old(dst)@ + src@.take(src@.len() as int) =~= old(dst)@ + src@);
    }
}

/// Appends every byte of the slice `src` to `dst`.
pub fn push_all_slice(dst: &mut Vec<u8>, src: &[u8])
    ensures
        final(dst)@ == old(dst)@ + src@,
{
    let mut i: usize = 0;
    while i < src.len()
        invariant
            0 <= i <= src@.len(),
            dst@ == old(dst)@ + src@.take(i as int),
        decreases src@.len() - i,
    {
        dst.push(src[i]);
        proof {
            assert(old(dst)@ + src@.take(i as int + 1) =~= (old(dst)@ + src@.take(i as int)).push(
                src@[i as int]));
        }
        i = i + 1;
    }
    proof {
        assert(old(dst)@ + src@.take(src@.len() as int) =~= old(dst)@ + src@);
    }
}

} // verus!
