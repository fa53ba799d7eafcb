//! The Internet checksum (RFC 1071): the buffer is summed as big-endian
//! 16-bit words, carries out of the low 16 bits are folded back in, and the
//! result is the one's complement of the folded sum.

use vstd::prelude::*;
use vstd::arithmetic::div_mod::{
    lemma_fundamental_div_mod, lemma_mod_multiples_vanish, lemma_small_mod, lemma_sub_mod_noop,
    lemma_add_mod_noop,
};

verus! {

/// Sum of a byte sequence taken as big-endian 16-bit words; an odd trailing
/// byte counts as the high byte of a final word whose low byte is zero.
pub open spec fn word_sum(s: Seq<u8>) -> int
    decreases s.len(),
{
    if s.len() == 0 {
        0
    } else if s.len() == 1 {
        s[0] * 0x100
    } else {
        s[0] * 0x100 + s[1] + word_sum(s.skip(2))
    }
}

/// Folds the high 16 bits of a sum into its low 16 bits until the value fits
/// in 16 bits: the end-around carry of one's-complement addition.
pub open spec fn fold_carry(x: int) -> int
    recommends
        x >= 0,
    decreases x,
    when x >= 0
    via fold_carry_decreases
{
    if x < 0x10000 {
        x
    } else {
        fold_carry(x / 0x10000 + x % 0x10000)
    }
}

#[via_fn]
proof fn fold_carry_decreases(x: int) {
    if x >= 0x10000 {
        lemma_fundamental_div_mod(x, 0x10000);
    }
}

/// The Internet checksum of a byte sequence.
pub open spec fn checksum_spec(s: Seq<u8>) -> int {
    0xFFFF - fold_carry(word_sum(s))
}

/// A sum of big-endian words is never negative.
pub proof fn lemma_word_sum_nonneg(s: Seq<u8>)
    ensures
        word_sum(s) >= 0,
    decreases s.len(),
{
    if s.len() >= 2 {
        lemma_word_sum_nonneg(s.skip(2));
    }
}

/// The folded sum is the unique 16-bit value that is congruent to the sum
/// modulo 0xFFFF and is zero exactly when the sum is zero.
pub proof fn lemma_fold_carry_props(x: int)
    requires
        x >= 0,
    ensures
        0 <= fold_carry(x) <= 0xFFFF,
        fold_carry(x) <= x,
        fold_carry(x) % 0xFFFF == x % 0xFFFF,
        (fold_carry(x) == 0) <==> (x == 0),
    decreases x,
{
    if x >= 0x10000 {
        let q = x / 0x10000;
        let r = x % 0x10000;
        lemma_fundamental_div_mod(x, 0x10000);
        lemma_fold_carry_props(q + r);
        lemma_mod_multiples_vanish(q, q + r, 0xFFFF);
    }
}

/// Folding may be interleaved with addition: folding a partial sum before
/// adding the next word does not change the final folded sum.
pub proof fn lemma_fold_carry_add(a: int, w: int)
    requires
        a >= 0,
        w >= 0,
    ensures
        fold_carry(fold_carry(a) + w) == fold_carry(a + w),
{
    let fa = fold_carry(a);
    lemma_fold_carry_props(a);
    lemma_fold_carry_props(fa + w);
    lemma_fold_carry_props(a + w);
    let y1 = fold_carry(fa + w);
    let y2 = fold_carry(a + w);
    lemma_add_mod_noop(fa, w, 0xFFFF);
    lemma_add_mod_noop(a, w, 0xFFFF);
    if y1 < 0xFFFF {
        lemma_small_mod(y1 as nat, 0xFFFF as nat);
    }
    if y2 < 0xFFFF {
        lemma_small_mod(y2 as nat, 0xFFFF as nat);
    }
}

/// Adds one word to a folded running sum and folds the carry back in.
fn add_word_folded(sum: u32, w: u32) -> (r: u32)
    requires
        sum <= 0xFFFF,
        w <= 0xFFFF,
    ensures
        r == fold_carry(sum + w),
        r <= 0xFFFF,
{
    let t: u32 = sum + w;
    if t > 0xFFFF {
        proof {
            lemma_fundamental_div_mod(t as int, 0x10000);
            assert(t as int / 0x10000 == 1);
            assert(fold_carry(t as int) == fold_carry(t as int / 0x10000 + t as int % 0x10000));
            assert(t as int / 0x10000 + t as int % 0x10000 < 0x10000);
        }
        assert((t >> 16) + (t & 0xFFFF) == t / 0x10000 + t % 0x10000) by (bit_vector);
        (t >> 16) + (t & 0xFFFF)
    } else {
        t
    }
}

/// The raw sum of the big-endian 16-bit words of `bs`, carries kept. The
/// length bound keeps the 32-bit running sum from overflowing.
pub fn sum_big_endian_words(bs: &[u8]) -> (sum: u32)
    requires
        bs@.len() < 0x20000,
    ensures
        sum == word_sum(bs@),
{
    let len: usize = bs.len();
    let mut sum: u32 = 0;
    let mut i: usize = 0;
    proof {
        assert(bs@.skip(0) =~= bs@);
    }
    while len - i >= 2
        invariant
            i <= len,
            len == bs@.len(),
            len < 0x20000,
            word_sum(bs@) == sum + word_sum(bs@.skip(i as int)),
            2 * (sum as int) <= i * 0xFFFF,
        decreases len - i,
    {
        let w: u32 = (bs[i] as u32) * 0x100 + (bs[i + 1] as u32);
        proof {
            assert(bs@.skip(i as int).skip(2) =~= bs@.skip(i as int + 2));
            lemma_word_sum_nonneg(bs@.skip(i as int + 2));
        }
        sum = sum + w;
        i = i + 2;
    }
    if i < len {
        let w: u32 = (bs[i] as u32) * 0x100;
        sum = sum + w;
    }
    sum
}

/// One's-complement sum of the big-endian 16-bit words of `bs`. The
/// end-around carry is applied as each word is added, which keeps the
/// running sum within 16 bits whatever the buffer's length.
fn folded_word_sum(bs: &[u8]) -> (sum: u32)
    ensures
        sum == fold_carry(word_sum(bs@)),
        sum <= 0xFFFF,
{
    let len: usize = bs.len();
    let mut sum: u32 = 0;
    let mut i: usize = 0;
    let ghost mut acc: int = 0;
    proof {
        assert(bs@.skip(0) =~= bs@);
    }
    while len - i >= 2
        invariant
            i <= len,
            len == bs@.len(),
            acc >= 0,
            word_sum(bs@) == acc + word_sum(bs@.skip(i as int)),
            sum == fold_carry(acc),
            sum <= 0xFFFF,
        decreases len - i,
    {
        let w: u32 = (bs[i] as u32) * 0x100 + (bs[i + 1] as u32);
        proof {
            assert(bs@.skip(i as int).skip(2) =~= bs@.skip(i as int + 2));
            lemma_fold_carry_add(acc, w as int);
        }
        sum = add_word_folded(sum, w);
        proof {
            acc = acc + w;
        }
        i = i + 2;
    }
    if i < len {
        let w: u32 = (bs[i] as u32) * 0x100;
        proof {
            lemma_fold_carry_add(acc, w as int);
        }
        sum = add_word_folded(sum, w);
        proof {
            acc = acc + w;
        }
    }
    sum
}

/// The Internet checksum of `bs`: the complement of the folded word sum.
pub fn checksum(bs: &[u8]) -> (r: u16)
    ensures
        r == checksum_spec(bs@),
{
    let sum: u32 = folded_word_sum(bs);
    proof {
        lemma_word_sum_nonneg(bs@);
        lemma_fold_carry_props(word_sum(bs@));
    }
    0xFFFF - (sum as u16)
}

/// `s` with the 16-bit value `c` written big-endian into the checksum field
/// at bytes 2 and 3.
pub open spec fn with_checksum(s: Seq<u8>, c: int) -> Seq<u8>
    recommends
        s.len() >= 4,
        0 <= c <= 0xFFFF,
{
    s.update(2, (c / 0x100) as u8).update(3, (c % 0x100) as u8)
}

/// Replacing bytes 2 and 3 changes the word sum by exactly the difference of
/// the two middle words.
proof fn lemma_word_sum_update2(s: Seq<u8>, h: u8, l: u8)
    requires
        s.len() >= 4,
    ensures
        word_sum(s.update(2, h).update(3, l)) == word_sum(s) - s[2] * 0x100 - s[3] + h * 0x100
            + l,
{
    let s2 = s.update(2, h).update(3, l);
    assert(s2.skip(2) =~= s.skip(2).update(0, h).update(1, l));
    assert(s2.skip(2).skip(2) =~= s.skip(2).skip(2));
    assert(word_sum(s2.skip(2)) == h * 0x100 + l + word_sum(s.skip(2).skip(2)));
    assert(word_sum(s.skip(2)) == s[2] * 0x100 + s[3] + word_sum(s.skip(2).skip(2)));
}

/// Checksum self-consistency: writing the computed checksum of a buffer
/// whose checksum field is zero back into that field yields a buffer whose
/// own checksum is zero.
pub proof fn lemma_checksum_self_consistency(s: Seq<u8>)
    requires
        s.len() >= 4,
        s[2] == 0,
        s[3] == 0,
    ensures
        checksum_spec(with_checksum(s, checksum_spec(s))) == 0,
{
    let n = word_sum(s);
    lemma_word_sum_nonneg(s);
    lemma_fold_carry_props(n);
    let f = fold_carry(n);
    let c = 0xFFFF - f;
    let h = (c / 0x100) as u8;
    let l = (c % 0x100) as u8;
    lemma_fundamental_div_mod(c, 0x100);
    lemma_word_sum_update2(s, h, l);
    let y = n + c;
    assert(word_sum(with_checksum(s, c)) == y);
    lemma_fold_carry_props(y);
    lemma_sub_mod_noop(n, f, 0xFFFF);
    lemma_mod_multiples_vanish(1, n - f, 0xFFFF);
    assert(y % 0xFFFF == 0);
    if fold_carry(y) < 0xFFFF {
        lemma_small_mod(fold_carry(y) as nat, 0xFFFF as nat);
    }
    assert(fold_carry(y) == 0xFFFF);
}

} // verus!
