//! The Internet checksum (RFC 1071) as mathematics: the byte stream is read
//! as little-endian 16-bit words (an odd trailing byte counts as a word of
//! its own), the words are added with end-around carry, and the checksum is
//! the ones' complement of that sum.
use vstd::prelude::*;

verus! {

/// The little-endian word that starts at byte `k`.
pub open spec fn le_word(lo: u8, hi: u8) -> int {
    lo as int + 256 * (hi as int)
}

/// The plain (non-folded) sum of the 16-bit words of `s`; an odd trailing
/// byte is counted as a word whose high byte is zero.
pub open spec fn word_sum(s: Seq<u8>) -> nat
    decreases s.len(),
{
    if s.len() == 0 {
        0
    } else if s.len() == 1 {
        s[0] as nat
    } else {
        (le_word(s[0], s[1]) + word_sum(s.subrange(2, s.len() as int))) as nat
    }
}

/// The result of adding up words whose plain sum is `total` with end-around
/// carry: zero only for a zero total, otherwise the representative of
/// `total` modulo 0xFFFF in `1..=0xFFFF`.
pub open spec fn fold_ones(total: int) -> int {
    if total <= 0 {
        0
    } else {
        (total - 1) % 65535 + 1
    }
}

/// The Internet checksum of `s`.
pub open spec fn internet_checksum(s: Seq<u8>) -> u16 {
    (65535 - fold_ones(word_sum(s) as int)) as u16
}

/// `s` with the 16-bit value `v` written in little-endian order at `k`.
pub open spec fn set_le16(s: Seq<u8>, k: int, v: u16) -> Seq<u8> {
    s.update(k, (v % 256) as u8).update(k + 1, (v / 256) as u8)
}

/// `s` with the 16-bit value `v` written in big-endian order at `k`.
pub open spec fn set_be16(s: Seq<u8>, k: int, v: u16) -> Seq<u8> {
    s.update(k, (v / 256) as u8).update(k + 1, (v % 256) as u8)
}

/// Adding one word with end-around carry, as the checksum does it.
pub open spec fn add_carry(a: u16, b: u16) -> u16 {
    let s = a as int + b as int;
    if s >= 65536 {
        (s + 1 - 65536) as u16
    } else {
        s as u16
    }
}

pub proof fn lemma_fold_ones_range(total: int)
    ensures
        0 <= fold_ones(total) <= 65535,
        total > 0 ==> fold_ones(total) >= 1,
{
}

/// End-around-carry addition of a word to a folded sum is the fold of the
/// plain sum.
pub proof fn lemma_add_carry_folds(total: int, w: int)
    requires
        total >= 0,
        0 <= w <= 65535,
    ensures
        add_carry(fold_ones(total) as u16, w as u16) as int == fold_ones(total + w),
{
    if total == 0 {
        if w > 0 {
            assert((w - 1) % 65535 == w - 1) by (nonlinear_arith)
                requires 0 <= w - 1 < 65535;
        }
    } else {
        let r = fold_ones(total);
        let q = (total - 1) / 65535;
        assert(total - 1 == 65535 * q + (r - 1)) by (nonlinear_arith)
            requires r == (total - 1) % 65535 + 1, q == (total - 1) / 65535, total >= 1;
        assert(0 <= r - 1 < 65535);
        if r + w >= 65536 {
            assert((total + w - 1) % 65535 == r + w - 65536) by (nonlinear_arith)
                requires total + w - 1 == 65535 * (q + 1) + (r + w - 65536),
                    0 <= r + w - 65536 < 65535;
        } else {
            assert((total + w - 1) % 65535 == r + w - 1) by (nonlinear_arith)
                requires total + w - 1 == 65535 * q + (r + w - 1),
                    0 <= r + w - 1 < 65535;
        }
    }
}

/// The word sum is additive over a split at an even position.
pub proof fn lemma_word_sum_append(a: Seq<u8>, b: Seq<u8>)
    requires
        a.len() % 2 == 0,
    ensures
        word_sum(a + b) == word_sum(a) + word_sum(b),
    decreases a.len(),
{
    if a.len() == 0 {
        assert(a + b =~= b);
    } else {
        let ab = a + b;
        assert(ab.subrange(2, ab.len() as int) =~= a.subrange(2, a.len() as int) + b);
        lemma_word_sum_append(a.subrange(2, a.len() as int), b);
    }
}

/// Replacing the word at an even position `k` changes the sum by the
/// difference of the two words.
pub proof fn lemma_word_sum_put(s: Seq<u8>, k: int, lo: u8, hi: u8)
    requires
        0 <= k,
        k + 1 < s.len(),
        k % 2 == 0,
    ensures
        word_sum(s.update(k, lo).update(k + 1, hi)) + le_word(s[k], s[k + 1])
            == word_sum(s) + le_word(lo, hi),
{
    let a = s.subrange(0, k);
    let m = s.subrange(k, k + 2);
    let b = s.subrange(k + 2, s.len() as int);
    let t = s.update(k, lo).update(k + 1, hi);
    let m2 = t.subrange(k, k + 2);
    assert(s =~= a + (m + b));
    assert(t =~= a + (m2 + b));
    assert(t.subrange(0, k) =~= a);
    lemma_word_sum_append(a, m + b);
    lemma_word_sum_append(a, m2 + b);
    lemma_word_sum_append(m, b);
    lemma_word_sum_append(m2, b);
    assert(m.subrange(2, 2) =~= Seq::<u8>::empty());
    assert(m2.subrange(2, 2) =~= Seq::<u8>::empty());
}

/// The sum of the first `i + 2` bytes is that of the first `i` plus the next word.
pub proof fn lemma_word_sum_prefix_step(s: Seq<u8>, i: int)
    requires
        0 <= i,
        i + 2 <= s.len(),
        i % 2 == 0,
    ensures
        word_sum(s.subrange(0, i + 2)) == word_sum(s.subrange(0, i)) + le_word(s[i], s[i + 1]),
{
    let a = s.subrange(0, i);
    let m = s.subrange(i, i + 2);
    assert(s.subrange(0, i + 2) =~= a + m);
    lemma_word_sum_append(a, m);
    assert(m.subrange(2, 2) =~= Seq::<u8>::empty());
    assert(word_sum(Seq::<u8>::empty()) == 0);
    assert(word_sum(m) == le_word(s[i], s[i + 1]));
}

/// Adding a trailing odd byte.
pub proof fn lemma_word_sum_prefix_tail(s: Seq<u8>, i: int)
    requires
        0 <= i,
        i + 1 == s.len(),
        i % 2 == 0,
    ensures
        word_sum(s) == word_sum(s.subrange(0, i)) + s[i],
{
    let a = s.subrange(0, i);
    let m = s.subrange(i, i + 1);
    assert(s =~= a + m);
    lemma_word_sum_append(a, m);
}

/// A checksum written into the zeroed word it covers makes the whole stream
/// check to zero.
pub proof fn lemma_checksum_fills_to_zero(s: Seq<u8>, k: int)
    requires
        0 <= k,
        k + 1 < s.len(),
        k % 2 == 0,
        s[k] == 0,
        s[k + 1] == 0,
    ensures
        internet_checksum(set_le16(s, k, internet_checksum(s))) == 0,
{
    let c = internet_checksum(s);
    let t = word_sum(s) as int;
    lemma_fold_ones_range(t);
    let lo = (c % 256) as u8;
    let hi = (c / 256) as u8;
    lemma_word_sum_put(s, k, lo, hi);
    assert(le_word(lo, hi) == c as int);
    let t2 = word_sum(set_le16(s, k, c)) as int;
    assert(t2 == t + c);
    assert(c as int == 65535 - fold_ones(t));
    if t == 0 {
        assert(t2 == 65535);
        assert((65535int - 1) % 65535 == 65534);
    } else {
        let q = (t - 1) / 65535;
        assert(t - 1 == 65535 * q + (t - 1) % 65535) by (nonlinear_arith)
            requires q == (t - 1) / 65535;
        assert(t2 == 65535 * q + 65535);
        assert(q >= 0) by (nonlinear_arith)
            requires q == (t - 1) / 65535, t >= 1;
        assert((t2 - 1) % 65535 == 65534) by (nonlinear_arith)
            requires t2 - 1 == 65535 * q + 65534, q >= 0;
    }
}

} // verus!
