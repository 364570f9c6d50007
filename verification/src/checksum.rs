//! The RFC 1071 one's-complement checksum, as a mathematical model.
//!
//! A buffer is read as a sequence of 16-bit big-endian words (an odd trailing
//! octet is padded with a zero low octet), the words are summed, the carries
//! above 16 bits are folded back in, and the checksum field holds the
//! complement of the folded sum.  The facts proved here carry the packet
//! builder and the reply classifier: in particular, that patching the
//! complement of the folded sum into a packet whose checksum field was zero
//! makes the whole packet fold to 0xFFFF, and that a zeroed checksum field
//! lets the sum be maintained incrementally when only the sequence word
//! changes.

use vstd::arithmetic::div_mod::lemma_mod_multiples_vanish;
use vstd::prelude::*;

verus! {

/// The 16-bit big-endian word of `b` at word index `k`: octets `2k` (high)
/// and `2k + 1` (low).  A missing low octet counts as zero (RFC 1071 padding
/// of an odd-length buffer); a word wholly outside `b` counts as zero.
pub open spec fn word_at(b: Seq<u8>, k: int) -> int {
    if 0 <= k && 2 * k < b.len() {
        if 2 * k + 1 < b.len() {
            256 * b[2 * k] + b[2 * k + 1]
        } else {
            256 * b[2 * k]
        }
    } else {
        0
    }
}

/// How many 16-bit words cover `b`, the last padded when the length is odd.
pub open spec fn num_words(b: Seq<u8>) -> int {
    (b.len() as int + 1) / 2
}

/// The sum of the first `k` words of `b`.
pub open spec fn sum_words_prefix(b: Seq<u8>, k: int) -> int
    decreases k,
{
    if k <= 0 {
        0
    } else {
        sum_words_prefix(b, k - 1) + word_at(b, k - 1)
    }
}

/// The plain (unfolded) RFC 1071 running sum of all words of `b`.
pub open spec fn sum_words(b: Seq<u8>) -> int {
    sum_words_prefix(b, num_words(b))
}

/// End-around carry folding: add the bits above the low 16 back into the low
/// 16 until the value fits in 16 bits.
pub open spec fn fold_carries(x: int) -> int
    decreases x,
{
    if x <= 0xFFFF {
        x
    } else {
        fold_carries(x % 0x10000 + x / 0x10000)
    }
}

/// The RFC 1071 validity condition: the folded sum of the whole buffer,
/// checksum field included, is 0xFFFF.
pub open spec fn checksum_ok(b: Seq<u8>) -> bool {
    fold_carries(sum_words(b)) == 0xFFFF
}

/// Every word is an unsigned 16-bit value.
pub proof fn lemma_word_at_bounds(b: Seq<u8>, k: int)
    ensures
        0 <= word_at(b, k) <= 0xFFFF,
{
}

/// A prefix sum of `k` words lies between 0 and `k * 0xFFFF`.
pub proof fn lemma_sum_prefix_bounds(b: Seq<u8>, k: int)
    requires
        k >= 0,
    ensures
        0 <= sum_words_prefix(b, k) <= k * 0xFFFF,
    decreases k,
{
    if k > 0 {
        lemma_sum_prefix_bounds(b, k - 1);
        lemma_word_at_bounds(b, k - 1);
        assert(k * 0xFFFF == (k - 1) * 0xFFFF + 0xFFFF) by (nonlinear_arith);
    }
}

/// Prefix sums grow with the number of words taken.
pub proof fn lemma_sum_prefix_mono(b: Seq<u8>, j: int, k: int)
    requires
        0 <= j <= k,
    ensures
        sum_words_prefix(b, j) <= sum_words_prefix(b, k),
    decreases k,
{
    if j < k {
        lemma_sum_prefix_mono(b, j, k - 1);
        lemma_word_at_bounds(b, k - 1);
    }
}

/// Two buffers of one length whose words agree everywhere but possibly at
/// word `j` have prefix sums that differ exactly by the difference at `j`.
pub proof fn lemma_sum_prefix_update_one(b1: Seq<u8>, b2: Seq<u8>, j: int, k: int)
    requires
        b1.len() == b2.len(),
        forall|l: int| l != j ==> #[trigger] word_at(b1, l) == word_at(b2, l),
    ensures
        k <= j ==> sum_words_prefix(b2, k) == sum_words_prefix(b1, k),
        k > j ==> sum_words_prefix(b2, k) == sum_words_prefix(b1, k) - word_at(b1, j) + word_at(
            b2,
            j,
        ),
    decreases k,
{
    if k > 0 {
        lemma_sum_prefix_update_one(b1, b2, j, k - 1);
    }
}

/// Writing octets `hi`, `lo` at an even offset `i` and at `i + 1` changes the
/// total sum by replacing word `i / 2` with the word `256 * hi + lo`.
pub proof fn lemma_sum_update2(b: Seq<u8>, i: int, hi: u8, lo: u8)
    ensures
        0 <= i && i % 2 == 0 && i + 1 < b.len() ==> sum_words(b.update(i, hi).update(i + 1, lo))
            == sum_words(b) - word_at(b, i / 2) + 256 * hi + lo,
{
    if 0 <= i && i % 2 == 0 && i + 1 < b.len() {
        let b2 = b.update(i, hi).update(i + 1, lo);
        let j = i / 2;
        assert forall|l: int| l != j implies #[trigger] word_at(b, l) == word_at(b2, l) by {
            assert(2 * l != i && 2 * l != i + 1 && 2 * l + 1 != i && 2 * l + 1 != i + 1);
        }
        lemma_sum_prefix_update_one(b, b2, j, num_words(b));
        assert(word_at(b2, j) == 256 * hi + lo);
    }
}

/// Folding lands in `0 ..= 0xFFFF`, never increases the value, and reaches 0
/// only from 0.
pub proof fn lemma_fold_bounds(x: int)
    requires
        x >= 0,
    ensures
        0 <= fold_carries(x) <= 0xFFFF,
        fold_carries(x) <= x,
        x > 0 ==> fold_carries(x) > 0,
    decreases x,
{
    if x > 0xFFFF {
        lemma_fold_bounds(x % 0x10000 + x / 0x10000);
    }
}

/// Folding preserves the residue modulo 0xFFFF.
pub proof fn lemma_fold_congruent(x: int)
    requires
        x >= 0,
    ensures
        fold_carries(x) % 0xFFFF == x % 0xFFFF,
    decreases x,
{
    if x > 0xFFFF {
        let q = x / 0x10000;
        let r = x % 0x10000;
        lemma_fold_congruent(r + q);
        lemma_mod_multiples_vanish(q, r + q, 0xFFFF);
        assert(x == 0xFFFF * q + (r + q));
    }
}

/// A positive multiple of 0xFFFF folds exactly to 0xFFFF.
pub proof fn lemma_fold_exact(x: int)
    requires
        x > 0,
        x % 0xFFFF == 0,
    ensures
        fold_carries(x) == 0xFFFF,
{
    lemma_fold_bounds(x);
    lemma_fold_congruent(x);
    let f = fold_carries(x);
    if f < 0xFFFF {
        assert(f % 0xFFFF == f);
    }
}

/// The keystone of packet validity.  Take a buffer `z` whose checksum octets
/// (2 and 3) are zero, and a `base` that agrees with the sum of `z` modulo
/// 0xFFFF (the builders keep such a base, folded or not; where the sum is
/// zero the base must be the exact sum).  Patching the complement of the
/// folded base into octets 2 and 3 yields a buffer that satisfies the RFC
/// 1071 validity condition.
pub proof fn lemma_checksum_completes(z: Seq<u8>, base: int)
    requires
        4 <= z.len(),
        z[2] == 0,
        z[3] == 0,
        base >= 0,
        base % 0xFFFF == sum_words(z) % 0xFFFF,
        sum_words(z) > 0 || base == sum_words(z),
    ensures
        ({
            let c = 0xFFFF - fold_carries(base);
            &&& 0 <= c <= 0xFFFF
            &&& checksum_ok(z.update(2, (c / 256) as u8).update(3, (c % 256) as u8))
        }),
{
    lemma_fold_bounds(base);
    lemma_fold_congruent(base);
    let f = fold_carries(base);
    let c = 0xFFFF - f;
    let hi = (c / 256) as u8;
    let lo = (c % 256) as u8;
    let b = z.update(2, hi).update(3, lo);
    lemma_sum_update2(z, 2, hi, lo);
    assert(word_at(z, 1) == 0);
    assert(256 * hi + lo == c);
    let s = sum_words(z);
    assert(sum_words(b) == s + c);
    // The total is positive: either the zeroed buffer already sums to
    // something, or the base is the exact (zero) sum and the complement
    // itself is 0xFFFF.
    lemma_sum_prefix_bounds(z, num_words(z));
    if s == 0 {
        assert(fold_carries(base) == 0);
    }
    assert(s + c > 0);
    // The total is a multiple of 0xFFFF: s == f (mod 0xFFFF), so
    // s + 0xFFFF - f == 0 (mod 0xFFFF).
    lemma_mod_multiples_vanish(1, s - f, 0xFFFF);
    assert(s + c == 0xFFFF * 1 + (s - f));
    lemma_mod_sub_zero(s, f, 0xFFFF);
    lemma_fold_exact(s + c);
}

/// Two values with one residue differ by a multiple of the modulus, so their
/// difference has residue zero.
proof fn lemma_mod_sub_zero(a: int, b: int, m: int)
    requires
        m > 0,
        a % m == b % m,
        a >= 0,
        b >= 0,
    ensures
        (a - b) % m == 0,
{
    let qa = a / m;
    let qb = b / m;
    vstd::arithmetic::div_mod::lemma_fundamental_div_mod(a, m);
    vstd::arithmetic::div_mod::lemma_fundamental_div_mod(b, m);
    assert(a == m * qa + a % m);
    assert(b == m * qb + b % m);
    assert(a - b == m * (qa - qb)) by (nonlinear_arith)
        requires
            a == m * qa + a % m,
            b == m * qb + b % m,
            a % m == b % m,
    ;
    lemma_mod_multiples_vanish(qa - qb, 0, m);
}

/// The total sum dominates the first word (all words are nonnegative).
pub proof fn lemma_sum_words_ge_word0(b: Seq<u8>)
    requires
        b.len() >= 1,
    ensures
        sum_words(b) >= word_at(b, 0),
{
    assert(sum_words_prefix(b, 0) == 0);
    assert(sum_words_prefix(b, 1) == word_at(b, 0));
    lemma_sum_prefix_mono(b, 1, num_words(b));
}

/// The checksum is a function of the word sequence alone: buffers that read
/// as the same 16-bit words (whatever the machine's native byte order) have
/// one sum, hence one checksum.
pub proof fn lemma_sum_from_words_only(b1: Seq<u8>, b2: Seq<u8>)
    requires
        num_words(b1) == num_words(b2),
        forall|k: int| #[trigger] word_at(b1, k) == word_at(b2, k),
    ensures
        sum_words(b1) == sum_words(b2),
{
    lemma_sum_prefix_words_eq(b1, b2, num_words(b1));
}

/// An odd-length buffer is summed as though padded with one zero octet, so
/// the padding never needs to stand in the wire packet.
pub proof fn lemma_odd_padding(b: Seq<u8>)
    requires
        b.len() % 2 == 1,
    ensures
        sum_words(b) == sum_words(b.push(0u8)),
{
    let b2 = b.push(0u8);
    assert(num_words(b) == num_words(b2));
    assert forall|k: int| #[trigger] word_at(b, k) == word_at(b2, k) by {
        assert(2 * k + 1 == b.len() ==> b2[2 * k + 1] == 0);
    }
    lemma_sum_from_words_only(b, b2);
}

proof fn lemma_sum_prefix_words_eq(b1: Seq<u8>, b2: Seq<u8>, k: int)
    requires
        forall|l: int| #[trigger] word_at(b1, l) == word_at(b2, l),
    ensures
        sum_words_prefix(b1, k) == sum_words_prefix(b2, k),
    decreases k,
{
    if k > 0 {
        lemma_sum_prefix_words_eq(b1, b2, k - 1);
    }
}

} // verus!
