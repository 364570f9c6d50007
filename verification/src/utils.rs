//! Executable checksum routines shared by the packet builders.

use crate::checksum::{
    fold_carries, lemma_sum_prefix_bounds, lemma_word_at_bounds, num_words, sum_words,
    sum_words_prefix,
};
use vstd::prelude::*;

verus! {

/// Largest buffer the checksum routines take.  An IP datagram's total-length
/// field is 16 bits, so no legal packet is longer, and the bound keeps the
/// 32-bit accumulator exact (no wrap-around ever happens).
pub const MAX_SUM_LEN: usize = 65536;

/// Largest initial partial sum the routines accept; together with
/// `MAX_SUM_LEN` it keeps the accumulator below `u32::MAX`.
pub const MAX_INIT_SUM: u32 = 0x8000_0000;

/// Complement an already folded running sum into the 16-bit checksum value.
/// The buffer plays no part; it is the sum that is complemented.
pub fn calculate_chksm_fast(init: u32, _bytes: &Vec<u8>) -> (r: u16)
    ensures
        r as int == 0xFFFF - (init as int) % 0x10000,
        init <= 0xFFFF ==> r as int == 0xFFFF - fold_carries(init as int),
{
    (0xFFFFu32 - init % 0x10000) as u16
}

/// The general checksum routine: zero the checksum octets (2 and 3), sum all
/// 16-bit big-endian words of the buffer on top of `init_check`, fold the
/// carries, and complement.  With `in_place` the two checksum octets are
/// patched into the buffer; otherwise they stay zero and the value is only
/// returned.
#[verifier::loop_isolation(false)]
pub fn calc_checksum_g(init_check: u32, bytes: &mut Vec<u8>, in_place: bool) -> (r: u16)
    requires
        4 <= old(bytes)@.len(),
        old(bytes)@.len() <= MAX_SUM_LEN,
        init_check <= MAX_INIT_SUM,
    ensures
        ({
            let z = old(bytes)@.update(2, 0u8).update(3, 0u8);
            let c = 0xFFFF - fold_carries(init_check + sum_words(z));
            &&& r == c
            &&& in_place ==> final(bytes)@ == z.update(2, (c / 256) as u8).update(
                3,
                (c % 256) as u8,
            )
            &&& !in_place ==> final(bytes)@ == z
        }),
{
    bytes[2] = 0;
    bytes[3] = 0;
    let ghost z = bytes@;
    proof {
        assert(z == old(bytes)@.update(2, 0u8).update(3, 0u8));
    }
    let n: usize = bytes.len();
    let mut sum: u32 = init_check;
    let mut i: usize = 0;
    while i < n
        invariant
            i <= n,
            i % 2 == 0 || i == n,
            bytes@ == z,
            sum as int == init_check + sum_words_prefix(z, (i as int + 1) / 2),
            sum as int <= init_check + ((i as int + 1) / 2) * 0xFFFF,
        decreases n - i,
    {
        proof {
            lemma_word_at_bounds(z, i as int / 2);
            lemma_sum_prefix_bounds(z, (i as int + 1) / 2);
        }
        let hi: u32 = bytes[i] as u32;
        let part: u32 = if i + 1 < n {
            hi * 256 + bytes[i + 1] as u32
        } else {
            hi * 256
        };
        sum = sum + part;
        i = if i + 1 < n {
            i + 2
        } else {
            i + 1
        };
    }
    proof {
        assert(sum as int == init_check + sum_words(z));
    }
    let ghost total = sum as int;
    while sum > 0xFFFF
        invariant
            fold_carries(sum as int) == fold_carries(total),
        decreases sum,
    {
        sum = sum % 0x10000 + sum / 0x10000;
    }
    let ck: u16 = (0xFFFFu32 - sum) as u16;
    if in_place {
        bytes[2] = (ck / 256) as u8;
        bytes[3] = (ck % 256) as u8;
    }
    ck
}

} // verus!
