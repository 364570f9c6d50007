//! The earlier, V4-leaning iteration of the echo builder.
//!
//! `EchoICMPv4` differs from `EchoICMP` in two ways its callers rely on:
//! `increase_seq` bumps only the counter (the sequence octets are written by
//! `update_bytes`, which performs the whole advance), and `calc_checksum`
//! records the base sum unfolded; the carry folding happens inside
//! `update_chksm`.

use crate::checksum::{
    checksum_ok, fold_carries, lemma_checksum_completes, lemma_fold_bounds,
    lemma_sum_prefix_bounds, lemma_sum_update2, lemma_sum_words_ge_word0, lemma_word_at_bounds,
    sum_words, sum_words_prefix, word_at,
};
use crate::iputils::{data_seq, default_data, hi8, lo8, zeroed_at_2367};
use crate::utils::{MAX_INIT_SUM, MAX_SUM_LEN};
use vstd::arithmetic::div_mod::lemma_add_mod_noop;
use vstd::prelude::*;

verus! {

#[derive(Debug, PartialEq, Eq)]
pub struct EchoICMPv4 {
    pub echo_type: u8,
    pub code: u8,
    pub identifier: [u8; 2],
    pub seq_num: u16,
    pub base_chcksm: u32,
    pub echo_data: Vec<u8>,
}

impl EchoICMPv4 {
    /// Well-formed builder state: an echo-request type, code zero, and a
    /// payload that is neither empty nor too long for an IP datagram.
    pub open spec fn wf(self) -> bool {
        &&& self.code == 0
        &&& (self.echo_type == 8 || self.echo_type == 128)
        &&& 1 <= self.echo_data@.len()
        &&& 8 + self.echo_data@.len() <= 0xFFFF
    }

    /// Total length of the wire packet: 8 header octets plus the payload.
    pub open spec fn packet_len(self) -> int {
        8 + self.echo_data@.len() as int
    }

    /// `b` is the wire image of `self` (checksum octets unconstrained).
    pub open spec fn laid_out(self, b: Seq<u8>) -> bool {
        &&& b.len() == self.packet_len()
        &&& b[0] == self.echo_type
        &&& b[1] == self.code
        &&& b[4] == self.identifier@[0]
        &&& b[5] == self.identifier@[1]
        &&& b[6] == hi8(self.seq_num)
        &&& b[7] == lo8(self.seq_num)
        &&& b.subrange(8, b.len() as int) == self.echo_data@
    }

    /// The recorded base sum is positive, bounded, and agrees modulo 0xFFFF
    /// with the sum of `b` with checksum and sequence octets zero.  This
    /// builder records it unfolded; the congruence is all the update needs.
    pub open spec fn base_ok(self, b: Seq<u8>) -> bool {
        &&& 0 < self.base_chcksm <= MAX_INIT_SUM
        &&& self.base_chcksm as int % 0xFFFF == sum_words(zeroed_at_2367(b)) % 0xFFFF
    }

    /// The builder/buffer pair is ready for sends.
    pub open spec fn ready(self, b: Seq<u8>) -> bool {
        &&& self.wf()
        &&& self.laid_out(b)
        &&& self.base_ok(b)
    }

    /// A freshly constructed builder of echo type `t`.
    pub open spec fn is_fresh(self, t: u8) -> bool {
        &&& self.echo_type == t
        &&& self.code == 0
        &&& self.identifier@ =~= seq![0u8, 0u8]
        &&& self.seq_num == 0
        &&& self.base_chcksm == 0
        &&& self.echo_data@ == data_seq()
    }

    pub fn new() -> (r: Self)
        ensures
            r.is_fresh(8),
            r.wf(),
    {
        Self::default()
    }

    /// The plain (unfolded) RFC 1071 running sum of `bytes`.
    #[verifier::loop_isolation(false)]
    pub fn calc_checksum(&mut self, bytes: &[u8]) -> (r: u32)
        requires
            bytes@.len() <= MAX_SUM_LEN,
        ensures
            *final(self) == *old(self),
            r == sum_words(bytes@),
    {
        let n: usize = bytes.len();
        let mut chck: u32 = 0;
        let mut i: usize = 0;
        while i < n
            invariant
                i <= n,
                i % 2 == 0 || i == n,
                chck as int == sum_words_prefix(bytes@, (i as int + 1) / 2),
                chck as int <= ((i as int + 1) / 2) * 0xFFFF,
            decreases n - i,
        {
            proof {
                lemma_word_at_bounds(bytes@, i as int / 2);
                lemma_sum_prefix_bounds(bytes@, (i as int + 1) / 2);
            }
            let hi: u32 = bytes[i] as u32;
            let part: u32 = if i + 1 < n {
                hi * 256 + bytes[i + 1] as u32
            } else {
                hi * 256
            };
            chck = chck + part;
            i = if i + 1 < n {
                i + 2
            } else {
                i + 1
            };
        }
        chck
    }

    /// Advance the sequence counter by one, wrapping at 2^16.  The buffer is
    /// refreshed by `update_bytes`.
    pub fn increase_seq(&mut self)
        ensures
            final(self).seq_num as int == (old(self).seq_num as int + 1) % 0x10000,
            final(self).echo_type == old(self).echo_type,
            final(self).code == old(self).code,
            final(self).identifier == old(self).identifier,
            final(self).base_chcksm == old(self).base_chcksm,
            final(self).echo_data == old(self).echo_data,
    {
        self.seq_num = self.seq_num.wrapping_add(1);
    }

    /// Recompute the checksum in constant time: fold the current sequence
    /// word into the base sum and write the complement big-endian at octets
    /// 2-3.  On a ready pair this establishes the RFC 1071 validity
    /// condition: the whole packet folds to 0xFFFF.
    pub fn update_chksm(&mut self, bytes: &mut Vec<u8>)
        requires
            old(bytes)@.len() >= 8,
            old(self).base_chcksm <= MAX_INIT_SUM,
        ensures
            *final(self) == *old(self),
            ({
                let w = 256 * old(bytes)@[6] as int + old(bytes)@[7] as int;
                let c = 0xFFFF - fold_carries(old(self).base_chcksm as int + w);
                final(bytes)@ == old(bytes)@.update(2, (c / 256) as u8).update(3, (c % 256) as u8)
            }),
            old(self).ready(old(bytes)@) ==> final(self).ready(final(bytes)@) && checksum_ok(
                final(bytes)@,
            ),
    {
        bytes[2] = 0;
        bytes[3] = 0;
        let mut sum: u32 = self.base_chcksm;
        let part16: u16 = (bytes[6] as u16) * 256 + (bytes[7] as u16);
        sum = sum + part16 as u32;
        let ghost total = sum as int;
        while sum > 0xFFFF
            invariant
                fold_carries(sum as int) == fold_carries(total),
            decreases sum,
        {
            sum = sum % 0x10000 + sum / 0x10000;
        }
        let sum16: u16 = (0xFFFFu32 - sum) as u16;
        bytes[2] = (sum16 / 256) as u8;
        bytes[3] = (sum16 % 256) as u8;
        proof {
            let b0 = old(bytes)@;
            let w = 256 * b0[6] as int + b0[7] as int;
            let base = old(self).base_chcksm as int;
            lemma_fold_bounds(base + w);
            let c = 0xFFFF - fold_carries(base + w);
            assert(sum16 as int == c);
            assert(bytes@ =~= b0.update(2, (c / 256) as u8).update(3, (c % 256) as u8));
            if old(self).ready(b0) {
                let z4 = zeroed_at_2367(b0);
                let z = b0.update(2, 0u8).update(3, 0u8);
                assert(z =~= z4.update(6, b0[6]).update(7, b0[7]));
                lemma_sum_update2(z4, 6, b0[6], b0[7]);
                assert(word_at(z4, 3) == 0);
                assert(sum_words(z) == sum_words(z4) + w);
                lemma_add_mod_noop(base, w, 0xFFFF);
                lemma_add_mod_noop(sum_words(z4), w, 0xFFFF);
                assert((base + w) % 0xFFFF == sum_words(z) % 0xFFFF);
                assert(word_at(z, 0) >= 256 * 8);
                lemma_sum_words_ge_word0(z);
                lemma_checksum_completes(z, base + w);
                assert(bytes@ =~= z.update(2, (c / 256) as u8).update(3, (c % 256) as u8));
                assert(bytes@.subrange(8, bytes@.len() as int) =~= b0.subrange(
                    8,
                    b0.len() as int,
                ));
                assert(zeroed_at_2367(bytes@) =~= zeroed_at_2367(b0));
            }
        }
    }

    /// Lay the packet image down (type, code, zeroed checksum, identifier,
    /// zeroed sequence, payload), reset the sequence counter, and record the
    /// unfolded base sum of the image.
    #[verifier::loop_isolation(false)]
    pub fn init_bytes(&mut self, container: &mut Vec<u8>)
        requires
            old(self).wf(),
            old(container)@.len() == 8 + old(self).echo_data@.len(),
        ensures
            final(self).echo_type == old(self).echo_type,
            final(self).code == old(self).code,
            final(self).identifier == old(self).identifier,
            final(self).echo_data == old(self).echo_data,
            final(self).seq_num == 0,
            final(container)@ == (seq![
                old(self).echo_type,
                old(self).code,
                0u8,
                0u8,
                old(self).identifier@[0],
                old(self).identifier@[1],
                0u8,
                0u8,
            ] + old(self).echo_data@),
            final(self).base_chcksm == sum_words(final(container)@),
            final(self).ready(final(container)@),
    {
        container[0] = self.echo_type;
        container[1] = self.code;
        container[2] = 0;
        container[3] = 0;
        container[4] = self.identifier[0];
        container[5] = self.identifier[1];
        container[6] = 0;
        container[7] = 0;
        self.seq_num = 0;
        let ghost hdr = container@;
        proof {
            assert(hdr[0] == self.echo_type);
            assert(hdr[1] == self.code);
            assert(hdr[2] == 0);
            assert(hdr[3] == 0);
            assert(hdr[4] == self.identifier@[0]);
            assert(hdr[5] == self.identifier@[1]);
            assert(hdr[6] == 0);
            assert(hdr[7] == 0);
        }
        let n = self.echo_data.len();
        let mut i: usize = 0;
        while i < n
            invariant
                i <= n,
                container@.len() == hdr.len(),
                forall|j: int| 0 <= j < 8 ==> container@[j] == hdr[j],
                forall|j: int| 8 <= j < 8 + i ==> container@[j] == self.echo_data@[j - 8],
            decreases n - i,
        {
            let b = self.echo_data[i];
            container[8 + i] = b;
            i += 1;
        }
        let ghost img = (seq![
            self.echo_type,
            self.code,
            0u8,
            0u8,
            self.identifier@[0],
            self.identifier@[1],
            0u8,
            0u8,
        ] + self.echo_data@);
        proof {
            assert(container@.len() == img.len());
            assert(container@[0] == img[0]);
            assert(container@[1] == img[1]);
            assert(container@[2] == img[2]);
            assert(container@[3] == img[3]);
            assert(container@[4] == img[4]);
            assert(container@[5] == img[5]);
            assert(container@[6] == img[6]);
            assert(container@[7] == img[7]);
            assert(forall|j: int| 8 <= j < img.len() ==> img[j] == self.echo_data@[j - 8]);
            assert(container@ =~= img);
        }
        let s = self.calc_checksum(container.as_slice());
        self.base_chcksm = s;
        proof {
            assert(word_at(img, 0) == 256 * self.echo_type as int + self.code as int);
            lemma_sum_words_ge_word0(img);
            lemma_sum_prefix_bounds(img, crate::checksum::num_words(img));
            assert(zeroed_at_2367(img) =~= img);
            assert(img.subrange(8, img.len() as int) =~= self.echo_data@);
        }
    }

    /// One whole advance: bump the sequence counter, write its octets at
    /// offsets 6-7, and recompute the checksum from the base sum.  On a ready
    /// pair the refreshed packet folds to 0xFFFF.
    pub fn update_bytes(&mut self, final_bytes: &mut Vec<u8>)
        requires
            old(final_bytes)@.len() >= 8,
            old(self).base_chcksm <= MAX_INIT_SUM,
        ensures
            final(self).seq_num as int == (old(self).seq_num as int + 1) % 0x10000,
            final(self).echo_type == old(self).echo_type,
            final(self).code == old(self).code,
            final(self).identifier == old(self).identifier,
            final(self).base_chcksm == old(self).base_chcksm,
            final(self).echo_data == old(self).echo_data,
            final(final_bytes)@.len() == old(final_bytes)@.len(),
            old(self).ready(old(final_bytes)@) ==> final(self).ready(final(final_bytes)@)
                && checksum_ok(final(final_bytes)@),
    {
        self.increase_seq();
        final_bytes[6] = (self.seq_num / 256) as u8;
        final_bytes[7] = (self.seq_num % 256) as u8;
        proof {
            let b0 = old(final_bytes)@;
            let b1 = final_bytes@;
            if old(self).ready(b0) {
                assert(b1.subrange(8, b1.len() as int) =~= b0.subrange(8, b0.len() as int));
                assert(zeroed_at_2367(b1) =~= zeroed_at_2367(b0));
                assert(self.ready(b1));
            }
        }
        self.update_chksm(final_bytes);
    }
}

impl Default for EchoICMPv4 {
    /// The default builder: the ICMP (V4) echo request type 8 with the fixed
    /// payload.
    fn default() -> (r: Self)
        ensures
            r.is_fresh(8),
            r.wf(),
    {
        EchoICMPv4 {
            echo_type: 8,
            code: 0,
            identifier: [0, 0],
            seq_num: 0,
            base_chcksm: 0,
            echo_data: default_data(),
        }
    }
}

} // verus!
