//! Endpoints, address selection, and the ICMP / ICMPv6 echo-request builder.
//!
//! The builder keeps the byte image of one Echo Request current as the
//! sequence number advances.  `init_bytes` lays the header and payload down
//! and records a *base sum*: the RFC 1071 running sum of the packet with the
//! checksum and sequence octets zero.  Each `increase_seq` / `update_bytes`
//! pair then refreshes the checksum in constant time by folding only the new
//! sequence word into the base sum.

pub mod ip4;
pub mod ip6;

use crate::checksum::{
    checksum_ok, fold_carries, lemma_checksum_completes, lemma_fold_bounds, lemma_fold_congruent,
    lemma_sum_prefix_bounds, lemma_sum_update2, lemma_sum_words_ge_word0, lemma_word_at_bounds,
    sum_words, sum_words_prefix, word_at,
};
use crate::error::RingError;
use crate::utils::{MAX_INIT_SUM, MAX_SUM_LEN};
use vstd::arithmetic::div_mod::lemma_add_mod_noop;
use vstd::prelude::*;

verus! {

/// The address family of a session.
#[derive(Clone, Copy, Debug, PartialEq, Eq, Structural)]
pub enum IP {
    V4,
    V6,
}

/// An IP address held as plain values: four octets for V4, eight 16-bit
/// groups for V6.
#[derive(Clone, Copy, Debug, PartialEq, Eq)]
pub enum HostAddr {
    V4 { a: u8, b: u8, c: u8, d: u8 },
    V6 { groups: [u16; 8] },
}

/// One resolved candidate endpoint: an address of a known family.  The port
/// is syntactic only (ICMP has no ports) and is always zero.
#[derive(Clone, Copy, Debug, PartialEq, Eq)]
pub struct Endpoint {
    pub addr: HostAddr,
    pub port: u16,
}

impl Endpoint {
    pub open spec fn is_v4_spec(self) -> bool {
        self.addr is V4
    }

    /// Make an endpoint from an address; the port of an ICMP endpoint is zero.
    pub fn new(addr: HostAddr) -> (r: Endpoint)
        ensures
            r.addr == addr,
            r.port == 0,
    {
        Endpoint { addr, port: 0 }
    }

    pub fn is_ipv4(&self) -> (r: bool)
        ensures
            r == self.is_v4_spec(),
    {
        match self.addr {
            HostAddr::V4 { .. } => true,
            HostAddr::V6 { .. } => false,
        }
    }

    pub fn is_ipv6(&self) -> (r: bool)
        ensures
            r == !self.is_v4_spec(),
    {
        !self.is_ipv4()
    }

    /// Loopback: 127.0.0.0/8 for V4, ::1 for V6.
    pub open spec fn is_loopback_spec(self) -> bool {
        match self.addr {
            HostAddr::V4 { a, .. } => a == 127,
            HostAddr::V6 { groups } => groups@ =~= seq![0u16, 0, 0, 0, 0, 0, 0, 1],
        }
    }

    pub fn is_loopback(&self) -> (r: bool)
        ensures
            r == self.is_loopback_spec(),
    {
        match self.addr {
            HostAddr::V4 { a, .. } => a == 127,
            HostAddr::V6 { groups } => {
                let lb = groups[0] == 0 && groups[1] == 0 && groups[2] == 0 && groups[3] == 0
                    && groups[4] == 0 && groups[5] == 0 && groups[6] == 0 && groups[7] == 1;
                proof {
                    if lb {
                        assert(groups@ =~= seq![0u16, 0, 0, 0, 0, 0, 0, 1]);
                    } else {
                        assert(!(groups@ =~= seq![0u16, 0, 0, 0, 0, 0, 0, 1]));
                    }
                }
                lb
            },
        }
    }
}

/// The first endpoint of the wanted family in a candidate list, if any.
pub open spec fn first_match(s: Seq<Endpoint>, want_v4: bool) -> Option<Endpoint>
    decreases s.len(),
{
    if s.len() == 0 {
        Option::None
    } else if s[0].is_v4_spec() == want_v4 {
        Option::Some(s[0])
    } else {
        first_match(s.drop_first(), want_v4)
    }
}

/// The first V4 endpoint among the candidates, or `NetworkError` when the
/// list holds none.
pub fn get_ip4_addr(addrs: &Vec<Endpoint>) -> (r: Result<Endpoint, RingError>)
    ensures
        r == match first_match(addrs@, true) {
            Option::Some(e) => Result::<Endpoint, RingError>::Ok(e),
            Option::None => Result::<Endpoint, RingError>::Err(RingError::NetworkError),
        },
{
    find_first(addrs, true)
}

/// The first V6 endpoint among the candidates, or `NetworkError` when the
/// list holds none.
pub fn get_ip6_addr(addrs: &Vec<Endpoint>) -> (r: Result<Endpoint, RingError>)
    ensures
        r == match first_match(addrs@, false) {
            Option::Some(e) => Result::<Endpoint, RingError>::Ok(e),
            Option::None => Result::<Endpoint, RingError>::Err(RingError::NetworkError),
        },
{
    find_first(addrs, false)
}

#[verifier::loop_isolation(false)]
fn find_first(addrs: &Vec<Endpoint>, want_v4: bool) -> (r: Result<Endpoint, RingError>)
    ensures
        r == match first_match(addrs@, want_v4) {
            Option::Some(e) => Result::<Endpoint, RingError>::Ok(e),
            Option::None => Result::<Endpoint, RingError>::Err(RingError::NetworkError),
        },
{
    let n = addrs.len();
    let mut i: usize = 0;
    proof {
        assert(addrs@.skip(0) =~= addrs@);
    }
    while i < n
        invariant
            i <= n,
            first_match(addrs@, want_v4) == first_match(addrs@.skip(i as int), want_v4),
        decreases n - i,
    {
        let e = addrs[i];
        proof {
            assert(addrs@.skip(i as int)[0] == addrs@[i as int]);
            assert(addrs@.skip(i as int).drop_first() =~= addrs@.skip(i as int + 1));
        }
        if e.is_ipv4() == want_v4 {
            return Ok(e);
        }
        i += 1;
    }
    proof {
        assert(addrs@.skip(n as int) =~= Seq::<Endpoint>::empty());
    }
    Err(RingError::NetworkError)
}

/// Resolver policy: an explicit family takes the first candidate of that
/// family; with no preference V6 is tried first, then V4.
pub open spec fn resolve_spec(s: Seq<Endpoint>, family: Option<IP>) -> Option<Endpoint> {
    match family {
        Option::Some(IP::V4) => first_match(s, true),
        Option::Some(IP::V6) => first_match(s, false),
        Option::None => match first_match(s, false) {
            Option::Some(e) => Option::Some(e),
            Option::None => first_match(s, true),
        },
    }
}

/// Choose the session endpoint from the resolver's candidates.
pub fn pick_endpoint(addrs: &Vec<Endpoint>, family: Option<IP>) -> (r: Result<
    Endpoint,
    RingError,
>)
    ensures
        r == match resolve_spec(addrs@, family) {
            Option::Some(e) => Result::<Endpoint, RingError>::Ok(e),
            Option::None => Result::<Endpoint, RingError>::Err(RingError::NetworkError),
        },
{
    match family {
        Option::Some(IP::V4) => get_ip4_addr(addrs),
        Option::Some(IP::V6) => get_ip6_addr(addrs),
        Option::None => match get_ip6_addr(addrs) {
            Ok(e) => Ok(e),
            Err(_) => get_ip4_addr(addrs),
        },
    }
}

// --- the echo request builder ---

/// The default payload: the fixed 21-octet literal carried by every request.
pub open spec fn data_seq() -> Seq<u8> {
    seq![
        83u8, 87, 73, 75, 73, 83, 83,
        83, 87, 73, 75, 73, 83, 83,
        83, 87, 73, 75, 73, 83, 83,
    ]
}

/// The default payload as a buffer ("SWIKISS", three times over).
pub fn default_data() -> (r: Vec<u8>)
    ensures
        r@ == data_seq(),
{
    let r: Vec<u8> = vec![
        83u8, 87, 73, 75, 73, 83, 83,
        83, 87, 73, 75, 73, 83, 83,
        83, 87, 73, 75, 73, 83, 83,
    ];
    proof {
        assert(r@ =~= data_seq());
    }
    r
}

/// High octet of a 16-bit big-endian value.
pub open spec fn hi8(x: u16) -> u8 {
    (x / 256) as u8
}

/// Low octet of a 16-bit big-endian value.
pub open spec fn lo8(x: u16) -> u8 {
    (x % 256) as u8
}

/// The buffer with its checksum octets (2-3) and sequence octets (6-7)
/// zeroed: the shape over which the base sum is recorded.
pub open spec fn zeroed_at_2367(b: Seq<u8>) -> Seq<u8> {
    b.update(2, 0u8).update(3, 0u8).update(6, 0u8).update(7, 0u8)
}

/// The echo-request builder: the logical header fields, the running sequence
/// counter, the recorded base sum, and the payload.
#[derive(Debug, PartialEq, Eq)]
pub struct EchoICMP {
    pub echo_type: u8,
    pub code: u8,
    pub identifier: [u8; 2],
    pub seq_num: u16,
    pub base_chcksm: u32,
    pub echo_data: Vec<u8>,
}

impl EchoICMP {
    /// Well-formed builder state: an echo-request type, code zero, and a
    /// payload that is neither empty nor too long for an IP datagram.
    pub open spec fn wf(self) -> bool {
        &&& self.code == 0
        &&& (self.echo_type == 8 || self.echo_type == 128)
        &&& 1 <= self.echo_data@.len()
        &&& 8 + self.echo_data@.len() <= 0xFFFF
    }

    /// Total length of the wire packet: 8 header octets plus the payload.
    pub open spec fn packet_len(self) -> int {
        8 + self.echo_data@.len() as int
    }

    /// `b` is the wire image of `self`: header fields, the current sequence
    /// number big-endian at octets 6-7, and the payload from octet 8 on.
    /// (The checksum octets 2-3 are not constrained.)
    pub open spec fn laid_out(self, b: Seq<u8>) -> bool {
        &&& b.len() == self.packet_len()
        &&& b[0] == self.echo_type
        &&& b[1] == self.code
        &&& b[4] == self.identifier@[0]
        &&& b[5] == self.identifier@[1]
        &&& b[6] == hi8(self.seq_num)
        &&& b[7] == lo8(self.seq_num)
        &&& b.subrange(8, b.len() as int) == self.echo_data@
    }

    /// The recorded base sum is positive, small enough to add a word to, and
    /// agrees modulo 0xFFFF with the sum of `b` with checksum and sequence
    /// octets zero.  (The two builders record the base folded or unfolded;
    /// both shapes satisfy this, and the congruence is all the update needs.)
    pub open spec fn base_ok(self, b: Seq<u8>) -> bool {
        &&& 0 < self.base_chcksm <= MAX_INIT_SUM
        &&& self.base_chcksm as int % 0xFFFF == sum_words(zeroed_at_2367(b)) % 0xFFFF
    }

    /// The builder/buffer pair is ready for sends: initialized, laid out,
    /// with a faithful base sum.
    pub open spec fn ready(self, b: Seq<u8>) -> bool {
        &&& self.wf()
        &&& self.laid_out(b)
        &&& self.base_ok(b)
    }

    /// A freshly constructed builder of echo type `t`: counters zero, default
    /// payload.
    pub open spec fn is_fresh(self, t: u8) -> bool {
        &&& self.echo_type == t
        &&& self.code == 0
        &&& self.identifier@ =~= seq![0u8, 0u8]
        &&& self.seq_num == 0
        &&& self.base_chcksm == 0
        &&& self.echo_data@ == data_seq()
    }

    /// A fresh ICMPv6 builder (echo request type 128).
    pub fn new() -> (r: Self)
        ensures
            r.is_fresh(128),
            r.wf(),
    {
        Self::default()
    }

    /// A fresh ICMP (V4) builder (echo request type 8).
    pub fn new_v4() -> (r: Self)
        ensures
            r.is_fresh(8),
            r.wf(),
    {
        let mut temp = Self::default();
        temp.echo_type = 8;
        temp
    }

    /// A fresh builder for the given family with a caller-chosen payload.
    /// An empty payload is rejected, as is one that would not fit an IP
    /// datagram beside the 8 header octets.
    pub fn with_payload(ip: IP, payload: Vec<u8>) -> (r: Result<Self, RingError>)
        ensures
            r is Ok <==> 1 <= payload@.len() <= 0xFFFF - 8,
            r is Err ==> r == Result::<Self, RingError>::Err(RingError::ArgError),
            r is Ok ==> ({
                let p = r->Ok_0;
                &&& p.wf()
                &&& p.echo_type == (if ip is V4 { 8u8 } else { 128u8 })
                &&& p.code == 0
                &&& p.identifier@ =~= seq![0u8, 0u8]
                &&& p.seq_num == 0
                &&& p.base_chcksm == 0
                &&& p.echo_data@ == payload@
            }),
    {
        if payload.len() == 0 || payload.len() > 0xFFFF - 8 {
            return Err(RingError::ArgError);
        }
        let echo_type: u8 = match ip {
            IP::V4 => 8,
            IP::V6 => 128,
        };
        Ok(
            EchoICMP {
                echo_type,
                code: 0,
                identifier: [0, 0],
                seq_num: 0,
                base_chcksm: 0,
                echo_data: payload,
            },
        )
    }

    /// The folded RFC 1071 running sum of `bytes`.
    #[verifier::loop_isolation(false)]
    pub fn calc_checksum(&mut self, bytes: &[u8]) -> (r: u32)
        requires
            bytes@.len() <= MAX_SUM_LEN,
        ensures
            *final(self) == *old(self),
            r == fold_carries(sum_words(bytes@)),
            r <= 0xFFFF,
    {
        let n: usize = bytes.len();
        let mut chck: u32 = 0;
        let mut i: usize = 0;
        while i < n
            invariant
                i <= n,
                i % 2 == 0 || i == n,
                chck as int == sum_words_prefix(bytes@, (i as int + 1) / 2),
                chck as int <= ((i as int + 1) / 2) * 0xFFFF,
            decreases n - i,
        {
            proof {
                lemma_word_at_bounds(bytes@, i as int / 2);
                lemma_sum_prefix_bounds(bytes@, (i as int + 1) / 2);
            }
            let hi: u32 = bytes[i] as u32;
            let part: u32 = if i + 1 < n {
                hi * 256 + bytes[i + 1] as u32
            } else {
                hi * 256
            };
            chck = chck + part;
            i = if i + 1 < n {
                i + 2
            } else {
                i + 1
            };
        }
        let ghost total = chck as int;
        while chck > 0xFFFF
            invariant
                fold_carries(chck as int) == fold_carries(total),
            decreases chck,
        {
            chck = chck % 0x10000 + chck / 0x10000;
        }
        chck
    }

    /// Advance the sequence counter by one (wrapping at 2^16) and write its
    /// two big-endian octets at offsets 6-7.
    pub fn increase_seq(&mut self, container: &mut Vec<u8>)
        requires
            old(container)@.len() >= 8,
        ensures
            final(self).seq_num as int == (old(self).seq_num as int + 1) % 0x10000,
            final(self).echo_type == old(self).echo_type,
            final(self).code == old(self).code,
            final(self).identifier == old(self).identifier,
            final(self).base_chcksm == old(self).base_chcksm,
            final(self).echo_data == old(self).echo_data,
            final(container)@ == old(container)@.update(6, hi8(final(self).seq_num)).update(
                7,
                lo8(final(self).seq_num),
            ),
            old(self).ready(old(container)@) ==> final(self).ready(final(container)@),
    {
        self.seq_num = self.seq_num.wrapping_add(1);
        container[6] = (self.seq_num / 256) as u8;
        container[7] = (self.seq_num % 256) as u8;
        proof {
            let b0 = old(container)@;
            let b1 = container@;
            if old(self).ready(b0) {
                assert(b1.subrange(8, b1.len() as int) =~= b0.subrange(8, b0.len() as int));
                assert(zeroed_at_2367(b1) =~= zeroed_at_2367(b0));
            }
        }
    }

    /// Recompute the checksum in constant time: fold the current sequence
    /// word into the base sum and write the complement big-endian at octets
    /// 2-3.  On a ready pair this establishes the RFC 1071 validity
    /// condition: the whole packet folds to 0xFFFF.
    pub fn update_chksm(&mut self, bytes: &mut Vec<u8>)
        requires
            old(bytes)@.len() >= 8,
            old(self).base_chcksm <= MAX_INIT_SUM,
        ensures
            *final(self) == *old(self),
            ({
                let w = 256 * old(bytes)@[6] as int + old(bytes)@[7] as int;
                let c = 0xFFFF - fold_carries(old(self).base_chcksm as int + w);
                final(bytes)@ == old(bytes)@.update(2, (c / 256) as u8).update(3, (c % 256) as u8)
            }),
            old(self).ready(old(bytes)@) ==> final(self).ready(final(bytes)@) && checksum_ok(
                final(bytes)@,
            ),
    {
        bytes[2] = 0;
        bytes[3] = 0;
        let mut sum: u32 = self.base_chcksm;
        let part16: u16 = (bytes[6] as u16) * 256 + (bytes[7] as u16);
        sum = sum + part16 as u32;
        let ghost total = sum as int;
        while sum > 0xFFFF
            invariant
                fold_carries(sum as int) == fold_carries(total),
            decreases sum,
        {
            sum = sum % 0x10000 + sum / 0x10000;
        }
        let sum16: u16 = (0xFFFFu32 - sum) as u16;
        bytes[2] = (sum16 / 256) as u8;
        bytes[3] = (sum16 % 256) as u8;
        proof {
            let b0 = old(bytes)@;
            let w = 256 * b0[6] as int + b0[7] as int;
            let base = old(self).base_chcksm as int;
            lemma_fold_bounds(base + w);
            let c = 0xFFFF - fold_carries(base + w);
            assert(sum16 as int == c);
            assert(bytes@ =~= b0.update(2, (c / 256) as u8).update(3, (c % 256) as u8));
            if old(self).ready(b0) {
                let z4 = zeroed_at_2367(b0);
                let z = b0.update(2, 0u8).update(3, 0u8);
                assert(z =~= z4.update(6, b0[6]).update(7, b0[7]));
                lemma_sum_update2(z4, 6, b0[6], b0[7]);
                assert(word_at(z4, 3) == 0);
                assert(sum_words(z) == sum_words(z4) + w);
                lemma_add_mod_noop(base, w, 0xFFFF);
                lemma_add_mod_noop(sum_words(z4), w, 0xFFFF);
                assert((base + w) % 0xFFFF == sum_words(z) % 0xFFFF);
                assert(word_at(z, 0) >= 256 * 8);
                lemma_sum_words_ge_word0(z);
                lemma_checksum_completes(z, base + w);
                assert(bytes@ =~= z.update(2, (c / 256) as u8).update(3, (c % 256) as u8));
                assert(bytes@.subrange(8, bytes@.len() as int) =~= b0.subrange(
                    8,
                    b0.len() as int,
                ));
                assert(zeroed_at_2367(bytes@) =~= zeroed_at_2367(b0));
            }
        }
    }

    /// Lay the packet image down (type, code, zeroed checksum, identifier,
    /// zeroed sequence, payload), reset the sequence counter, and record the
    /// base sum of the image.
    #[verifier::loop_isolation(false)]
    pub fn init_bytes(&mut self, container: &mut Vec<u8>)
        requires
            old(self).wf(),
            old(container)@.len() == 8 + old(self).echo_data@.len(),
        ensures
            final(self).echo_type == old(self).echo_type,
            final(self).code == old(self).code,
            final(self).identifier == old(self).identifier,
            final(self).echo_data == old(self).echo_data,
            final(self).seq_num == 0,
            final(container)@ == (seq![
                old(self).echo_type,
                old(self).code,
                0u8,
                0u8,
                old(self).identifier@[0],
                old(self).identifier@[1],
                0u8,
                0u8,
            ] + old(self).echo_data@),
            final(self).base_chcksm == fold_carries(sum_words(final(container)@)),
            final(self).ready(final(container)@),
    {
        container[0] = self.echo_type;
        container[1] = self.code;
        container[2] = 0;
        container[3] = 0;
        container[4] = self.identifier[0];
        container[5] = self.identifier[1];
        container[6] = 0;
        container[7] = 0;
        self.seq_num = 0;
        let ghost hdr = container@;
        proof {
            assert(hdr[0] == self.echo_type);
            assert(hdr[1] == self.code);
            assert(hdr[2] == 0);
            assert(hdr[3] == 0);
            assert(hdr[4] == self.identifier@[0]);
            assert(hdr[5] == self.identifier@[1]);
            assert(hdr[6] == 0);
            assert(hdr[7] == 0);
        }
        let n = self.echo_data.len();
        let mut i: usize = 0;
        while i < n
            invariant
                i <= n,
                container@.len() == hdr.len(),
                forall|j: int| 0 <= j < 8 ==> container@[j] == hdr[j],
                forall|j: int| 8 <= j < 8 + i ==> container@[j] == self.echo_data@[j - 8],
            decreases n - i,
        {
            let b = self.echo_data[i];
            container[8 + i] = b;
            i += 1;
        }
        let ghost img = (seq![
            self.echo_type,
            self.code,
            0u8,
            0u8,
            self.identifier@[0],
            self.identifier@[1],
            0u8,
            0u8,
        ] + self.echo_data@);
        proof {
            assert(container@.len() == img.len());
            assert(container@[0] == img[0]);
            assert(container@[1] == img[1]);
            assert(container@[2] == img[2]);
            assert(container@[3] == img[3]);
            assert(container@[4] == img[4]);
            assert(container@[5] == img[5]);
            assert(container@[6] == img[6]);
            assert(container@[7] == img[7]);
            assert(forall|j: int| 8 <= j < img.len() ==> img[j] == self.echo_data@[j - 8]);
            assert(container@ =~= img);
        }
        let s = self.calc_checksum(container.as_slice());
        self.base_chcksm = s;
        proof {
            assert(word_at(img, 0) == 256 * self.echo_type as int + self.code as int);
            lemma_sum_words_ge_word0(img);
            lemma_fold_bounds(sum_words(img));
            lemma_fold_congruent(sum_words(img));
            assert(zeroed_at_2367(img) =~= img);
            assert(img.subrange(8, img.len() as int) =~= self.echo_data@);
        }
    }

    /// Refresh the wire image after the sequence was advanced: recompute the
    /// checksum from the base sum.
    pub fn update_bytes(&mut self, final_bytes: &mut Vec<u8>)
        requires
            old(final_bytes)@.len() >= 8,
            old(self).base_chcksm <= MAX_INIT_SUM,
        ensures
            *final(self) == *old(self),
            ({
                let w = 256 * old(final_bytes)@[6] as int + old(final_bytes)@[7] as int;
                let c = 0xFFFF - fold_carries(old(self).base_chcksm as int + w);
                final(final_bytes)@ == old(final_bytes)@.update(2, (c / 256) as u8).update(
                    3,
                    (c % 256) as u8,
                )
            }),
            old(self).ready(old(final_bytes)@) ==> final(self).ready(final(final_bytes)@)
                && checksum_ok(final(final_bytes)@),
    {
        self.update_chksm(final_bytes);
    }
}

impl Default for EchoICMP {
    /// The default builder: ICMPv6 echo request with the fixed payload.
    fn default() -> (r: Self)
        ensures
            r.is_fresh(128),
            r.wf(),
    {
        EchoICMP {
            echo_type: 128,
            code: 0,
            identifier: [0, 0],
            seq_num: 0,
            base_chcksm: 0,
            echo_data: default_data(),
        }
    }
}

} // verus!
