//! The send/receive coordinator's decisions, and the reply classifier.
//!
//! The unverified shell runs the two threads: it sends packets, spins on the
//! non-blocking socket, and carries messages over the channel.  Every
//! decision it takes comes from here: how a received datagram is classified,
//! what each round contributes to the statistics, when the send loop ends,
//! and what the final report counts.

use crate::checksum::{
    checksum_ok, fold_carries, lemma_checksum_completes, lemma_sum_prefix_bounds, sum_words,
    sum_words_prefix,
};
use crate::utils::{calc_checksum_g, MAX_SUM_LEN};
use vstd::prelude::*;

verus! {

/// Statistics of one session.  The wall clock lives with the shell; these
/// are the counters the coordinator owns.
#[derive(Clone, Copy, Debug, PartialEq, Eq, Structural)]
pub struct RingStats {
    pub packet_sent: u32,
    pub successful: u32,
    pub loss: u32,
}

impl Default for RingStats {
    /// Fresh counters, all zero.
    fn default() -> (r: Self)
        ensures
            r.packet_sent == 0,
            r.successful == 0,
            r.loss == 0,
    {
        RingStats { packet_sent: 0, successful: 0, loss: 0 }
    }
}

/// What the sender publishes to the receive worker: one outstanding request,
/// or the terminal stop.
#[derive(Clone, Copy, Debug, PartialEq, Eq, Structural)]
pub enum RingMessage {
    Continue(u16),
    Stop,
}

/// How one received datagram reads, per RFC 792 / RFC 4443.
#[derive(Clone, Copy, Debug, PartialEq, Eq, Structural)]
pub enum ReplyClassification {
    /// An echo reply: its sequence number, the TTL where an IP header was
    /// present (zero otherwise), and the length of the ICMP message.
    Echo { seq: u16, ttl: u8, nbytes: usize },
    /// A reported ICMP error message wrapping one of our requests.
    Error { mtype: u8, code: u8, seq: u16 },
    /// An echo reply whose checksum does not hold.
    Malformed,
    /// Anything else: too short, an unknown type, an unreported error.
    Noise,
}

/// The sequence-number word of an ICMP echo message: octets 6-7, big-endian.
pub open spec fn seq16(b: Seq<u8>) -> u16 {
    (256 * b[6] as int + b[7] as int) as u16
}

/// The (type, code) pairs reported as ICMP error messages (RFC 792):
/// destination unreachable, source quench, time exceeded, parameter problem.
pub open spec fn reported_error(mtype: u8, code: u8) -> bool {
    ||| (mtype == 3 && code <= 5)
    ||| (mtype == 4 && code == 0)
    ||| (mtype == 11 && code <= 1)
    ||| (mtype == 12 && code == 0)
}

/// The sequence number of the provoking echo, recovered from the body of an
/// ICMP error message: after the 8 error-header octets sits the offending IP
/// header (whose low nibble gives its length in 32-bit words), then the first
/// octets of the offending packet, whose own octets 6-7 are the sequence.
pub open spec fn embedded_seq(m: Seq<u8>) -> Option<u16> {
    if m.len() >= 9 {
        let ihl = (m[8] as int % 16) * 4;
        if m[8] as int % 16 >= 5 && m.len() >= 8 + ihl + 8 {
            Option::Some((256 * m[8 + ihl + 6] as int + m[8 + ihl + 7] as int) as u16)
        } else {
            Option::None
        }
    } else {
        Option::None
    }
}

/// Classification of the ICMP message `m` (any IP header already skipped).
/// `fallback` is the sequence of the request currently in flight, used when
/// an error message is too short to carry the provoking sequence; `ttl` is
/// the value read from the IP header where one was present, zero otherwise.
pub open spec fn classify_icmp(m: Seq<u8>, fallback: u16, ttl: u8) -> ReplyClassification {
    if m.len() < 8 {
        ReplyClassification::Noise
    } else if m[0] == 0 || m[0] == 129 {
        if m[0] == 0 && !checksum_ok(m) {
            ReplyClassification::Malformed
        } else {
            ReplyClassification::Echo { seq: seq16(m), ttl, nbytes: m.len() as usize }
        }
    } else if reported_error(m[0], m[1]) {
        let seq = match embedded_seq(m) {
            Option::Some(s) => s,
            Option::None => fallback,
        };
        ReplyClassification::Error { mtype: m[0], code: m[1], seq }
    } else {
        ReplyClassification::Noise
    }
}

/// Classification of one whole datagram read.  With `ip_header` the read
/// began with the IP header (a raw V4 socket): its length nibble locates the
/// ICMP message and its octet 8 is the TTL.  Without, the kernel already
/// stripped the header (datagram V4 and all V6 sockets) and the read is the
/// ICMP message itself.
pub open spec fn classify_spec(b: Seq<u8>, fallback: u16, ip_header: bool) -> ReplyClassification {
    if ip_header {
        if b.len() < 1 {
            ReplyClassification::Noise
        } else {
            let nib = b[0] as int % 16;
            if nib < 5 || b.len() < 4 * nib {
                ReplyClassification::Noise
            } else {
                classify_icmp(b.skip(4 * nib), fallback, b[8])
            }
        }
    } else {
        classify_icmp(b, fallback, 0)
    }
}

/// Fold the words of a received message: a packet is intact exactly when the
/// complement of its folded sum is zero, that is, when the sum folds to
/// 0xFFFF.
#[verifier::loop_isolation(false)]
pub fn check_checksum(bytes: &[u8]) -> (r: bool)
    requires
        bytes@.len() <= MAX_SUM_LEN,
    ensures
        r == checksum_ok(bytes@),
{
    let n: usize = bytes.len();
    let mut chck: u32 = 0;
    let mut i: usize = 0;
    while i < n
        invariant
            i <= n,
            i % 2 == 0 || i == n,
            chck as int == sum_words_prefix(bytes@, (i as int + 1) / 2),
            chck as int <= ((i as int + 1) / 2) * 0xFFFF,
        decreases n - i,
    {
        proof {
            crate::checksum::lemma_word_at_bounds(bytes@, i as int / 2);
            lemma_sum_prefix_bounds(bytes@, (i as int + 1) / 2);
        }
        let hi: u32 = bytes[i] as u32;
        let part: u32 = if i + 1 < n {
            hi * 256 + bytes[i + 1] as u32
        } else {
            hi * 256
        };
        chck = chck + part;
        i = if i + 1 < n {
            i + 2
        } else {
            i + 1
        };
    }
    let ghost total = chck as int;
    while chck > 0xFFFF
        invariant
            fold_carries(chck as int) == fold_carries(total),
        decreases chck,
    {
        chck = chck % 0x10000 + chck / 0x10000;
    }
    let complement: u16 = (0xFFFFu32 - chck) as u16;
    complement == 0
}

/// The diagnostic text of a reported ICMP error message, per RFC 792.
pub open spec fn error_text_spec(mtype: u8, code: u8) -> Option<Seq<char>> {
    if mtype == 3 && code == 0 {
        Option::Some("Destination Network Unreachable"@)
    } else if mtype == 3 && code == 1 {
        Option::Some("Destination Host Unreachable"@)
    } else if mtype == 3 && code == 2 {
        Option::Some("Destination Protocol Unreachable"@)
    } else if mtype == 3 && code == 3 {
        Option::Some("Destination Port Unreachable"@)
    } else if mtype == 3 && code == 4 {
        Option::Some("Fragmentation Needed"@)
    } else if mtype == 3 && code == 5 {
        Option::Some("Source Route Failed"@)
    } else if mtype == 4 && code == 0 {
        Option::Some("Source Quench"@)
    } else if mtype == 11 && code == 0 {
        Option::Some("Time to Live Exceeded"@)
    } else if mtype == 11 && code == 1 {
        Option::Some("Fragment Reassembly Time Exceeded"@)
    } else if mtype == 12 && code == 0 {
        Option::Some("Parameter Problem"@)
    } else {
        Option::None
    }
}

/// The diagnostic text of an ICMP error message, `None` for a pair that is
/// not reported.  The shell prints it beside the provoking sequence number.
pub fn parse_error(mtype: u8, code: u8) -> (r: Option<&'static str>)
    ensures
        r is Some <==> reported_error(mtype, code),
        r is Some ==> Option::Some(r->0@) == error_text_spec(mtype, code),
{
    match (mtype, code) {
        (3, 0) => Some("Destination Network Unreachable"),
        (3, 1) => Some("Destination Host Unreachable"),
        (3, 2) => Some("Destination Protocol Unreachable"),
        (3, 3) => Some("Destination Port Unreachable"),
        (3, 4) => Some("Fragmentation Needed"),
        (3, 5) => Some("Source Route Failed"),
        (4, 0) => Some("Source Quench"),
        (11, 0) => Some("Time to Live Exceeded"),
        (11, 1) => Some("Fragment Reassembly Time Exceeded"),
        (12, 0) => Some("Parameter Problem"),
        _ => None,
    }
}

/// The diagnostic text beside a request whose reply never came.
pub fn timeout_text() -> (r: &'static str)
    ensures
        r@ == "Packet Timed Out"@,
{
    "Packet Timed Out"
}

/// Extract the provoking sequence from the body of an ICMP error message,
/// when the message is long enough to carry it.
fn extract_embedded_seq(m: &[u8]) -> (r: Option<u16>)
    ensures
        r == embedded_seq(m@),
{
    if m.len() < 9 {
        return None;
    }
    let nib = (m[8] % 16) as usize;
    let ihl = 4 * nib;
    if nib >= 5 && m.len() >= 8 + ihl + 8 {
        Some((m[8 + ihl + 6] as u16) * 256 + (m[8 + ihl + 7] as u16))
    } else {
        None
    }
}

/// Classify the ICMP message `m` (any IP header already skipped).
fn classify_inner(m: &[u8], fallback: u16, ttl: u8) -> (r: ReplyClassification)
    requires
        m@.len() <= MAX_SUM_LEN,
    ensures
        r == classify_icmp(m@, fallback, ttl),
{
    let n = m.len();
    if n < 8 {
        return ReplyClassification::Noise;
    }
    let t = m[0];
    if t == 0 || t == 129 {
        let seq: u16 = (m[6] as u16) * 256 + (m[7] as u16);
        if t == 0 && !check_checksum(m) {
            ReplyClassification::Malformed
        } else {
            ReplyClassification::Echo { seq, ttl, nbytes: n }
        }
    } else if (t == 3 && m[1] <= 5) || (t == 4 && m[1] == 0) || (t == 11 && m[1] <= 1) || (t == 12
        && m[1] == 0) {
        let seq = match extract_embedded_seq(m) {
            Some(s) => s,
            None => fallback,
        };
        ReplyClassification::Error { mtype: t, code: m[1], seq }
    } else {
        ReplyClassification::Noise
    }
}

/// Classify one datagram read from the socket.  `fallback_seq` is the
/// sequence of the request in flight; `ip_header` says whether the read
/// begins with the IP header (raw V4 socket).
pub fn classify(buf: &[u8], fallback_seq: u16, ip_header: bool) -> (r: ReplyClassification)
    requires
        buf@.len() <= MAX_SUM_LEN,
    ensures
        r == classify_spec(buf@, fallback_seq, ip_header),
{
    if ip_header {
        if buf.len() < 1 {
            return ReplyClassification::Noise;
        }
        let nib = (buf[0] % 16) as usize;
        let ihl = 4 * nib;
        if nib < 5 || buf.len() < ihl {
            return ReplyClassification::Noise;
        }
        let ttl = buf[8];
        let m = &buf[ihl..buf.len()];
        proof {
            assert(m@ =~= buf@.skip(4 * (buf@[0] as int % 16)));
        }
        classify_inner(m, fallback_seq, ttl)
    } else {
        classify_inner(buf, fallback_seq, 0)
    }
}

// --- the synthetic responders of the round-trip laws ---

/// The loopback responder: turn an echo request into the reply its
/// destination would send: the type octet becomes the reply type (0 for
/// ICMP, 129 for ICMPv6) and the checksum is recomputed.  The classifier
/// reads the result as an `Echo` carrying exactly the sequence that was
/// sent, whatever request the builder had produced.
pub fn make_echo_reply(req: &Vec<u8>) -> (r: Vec<u8>)
    requires
        req@.len() >= 8,
        req@.len() <= MAX_SUM_LEN,
        req@[0] == 8 || req@[0] == 128,
    ensures
        r@.len() == req@.len(),
        forall|fb: u16, ttl: u8| #[trigger] classify_icmp(r@, fb, ttl)
            == (ReplyClassification::Echo { seq: seq16(req@), ttl, nbytes: req@.len() as usize }),
{
    let reply_type: u8 = if req[0] == 8 {
        0
    } else {
        129
    };
    let mut r: Vec<u8> = Vec::new();
    r.push(reply_type);
    let mut i: usize = 1;
    while i < req.len()
        invariant
            1 <= i <= req@.len(),
            r@.len() == i,
            r@[0] == (if req@[0] == 8 {
                0u8
            } else {
                129u8
            }),
            forall|j: int| 1 <= j < i ==> r@[j] == req@[j],
        decreases req@.len() - i,
    {
        let b = req[i];
        r.push(b);
        i += 1;
    }
    let ghost pre = r@;
    calc_checksum_g(0, &mut r, true);
    proof {
        let z = pre.update(2, 0u8).update(3, 0u8);
        lemma_sum_prefix_bounds(z, crate::checksum::num_words(z));
        lemma_checksum_completes(z, sum_words(z));
        lemma_checksum_completes_for_reply(req@, r@);
    }
    r
}

/// The classification facts about the patched reply buffer.
proof fn lemma_checksum_completes_for_reply(req: Seq<u8>, m: Seq<u8>)
    requires
        req.len() >= 8,
        m.len() == req.len(),
        m[0] == (if req[0] == 8 {
            0u8
        } else {
            129u8
        }),
        (req[0] == 8 || req[0] == 128),
        m[6] == req[6],
        m[7] == req[7],
        m[0] == 0 ==> checksum_ok(m),
    ensures
        forall|fb: u16, ttl: u8| #[trigger] classify_icmp(m, fb, ttl)
            == (ReplyClassification::Echo { seq: seq16(req), ttl, nbytes: req.len() as usize }),
{
    assert forall|fb: u16, ttl: u8| #[trigger] classify_icmp(m, fb, ttl)
        == (ReplyClassification::Echo {
        seq: seq16(req),
        ttl,
        nbytes: req.len() as usize,
    }) by {
        assert(seq16(m) == seq16(req));
    }
}

/// The error responder: an ICMP error message of the given type and code
/// wrapping the sender's packet behind a minimal (20-octet) IP header, the
/// shape a router reporting on our request would emit.  For a reported
/// (type, code) pair the classifier reads the result as that error, carrying
/// the sequence of the wrapped request.
pub fn make_error_reply(mtype: u8, code: u8, req: &Vec<u8>) -> (r: Vec<u8>)
    requires
        req@.len() >= 8,
        req@.len() + 28 <= MAX_SUM_LEN,
        mtype != 0 && mtype != 129,
    ensures
        r@.len() == 28 + req@.len(),
        reported_error(mtype, code) ==> forall|fb: u16, ttl: u8| #[trigger] classify_icmp(
            r@,
            fb,
            ttl,
        ) == (ReplyClassification::Error { mtype, code, seq: seq16(req@) }),
{
    let mut r: Vec<u8> = Vec::new();
    // the error message's own header
    r.push(mtype);
    r.push(code);
    r.push(0);
    r.push(0);
    r.push(0);
    r.push(0);
    r.push(0);
    r.push(0);
    // a minimal IP header for the offending packet: version 4, length 5 words
    r.push(0x45);
    let mut k: usize = 0;
    while k < 19
        invariant
            k <= 19,
            r@.len() == 9 + k,
            r@[0] == mtype,
            r@[1] == code,
            r@[8] == 0x45,
        decreases 19 - k,
    {
        r.push(0);
        k += 1;
    }
    // the offending packet itself
    let mut i: usize = 0;
    while i < req.len()
        invariant
            i <= req@.len(),
            r@.len() == 28 + i,
            r@[0] == mtype,
            r@[1] == code,
            r@[8] == 0x45,
            forall|j: int| 28 <= j < 28 + i ==> r@[j] == req@[j - 28],
        decreases req@.len() - i,
    {
        let b = req[i];
        r.push(b);
        i += 1;
    }
    proof {
        if reported_error(mtype, code) {
            assert(r@[8] as int % 16 == 5);
            assert(embedded_seq(r@) == Option::Some(seq16(req@)));
            assert forall|fb: u16, ttl: u8| #[trigger] classify_icmp(r@, fb, ttl)
                == (ReplyClassification::Error { mtype, code, seq: seq16(req@) }) by {
                assert(r@.len() >= 8);
                assert(r@[0] == mtype && mtype != 0 && mtype != 129);
            }
        }
    }
    r
}

// --- per-round accounting ---

/// What one sent request came to in the end.
#[derive(Clone, Copy, Debug, PartialEq, Eq, Structural)]
pub enum RoundOutcome {
    /// An echo reply acknowledged it.
    Acked,
    /// It timed out, came back malformed, or provoked an ICMP error.
    Lost,
    /// It was abandoned (stop during the wait) or the datagram was noise.
    Discarded,
}

/// How a classification counts: an echo reply acknowledges the request, a
/// reported error or a malformed reply is a loss, noise is discarded.
pub open spec fn round_outcome_spec(c: ReplyClassification) -> RoundOutcome {
    match c {
        ReplyClassification::Echo { .. } => RoundOutcome::Acked,
        ReplyClassification::Error { .. } => RoundOutcome::Lost,
        ReplyClassification::Malformed => RoundOutcome::Lost,
        ReplyClassification::Noise => RoundOutcome::Discarded,
    }
}

pub fn round_outcome(c: &ReplyClassification) -> (r: RoundOutcome)
    ensures
        r == round_outcome_spec(*c),
{
    match c {
        ReplyClassification::Echo { .. } => RoundOutcome::Acked,
        ReplyClassification::Error { .. } => RoundOutcome::Lost,
        ReplyClassification::Malformed => RoundOutcome::Lost,
        ReplyClassification::Noise => RoundOutcome::Discarded,
    }
}

/// What the receive worker's spin-wait saw for one outstanding request.
pub enum RecvEvent {
    /// A datagram arrived: its bytes as read.
    Reply(Vec<u8>),
    /// The reply timeout elapsed first.
    TimedOut,
    /// A stop message arrived first.
    Stopped,
}

/// The receiver's decision for one outstanding request.
#[derive(Clone, Copy, Debug, PartialEq, Eq, Structural)]
pub struct RecvStep {
    /// How the datagram read, where one arrived.
    pub classification: Option<ReplyClassification>,
    /// What the round contributes to the statistics.
    pub outcome: RoundOutcome,
    /// Whether the session ends here.
    pub stop: bool,
}

/// The receiver's decision: a datagram is classified and counted by its
/// classification; a timeout is a loss; a stop message ends the session and
/// the pending request is discarded, not counted as a loss.
pub open spec fn receiver_step_spec(seq: u16, ev: RecvEvent, ip_header: bool) -> RecvStep {
    match ev {
        RecvEvent::Reply(d) => {
            let c = classify_spec(d@, seq, ip_header);
            RecvStep {
                classification: Option::Some(c),
                outcome: round_outcome_spec(c),
                stop: false,
            }
        },
        RecvEvent::TimedOut => RecvStep {
            classification: Option::None,
            outcome: RoundOutcome::Lost,
            stop: false,
        },
        RecvEvent::Stopped => RecvStep {
            classification: Option::None,
            outcome: RoundOutcome::Discarded,
            stop: true,
        },
    }
}

/// Decide one round on the receive side.
pub fn receiver_step(seq: u16, ev: &RecvEvent, ip_header: bool) -> (r: RecvStep)
    requires
        ev matches RecvEvent::Reply(d) ==> d@.len() <= MAX_SUM_LEN,
    ensures
        r == receiver_step_spec(seq, *ev, ip_header),
{
    match ev {
        RecvEvent::Reply(d) => {
            let c = classify(d.as_slice(), seq, ip_header);
            RecvStep { classification: Some(c), outcome: round_outcome(&c), stop: false }
        },
        RecvEvent::TimedOut => RecvStep {
            classification: None,
            outcome: RoundOutcome::Lost,
            stop: false,
        },
        RecvEvent::Stopped => RecvStep {
            classification: None,
            outcome: RoundOutcome::Discarded,
            stop: true,
        },
    }
}

/// The receiver's decision on the terminal stop message itself: a datagram
/// still pending on the socket is discarded.
pub fn stop_outcome(data_pending: bool) -> (r: Option<RoundOutcome>)
    ensures
        r == if data_pending {
            Option::Some(RoundOutcome::Discarded)
        } else {
            Option::<RoundOutcome>::None
        },
{
    if data_pending {
        Some(RoundOutcome::Discarded)
    } else {
        None
    }
}

// --- tallying ---

/// How many of the outcomes in `s` are `o`.
pub open spec fn count_outcome(s: Seq<RoundOutcome>, o: RoundOutcome) -> int
    decreases s.len(),
{
    if s.len() == 0 {
        0
    } else {
        count_outcome(s.drop_last(), o) + if s.last() == o {
            1int
        } else {
            0int
        }
    }
}

/// Every round has exactly one outcome, so the three counts partition the
/// rounds: acked + lost + discarded equals the number of rounds.
pub proof fn lemma_outcomes_partition(s: Seq<RoundOutcome>)
    ensures
        count_outcome(s, RoundOutcome::Acked) + count_outcome(s, RoundOutcome::Lost)
            + count_outcome(s, RoundOutcome::Discarded) == s.len(),
        count_outcome(s, RoundOutcome::Acked) >= 0,
        count_outcome(s, RoundOutcome::Lost) >= 0,
        count_outcome(s, RoundOutcome::Discarded) >= 0,
    decreases s.len(),
{
    if s.len() > 0 {
        lemma_outcomes_partition(s.drop_last());
    }
}

/// Count a session's outcomes: acknowledged, lost, discarded.  The counts
/// partition the rounds: their sum is the number of rounds.
#[verifier::loop_isolation(false)]
pub fn tally_outcomes(outcomes: &Vec<RoundOutcome>) -> (r: (u32, u32, u32))
    requires
        outcomes@.len() <= u32::MAX,
    ensures
        r.0 == count_outcome(outcomes@, RoundOutcome::Acked),
        r.1 == count_outcome(outcomes@, RoundOutcome::Lost),
        r.2 == count_outcome(outcomes@, RoundOutcome::Discarded),
        r.0 + r.1 + r.2 == outcomes@.len(),
{
    let n = outcomes.len();
    let mut acked: u32 = 0;
    let mut lost: u32 = 0;
    let mut discarded: u32 = 0;
    let mut i: usize = 0;
    proof {
        assert(outcomes@.take(0) =~= Seq::<RoundOutcome>::empty());
    }
    while i < n
        invariant
            i <= n,
            acked == count_outcome(outcomes@.take(i as int), RoundOutcome::Acked),
            lost == count_outcome(outcomes@.take(i as int), RoundOutcome::Lost),
            discarded == count_outcome(outcomes@.take(i as int), RoundOutcome::Discarded),
            acked + lost + discarded == i,
        decreases n - i,
    {
        proof {
            lemma_outcomes_partition(outcomes@.take(i as int));
            assert(outcomes@.take(i as int + 1).drop_last() =~= outcomes@.take(i as int));
            assert(outcomes@.take(i as int + 1).last() == outcomes@[i as int]);
        }
        match outcomes[i] {
            RoundOutcome::Acked => {
                acked = acked + 1;
            },
            RoundOutcome::Lost => {
                lost = lost + 1;
            },
            RoundOutcome::Discarded => {
                discarded = discarded + 1;
            },
        }
        i += 1;
    }
    proof {
        assert(outcomes@.take(n as int) =~= outcomes@);
        lemma_outcomes_partition(outcomes@);
    }
    (acked, lost, discarded)
}

/// The whole-session accounting law.  Take the outcomes the receive worker
/// recorded, one per sent request.  After the discard correction
/// (total = sent - discarded) and with the loss being what stayed
/// unacknowledged (loss = total - acked), the books balance for every
/// session: acked + loss + discarded equals the number of requests sent,
/// and neither the loss nor the corrected total is ever negative.
pub proof fn lemma_session_accounting(s: Seq<RoundOutcome>)
    ensures
        ({
            let sent = s.len() as int;
            let acked = count_outcome(s, RoundOutcome::Acked);
            let discarded = count_outcome(s, RoundOutcome::Discarded);
            let total = sent - discarded;
            let loss = total - acked;
            &&& acked + loss + discarded == sent
            &&& loss == count_outcome(s, RoundOutcome::Lost)
            &&& 0 <= loss
            &&& 0 <= total
        }),
{
    lemma_outcomes_partition(s);
}

/// Final statistics: discarded sends are taken out of the total, and the
/// loss is what remains unacknowledged.  When the counters are consistent
/// (no more acknowledged and discarded than sent), the report satisfies
/// acked + loss + discarded == sent.
pub fn finalize_stats(sent: u32, acked: u32, discarded: u32) -> (r: RingStats)
    ensures
        r.successful == acked,
        r.packet_sent == (if discarded <= sent {
            (sent - discarded) as u32
        } else {
            0u32
        }),
        r.loss == (if acked <= r.packet_sent {
            (r.packet_sent - acked) as u32
        } else {
            0u32
        }),
        acked + discarded <= sent ==> acked + r.loss + discarded == sent,
{
    let total: u32 = if discarded <= sent {
        sent - discarded
    } else {
        0
    };
    let loss: u32 = if acked <= total {
        total - acked
    } else {
        0
    };
    RingStats { packet_sent: total, successful: acked, loss }
}

/// The loss percentage of the final report: flooring division, an empty
/// session reported as lossless.
pub fn loss_percent(stats: &RingStats) -> (r: u64)
    ensures
        r == (if stats.packet_sent > 0 {
            stats.loss as int * 100 / stats.packet_sent as int
        } else {
            0int
        }),
{
    if stats.packet_sent > 0 {
        (stats.loss as u64 * 100) / (stats.packet_sent as u64)
    } else {
        0
    }
}

// --- the send loop ---

/// The sender's state: the configured count (0 = unbounded), how many
/// requests are out, and whether the loop has ended.
#[derive(Clone, Copy, Debug, PartialEq, Eq, Structural)]
pub struct SenderState {
    pub count: u32,
    pub sent: u32,
    pub done: bool,
}

/// A fresh send loop for a session capped at `count` sends.
pub open spec fn sender_init(count: u32) -> SenderState {
    SenderState { count, sent: 0, done: false }
}

/// One round of the send loop: a request goes out, then the exit test is
/// taken with the stop flag as observed during the interval wait.  The
/// loop ends on the stop flag, or once a positive count is reached.
pub open spec fn sender_round_spec(s: SenderState, stop: bool) -> SenderState {
    if s.done {
        s
    } else {
        let sent2: u32 = if s.sent < u32::MAX {
            (s.sent + 1) as u32
        } else {
            s.sent
        };
        SenderState { count: s.count, sent: sent2, done: stop || (s.count > 0 && sent2 == s.count) }
    }
}

/// The sender's state after `k` rounds in which the stop flag never fired.
pub open spec fn sender_after(count: u32, k: nat) -> SenderState
    decreases k,
{
    if k == 0 {
        sender_init(count)
    } else {
        sender_round_spec(sender_after(count, (k - 1) as nat), false)
    }
}

/// A session with a positive count that is never stopped runs to
/// completion: through the first `count` rounds one request goes out per
/// round, the loop ends exactly at round `count`, and no later round sends,
/// so such a session sends exactly `count` requests.
pub proof fn lemma_session_completion(count: u32, k: nat)
    requires
        0 < count,
    ensures
        sender_after(count, k).count == count,
        sender_after(count, k).sent == (if k <= count {
            k as int
        } else {
            count as int
        }),
        sender_after(count, k).done <==> k >= count,
    decreases k,
{
    if k > 0 {
        lemma_session_completion(count, (k - 1) as nat);
    }
}

/// Run one round of the send loop (the shell performs the actual send and
/// the interval wait): count the send and take the exit test.  Returns
/// whether the loop goes on.
pub fn sender_round(s: &mut SenderState, stop: bool) -> (cont: bool)
    ensures
        *final(s) == sender_round_spec(*old(s), stop),
        cont == !final(s).done,
{
    if !s.done {
        if s.sent < u32::MAX {
            s.sent = s.sent + 1;
        }
        if stop || (s.count > 0 && s.sent == s.count) {
            s.done = true;
        }
    }
    !s.done
}

} // verus!
