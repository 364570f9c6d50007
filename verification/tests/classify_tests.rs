use ring::iputils::EchoICMP;
use ring::ring_impl::{
    classify, make_echo_reply, make_error_reply, parse_error, ReplyClassification,
};

fn advanced_request() -> Vec<u8> {
    let mut e = EchoICMP::new_v4();
    let mut buf = vec![0u8; 29];
    e.init_bytes(&mut buf);
    e.increase_seq(&mut buf);
    e.update_bytes(&mut buf);
    buf
}

#[test]
fn loopback_responder_classifies_as_echo_of_sent_sequence() {
    let mut e = EchoICMP::new_v4();
    let mut buf = vec![0u8; 29];
    e.init_bytes(&mut buf);
    for k in 1..=5u16 {
        e.increase_seq(&mut buf);
        e.update_bytes(&mut buf);
        let reply = make_echo_reply(&buf);
        assert_eq!(reply[0], 0);
        let c = classify(reply.as_slice(), 0, false);
        assert_eq!(
            c,
            ReplyClassification::Echo {
                seq: k,
                ttl: 0,
                nbytes: 29
            }
        );
    }
}

#[test]
fn v6_loopback_responder_classifies_as_echo() {
    let mut e = EchoICMP::new();
    let mut buf = vec![0u8; 29];
    e.init_bytes(&mut buf);
    e.increase_seq(&mut buf);
    e.update_bytes(&mut buf);
    let reply = make_echo_reply(&buf);
    assert_eq!(reply[0], 129);
    let c = classify(reply.as_slice(), 0, false);
    assert_eq!(
        c,
        ReplyClassification::Echo {
            seq: 1,
            ttl: 0,
            nbytes: 29
        }
    );
}

#[test]
fn error_responder_classifies_as_that_error_with_sent_sequence() {
    let req = advanced_request();
    let err = make_error_reply(3, 1, &req);
    let c = classify(err.as_slice(), 42, false);
    assert_eq!(
        c,
        ReplyClassification::Error {
            mtype: 3,
            code: 1,
            seq: 1
        }
    );
}

#[test]
fn ttl_exceeded_classified_and_described() {
    let req = advanced_request();
    let err = make_error_reply(11, 0, &req);
    let c = classify(err.as_slice(), 7, false);
    assert_eq!(
        c,
        ReplyClassification::Error {
            mtype: 11,
            code: 0,
            seq: 1
        }
    );
    assert_eq!(parse_error(11, 0), Some("Time to Live Exceeded"));
}

#[test]
fn short_read_is_noise() {
    let buf = vec![0u8; 7];
    assert_eq!(classify(buf.as_slice(), 3, false), ReplyClassification::Noise);
    let empty: Vec<u8> = Vec::new();
    assert_eq!(
        classify(empty.as_slice(), 3, false),
        ReplyClassification::Noise
    );
}

#[test]
fn corrupt_v4_reply_is_malformed() {
    let req = advanced_request();
    let mut reply = make_echo_reply(&req);
    reply[10] ^= 0x01;
    assert_eq!(
        classify(reply.as_slice(), 0, false),
        ReplyClassification::Malformed
    );
}

#[test]
fn unknown_type_and_unreported_code_are_noise() {
    let mut buf = vec![0u8; 16];
    buf[0] = 42;
    assert_eq!(classify(buf.as_slice(), 0, false), ReplyClassification::Noise);
    buf[0] = 3;
    buf[1] = 7; // destination-unreachable codes stop at 5
    assert_eq!(classify(buf.as_slice(), 0, false), ReplyClassification::Noise);
}

#[test]
fn error_without_embedded_packet_uses_outstanding_sequence() {
    let buf = vec![4u8, 0, 0, 0, 0, 0, 0, 0];
    assert_eq!(
        classify(buf.as_slice(), 17, false),
        ReplyClassification::Error {
            mtype: 4,
            code: 0,
            seq: 17
        }
    );
}

#[test]
fn raw_read_skips_ip_header_and_reads_ttl() {
    let req = advanced_request();
    let reply = make_echo_reply(&req);
    let mut datagram = vec![0u8; 20];
    datagram[0] = 0x45; // version 4, header length 5 words
    datagram[8] = 57; // TTL
    datagram.extend_from_slice(&reply);
    let c = classify(datagram.as_slice(), 0, true);
    assert_eq!(
        c,
        ReplyClassification::Echo {
            seq: 1,
            ttl: 57,
            nbytes: 29
        }
    );
}

#[test]
fn raw_read_with_bad_header_nibble_is_noise() {
    let mut datagram = vec![0u8; 40];
    datagram[0] = 0x42; // header length 2 words: impossible
    assert_eq!(classify(datagram.as_slice(), 0, true), ReplyClassification::Noise);
}

#[test]
fn error_texts_follow_rfc_792() {
    assert_eq!(parse_error(3, 0), Some("Destination Network Unreachable"));
    assert_eq!(parse_error(3, 1), Some("Destination Host Unreachable"));
    assert_eq!(parse_error(3, 2), Some("Destination Protocol Unreachable"));
    assert_eq!(parse_error(3, 3), Some("Destination Port Unreachable"));
    assert_eq!(parse_error(3, 4), Some("Fragmentation Needed"));
    assert_eq!(parse_error(3, 5), Some("Source Route Failed"));
    assert_eq!(parse_error(4, 0), Some("Source Quench"));
    assert_eq!(parse_error(11, 1), Some("Fragment Reassembly Time Exceeded"));
    assert_eq!(parse_error(12, 0), Some("Parameter Problem"));
    assert_eq!(parse_error(3, 6), None);
    assert_eq!(parse_error(4, 1), None);
    assert_eq!(parse_error(0, 0), None);
    assert_eq!(parse_error(129, 0), None);
}
