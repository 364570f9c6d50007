use ring::error::RingError;
use ring::iputils::ip4::EchoICMPv4;
use ring::iputils::ip6::EchoICMPv6;
use ring::iputils::{default_data, EchoICMP, IP};
use ring::ring_impl::check_checksum;

#[test]
fn default_payload_is_the_21_octet_literal() {
    let d = default_data();
    assert_eq!(d.len(), 21);
    assert_eq!(d, b"SWIKISSSWIKISSSWIKISS".to_vec());
}

#[test]
fn fresh_builders() {
    let e6 = EchoICMP::new();
    assert_eq!(e6.echo_type, 128);
    assert_eq!(e6.code, 0);
    assert_eq!(e6.seq_num, 0);
    assert_eq!(e6.base_chcksm, 0);
    let e4 = EchoICMP::new_v4();
    assert_eq!(e4.echo_type, 8);
    let v4 = EchoICMPv4::new();
    assert_eq!(v4.echo_type, 8);
}

#[test]
fn init_lays_header_and_payload() {
    let mut e = EchoICMP::new_v4();
    let mut buf = vec![0xAAu8; 29];
    e.init_bytes(&mut buf);
    assert_eq!(&buf[0..8], &[8, 0, 0, 0, 0, 0, 0, 0]);
    assert_eq!(&buf[8..], b"SWIKISSSWIKISSSWIKISS");
    // the recorded base: the folded sum of the image (0x0800 + payload words)
    assert_eq!(e.base_chcksm, 0x7025);
}

#[test]
fn v4_builder_records_unfolded_base() {
    let mut e = EchoICMPv4::new();
    let mut buf = vec![0u8; 29];
    e.init_bytes(&mut buf);
    assert_eq!(e.base_chcksm, 0x0003_7022);
}

#[test]
fn advance_writes_sequence_and_valid_checksum() {
    let mut e = EchoICMP::new_v4();
    let mut buf = vec![0u8; 29];
    e.init_bytes(&mut buf);
    e.increase_seq(&mut buf);
    e.update_bytes(&mut buf);
    assert_eq!(e.seq_num, 1);
    assert_eq!((buf[6], buf[7]), (0, 1));
    assert_eq!((buf[2], buf[3]), (0x8F, 0xD9));
    // the RFC 1071 validity condition after init then advance
    assert!(check_checksum(buf.as_slice()));
}

#[test]
fn every_advance_keeps_the_packet_valid() {
    let mut e = EchoICMP::new();
    let mut buf = vec![0u8; 29];
    e.init_bytes(&mut buf);
    for k in 1..=300u16 {
        e.increase_seq(&mut buf);
        e.update_bytes(&mut buf);
        assert_eq!(e.seq_num, k);
        assert!(check_checksum(buf.as_slice()));
    }
}

#[test]
fn v4_update_bytes_advances_and_stays_valid() {
    let mut e = EchoICMPv4::new();
    let mut buf = vec![0u8; 29];
    e.init_bytes(&mut buf);
    e.update_bytes(&mut buf);
    assert_eq!(e.seq_num, 1);
    assert_eq!((buf[2], buf[3]), (0x8F, 0xD9));
    assert!(check_checksum(buf.as_slice()));
    e.update_bytes(&mut buf);
    assert_eq!(e.seq_num, 2);
    assert!(check_checksum(buf.as_slice()));
}

#[test]
fn sequence_wraps_at_the_16_bit_boundary() {
    let mut e = EchoICMP::new_v4();
    let mut buf = vec![0u8; 29];
    e.init_bytes(&mut buf);
    e.seq_num = 0xFFFF;
    e.increase_seq(&mut buf);
    assert_eq!(e.seq_num, 0);
    assert_eq!((buf[6], buf[7]), (0, 0));
    let mut v4 = EchoICMPv4::new();
    v4.seq_num = 0xFFFF;
    v4.increase_seq();
    assert_eq!(v4.seq_num, 0);
}

#[test]
fn empty_payload_rejected_at_construction() {
    let r = EchoICMP::with_payload(IP::V4, Vec::new());
    assert!(matches!(r, Err(RingError::ArgError)));
}

#[test]
fn custom_payload_accepted() {
    let e = EchoICMP::with_payload(IP::V4, vec![1, 2, 3]).unwrap();
    assert_eq!(e.echo_type, 8);
    assert_eq!(e.echo_data, vec![1, 2, 3]);
    let e6 = EchoICMP::with_payload(IP::V6, vec![9]).unwrap();
    assert_eq!(e6.echo_type, 128);
}

#[test]
fn oversized_payload_rejected() {
    let r = EchoICMP::with_payload(IP::V4, vec![0u8; 0xFFFF - 7]);
    assert!(r.is_err());
}

#[test]
fn odd_payload_packet_is_valid_and_not_padded() {
    let mut e = EchoICMP::with_payload(IP::V4, b"SWIKISS".to_vec()).unwrap();
    let mut buf = vec![0u8; 15];
    e.init_bytes(&mut buf);
    e.increase_seq(&mut buf);
    e.update_bytes(&mut buf);
    assert_eq!(buf.len(), 15);
    assert!(check_checksum(buf.as_slice()));
}

#[test]
fn icmpv6_record_defaults() {
    let r = EchoICMPv6::default();
    assert_eq!(r.source, [0u8; 12]);
    assert_eq!(r.destination, [0u8; 12]);
    assert_eq!(r.length, 15);
    assert_eq!(r.zeros, 0);
    assert_eq!(r.next_header, 58);
    assert_eq!(r.echo_type, 128);
    assert_eq!(r.code, 0);
    assert_eq!(r.seq_num, 1);
    assert_eq!(r.echo_data, default_data());
}
