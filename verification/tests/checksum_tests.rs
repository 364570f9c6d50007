use ring::iputils::ip4::EchoICMPv4;
use ring::iputils::EchoICMP;
use ring::ring_impl::check_checksum;
use ring::utils::{calc_checksum_g, calculate_chksm_fast};

#[test]
fn fast_complement_of_zero() {
    let v: Vec<u8> = Vec::new();
    assert_eq!(calculate_chksm_fast(0, &v), 0xFFFF);
}

#[test]
fn fast_complement_of_folded_sum() {
    let v: Vec<u8> = Vec::new();
    assert_eq!(calculate_chksm_fast(0x1234, &v), 0xEDCB);
}

#[test]
fn fast_complement_uses_low_sixteen_bits() {
    let v: Vec<u8> = Vec::new();
    assert_eq!(calculate_chksm_fast(0x0003_0001, &v), 0xFFFE);
}

#[test]
fn general_checksum_writes_complement_in_place() {
    let mut bytes: Vec<u8> = vec![0x00, 0x01, 0xF2, 0x03];
    let ck = calc_checksum_g(0, &mut bytes, true);
    // after zeroing the checksum octets the only word is 0x0001
    assert_eq!(ck, 0xFFFE);
    assert_eq!(bytes, vec![0x00, 0x01, 0xFF, 0xFE]);
}

#[test]
fn general_checksum_can_leave_buffer_zeroed() {
    let mut bytes: Vec<u8> = vec![0x00, 0x01, 0xF2, 0x03];
    let ck = calc_checksum_g(0, &mut bytes, false);
    assert_eq!(ck, 0xFFFE);
    assert_eq!(bytes, vec![0x00, 0x01, 0x00, 0x00]);
}

#[test]
fn folded_sum_of_known_vector() {
    // the classic worked example: words 0001 f203 f4f5 f6f7 sum to 2ddf0,
    // which folds to ddf2.  The expected value is fixed by the big-endian
    // word order, whatever the machine's own byte order.
    let bytes: Vec<u8> = vec![0x00, 0x01, 0xF2, 0x03, 0xF4, 0xF5, 0xF6, 0xF7];
    let mut e = EchoICMP::new();
    assert_eq!(e.calc_checksum(bytes.as_slice()), 0xDDF2);
}

#[test]
fn unfolded_sum_of_known_vector() {
    let bytes: Vec<u8> = vec![0x00, 0x01, 0xF2, 0x03, 0xF4, 0xF5, 0xF6, 0xF7];
    let mut e = EchoICMPv4::new();
    assert_eq!(e.calc_checksum(bytes.as_slice()), 0x0002_DDF0);
}

#[test]
fn odd_length_checksummed_as_if_padded() {
    // an odd buffer is summed with a phantom zero octet: appending a real
    // zero gives the same folded sum, though the wire packet stays shorter
    let odd: Vec<u8> = vec![0x12, 0x34, 0x56];
    let padded: Vec<u8> = vec![0x12, 0x34, 0x56, 0x00];
    let mut e = EchoICMP::new();
    assert_eq!(
        e.calc_checksum(odd.as_slice()),
        e.calc_checksum(padded.as_slice())
    );
    assert_eq!(odd.len(), 3);
}

#[test]
fn check_checksum_accepts_valid_and_rejects_corrupt() {
    let mut bytes: Vec<u8> = vec![0x08, 0x00, 0x00, 0x00, 0x12, 0x34, 0x00, 0x01];
    calc_checksum_g(0, &mut bytes, true);
    assert!(check_checksum(bytes.as_slice()));
    bytes[5] ^= 0x10;
    assert!(!check_checksum(bytes.as_slice()));
}
