use tunnet::protocol::icmp_packet::ICMPPacket;
use tunnet::protocol::protocol::{Checksummable, Protocol};
use tunnet::protocol::udp_packet::UdpPacket;

#[test]
fn checksum_of_rfc1071_example() {
    let data = [0x00u8, 0x01, 0xf2, 0x03, 0xf4, 0xf5, 0xf6, 0xf7];
    assert_eq!(ICMPPacket::calc_checksum(&data), 0x220d);
}

#[test]
fn checksum_pads_odd_trailing_byte() {
    assert_eq!(UdpPacket::calc_checksum(&[0x01]), 0xfeff);
    assert_eq!(UdpPacket::calc_checksum(&[0x01, 0x00]), 0xfeff);
}

#[test]
fn checksum_of_zeros_is_all_ones() {
    assert_eq!(ICMPPacket::calc_checksum(&[0, 0, 0, 0]), 0xffff);
}

#[test]
fn checksum_folds_carries() {
    // 0xffff + 0xffff = 0x1fffe, folded to 0xffff, complemented to 0.
    assert_eq!(ICMPPacket::calc_checksum(&[0xff, 0xff, 0xff, 0xff]), 0x0000);
    // 0xff00 + 0x0100 = 0x10000, folded to 0x0001.
    assert_eq!(ICMPPacket::calc_checksum(&[0xff, 0x00, 0x01, 0x00]), 0xfffe);
}

#[test]
fn inserted_checksum_verifies() {
    let mut data = vec![0x45u8, 0x00, 0x00, 0x1c, 0x12, 0x34, 0x00, 0x00, 0x40, 0x01, 0x00, 0x00, 10, 0, 0, 1, 10, 0, 0, 2];
    let c = ICMPPacket::calc_checksum(&data);
    data[10] = (c >> 8) as u8;
    data[11] = (c & 0xff) as u8;
    assert_eq!(ICMPPacket::calc_checksum(&data), 0);
}

#[test]
fn protocol_numbers() {
    assert_eq!(Protocol::from(1u8), Protocol::Icmp);
    assert_eq!(Protocol::from(17u8), Protocol::Udp);
    assert_eq!(Protocol::from(6u8), Protocol::Unknown);
    assert_eq!(Protocol::from(255u8), Protocol::Unknown);
    assert_eq!(Protocol::Icmp.number(), 1);
    assert_eq!(Protocol::Udp.number(), 17);
    assert_eq!(Protocol::Unknown.number(), 255);
}

#[test]
fn checksum_ignores_word_order_and_zero_padding() {
    let data = [0x12u8, 0x34, 0xab, 0xcd, 0x00, 0x07];
    let permuted = [0x00u8, 0x07, 0x12, 0x34, 0xab, 0xcd];
    let c = ICMPPacket::calc_checksum(&data);
    assert_eq!(ICMPPacket::calc_checksum(&permuted), c);
    assert_eq!(ICMPPacket::calc_checksum(&[0x12, 0x34, 0xab, 0xcd, 0x00, 0x07, 0x00]), c);
    assert_eq!(ICMPPacket::calc_checksum(&[0x12, 0x34, 0xab, 0xcd, 0x00, 0x07, 0x00, 0x00]), c);
}

#[test]
fn word_sum_fits_only_up_to_the_32_bit_limit() {
    assert!(tunnet::protocol::checksum::word_sum_fits_u32(&[]));
    assert!(tunnet::protocol::checksum::word_sum_fits_u32(&[0xff; 131074]));
    assert!(!tunnet::protocol::checksum::word_sum_fits_u32(&[0xff; 131076]));
    assert!(!tunnet::protocol::checksum::word_sum_fits_u32(&[0xff; 131075]));
}
