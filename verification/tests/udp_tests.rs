use tunnet::protocol::protocol::Checksummable;
use tunnet::protocol::udp_packet::UdpPacket;

#[test]
fn udp_header_fields() {
    let raw = [0x04u8, 0xd2, 0x16, 0x2e, 0x00, 0x0a, 0x68, 0x6e, b'h', b'i'];
    let packet = UdpPacket::new(&raw);
    assert_eq!(packet.get_source_port(), 1234);
    assert_eq!(packet.get_destination_port(), 5678);
    assert_eq!(packet.get_length(), 10);
    assert_eq!(packet.get_checksum(), 0x686e);
    assert_eq!(packet.payload(), b"hi");
}

#[test]
fn build_udp_packet_exact_bytes() {
    let packet = UdpPacket::build_udp_packet([10, 0, 0, 1], [10, 0, 0, 2], 1234, 5678, b"hi");
    assert_eq!(packet, vec![0x04, 0xd2, 0x16, 0x2e, 0x00, 0x0a, 0x68, 0x6e, b'h', b'i']);
}

#[test]
fn built_udp_packet_reads_back() {
    let payload = [1u8, 2, 3, 4, 5];
    let packet = UdpPacket::build_udp_packet([192, 168, 0, 1], [8, 8, 8, 8], 53000, 53, &payload);
    let view = UdpPacket::new(&packet);
    assert_eq!(view.get_source_port(), 53000);
    assert_eq!(view.get_destination_port(), 53);
    assert_eq!(view.get_length(), 13);
    assert_eq!(view.payload(), &payload[..]);
    assert_ne!(view.get_checksum(), 0);
}

#[test]
fn built_udp_packet_verifies_with_pseudo_header() {
    let src = [172u8, 16, 0, 9];
    let dst = [172u8, 16, 0, 10];
    let payload = b"hello, world";
    let packet = UdpPacket::build_udp_packet(src, dst, 40000, 7, payload);
    let len = packet.len() as u16;
    let mut whole = Vec::new();
    whole.extend_from_slice(&src);
    whole.extend_from_slice(&dst);
    whole.push(0);
    whole.push(17);
    whole.extend_from_slice(&len.to_be_bytes());
    whole.extend_from_slice(&packet);
    assert_eq!(UdpPacket::calc_checksum(&whole), 0);
}

#[test]
fn udp_zero_checksum_is_sent_as_all_ones() {
    let packet = UdpPacket::build_udp_packet([10, 0, 0, 1], [10, 0, 0, 2], 1234, 5678, &[208, 215]);
    assert_eq!(packet, vec![0x04, 0xd2, 0x16, 0x2e, 0x00, 0x0a, 0xff, 0xff, 208, 215]);
}

#[test]
fn udp_empty_payload() {
    let packet = UdpPacket::build_udp_packet([1, 2, 3, 4], [5, 6, 7, 8], 1, 2, &[]);
    assert_eq!(packet.len(), 8);
    assert_eq!(UdpPacket::new(&packet).get_length(), 8);
    assert!(UdpPacket::new(&packet).payload().is_empty());
}

