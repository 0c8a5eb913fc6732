use tunnet::protocol::ip_packet::IPV4Packet;
use tunnet::protocol::protocol::{Checksummable, Protocol};

fn sample(protocol: u8) -> Vec<u8> {
    vec![
        0x45, 0x00, 0x00, 0x1e, 0x00, 0x01, 0x00, 0x00, 0x40, protocol, 0x00, 0x00, 192, 168, 1, 7,
        10, 0, 0, 1, 0xde, 0xad,
    ]
}

#[test]
fn ipv4_addresses() {
    let raw = sample(1);
    let packet = IPV4Packet::new(&raw);
    assert_eq!(packet.get_source_ip(), [192, 168, 1, 7]);
    assert_eq!(packet.get_destination_ip(), [10, 0, 0, 1]);
}

#[test]
fn ipv4_protocol() {
    assert_eq!(IPV4Packet::new(&sample(1)).protocol(), Protocol::Icmp);
    assert_eq!(IPV4Packet::new(&sample(17)).protocol(), Protocol::Udp);
    assert_eq!(IPV4Packet::new(&sample(6)).protocol(), Protocol::Unknown);
}

#[test]
fn ipv4_payload_follows_header() {
    let raw = sample(17);
    let packet = IPV4Packet::new(&raw);
    assert_eq!(packet.payload(), &[0xde, 0xad][..]);
    let header_only = &raw[..20];
    assert!(IPV4Packet::new(header_only).payload().is_empty());
}

#[test]
fn build_ipv4_packet_exact_header() {
    let packet = IPV4Packet::build_ipv4_packet([10, 0, 0, 1], [10, 0, 0, 2], Protocol::Icmp, &[0xab, 0xcd]);
    assert_eq!(
        packet,
        vec![
            0x45, 0, 0, 22, 0, 0, 0, 0, 64, 1, 0x66, 0xe5, 10, 0, 0, 1, 10, 0, 0, 2, 0xab, 0xcd
        ]
    );
}

#[test]
fn built_ipv4_packet_reads_back() {
    let payload = [9u8; 33];
    let packet = IPV4Packet::build_ipv4_packet([192, 168, 7, 1], [192, 168, 7, 200], Protocol::Udp, &payload);
    let view = IPV4Packet::new(&packet);
    assert_eq!(view.get_source_ip(), [192, 168, 7, 1]);
    assert_eq!(view.get_destination_ip(), [192, 168, 7, 200]);
    assert_eq!(view.protocol(), Protocol::Udp);
    assert_eq!(view.payload(), &payload[..]);
    assert_eq!(IPV4Packet::calc_checksum(&packet[..20]), 0);
}
