use tunnet::protocol::packet_handler::{can_handle_packet, handle_packet, PacketAction};
use tunnet::protocol::port_registry::PortRegistry;
use tunnet::protocol::udp_packet::{build_udp_send_packet, UdpPacket};
use tunnet::protocol::ip_packet::IPV4Packet;
use tunnet::protocol::protocol::Protocol;

fn ipv4(src: [u8; 4], dst: [u8; 4], protocol: u8, payload: &[u8]) -> Vec<u8> {
    let mut raw = vec![0x45u8, 0, 0, 0, 0, 0, 0, 0, 64, protocol, 0, 0];
    raw.extend_from_slice(&src);
    raw.extend_from_slice(&dst);
    raw.extend_from_slice(payload);
    raw
}

#[test]
fn echo_request_gets_reply_packet() {
    let raw = ipv4([10, 0, 0, 2], [10, 0, 0, 1], 1, &[8, 0, 0xf7, 0xfd, 0, 1, 0, 1]);
    let registry: PortRegistry<u8> = PortRegistry::new();
    assert!(can_handle_packet(&raw, &registry));
    match handle_packet(&raw, &registry) {
        PacketAction::Reply(packet) => assert_eq!(
            packet,
            vec![
                0x45, 0, 0, 28, 0, 0, 0, 0, 64, 1, 0x66, 0xdf, 10, 0, 0, 1, 10, 0, 0, 2, 0, 0,
                0xff, 0xfd, 0, 1, 0, 1
            ]
        ),
        other => panic!("unexpected action {:?}", other),
    }
}

#[test]
fn other_icmp_and_unknown_protocols_are_ignored() {
    let registry: PortRegistry<u8> = PortRegistry::new();
    let reply = ipv4([1, 1, 1, 1], [2, 2, 2, 2], 1, &[0, 0, 0, 0]);
    assert!(matches!(handle_packet(&reply, &registry), PacketAction::Ignore));
    let tcp = ipv4([1, 1, 1, 1], [2, 2, 2, 2], 6, &[]);
    assert!(matches!(handle_packet(&tcp, &registry), PacketAction::Ignore));
    let ipv6 = vec![0x60u8, 0, 0, 0];
    assert!(can_handle_packet(&ipv6, &registry));
    assert!(matches!(handle_packet(&ipv6, &registry), PacketAction::Ignore));
    let empty: Vec<u8> = Vec::new();
    assert!(matches!(handle_packet(&empty, &registry), PacketAction::Ignore));
}

#[test]
fn udp_to_bound_port_is_delivered() {
    let datagram = UdpPacket::build_udp_packet([10, 0, 0, 2], [10, 0, 0, 1], 4000, 53, b"query");
    let raw = ipv4([10, 0, 0, 2], [10, 0, 0, 1], 17, &datagram);
    let mut registry: PortRegistry<u32> = PortRegistry::new();
    registry.register(53, 99).unwrap();
    assert!(can_handle_packet(&raw, &registry));
    match handle_packet(&raw, &registry) {
        PacketAction::Deliver { to, src_ip, src_port, payload } => {
            assert_eq!(to, 99);
            assert_eq!(src_ip, [10, 0, 0, 2]);
            assert_eq!(src_port, 4000);
            assert_eq!(payload, b"query".to_vec());
        }
        other => panic!("unexpected action {:?}", other),
    }
}

#[test]
fn udp_to_unbound_port_is_reported() {
    let datagram = UdpPacket::build_udp_packet([10, 0, 0, 2], [10, 0, 0, 1], 4000, 54, b"x");
    let raw = ipv4([10, 0, 0, 2], [10, 0, 0, 1], 17, &datagram);
    let registry: PortRegistry<u32> = PortRegistry::new();
    assert!(matches!(handle_packet(&raw, &registry), PacketAction::Unbound { port: 54 }));
}

#[test]
fn short_packets_are_not_handled() {
    let registry: PortRegistry<u32> = PortRegistry::new();
    assert!(!can_handle_packet(&[0x45u8, 0, 0], &registry));
    let short_icmp = ipv4([1, 1, 1, 1], [2, 2, 2, 2], 1, &[]);
    assert!(!can_handle_packet(&short_icmp, &registry));
    let short_echo = ipv4([1, 1, 1, 1], [2, 2, 2, 2], 1, &[8, 0]);
    assert!(!can_handle_packet(&short_echo, &registry));
    let short_udp = ipv4([1, 1, 1, 1], [2, 2, 2, 2], 17, &[0, 1, 0]);
    assert!(!can_handle_packet(&short_udp, &registry));
    let mut bound: PortRegistry<u32> = PortRegistry::new();
    bound.register(7, 1).unwrap();
    let header_cut = ipv4([1, 1, 1, 1], [2, 2, 2, 2], 17, &[0, 1, 0, 7, 0]);
    assert!(can_handle_packet(&header_cut, &registry));
    assert!(!can_handle_packet(&header_cut, &bound));
}

#[test]
fn udp_send_packet_wraps_datagram() {
    let packet = build_udp_send_packet([10, 0, 0, 1], [10, 0, 0, 2], 1234, 5678, b"hi");
    let datagram = UdpPacket::build_udp_packet([10, 0, 0, 1], [10, 0, 0, 2], 1234, 5678, b"hi");
    assert_eq!(
        packet,
        IPV4Packet::build_ipv4_packet([10, 0, 0, 2], [10, 0, 0, 1], Protocol::Udp, &datagram)
    );
    let view = IPV4Packet::new(&packet);
    assert_eq!(view.get_source_ip(), [10, 0, 0, 2]);
    assert_eq!(view.get_destination_ip(), [10, 0, 0, 1]);
    assert_eq!(view.payload(), &datagram[..]);
}
