use tunnet::protocol::icmp_packet::{ICMPPacket, ICMPType};
use tunnet::protocol::protocol::Checksummable;

#[test]
fn icmp_type_from_number() {
    assert_eq!(ICMPType::from(0u8), ICMPType::EchoReply);
    assert_eq!(ICMPType::from(3u8), ICMPType::DestinationUnreachable);
    assert_eq!(ICMPType::from(4u8), ICMPType::SourceQuench);
    assert_eq!(ICMPType::from(5u8), ICMPType::Redirect);
    assert_eq!(ICMPType::from(8u8), ICMPType::EchoRequest);
    assert_eq!(ICMPType::from(11u8), ICMPType::TimeExceeded);
    assert_eq!(ICMPType::from(1u8), ICMPType::Unknown);
    assert_eq!(ICMPType::from(255u8), ICMPType::Unknown);
}

#[test]
fn icmp_type_numbers() {
    assert_eq!(ICMPType::EchoReply.number(), 0);
    assert_eq!(ICMPType::EchoRequest.number(), 8);
    assert_eq!(ICMPType::TimeExceeded.number(), 11);
    assert_eq!(ICMPType::Unknown.number(), 255);
}

#[test]
fn icmp_fields_of_echo_request() {
    let request = [8u8, 0, 0xf7, 0xfd, 0, 1, 0, 1, 0xaa, 0xbb];
    let packet = ICMPPacket::new(&request);
    assert_eq!(packet.get_type(), ICMPType::EchoRequest);
    assert_eq!(packet.get_code(), 0);
    assert_eq!(packet.payload(), &[0u8, 1, 0, 1, 0xaa, 0xbb][..]);
}

#[test]
fn icmp_time_exceeded_code() {
    let message = [11u8, 1, 0, 0];
    let packet = ICMPPacket::new(&message);
    assert_eq!(packet.get_type(), ICMPType::TimeExceeded);
    assert_eq!(packet.get_code(), 1);
    assert!(packet.payload().is_empty());
}

#[test]
fn echo_reply_of_minimal_request() {
    let request = [8u8, 0, 0xf7, 0xfd, 0, 1, 0, 1];
    let reply = ICMPPacket::build_reply(&request);
    assert_eq!(reply, vec![0u8, 0, 0xff, 0xfd, 0, 1, 0, 1]);
}

#[test]
fn echo_reply_keeps_data_and_verifies() {
    let request = [8u8, 0, 0x12, 0x34, 0xbe, 0xef, 0x00, 0x07, 1, 2, 3, 4, 5];
    let reply = ICMPPacket::build_reply(&request);
    assert_eq!(reply.len(), request.len());
    assert_eq!(reply[0], 0);
    assert_eq!(reply[1], 0);
    assert_eq!(&reply[4..], &request[4..]);
    assert_eq!(ICMPPacket::calc_checksum(&reply), 0);
}
