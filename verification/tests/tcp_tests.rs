use tunnet::protocol::tcp::tcp_flags::TcpFlags;
use tunnet::protocol::tcp::tcp_packet::TcpPacket;
use tunnet::protocol::tcp::tcp_state::{Connection, TcpAction, TcpState};

fn flags(byte: u8) -> TcpFlags {
    TcpFlags::parse(byte)
}

const SYN: u8 = 0x02;
const ACK: u8 = 0x10;
const RST: u8 = 0x04;
const FIN: u8 = 0x01;

#[test]
fn flag_bits() {
    let f = TcpFlags::parse(0x12);
    assert!(f.syn && f.ack);
    assert!(!f.fin && !f.rst && !f.psh && !f.urg && !f.ece && !f.cwr);
    let all = TcpFlags::parse(0xff);
    assert!(all.fin && all.syn && all.rst && all.psh && all.ack && all.urg && all.ece && all.cwr);
    let none = TcpFlags::parse(0);
    assert!(!none.fin && !none.syn && !none.rst && !none.ack);
    assert!(TcpFlags::parse(0x04).rst);
    assert!(TcpFlags::parse(0x01).fin);
}

#[test]
fn tcp_header_fields() {
    let raw = [
        0x30u8, 0x39, 0x00, 0x50, 0x00, 0x00, 0x00, 0x64, 0xde, 0xad, 0xbe, 0xef, 0x50, 0x12, 0xff,
        0xff, 0x00, 0x00, 0x00, 0x00, b'd', b'a', b't', b'a',
    ];
    let packet = TcpPacket::new(&raw);
    assert_eq!(packet.source_port(), 12345);
    assert_eq!(packet.destination_port(), 80);
    assert_eq!(packet.seq_number(), 100);
    assert_eq!(packet.ack_number(), 0xdeadbeef);
    assert_eq!(packet.header_len(), 20);
    let f = packet.flags();
    assert!(f.syn && f.ack && !f.rst);
    assert_eq!(packet.payload(), b"data");
}

#[test]
fn tcp_header_with_options() {
    let mut raw = vec![0u8; 24];
    raw[12] = 0x60;
    raw.push(7);
    let packet = TcpPacket::new(&raw);
    assert_eq!(packet.header_len(), 24);
    assert_eq!(packet.payload(), &[7u8][..]);
}

#[test]
fn new_listening_connection() {
    let c = Connection::new_listening();
    assert_eq!(c.state, TcpState::Listen);
    assert_eq!((c.iss, c.snd_nxt, c.irs, c.rcv_nxt), (0, 0, 0, 0));
}

#[test]
fn passive_open_handshake() {
    let mut c = Connection::new_listening();
    assert_eq!(c.step(100, 0, flags(SYN), 0), TcpAction::SendSynAck { seq: 5000, ack: 101 });
    assert_eq!(c.state, TcpState::SynRcvd);
    assert_eq!((c.iss, c.snd_nxt, c.irs, c.rcv_nxt), (5000, 5001, 100, 101));
    assert_eq!(c.step(101, 5001, flags(ACK), 0), TcpAction::Establish { seq: 5001, ack: 101 });
    assert_eq!(c.state, TcpState::Established);
    assert_eq!(c.step(101, 5001, flags(ACK), 10), TcpAction::Nothing);
    assert_eq!(c.state, TcpState::Established);
}

#[test]
fn syn_sequence_number_wraps() {
    let mut c = Connection::new_listening();
    assert_eq!(c.step(u32::MAX, 0, flags(SYN), 0), TcpAction::SendSynAck { seq: 5000, ack: 0 });
    assert_eq!(c.rcv_nxt, 0);
}

#[test]
fn listen_answers_ack_with_reset() {
    let mut c = Connection::new_listening();
    assert_eq!(c.step(1, 777, flags(ACK), 0), TcpAction::SendRst { seq: 777, ack: None });
    assert_eq!(c.state, TcpState::Listen);
    assert_eq!(c.step(1, 0, flags(0), 0), TcpAction::Nothing);
    assert_eq!(c.step(1, 0, flags(SYN | ACK), 0), TcpAction::SendRst { seq: 0, ack: None });
}

#[test]
fn reset_in_listen_is_ignored() {
    let mut c = Connection::new_listening();
    assert_eq!(c.step(1, 2, flags(RST), 0), TcpAction::Nothing);
    assert_eq!(c.state, TcpState::Listen);
}

#[test]
fn reset_in_syn_received_returns_to_listen() {
    let mut c = Connection::new_listening();
    c.step(100, 0, flags(SYN), 0);
    assert_eq!(c.step(101, 0, flags(RST), 0), TcpAction::Nothing);
    assert_eq!(c.state, TcpState::Listen);
}

#[test]
fn wrong_ack_in_syn_received_is_reset() {
    let mut c = Connection::new_listening();
    c.step(100, 0, flags(SYN), 0);
    assert_eq!(c.step(101, 4242, flags(ACK), 0), TcpAction::SendRst { seq: 4242, ack: None });
    assert_eq!(c.state, TcpState::SynRcvd);
    assert_eq!(c.step(101, 5001, flags(SYN | ACK), 0), TcpAction::Nothing);
    assert_eq!(c.state, TcpState::SynRcvd);
}

#[test]
fn reset_closes_established_connection() {
    let mut c = Connection::new_listening();
    c.step(100, 0, flags(SYN), 0);
    c.step(101, 5001, flags(ACK), 0);
    assert_eq!(c.step(101, 5001, flags(RST), 0), TcpAction::Closed);
    assert_eq!(c.state, TcpState::Closed);
    assert_eq!(c.step(101, 5001, flags(RST), 0), TcpAction::Nothing);
    assert_eq!(c.state, TcpState::Closed);
}

#[test]
fn closed_connection_answers_with_reset() {
    let mut c = Connection::new_listening();
    c.state = TcpState::Closed;
    assert_eq!(c.step(7, 99, flags(ACK), 5), TcpAction::SendRst { seq: 99, ack: None });
    assert_eq!(c.step(7, 0, flags(SYN), 10), TcpAction::SendRst { seq: 0, ack: Some(18) });
    assert_eq!(c.step(7, 0, flags(SYN | FIN), 10), TcpAction::SendRst { seq: 0, ack: Some(19) });
    assert_eq!(c.state, TcpState::Closed);
}

#[test]
fn rst_for_closed_segment() {
    assert_eq!(
        Connection::build_rst_for_closed(1000, 55, flags(ACK), 3),
        TcpAction::SendRst { seq: 55, ack: None }
    );
    assert_eq!(
        Connection::build_rst_for_closed(1000, 55, flags(0), 3),
        TcpAction::SendRst { seq: 0, ack: Some(1003) }
    );
    assert_eq!(
        Connection::build_rst_for_closed(1000, 55, flags(FIN), 0),
        TcpAction::SendRst { seq: 0, ack: Some(1001) }
    );
    assert_eq!(
        Connection::build_rst_for_closed(u32::MAX, 0, flags(SYN), 1),
        TcpAction::SendRst { seq: 0, ack: Some(1) }
    );
}
