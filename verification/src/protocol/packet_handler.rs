use vstd::prelude::*;
use crate::protocol::checksum::{
    be_word, internet_checksum, word_sum, word_sum_fits_u32, lemma_word_sum_fits_u32,
};
use crate::protocol::icmp_packet::{
    ICMPPacket, ICMPType, echo_reply, echo_reply_template, message_type_of, lemma_echo_reply_bytes,
};
use crate::protocol::ip_packet::{
    IPV4Packet, ipv4_packet, lemma_ipv4_packet_fields, lemma_ipv4_header_checksum,
};
use crate::protocol::port_registry::PortRegistry;
use crate::protocol::protocol::{Protocol, protocol_of};
use crate::protocol::udp_packet::UdpPacket;

verus! {

/// What to do with one packet read from the interface.
#[derive(Debug)]
pub enum PacketAction<T> {
    /// Nothing: not IPv4, not an echo request, or an unknown protocol.
    Ignore,
    /// Write this IPv4 packet back to the interface.
    Reply(Vec<u8>),
    /// Hand a UDP payload, with its sender's address and port, to the
    /// endpoint bound to its destination port.
    Deliver { to: T, src_ip: [u8; 4], src_port: u16, payload: Vec<u8> },
    /// A UDP datagram for a port nobody bound: dropped (and logged).
    Unbound { port: u16 },
}

/// The four kinds of `PacketAction`.
pub enum PacketKind {
    Ignore,
    Reply,
    Deliver,
    Unbound,
}

/// The kind of an action.
pub open spec fn kind_of<T>(action: PacketAction<T>) -> PacketKind {
    match action {
        PacketAction::Ignore => PacketKind::Ignore,
        PacketAction::Reply(..) => PacketKind::Reply,
        PacketAction::Deliver { .. } => PacketKind::Deliver,
        PacketAction::Unbound { .. } => PacketKind::Unbound,
    }
}

/// A non-empty packet whose version nibble (the high four bits of byte 0)
/// is 4.
pub open spec fn is_ipv4(raw: Seq<u8>) -> bool {
    raw.len() >= 1 && raw[0] / 16 == 4
}

/// What follows the 20-byte IPv4 header.
pub open spec fn ip_payload(raw: Seq<u8>) -> Seq<u8> {
    raw.subrange(20, raw.len() as int)
}

/// What follows the UDP header inside an IPv4 packet.
pub open spec fn udp_payload_of(raw: Seq<u8>) -> Seq<u8> {
    raw.subrange(28, raw.len() as int)
}

/// The destination port of the UDP datagram inside an IPv4 packet.
pub open spec fn udp_dest_port(raw: Seq<u8>) -> u16 {
    be_word(raw[22], raw[23]) as u16
}

/// The kind of answer a packet gets, given the bound ports: an ICMP echo
/// request is answered, a UDP datagram is delivered to a bound port or
/// reported as unbound, anything else is ignored.
pub open spec fn packet_kind<T>(raw: Seq<u8>, table: Map<u16, T>) -> PacketKind {
    if !is_ipv4(raw) {
        PacketKind::Ignore
    } else {
        match protocol_of(raw[9]) {
            Protocol::Icmp => if message_type_of(raw[20]) == ICMPType::EchoRequest {
                PacketKind::Reply
            } else {
                PacketKind::Ignore
            },
            Protocol::Udp => if table.contains_key(udp_dest_port(raw)) {
                PacketKind::Deliver
            } else {
                PacketKind::Unbound
            },
            Protocol::Unknown => PacketKind::Ignore,
        }
    }
}

/// The reply to an echo request packet: the echo reply message in an IPv4
/// packet from the request's destination to its source.
pub open spec fn echo_reply_packet(raw: Seq<u8>) -> Seq<u8> {
    ipv4_packet(raw.subrange(16, 20), raw.subrange(12, 16), 1, echo_reply(ip_payload(raw)))
}

/// `reply` answers the echo request `raw` byte for byte: same length,
/// addresses swapped, protocol ICMP, an ICMP message of type 0 and code 0
/// that repeats everything of the request from its byte 4 on, and header
/// and message checksums that verify.
pub open spec fn reply_answers_request(reply: Seq<u8>, raw: Seq<u8>) -> bool {
    &&& reply.len() == raw.len()
    &&& reply[9] == 1
    &&& reply.subrange(12, 16) == raw.subrange(16, 20)
    &&& reply.subrange(16, 20) == raw.subrange(12, 16)
    &&& reply[20] == 0
    &&& reply[21] == 0
    &&& reply.subrange(24, reply.len() as int) == raw.subrange(24, raw.len() as int)
    &&& internet_checksum(reply.subrange(0, 20)) == 0
    &&& internet_checksum(reply.subrange(20, reply.len() as int)) == 0
}

/// Law: the reply to an echo request answers it byte for byte (see
/// `reply_answers_request`): the whole request message, data included, comes
/// back.
pub proof fn lemma_echo_reply_packet_answers(raw: Seq<u8>)
    requires
        raw.len() >= 24,
    ensures
        reply_answers_request(echo_reply_packet(raw), raw),
{
    let message = ip_payload(raw);
    lemma_echo_reply_bytes(message);
    let src: [u8; 4] = [raw[16], raw[17], raw[18], raw[19]];
    let dst: [u8; 4] = [raw[12], raw[13], raw[14], raw[15]];
    assert(src@ =~= raw.subrange(16, 20));
    assert(dst@ =~= raw.subrange(12, 16));
    lemma_ipv4_packet_fields(src, dst, 1, echo_reply(message));
    lemma_ipv4_header_checksum(src@, dst@, 1, echo_reply(message));
    let r = echo_reply_packet(raw);
    assert(r.subrange(20, r.len() as int) == echo_reply(message));
    assert(r[20] == echo_reply(message)[0]);
    assert(r[21] == echo_reply(message)[1]);
    assert(r.subrange(24, r.len() as int) =~= echo_reply(message).subrange(4, message.len() as int));
    assert(raw.subrange(24, raw.len() as int) =~= message.subrange(4, message.len() as int));
}

/// Law: which packets get which answer, byte by byte. A packet whose first
/// byte does not have version 4 in its high nibble (or an empty one) is
/// ignored; an IPv4 packet with protocol 1 is answered exactly when its ICMP
/// type byte (byte 20) is 8; one with protocol 17 is delivered exactly when
/// the port in bytes 22..24 is bound, and reported unbound otherwise; every
/// other protocol is ignored.
pub proof fn lemma_packet_kind_bytes<T>(raw: Seq<u8>, table: Map<u16, T>)
    ensures
        (raw.len() == 0 || raw[0] >> 4 != 4) ==> packet_kind(raw, table) == PacketKind::Ignore,
        (raw.len() >= 1 && raw[0] >> 4 == 4) ==> {
            &&& raw[9] == 1 && raw[20] == 8 ==> packet_kind(raw, table) == PacketKind::Reply
            &&& raw[9] == 1 && raw[20] != 8 ==> packet_kind(raw, table) == PacketKind::Ignore
            &&& raw[9] == 17 && table.contains_key((raw[22] * 256 + raw[23]) as u16)
                ==> packet_kind(raw, table) == PacketKind::Deliver
            &&& raw[9] == 17 && !table.contains_key((raw[22] * 256 + raw[23]) as u16)
                ==> packet_kind(raw, table) == PacketKind::Unbound
            &&& raw[9] != 1 && raw[9] != 17 ==> packet_kind(raw, table) == PacketKind::Ignore
        },
        raw.len() >= 24 ==> udp_dest_port(raw) == raw[22] * 256 + raw[23],
{
    if raw.len() >= 1 {
        let b = raw[0];
        assert(b >> 4 == b / 16) by (bit_vector);
    }
}

/// Law: `handle_packet` is defined on every packet that is not IPv4, and on
/// every IPv4 packet of 28 to 131094 bytes.
pub proof fn lemma_ordinary_packets_are_handled<T>(raw: Seq<u8>, table: Map<u16, T>)
    requires
        !is_ipv4(raw) || (28 <= raw.len() <= 131094),
    ensures
        handle_defined(raw, table),
{
    if is_ipv4(raw) {
        lemma_word_sum_fits_u32(echo_reply_template(ip_payload(raw)));
    }
}

/// The packets `handle_packet` is defined on: those long enough for every
/// field it reads, and whose echo reply's word sum fits in 32 bits.
pub open spec fn handle_defined<T>(raw: Seq<u8>, table: Map<u16, T>) -> bool {
    is_ipv4(raw) ==> {
        &&& raw.len() >= 10
        &&& match protocol_of(raw[9]) {
            Protocol::Icmp => {
                &&& raw.len() >= 21
                &&& message_type_of(raw[20]) == ICMPType::EchoRequest ==> {
                    &&& raw.len() >= 24
                    &&& word_sum(echo_reply_template(ip_payload(raw))) <= u32::MAX
                }
            },
            Protocol::Udp => {
                &&& raw.len() >= 24
                &&& table.contains_key(udp_dest_port(raw)) ==> raw.len() >= 28
            },
            Protocol::Unknown => true,
        }
    }
}

/// Decides what to do with one packet read from the interface: answer ICMP
/// echo requests, deliver UDP datagrams to the endpoint bound to their
/// destination port, ignore the rest.
pub fn handle_packet<T: Clone>(raw: &[u8], registry: &PortRegistry<T>) -> (action: PacketAction<T>)
    requires
        handle_defined(raw@, registry@),
    ensures
        kind_of(action) == packet_kind(raw@, registry@),
        action matches PacketAction::Reply(reply) ==> reply@ == echo_reply_packet(raw@),
        action matches PacketAction::Reply(reply) ==> reply_answers_request(reply@, raw@),
        action matches PacketAction::Deliver { to, src_ip, src_port, payload } ==> {
            &&& cloned(registry@[udp_dest_port(raw@)], to)
            &&& src_ip@ == raw@.subrange(12, 16)
            &&& src_port == be_word(raw@[20], raw@[21])
            &&& payload@ == udp_payload_of(raw@)
        },
        action matches PacketAction::Unbound { port } ==> port == udp_dest_port(raw@),
{
    if raw.len() == 0 {
        return PacketAction::Ignore;
    }
    let version = raw[0] >> 4;
    let first = raw[0];
    assert(version == first / 16) by (bit_vector)
        requires
            version == first >> 4,
    ;
    if version != 4 {
        return PacketAction::Ignore;
    }
    let ip_packet = IPV4Packet::new(raw);
    match ip_packet.protocol() {
        Protocol::Icmp => {
            let message = ip_packet.payload();
            let echo_view = ICMPPacket::new(message);
            match echo_view.get_type() {
                ICMPType::EchoRequest => {
                    let reply = ICMPPacket::build_reply(message);
                    let packet = IPV4Packet::build_ipv4_packet(
                        ip_packet.get_destination_ip(),
                        ip_packet.get_source_ip(),
                        Protocol::Icmp,
                        reply.as_slice(),
                    );
                    proof {
                        lemma_echo_reply_packet_answers(raw@);
                    }
                    PacketAction::Reply(packet)
                },
                _ => PacketAction::Ignore,
            }
        },
        Protocol::Udp => {
            let datagram = ip_packet.payload();
            let udp_packet = UdpPacket::new(datagram);
            let dest_port = udp_packet.get_destination_port();
            match registry.get(dest_port) {
                Some(to) => {
                    let payload = vstd::slice::slice_to_vec(udp_packet.payload());
                    assert(payload@ =~= udp_payload_of(raw@));
                    PacketAction::Deliver {
                        to,
                        src_ip: ip_packet.get_source_ip(),
                        src_port: udp_packet.get_source_port(),
                        payload,
                    }
                },
                None => PacketAction::Unbound { port: dest_port },
            }
        },
        Protocol::Unknown => PacketAction::Ignore,
    }
}

/// Whether `handle_packet` is defined on `raw`; a caller tests this first
/// and treats a packet that fails it as malformed.
pub fn can_handle_packet<T>(raw: &[u8], registry: &PortRegistry<T>) -> (ok: bool)
    ensures
        ok == handle_defined(raw@, registry@),
{
    if raw.len() == 0 {
        return true;
    }
    let first = raw[0];
    let version = first >> 4;
    assert(version == first / 16) by (bit_vector)
        requires
            version == first >> 4,
    ;
    if version != 4 {
        return true;
    }
    if raw.len() < 10 {
        return false;
    }
    match Protocol::from(raw[9]) {
        Protocol::Icmp => {
            if raw.len() < 21 {
                return false;
            }
            match ICMPType::from(raw[20]) {
                ICMPType::EchoRequest => {
                    if raw.len() < 24 {
                        return false;
                    }
                    let mut template = vstd::slice::slice_to_vec(
                        vstd::slice::slice_subrange(raw, 20, raw.len()),
                    );
                    template.set(0, 0);
                    template.set(1, 0);
                    template.set(2, 0);
                    template.set(3, 0);
                    assert(template@ =~= echo_reply_template(ip_payload(raw@)));
                    word_sum_fits_u32(template.as_slice())
                },
                _ => true,
            }
        },
        Protocol::Udp => {
            if raw.len() < 24 {
                return false;
            }
            let port = UdpPacket::new(vstd::slice::slice_subrange(raw, 20, raw.len())).get_destination_port();
            !registry.is_bound(port) || raw.len() >= 28
        },
        Protocol::Unknown => true,
    }
}

} // verus!
