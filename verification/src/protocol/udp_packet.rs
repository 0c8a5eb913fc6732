use vstd::prelude::*;
use crate::protocol::checksum::{
    be16, be_word, internet_checksum, word_sum, read_be16, push_be16, set_be16,
    lemma_checksum_verifies_nonzero_form, lemma_be16_word,
};
use crate::protocol::protocol::{Checksummable, Protocol};
use crate::protocol::ip_packet::{IPV4Packet, ipv4_packet};

verus! {

/// A read-only view of a UDP datagram, borrowed from an IP packet's payload.
pub struct UdpPacket<'a> {
    raw_data: &'a [u8],
}

impl<'a> View for UdpPacket<'a> {
    type V = Seq<u8>;

    closed spec fn view(&self) -> Seq<u8> {
        self.raw_data@
    }
}

impl<'a> Checksummable for UdpPacket<'a> {

}

/// The UDP length field for a payload of `payload_len` bytes: header plus
/// payload, truncated to 16 bits.
pub open spec fn udp_length(payload_len: nat) -> u16 {
    ((8 + payload_len) % 0x10000) as u16
}

/// The IPv4 pseudo-header over which the UDP checksum is taken: source
/// address, destination address, a zero byte, protocol 17, UDP length.
pub open spec fn udp_pseudo_header(src: Seq<u8>, dst: Seq<u8>, udp_len: u16) -> Seq<u8> {
    src + dst + seq![0u8, 17u8] + be16(udp_len)
}

/// The 12 pseudo-header bytes for a datagram of `len` bytes (`len` below
/// 2^16): the two addresses, a zero byte, protocol 17, and `len` big-endian.
pub open spec fn pseudo_header_bytes(src: Seq<u8>, dst: Seq<u8>, len: nat) -> Seq<u8> {
    src + dst + seq![0u8, 17u8, (len / 256) as u8, (len % 256) as u8]
}

/// The 8-byte UDP header.
pub open spec fn udp_header(src_port: u16, dst_port: u16, udp_len: u16, checksum: u16) -> Seq<u8> {
    be16(src_port) + be16(dst_port) + be16(udp_len) + be16(checksum)
}

/// The bytes the UDP checksum is computed over: pseudo-header, header with
/// a zero checksum field, payload.
pub open spec fn udp_checksum_input(
    src: Seq<u8>,
    dst: Seq<u8>,
    src_port: u16,
    dst_port: u16,
    payload: Seq<u8>,
) -> Seq<u8> {
    let len = udp_length(payload.len());
    udp_pseudo_header(src, dst, len) + udp_header(src_port, dst_port, len, 0) + payload
}

/// The value sent in the checksum field: a computed checksum of zero is
/// sent as 0xffff, since zero means "no checksum" (RFC 768).
pub open spec fn udp_checksum_field(c: u16) -> u16 {
    if c == 0 {
        0xffff
    } else {
        c
    }
}

/// The UDP datagram (header and payload) sent from `src:src_port` to
/// `dst:dst_port`.
pub open spec fn udp_datagram(
    src: Seq<u8>,
    dst: Seq<u8>,
    src_port: u16,
    dst_port: u16,
    payload: Seq<u8>,
) -> Seq<u8> {
    let len = udp_length(payload.len());
    let c = internet_checksum(udp_checksum_input(src, dst, src_port, dst_port, payload));
    udp_header(src_port, dst_port, len, udp_checksum_field(c)) + payload
}

impl<'a> UdpPacket<'a> {
    /// Views `slice` as a UDP datagram.
    pub fn new(slice: &'a [u8]) -> (p: Self)
        ensures
            p@ == slice@,
    {
        Self { raw_data: slice }
    }

    /// The source port (bytes 0..2, big-endian).
    pub fn get_source_port(&self) -> (port: u16)
        requires
            self@.len() >= 2,
        ensures
            port == be_word(self@[0], self@[1]),
    {
        read_be16(self.raw_data, 0)
    }

    /// The destination port (bytes 2..4, big-endian).
    pub fn get_destination_port(&self) -> (port: u16)
        requires
            self@.len() >= 4,
        ensures
            port == be_word(self@[2], self@[3]),
    {
        read_be16(self.raw_data, 2)
    }

    /// The length field (bytes 4..6, big-endian).
    pub fn get_length(&self) -> (len: u16)
        requires
            self@.len() >= 6,
        ensures
            len == be_word(self@[4], self@[5]),
    {
        read_be16(self.raw_data, 4)
    }

    /// The checksum field (bytes 6..8, big-endian).
    pub fn get_checksum(&self) -> (c: u16)
        requires
            self@.len() >= 8,
        ensures
            c == be_word(self@[6], self@[7]),
    {
        read_be16(self.raw_data, 6)
    }

    /// Everything after the 8-byte header.
    pub fn payload(&self) -> (p: &[u8])
        requires
            self@.len() >= 8,
        ensures
            p@ == self@.subrange(8, self@.len() as int),
    {
        vstd::slice::slice_subrange(self.raw_data, 8, self.raw_data.len())
    }

    /// Builds the UDP datagram carrying `payload` from `src_addr:src_port` to
    /// `dst_addr:dst_port`, with its checksum over the IPv4 pseudo-header.
    pub fn build_udp_packet(
        src_addr: [u8; 4],
        dst_addr: [u8; 4],
        src_port: u16,
        dst_port: u16,
        payload: &[u8],
    ) -> (packet: Vec<u8>)
        requires
            payload@.len() + 20 <= usize::MAX,
            word_sum(udp_checksum_input(src_addr@, dst_addr@, src_port, dst_port, payload@))
                <= u32::MAX,
        ensures
            packet@ == udp_datagram(src_addr@, dst_addr@, src_port, dst_port, payload@),
            internet_checksum(
                udp_pseudo_header(src_addr@, dst_addr@, udp_length(payload@.len())) + packet@,
            ) == 0,
            be_word(packet@[6], packet@[7]) != 0,
            packet@.len() == 8 + payload@.len(),
            be_word(packet@[0], packet@[1]) == src_port,
            be_word(packet@[2], packet@[3]) == dst_port,
            packet@.subrange(8, packet@.len() as int) == payload@,
            packet@.len() <= 0xffff ==> be_word(packet@[4], packet@[5]) == packet@.len(),
            packet@.len() <= 0xffff ==> be_word(packet@[6], packet@[7]) == udp_checksum_field(
                internet_checksum(
                    pseudo_header_bytes(src_addr@, dst_addr@, packet@.len()) + packet@.update(
                        6,
                        0,
                    ).update(7, 0),
                ),
            ),
            packet@.len() <= 0xffff ==> internet_checksum(
                pseudo_header_bytes(src_addr@, dst_addr@, packet@.len()) + packet@,
            ) == 0,
    {
        let total = 8 + payload.len();
        let udp_len = total as u16;
        assert(udp_len == total % 0x10000) by (bit_vector)
            requires
                udp_len == total as u16,
        ;
        let ghost len = udp_length(payload@.len());
        assert(udp_len == len);

        let mut packet: Vec<u8> = Vec::with_capacity(20 + payload.len());
        packet.push(src_addr[0]);
        packet.push(src_addr[1]);
        packet.push(src_addr[2]);
        packet.push(src_addr[3]);
        packet.push(dst_addr[0]);
        packet.push(dst_addr[1]);
        packet.push(dst_addr[2]);
        packet.push(dst_addr[3]);
        packet.push(0);
        packet.push(17);
        assert(packet@ =~= src_addr@ + dst_addr@ + seq![0u8, 17u8]);
        push_be16(&mut packet, udp_len);
        let ghost pseudo = packet@;
        assert(pseudo == udp_pseudo_header(src_addr@, dst_addr@, len));

        push_be16(&mut packet, src_port);
        push_be16(&mut packet, dst_port);
        push_be16(&mut packet, udp_len);
        push_be16(&mut packet, 0);
        assert(packet@ =~= pseudo + udp_header(src_port, dst_port, len, 0));
        let ghost before_payload = packet@;
        packet.extend_from_slice(payload);
        assert(packet@ =~= before_payload + payload@);
        let ghost input = packet@;
        assert(input == udp_checksum_input(src_addr@, dst_addr@, src_port, dst_port, payload@));

        let mut csum = Self::calc_checksum(packet.as_slice());
        if csum == 0 {
            csum = 0xffff;
        }
        assert(csum == udp_checksum_field(internet_checksum(input)));
        set_be16(&mut packet, 18, csum);
        proof {
            assert(input[18] == 0 && input[19] == 0);
            lemma_checksum_verifies_nonzero_form(input, 18);
        }
        let ghost full = packet@;
        let datagram = packet.split_off(12);
        assert(full =~= pseudo + datagram@);
        assert(datagram@ =~= udp_datagram(src_addr@, dst_addr@, src_port, dst_port, payload@));
        proof {
            lemma_udp_datagram_fields(src_addr@, dst_addr@, src_port, dst_port, payload@);
            lemma_udp_pseudo_header_exact(src_addr@, dst_addr@, payload@.len());
            lemma_udp_checksum_field(src_addr@, dst_addr@, src_port, dst_port, payload@);
        }
        datagram
    }
}

/// The IPv4 packet a UDP socket bound to `local:local_port` sends to
/// `dst:dst_port`: the datagram (checksummed over the pseudo-header from
/// `local` to `dst`) wrapped in an IPv4 header whose address arguments are
/// given peer first, as the socket passes them: the header names `dst` as
/// source and `local` as destination.
pub open spec fn udp_send_packet(
    local: Seq<u8>,
    dst: Seq<u8>,
    local_port: u16,
    dst_port: u16,
    payload: Seq<u8>,
) -> Seq<u8> {
    ipv4_packet(dst, local, 17, udp_datagram(local, dst, local_port, dst_port, payload))
}

/// Builds what a UDP socket sends: the datagram, then the IPv4 packet
/// around it (see `udp_send_packet` for the order of the addresses).
pub fn build_udp_send_packet(
    local_ip: [u8; 4],
    dst: [u8; 4],
    local_port: u16,
    dst_port: u16,
    payload: &[u8],
) -> (packet: Vec<u8>)
    requires
        payload@.len() + 28 <= usize::MAX,
        word_sum(udp_checksum_input(local_ip@, dst@, local_port, dst_port, payload@))
            <= u32::MAX,
    ensures
        packet@ == udp_send_packet(local_ip@, dst@, local_port, dst_port, payload@),
        packet@.len() == 28 + payload@.len(),
        packet@[9] == 17,
        packet@.subrange(12, 16) == dst@,
        packet@.subrange(16, 20) == local_ip@,
        be_word(packet@[20], packet@[21]) == local_port,
        be_word(packet@[22], packet@[23]) == dst_port,
        packet@.subrange(28, packet@.len() as int) == payload@,
{
    let udp_payload = UdpPacket::build_udp_packet(local_ip, dst, local_port, dst_port, payload);
    let packet = IPV4Packet::build_ipv4_packet(dst, local_ip, Protocol::Udp, udp_payload.as_slice());
    assert(packet@.subrange(28, packet@.len() as int) =~= udp_payload@.subrange(
        8,
        udp_payload@.len() as int,
    ));
    packet
}

/// For a datagram whose length fits in 16 bits, the pseudo-header carries
/// that length exactly.
pub proof fn lemma_udp_pseudo_header_exact(src: Seq<u8>, dst: Seq<u8>, payload_len: nat)
    ensures
        8 + payload_len <= 0xffff ==> udp_pseudo_header(src, dst, udp_length(payload_len)) == src
            + dst + seq![
            0u8,
            17u8,
            ((8 + payload_len) / 256) as u8,
            ((8 + payload_len) % 256) as u8,
        ],
{
    if 8 + payload_len <= 0xffff {
        assert(udp_pseudo_header(src, dst, udp_length(payload_len)) =~= src + dst + seq![
            0u8,
            17u8,
            ((8 + payload_len) / 256) as u8,
            ((8 + payload_len) % 256) as u8,
        ]);
    }
}

/// Law: the checksum field of a datagram is the checksum of the
/// pseudo-header followed by the datagram with that field zeroed, sent as
/// 0xffff when it comes out zero.
pub proof fn lemma_udp_checksum_field(
    src: Seq<u8>,
    dst: Seq<u8>,
    src_port: u16,
    dst_port: u16,
    payload: Seq<u8>,
)
    ensures
        ({
            let d = udp_datagram(src, dst, src_port, dst_port, payload);
            let c = internet_checksum(
                udp_pseudo_header(src, dst, udp_length(payload.len())) + d.update(6, 0).update(
                    7,
                    0,
                ),
            );
            be_word(d[6], d[7]) == (if c == 0 {
                0xffff
            } else {
                c
            })
        }),
{
    let d = udp_datagram(src, dst, src_port, dst_port, payload);
    let len = udp_length(payload.len());
    let input = udp_checksum_input(src, dst, src_port, dst_port, payload);
    assert(udp_pseudo_header(src, dst, len) + d.update(6, 0).update(7, 0) =~= input);
    lemma_be16_word(udp_checksum_field(internet_checksum(input)));
}

/// Law: the UDP length is the header's 8 bytes plus the payload, reduced
/// modulo 2^16; for every datagram that fits in 16 bits it is exact.
pub proof fn lemma_udp_length(payload_len: nat)
    ensures
        udp_length(payload_len) == (8 + payload_len) % 0x10000,
        8 + payload_len <= 0xffff ==> udp_length(payload_len) == 8 + payload_len,
{
}

/// Law: reading a built datagram back gives the ports, the length and the
/// payload it was built from, and a checksum field that is never zero.
pub proof fn lemma_udp_datagram_fields(
    src: Seq<u8>,
    dst: Seq<u8>,
    src_port: u16,
    dst_port: u16,
    payload: Seq<u8>,
)
    ensures
        ({
            let d = udp_datagram(src, dst, src_port, dst_port, payload);
            &&& d.len() == 8 + payload.len()
            &&& be_word(d[0], d[1]) == src_port
            &&& be_word(d[2], d[3]) == dst_port
            &&& be_word(d[4], d[5]) == udp_length(payload.len())
            &&& d.len() <= 0xffff ==> be_word(d[4], d[5]) == d.len()
            &&& be_word(d[6], d[7]) != 0
            &&& d.subrange(8, d.len() as int) == payload
        }),
{
    let d = udp_datagram(src, dst, src_port, dst_port, payload);
    let len = udp_length(payload.len());
    let c = udp_checksum_field(
        internet_checksum(udp_checksum_input(src, dst, src_port, dst_port, payload)),
    );
    lemma_be16_word(src_port);
    lemma_be16_word(dst_port);
    lemma_be16_word(len);
    lemma_be16_word(c);
    lemma_udp_length(payload.len());
    assert(d.subrange(8, d.len() as int) =~= payload);
}

} // verus!
