use vstd::prelude::*;
use crate::protocol::protocol::{Checksummable, Protocol, protocol_of, protocol_number};
use crate::protocol::checksum::{
    be16, be_word, internet_checksum, put_be16, lemma_be16_word, push_be16, set_be16, lemma_checksum_verifies,
    lemma_word_sum_bound,
};

verus! {

/// A read-only view of an IPv4 packet (with a 20-byte header, no options).
#[derive(Debug)]
pub struct IPV4Packet<'a> {
    raw_data: &'a [u8],
}

impl<'a> View for IPV4Packet<'a> {
    type V = Seq<u8>;

    closed spec fn view(&self) -> Seq<u8> {
        self.raw_data@
    }
}

impl<'a> Checksummable for IPV4Packet<'a> {

}

/// The IPv4 total-length field for a payload of `payload_len` bytes: a
/// 20-byte header plus the payload, truncated to 16 bits.
pub open spec fn ipv4_total_length(payload_len: nat) -> u16 {
    ((20 + payload_len) % 0x10000) as u16
}

/// A 20-byte IPv4 header without options: version 4, header length 5
/// words, no type of service, identification 0, no fragmentation, time to
/// live 64.
pub open spec fn ipv4_header(
    src: Seq<u8>,
    dst: Seq<u8>,
    protocol: u8,
    total_len: u16,
    checksum: u16,
) -> Seq<u8> {
    seq![0x45u8, 0u8] + be16(total_len) + seq![0u8, 0u8, 0u8, 0u8, 64u8, protocol] + be16(checksum)
        + src + dst
}

/// The IPv4 packet carrying `payload` from `src` to `dst`: the header, with
/// the Internet checksum of the header (checksum field zero) in its
/// checksum field, followed by the payload.
pub open spec fn ipv4_packet(src: Seq<u8>, dst: Seq<u8>, protocol: u8, payload: Seq<u8>) -> Seq<
    u8,
> {
    let len = ipv4_total_length(payload.len());
    ipv4_header(src, dst, protocol, len, internet_checksum(ipv4_header(src, dst, protocol, len, 0)))
        + payload
}

impl<'a> IPV4Packet<'a> {
    /// Wraps `payload` in an IPv4 header from `src_addr` to `dst_addr`.
    pub fn build_ipv4_packet(
        src_addr: [u8; 4],
        dst_addr: [u8; 4],
        protocol: Protocol,
        payload: &[u8],
    ) -> (packet: Vec<u8>)
        requires
            payload@.len() + 20 <= usize::MAX,
        ensures
            packet@ == ipv4_packet(src_addr@, dst_addr@, protocol_number(protocol), payload@),
            internet_checksum(packet@.subrange(0, 20)) == 0,
            packet@.len() == 20 + payload@.len(),
            protocol_of(packet@[9]) == protocol,
            packet@.subrange(12, 16) == src_addr@,
            packet@.subrange(16, 20) == dst_addr@,
            packet@.subrange(20, packet@.len() as int) == payload@,
            packet@.len() <= 0xffff ==> be_word(packet@[2], packet@[3]) == packet@.len(),
            be_word(packet@[10], packet@[11]) == internet_checksum(
                packet@.subrange(0, 20).update(10, 0).update(11, 0),
            ),
    {
        let total = 20 + payload.len();
        let total_len = total as u16;
        assert(total_len == total % 0x10000) by (bit_vector)
            requires
                total_len == total as u16,
        ;
        let ghost len = ipv4_total_length(payload@.len());
        let number = protocol.number();
        let mut header: Vec<u8> = Vec::with_capacity(total);
        header.push(0x45);
        header.push(0);
        push_be16(&mut header, total_len);
        header.push(0);
        header.push(0);
        header.push(0);
        header.push(0);
        header.push(64);
        header.push(number);
        push_be16(&mut header, 0);
        header.push(src_addr[0]);
        header.push(src_addr[1]);
        header.push(src_addr[2]);
        header.push(src_addr[3]);
        header.push(dst_addr[0]);
        header.push(dst_addr[1]);
        header.push(dst_addr[2]);
        header.push(dst_addr[3]);
        let ghost blank = header@;
        assert(blank =~= ipv4_header(src_addr@, dst_addr@, number, len, 0));
        proof {
            lemma_word_sum_bound(blank);
        }
        let checksum = Self::calc_checksum(header.as_slice());
        set_be16(&mut header, 10, checksum);
        assert(header@ =~= ipv4_header(src_addr@, dst_addr@, number, len, checksum));
        proof {
            lemma_checksum_verifies(blank, 10);
        }
        let ghost done = header@;
        header.extend_from_slice(payload);
        assert(header@ =~= done + payload@);
        assert(header@.subrange(0, 20) =~= done);
        proof {
            lemma_ipv4_packet_fields(src_addr, dst_addr, number, payload@);
        }
        header
    }

    /// Views `slice` as an IPv4 packet.
    pub fn new(slice: &'a [u8]) -> (p: Self)
        ensures
            p@ == slice@,
    {
        IPV4Packet { raw_data: slice }
    }

    /// The four octets of the source address (header bytes 12..16).
    pub fn get_source_ip(&self) -> (addr: [u8; 4])
        requires
            self@.len() >= 16,
        ensures
            addr@ == self@.subrange(12, 16),
    {
        let addr = [self.raw_data[12], self.raw_data[13], self.raw_data[14], self.raw_data[15]];
        assert(addr@ =~= self@.subrange(12, 16));
        addr
    }

    /// The four octets of the destination address (header bytes 16..20).
    pub fn get_destination_ip(&self) -> (addr: [u8; 4])
        requires
            self@.len() >= 20,
        ensures
            addr@ == self@.subrange(16, 20),
    {
        let addr = [self.raw_data[16], self.raw_data[17], self.raw_data[18], self.raw_data[19]];
        assert(addr@ =~= self@.subrange(16, 20));
        addr
    }

    /// The upper-layer protocol named by header byte 9.
    pub fn protocol(&self) -> (p: Protocol)
        requires
            self@.len() >= 10,
        ensures
            p == protocol_of(self@[9]),
    {
        Protocol::from(self.raw_data[9])
    }

    /// Everything after the 20-byte header.
    pub fn payload(&self) -> (p: &[u8])
        requires
            self@.len() >= 20,
        ensures
            p@ == self@.subrange(20, self@.len() as int),
    {
        vstd::slice::slice_subrange(self.raw_data, 20, self.raw_data.len())
    }
}

/// Law: the header of a built packet carries a checksum that verifies.
pub proof fn lemma_ipv4_header_checksum(src: Seq<u8>, dst: Seq<u8>, protocol: u8, payload: Seq<u8>)
    requires
        src.len() == 4,
        dst.len() == 4,
    ensures
        internet_checksum(ipv4_packet(src, dst, protocol, payload).subrange(0, 20)) == 0,
{
    let len = ipv4_total_length(payload.len());
    let blank = ipv4_header(src, dst, protocol, len, 0);
    let c = internet_checksum(blank);
    lemma_checksum_verifies(blank, 10);
    assert(put_be16(blank, 10, c) =~= ipv4_header(src, dst, protocol, len, c));
    assert(ipv4_packet(src, dst, protocol, payload).subrange(0, 20) =~= ipv4_header(
        src,
        dst,
        protocol,
        len,
        c,
    ));
}

/// Law: reading a built packet back gives the addresses, the protocol
/// number and the payload it was built from.
pub proof fn lemma_ipv4_packet_fields(src: [u8; 4], dst: [u8; 4], protocol: u8, payload: Seq<u8>)
    ensures
        ({
            let p = ipv4_packet(src@, dst@, protocol, payload);
            &&& p.len() == 20 + payload.len()
            &&& p[9] == protocol
            &&& p.subrange(12, 16) == src@
            &&& p.subrange(16, 20) == dst@
            &&& p.subrange(20, p.len() as int) == payload
            &&& p[0] == 0x45 && p[1] == 0
            &&& p.len() <= 0xffff ==> be_word(p[2], p[3]) == p.len()
            &&& p[4] == 0 && p[5] == 0 && p[6] == 0 && p[7] == 0
            &&& p[8] == 64
            &&& be_word(p[10], p[11]) == internet_checksum(
                p.subrange(0, 20).update(10, 0).update(11, 0),
            )
        }),
{
    let p = ipv4_packet(src@, dst@, protocol, payload);
    let len = ipv4_total_length(payload.len());
    let c = internet_checksum(ipv4_header(src@, dst@, protocol, len, 0));
    lemma_be16_word(len);
    lemma_be16_word(c);
    assert(p.subrange(0, 20).update(10, 0).update(11, 0) =~= ipv4_header(
        src@,
        dst@,
        protocol,
        len,
        0,
    ));
    assert(p.subrange(12, 16) =~= src@);
    assert(p.subrange(16, 20) =~= dst@);
    assert(p.subrange(20, p.len() as int) =~= payload);
}

} // verus!
