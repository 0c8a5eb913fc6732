use vstd::prelude::*;
use crate::protocol::checksum::{be_word, be_u32, read_be16, read_be32};
use crate::protocol::tcp::tcp_flags::{TcpFlags, flags_of};

verus! {

/// A read-only view of a TCP segment.
pub struct TcpPacket<'a> {
    raw: &'a [u8],
}

impl<'a> View for TcpPacket<'a> {
    type V = Seq<u8>;

    closed spec fn view(&self) -> Seq<u8> {
        self.raw@
    }
}

/// The header length in bytes that a data-offset byte gives: the high four
/// bits count 32-bit words.
pub open spec fn tcp_header_len(offset_byte: u8) -> nat {
    (offset_byte as nat / 16) * 4
}

impl<'a> TcpPacket<'a> {
    /// Views `raw` as a TCP segment.
    pub fn new(raw: &'a [u8]) -> (p: Self)
        ensures
            p@ == raw@,
    {
        Self { raw }
    }

    /// The source port (bytes 0..2, big-endian).
    pub fn source_port(&self) -> (port: u16)
        requires
            self@.len() >= 2,
        ensures
            port == be_word(self@[0], self@[1]),
    {
        read_be16(self.raw, 0)
    }

    /// The destination port (bytes 2..4, big-endian).
    pub fn destination_port(&self) -> (port: u16)
        requires
            self@.len() >= 4,
        ensures
            port == be_word(self@[2], self@[3]),
    {
        read_be16(self.raw, 2)
    }

    /// The sequence number (bytes 4..8, big-endian).
    pub fn seq_number(&self) -> (n: u32)
        requires
            self@.len() >= 8,
        ensures
            n == be_u32(self@[4], self@[5], self@[6], self@[7]),
    {
        read_be32(self.raw, 4)
    }

    /// The acknowledgment number (bytes 8..12, big-endian).
    pub fn ack_number(&self) -> (n: u32)
        requires
            self@.len() >= 12,
        ensures
            n == be_u32(self@[8], self@[9], self@[10], self@[11]),
    {
        read_be32(self.raw, 8)
    }

    /// The header length in bytes: four times the data offset (the high
    /// four bits of byte 12).
    pub fn header_len(&self) -> (len: u8)
        requires
            self@.len() >= 13,
        ensures
            len == tcp_header_len(self@[12]),
            len == (self@[12] / 16) * 4,
            len % 4 == 0 && len <= 60,
    {
        let byte = self.raw[12];
        let data_offset = byte >> 4;
        assert(data_offset == byte / 16) by (bit_vector)
            requires
                data_offset == byte >> 4,
        ;
        data_offset * 4
    }

    /// The control flags (byte 13).
    pub fn flags(&self) -> (flags: TcpFlags)
        requires
            self@.len() >= 14,
        ensures
            flags == flags_of(self@[13]),
    {
        TcpFlags::parse(self.raw[13])
    }

    /// Everything after the header.
    pub fn payload(&self) -> (p: &[u8])
        requires
            self@.len() >= 13,
            tcp_header_len(self@[12]) <= self@.len(),
        ensures
            p@ == self@.subrange(tcp_header_len(self@[12]) as int, self@.len() as int),
            p@ == self@.subrange((self@[12] / 16) * 4, self@.len() as int),
    {
        let len = self.header_len() as usize;
        vstd::slice::slice_subrange(self.raw, len, self.raw.len())
    }
}

/// Law: the header length is the data offset (the high four bits of byte
/// 12) counted in 4-byte words: a multiple of four from 0 to 60, every one
/// of which occurs.
pub proof fn lemma_tcp_header_len(offset_byte: u8)
    ensures
        tcp_header_len(offset_byte) == (offset_byte / 16) * 4,
        tcp_header_len(offset_byte) % 4 == 0,
        tcp_header_len(offset_byte) <= 60,
        offset_byte >= 0x50 ==> tcp_header_len(offset_byte) >= 20,
{
}

} // verus!
