use vstd::prelude::*;
use crate::protocol::checksum::{
    internet_checksum, pair_sum, word_sum, fold_carries, lemma_pair_sum_le_word_sum,
};

verus! {

/// Upper-layer protocol carried by an IPv4 packet (the header's protocol field).
#[derive(Debug, Clone, Copy, PartialEq, Eq, Structural)]
pub enum Protocol {
    Icmp,
    Udp,
    Unknown,
}

/// The protocol named by an IPv4 protocol number: 1 is ICMP, 17 is UDP,
/// every other number is `Unknown`.
pub open spec fn protocol_of(value: u8) -> Protocol {
    if value == 1 {
        Protocol::Icmp
    } else if value == 17 {
        Protocol::Udp
    } else {
        Protocol::Unknown
    }
}

/// The protocol number that stands for each protocol (`Unknown` is 255).
pub open spec fn protocol_number(p: Protocol) -> u8 {
    match p {
        Protocol::Icmp => 1,
        Protocol::Udp => 17,
        Protocol::Unknown => 255,
    }
}

impl Protocol {
    /// The protocol number of `self`.
    pub fn number(&self) -> (n: u8)
        ensures
            n == protocol_number(*self),
    {
        match self {
            Protocol::Icmp => 1,
            Protocol::Udp => 17,
            Protocol::Unknown => 255,
        }
    }
}

impl From<u8> for Protocol {
    fn from(value: u8) -> (r: Self) {
        match value {
            1 => Protocol::Icmp,
            17 => Protocol::Udp,
            _ => Protocol::Unknown,
        }
    }
}

impl vstd::std_specs::convert::FromSpecImpl<u8> for Protocol {
    open spec fn obeys_from_spec() -> bool {
        true
    }

    open spec fn from_spec(value: u8) -> Self {
        protocol_of(value)
    }
}

/// Law: every protocol survives the trip to its number and back.
pub proof fn lemma_protocol_number_roundtrip(p: Protocol)
    ensures
        protocol_of(protocol_number(p)) == p,
{
}

/// Law: the known protocol numbers survive the trip to their protocol and
/// back; every other number reads as `Unknown`.
pub proof fn lemma_protocol_of_known(value: u8)
    ensures
        protocol_of(value) != Protocol::Unknown ==> protocol_number(protocol_of(value)) == value,
        protocol_of(value) == Protocol::Unknown <==> !(value == 1 || value == 17),
        protocol_of(value) == Protocol::Icmp <==> value == 1,
        protocol_of(value) == Protocol::Udp <==> value == 17,
        protocol_number(Protocol::Icmp) == 1,
        protocol_number(Protocol::Udp) == 17,
        protocol_number(Protocol::Unknown) == 255,
{
}

/// Packets whose bytes carry an Internet checksum.
pub trait Checksummable {
    /// The Internet checksum of `data`: the one's complement of the
    /// end-around-carry sum of its big-endian 16-bit words.
    /// Empty data, and data whose word sum does not fit in 32 bits, are
    /// outside its domain (the running sum is a `u32`).
    fn calc_checksum(data: &[u8]) -> (r: u16)
        requires
            data@.len() >= 1,
            word_sum(data@) <= u32::MAX,
        ensures
            r == internet_checksum(data@),
    {
        let mut sum: u32 = 0;
        let mut i: usize = 0;
        while i < data.len() - 1
            invariant
                1 <= data@.len(),
                word_sum(data@) <= u32::MAX,
                i <= data@.len(),
                i % 2 == 0,
                sum == pair_sum(data@, i as int),
            decreases data@.len() - i,
        {
            let hi = data[i];
            let lo = data[i + 1];
            let word = ((hi as u32) << 8) | (lo as u32);
            assert(word == hi * 256 + lo) by (bit_vector)
                requires
                    word == ((hi as u32) << 8) | (lo as u32),
            ;
            proof {
                lemma_pair_sum_le_word_sum(data@, i + 2);
            }
            sum += word;
            i += 2;
        }
        if i < data.len() {
            let hi = data[i];
            let word = (hi as u32) << 8;
            assert(word == hi * 256) by (bit_vector)
                requires
                    word == (hi as u32) << 8,
            ;
            sum += word;
        }
        assert(sum == word_sum(data@));
        while (sum >> 16) > 0
            invariant
                fold_carries(sum as nat) == fold_carries(word_sum(data@)),
            decreases sum,
        {
            let s0 = sum;
            let low = sum & 0xffff;
            let high = sum >> 16;
            assert(low == s0 % 0x10000 && high == s0 / 0x10000 && high > 0) by (bit_vector)
                requires
                    low == s0 & 0xffff,
                    high == s0 >> 16,
                    (s0 >> 16) > 0,
            ;
            sum = low + high;
        }
        let folded = sum;
        assert(folded < 0x10000) by (bit_vector)
            requires
                (folded >> 16) == 0,
        ;
        let r = !(folded as u16);
        assert(r == 0xffff - folded) by (bit_vector)
            requires
                r == !(folded as u16),
                folded < 0x10000,
        ;
        r
    }
}

} // verus!
