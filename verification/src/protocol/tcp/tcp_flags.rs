use vstd::prelude::*;

verus! {

/// The control bits of a TCP header (byte 13).
#[derive(Debug, Clone, Copy, PartialEq, Eq, Structural)]
pub struct TcpFlags {
    /// No more data from the sender (bit 0).
    pub fin: bool,
    /// Synchronize sequence numbers (bit 1).
    pub syn: bool,
    /// Reset the connection (bit 2).
    pub rst: bool,
    /// Push function (bit 3).
    pub psh: bool,
    /// The acknowledgment field is significant (bit 4).
    pub ack: bool,
    /// The urgent pointer is significant (bit 5).
    pub urg: bool,
    /// ECN echo (bit 6).
    pub ece: bool,
    /// Congestion window reduced (bit 7).
    pub cwr: bool,
}


/// The flags that a control byte encodes.
pub open spec fn flags_of(byte: u8) -> TcpFlags {
    TcpFlags {
        fin: byte % 2 == 1,
        syn: (byte / 2) % 2 == 1,
        rst: (byte / 4) % 2 == 1,
        psh: (byte / 8) % 2 == 1,
        ack: (byte / 16) % 2 == 1,
        urg: (byte / 32) % 2 == 1,
        ece: (byte / 64) % 2 == 1,
        cwr: (byte / 128) % 2 == 1,
    }
}

impl TcpFlags {
    /// Decodes the control byte of a TCP header.
    pub fn parse(byte: u8) -> (flags: TcpFlags)
        ensures
            flags == flags_of(byte),
            flags.fin == (byte & 0x01 != 0),
            flags.syn == (byte & 0x02 != 0),
            flags.rst == (byte & 0x04 != 0),
            flags.psh == (byte & 0x08 != 0),
            flags.ack == (byte & 0x10 != 0),
            flags.urg == (byte & 0x20 != 0),
            flags.ece == (byte & 0x40 != 0),
            flags.cwr == (byte & 0x80 != 0),
    {
        let fin = byte & 0x01 != 0;
        let syn = byte & 0x02 != 0;
        let rst = byte & 0x04 != 0;
        let psh = byte & 0x08 != 0;
        let ack = byte & 0x10 != 0;
        let urg = byte & 0x20 != 0;
        let ece = byte & 0x40 != 0;
        let cwr = byte & 0x80 != 0;
        assert(fin == (byte % 2 == 1) && syn == ((byte / 2) % 2 == 1) && rst == ((byte / 4) % 2
            == 1) && psh == ((byte / 8) % 2 == 1)) by (bit_vector)
            requires
                fin == (byte & 0x01 != 0),
                syn == (byte & 0x02 != 0),
                rst == (byte & 0x04 != 0),
                psh == (byte & 0x08 != 0),
        ;
        assert(ack == ((byte / 16) % 2 == 1) && urg == ((byte / 32) % 2 == 1) && ece == ((byte
            / 64) % 2 == 1) && cwr == ((byte / 128) % 2 == 1)) by (bit_vector)
            requires
                ack == (byte & 0x10 != 0),
                urg == (byte & 0x20 != 0),
                ece == (byte & 0x40 != 0),
                cwr == (byte & 0x80 != 0),
        ;
        TcpFlags { fin, syn, rst, psh, ack, urg, ece, cwr }
    }
}

/// Law: each flag of a control byte is its bit: FIN is bit 0 (0x01), SYN
/// bit 1 (0x02), RST bit 2 (0x04), PSH bit 3 (0x08), ACK bit 4 (0x10), URG
/// bit 5 (0x20), ECE bit 6 (0x40), CWR bit 7 (0x80).
pub proof fn lemma_flags_are_bits(byte: u8)
    ensures
        flags_of(byte).fin == (byte & 0x01 != 0),
        flags_of(byte).syn == (byte & 0x02 != 0),
        flags_of(byte).rst == (byte & 0x04 != 0),
        flags_of(byte).psh == (byte & 0x08 != 0),
        flags_of(byte).ack == (byte & 0x10 != 0),
        flags_of(byte).urg == (byte & 0x20 != 0),
        flags_of(byte).ece == (byte & 0x40 != 0),
        flags_of(byte).cwr == (byte & 0x80 != 0),
{
    assert((byte % 2 == 1) == (byte & 0x01 != 0) && ((byte / 2) % 2 == 1) == (byte & 0x02 != 0)
        && ((byte / 4) % 2 == 1) == (byte & 0x04 != 0) && ((byte / 8) % 2 == 1) == (byte & 0x08
        != 0)) by (bit_vector);
    assert(((byte / 16) % 2 == 1) == (byte & 0x10 != 0) && ((byte / 32) % 2 == 1) == (byte & 0x20
        != 0) && ((byte / 64) % 2 == 1) == (byte & 0x40 != 0) && ((byte / 128) % 2 == 1) == (byte
        & 0x80 != 0)) by (bit_vector);
}

} // verus!
