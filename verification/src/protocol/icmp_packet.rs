use vstd::prelude::*;
use crate::protocol::checksum::{
    be_word, internet_checksum, put_be16, word_sum, set_be16, lemma_be16_word,
    lemma_checksum_verifies,
};
use crate::protocol::protocol::Checksummable;

verus! {

/// ICMP message type (the first byte of an ICMP message).
#[derive(Debug, Clone, Copy, PartialEq, Eq, Structural)]
pub enum ICMPType {
    /// Ping reply (type 0).
    EchoReply,
    /// Destination unreachable (type 3).
    DestinationUnreachable,
    /// Source quench (type 4).
    SourceQuench,
    /// Redirect (type 5).
    Redirect,
    /// Ping request (type 8).
    EchoRequest,
    /// Time exceeded, as traceroute uses (type 11).
    TimeExceeded,
    /// Any other type number.
    Unknown,
}

/// The ICMP type named by a type number.
pub open spec fn message_type_of(value: u8) -> ICMPType {
    if value == 0 {
        ICMPType::EchoReply
    } else if value == 3 {
        ICMPType::DestinationUnreachable
    } else if value == 4 {
        ICMPType::SourceQuench
    } else if value == 5 {
        ICMPType::Redirect
    } else if value == 8 {
        ICMPType::EchoRequest
    } else if value == 11 {
        ICMPType::TimeExceeded
    } else {
        ICMPType::Unknown
    }
}

/// The type number of each ICMP type (`Unknown` is 255).
pub open spec fn message_type_number(t: ICMPType) -> u8 {
    match t {
        ICMPType::EchoReply => 0,
        ICMPType::DestinationUnreachable => 3,
        ICMPType::SourceQuench => 4,
        ICMPType::Redirect => 5,
        ICMPType::EchoRequest => 8,
        ICMPType::TimeExceeded => 11,
        ICMPType::Unknown => 255,
    }
}

impl ICMPType {
    /// The type number of `self`.
    pub fn number(&self) -> (n: u8)
        ensures
            n == message_type_number(*self),
    {
        match self {
            ICMPType::EchoReply => 0,
            ICMPType::DestinationUnreachable => 3,
            ICMPType::SourceQuench => 4,
            ICMPType::Redirect => 5,
            ICMPType::EchoRequest => 8,
            ICMPType::TimeExceeded => 11,
            ICMPType::Unknown => 255,
        }
    }
}

impl From<u8> for ICMPType {
    fn from(value: u8) -> (r: Self) {
        match value {
            0 => ICMPType::EchoReply,
            3 => ICMPType::DestinationUnreachable,
            4 => ICMPType::SourceQuench,
            5 => ICMPType::Redirect,
            8 => ICMPType::EchoRequest,
            11 => ICMPType::TimeExceeded,
            _ => ICMPType::Unknown,
        }
    }
}

impl vstd::std_specs::convert::FromSpecImpl<u8> for ICMPType {
    open spec fn obeys_from_spec() -> bool {
        true
    }

    open spec fn from_spec(value: u8) -> Self {
        message_type_of(value)
    }
}

/// A read-only view of an ICMP message, borrowed from an IP packet's payload.
pub struct ICMPPacket<'a> {
    raw_data: &'a [u8],
}

impl<'a> View for ICMPPacket<'a> {
    type V = Seq<u8>;

    closed spec fn view(&self) -> Seq<u8> {
        self.raw_data@
    }
}

impl<'a> Checksummable for ICMPPacket<'a> {

}

/// The request with its type, code and checksum bytes set to zero: the
/// bytes over which an echo reply's checksum is computed.
pub open spec fn echo_reply_template(request: Seq<u8>) -> Seq<u8> {
    request.update(0, 0).update(1, 0).update(2, 0).update(3, 0)
}

/// The echo reply to `request`: the request with type 0 (echo reply),
/// code 0, and the Internet checksum of that message in bytes 2 and 3.
pub open spec fn echo_reply(request: Seq<u8>) -> Seq<u8> {
    put_be16(echo_reply_template(request), 2, internet_checksum(echo_reply_template(request)))
}

impl<'a> ICMPPacket<'a> {
    /// Views `slice` as an ICMP message.
    pub fn new(slice: &'a [u8]) -> (p: Self)
        ensures
            p@ == slice@,
    {
        Self { raw_data: slice }
    }

    /// The ICMP type (byte 0): 8 is a ping request, 0 a ping reply.
    pub fn get_type(&self) -> (t: ICMPType)
        requires
            self@.len() >= 1,
        ensures
            t == message_type_of(self@[0]),
    {
        ICMPType::from(self.raw_data[0])
    }

    /// The ICMP code (byte 1): 0 for a ping request, 1 for a time-exceeded
    /// reassembly timeout.
    pub fn get_code(&self) -> (c: u8)
        requires
            self@.len() >= 2,
        ensures
            c == self@[1],
    {
        self.raw_data[1]
    }

    /// Everything after the 4-byte type/code/checksum header.
    pub fn payload(&self) -> (p: &[u8])
        requires
            self@.len() >= 4,
        ensures
            p@ == self@.subrange(4, self@.len() as int),
    {
        vstd::slice::slice_subrange(self.raw_data, 4, self.raw_data.len())
    }

    /// Builds the echo reply to an echo request message: a copy of the
    /// request with type and code zero and a fresh checksum.
    pub fn build_reply(request_data: &[u8]) -> (reply: Vec<u8>)
        requires
            request_data@.len() >= 4,
            word_sum(echo_reply_template(request_data@)) <= u32::MAX,
        ensures
            reply@ == echo_reply(request_data@),
            reply@.len() == request_data@.len(),
            reply@[0] == message_type_number(ICMPType::EchoReply),
            reply@[1] == 0,
            reply@.subrange(4, reply@.len() as int) == request_data@.subrange(
                4,
                request_data@.len() as int,
            ),
            internet_checksum(reply@) == 0,
            be_word(reply@[2], reply@[3]) == internet_checksum(reply@.update(2, 0).update(3, 0)),
    {
        let mut reply = vstd::slice::slice_to_vec(request_data);
        reply.set(0, ICMPType::EchoReply.number());
        reply.set(1, 0);
        reply.set(2, 0);
        reply.set(3, 0);
        assert(reply@ == echo_reply_template(request_data@));
        let ghost template = reply@;
        let checksum = Self::calc_checksum(reply.as_slice());
        set_be16(&mut reply, 2, checksum);
        assert(reply@ == put_be16(template, 2, checksum));
        assert(reply@.update(2, 0).update(3, 0) =~= template);
        proof {
            lemma_be16_word(checksum);
        }
        assert(reply@.subrange(4, reply@.len() as int) =~= request_data@.subrange(
            4,
            request_data@.len() as int,
        ));
        proof {
            lemma_checksum_verifies(template, 2);
        }
        reply
    }
}

/// Law: an echo reply is the request with type and code set to zero and a
/// checksum that verifies; everything from byte 4 on (identifier, sequence
/// number, data) is the request's, and the length is the request's.
pub proof fn lemma_echo_reply_bytes(request: Seq<u8>)
    requires
        request.len() >= 4,
    ensures
        echo_reply(request).len() == request.len(),
        echo_reply(request)[0] == 0,
        echo_reply(request)[1] == 0,
        echo_reply(request).subrange(4, request.len() as int) == request.subrange(
            4,
            request.len() as int,
        ),
        internet_checksum(echo_reply(request)) == 0,
{
    let template = echo_reply_template(request);
    lemma_checksum_verifies(template, 2);
    assert(echo_reply(request).subrange(4, request.len() as int) =~= request.subrange(
        4,
        request.len() as int,
    ));
}

/// Law: every ICMP type survives the trip to its number and back.
pub proof fn lemma_message_type_number_roundtrip(t: ICMPType)
    ensures
        message_type_of(message_type_number(t)) == t,
{
}

/// Law: every known type number survives the trip to its type and back;
/// every other number reads as `Unknown`.
pub proof fn lemma_message_type_of_known(value: u8)
    ensures
        message_type_of(value) != ICMPType::Unknown ==> message_type_number(
            message_type_of(value),
        ) == value,
        message_type_of(value) == ICMPType::Unknown <==> !(value == 0 || value == 3 || value == 4
            || value == 5 || value == 8 || value == 11),
        message_type_of(value) == ICMPType::EchoReply <==> value == 0,
        message_type_of(value) == ICMPType::DestinationUnreachable <==> value == 3,
        message_type_of(value) == ICMPType::SourceQuench <==> value == 4,
        message_type_of(value) == ICMPType::Redirect <==> value == 5,
        message_type_of(value) == ICMPType::EchoRequest <==> value == 8,
        message_type_of(value) == ICMPType::TimeExceeded <==> value == 11,
        message_type_number(ICMPType::Unknown) == 255,
{
}

} // verus!
