use vstd::prelude::*;
use crate::protocol::tcp::tcp_flags::TcpFlags;

verus! {

/// The states of a passively opened TCP connection.
#[derive(Debug, Clone, Copy, PartialEq, Eq, Structural)]
pub enum TcpState {
    Closed,
    Listen,
    SynRcvd,
    Established,
}

/// What the connection asks its owner to send or do after a segment.
#[derive(Debug, Clone, Copy, PartialEq, Eq, Structural)]
pub enum TcpAction {
    /// Answer a SYN with SYN+ACK.
    SendSynAck { seq: u32, ack: u32 },
    /// Answer with a reset; `ack` is present when the reset carries ACK.
    SendRst { seq: u32, ack: Option<u32> },
    /// The handshake completed.
    Establish { seq: u32, ack: u32 },
    /// The peer reset the connection.
    Closed,
    /// Nothing to send.
    Nothing,
}

/// A TCP connection's control block.
pub struct Connection {
    pub state: TcpState,
    /// Initial send sequence number.
    pub iss: u32,
    /// Next sequence number to send.
    pub snd_nxt: u32,
    /// Initial receive sequence number (the peer's).
    pub irs: u32,
    /// Next sequence number expected from the peer.
    pub rcv_nxt: u32,
}

/// The initial send sequence number this stack uses.
pub const INITIAL_SEND_SEQ: u32 = 5000;

/// Sequence-number addition: `a + b` modulo 2^32.
pub open spec fn seq_add(a: u32, b: nat) -> u32 {
    ((a + b) % 0x1_0000_0000) as u32
}

/// The sequence space a segment occupies: its payload, plus one for SYN
/// and one for FIN, as a 32-bit count (the payload length is truncated).
pub open spec fn segment_len(flags: TcpFlags, payload_len: usize) -> int {
    (payload_len as u32) + (if flags.syn { 1int } else { 0 }) + (if flags.fin { 1int } else { 0 })
}

/// A segment that reaches a closed connection can be answered: it carries
/// ACK, or its sequence length fits in 32 bits.
pub open spec fn closed_reply_defined(flags: TcpFlags, payload_len: usize) -> bool {
    flags.ack || segment_len(flags, payload_len) <= u32::MAX
}

/// The reset sent in answer to a segment that reaches a closed connection
/// (RFC 793): if the segment carries ACK, the reset's sequence number is
/// that acknowledgment and it carries no ACK; otherwise its sequence
/// number is zero and it acknowledges the end of the segment.
pub open spec fn rst_for_closed(seq: u32, ack: u32, flags: TcpFlags, payload_len: usize) -> TcpAction {
    if flags.ack {
        TcpAction::SendRst { seq: ack, ack: Option::None }
    } else {
        TcpAction::SendRst {
            seq: 0,
            ack: Option::Some(seq_add(seq, segment_len(flags, payload_len) as nat)),
        }
    }
}

/// `c` with its state replaced.
pub open spec fn with_state(c: Connection, state: TcpState) -> Connection {
    Connection { state, iss: c.iss, snd_nxt: c.snd_nxt, irs: c.irs, rcv_nxt: c.rcv_nxt }
}

/// A segment (`seq`, `ack`, `flags`, payload length) reaching a connection
/// in the given state is answered by the state machine below; this is the
/// connection after it and the action it asks for.
pub open spec fn next(c: Connection, seq: u32, ack: u32, flags: TcpFlags, payload_len: usize) -> (
    Connection,
    TcpAction,
) {
    if flags.rst {
        match c.state {
            // A reset in LISTEN is ignored.
            TcpState::Listen => (c, TcpAction::Nothing),
            // A passively opened connection returns to LISTEN.
            TcpState::SynRcvd => (with_state(c, TcpState::Listen), TcpAction::Nothing),
            TcpState::Closed => (c, TcpAction::Nothing),
            TcpState::Established => (with_state(c, TcpState::Closed), TcpAction::Closed),
        }
    } else {
        match c.state {
            TcpState::Listen => {
                if flags.syn && !flags.ack {
                    (
                        Connection {
                            state: TcpState::SynRcvd,
                            iss: INITIAL_SEND_SEQ,
                            snd_nxt: seq_add(INITIAL_SEND_SEQ, 1),
                            irs: seq,
                            rcv_nxt: seq_add(seq, 1),
                        },
                        TcpAction::SendSynAck { seq: INITIAL_SEND_SEQ, ack: seq_add(seq, 1) },
                    )
                } else if flags.ack {
                    (c, TcpAction::SendRst { seq: ack, ack: Option::None })
                } else {
                    (c, TcpAction::Nothing)
                }
            },
            TcpState::SynRcvd => {
                if flags.ack && !flags.syn {
                    if ack == c.snd_nxt {
                        (
                            with_state(c, TcpState::Established),
                            TcpAction::Establish { seq: c.snd_nxt, ack: c.rcv_nxt },
                        )
                    } else {
                        (c, TcpAction::SendRst { seq: ack, ack: Option::None })
                    }
                } else {
                    (c, TcpAction::Nothing)
                }
            },
            TcpState::Established => (c, TcpAction::Nothing),
            TcpState::Closed => (c, rst_for_closed(seq, ack, flags, payload_len)),
        }
    }
}

/// Whether `step` is defined on this segment: every segment is, except one
/// without RST or ACK whose sequence length overflows 32 bits reaching a
/// closed connection.
pub open spec fn step_defined(c: Connection, flags: TcpFlags, payload_len: usize) -> bool {
    (c.state == TcpState::Closed && !flags.rst) ==> closed_reply_defined(flags, payload_len)
}

/// The handshake numbers that hold once a SYN has been accepted: the
/// initial sequence number, the next sequence number one past it, and the
/// next expected number one past the peer's initial sequence number.
pub open spec fn handshake_consistent(c: Connection) -> bool {
    (c.state == TcpState::SynRcvd || c.state == TcpState::Established) ==> {
        &&& c.iss == INITIAL_SEND_SEQ
        &&& c.snd_nxt == seq_add(c.iss, 1)
        &&& c.rcv_nxt == seq_add(c.irs, 1)
    }
}

impl Connection {
    /// A connection waiting for a SYN, with all sequence numbers zero.
    pub fn new_listening() -> (c: Self)
        ensures
            c.state == TcpState::Listen,
            c.iss == 0,
            c.snd_nxt == 0,
            c.irs == 0,
            c.rcv_nxt == 0,
    {
        Self { state: TcpState::Listen, iss: 0, snd_nxt: 0, irs: 0, rcv_nxt: 0 }
    }

    /// Feeds one incoming segment (`seq`, `ack`, `flags`, payload length) to
    /// the connection; returns what to send in answer.
    pub fn step(&mut self, seq: u32, ack: u32, flags: TcpFlags, payload_len: usize) -> (action:
        TcpAction)
        requires
            step_defined(*old(self), flags, payload_len),
        ensures
            (*final(self), action) == next(*old(self), seq, ack, flags, payload_len),
            old(self).state == TcpState::Established && !flags.rst ==> action == TcpAction::Nothing
                && final(self).state == TcpState::Established && final(self).iss == old(self).iss
                && final(self).snd_nxt == old(self).snd_nxt && final(self).irs == old(self).irs
                && final(self).rcv_nxt == old(self).rcv_nxt,
    {
        if flags.rst {
            match self.state {
                TcpState::Listen => {
                    return TcpAction::Nothing;
                },
                TcpState::SynRcvd => {
                    self.state = TcpState::Listen;
                    return TcpAction::Nothing;
                },
                TcpState::Closed => {
                    return TcpAction::Nothing;
                },
                _ => {
                    self.state = TcpState::Closed;
                    return TcpAction::Closed;
                },
            }
        }
        match self.state {
            TcpState::Listen => {
                if flags.syn && !flags.ack {
                    self.irs = seq;
                    self.rcv_nxt = seq.wrapping_add(1);

                    self.iss = INITIAL_SEND_SEQ;
                    self.snd_nxt = self.iss.wrapping_add(1);

                    self.state = TcpState::SynRcvd;

                    return TcpAction::SendSynAck { seq: self.iss, ack: self.rcv_nxt };
                }
                if flags.ack {
                    return TcpAction::SendRst { seq: ack, ack: Option::None };
                }
                TcpAction::Nothing
            },
            TcpState::SynRcvd => {
                if flags.ack && !flags.syn {
                    if ack == self.snd_nxt {
                        self.state = TcpState::Established;
                        return TcpAction::Establish { seq: self.snd_nxt, ack: self.rcv_nxt };
                    } else {
                        return TcpAction::SendRst { seq: ack, ack: Option::None };
                    }
                }
                TcpAction::Nothing
            },
            TcpState::Established => TcpAction::Nothing,
            TcpState::Closed => Self::build_rst_for_closed(seq, ack, flags, payload_len),
        }
    }

    /// The reset that answers a segment reaching a closed connection.
    pub fn build_rst_for_closed(seq: u32, ack: u32, flags: TcpFlags, payload_len: usize) -> (action:
        TcpAction)
        requires
            closed_reply_defined(flags, payload_len),
        ensures
            action == rst_for_closed(seq, ack, flags, payload_len),
            flags.ack ==> action == (TcpAction::SendRst { seq: ack, ack: Option::None }),
            !flags.ack ==> action == (TcpAction::SendRst {
                seq: 0,
                ack: Option::Some(
                    ((seq + (payload_len as int) % 0x1_0000_0000 + (if flags.syn { 1int } else { 0 }) + (
                    if flags.fin { 1int } else { 0 })) % 0x1_0000_0000) as u32,
                ),
            }),
    {
        proof {
            lemma_closed_reset(seq, ack, flags, payload_len);
        }
        if flags.ack {
            TcpAction::SendRst { seq: ack, ack: Option::None }
        } else {
            let mut consumed_len = payload_len as u32;
            if flags.syn {
                consumed_len += 1;
            }
            if flags.fin {
                consumed_len += 1;
            }
            TcpAction::SendRst { seq: 0, ack: Option::Some(seq.wrapping_add(consumed_len)) }
        }
    }
}

/// Law: the reset that answers a segment reaching a closed connection, in
/// plain arithmetic. A segment with ACK gets a reset whose sequence number
/// is that acknowledgment, without ACK, whatever else it carries. A segment
/// without ACK gets a reset with sequence number zero that acknowledges the
/// segment's sequence number plus its length (truncated to 32 bits) plus one
/// for SYN and one for FIN, modulo 2^32.
pub proof fn lemma_closed_reset(seq: u32, ack: u32, flags: TcpFlags, payload_len: usize)
    ensures
        flags.ack ==> rst_for_closed(seq, ack, flags, payload_len) == (TcpAction::SendRst {
            seq: ack,
            ack: Option::None,
        }),
        !flags.ack ==> rst_for_closed(seq, ack, flags, payload_len) == (TcpAction::SendRst {
            seq: 0,
            ack: Option::Some(
                ((seq + (payload_len as int) % 0x1_0000_0000 + (if flags.syn { 1int } else { 0 }) + (
                if flags.fin { 1int } else { 0 })) % 0x1_0000_0000) as u32,
            ),
        }),
{
    let t = payload_len as u32;
    let x = payload_len as u64;
    assert(t as u64 == x & 0xffff_ffff) by (bit_vector)
        requires
            t == payload_len as u32,
            x == payload_len as u64,
    ;
    assert(x & 0xffff_ffff == x % 0x1_0000_0000) by (bit_vector);
}

/// Law: an established connection answers every segment without RST with
/// nothing and stays as it is; in particular it never sends a reset.
pub proof fn lemma_established_ignores_segments(
    c: Connection,
    seq: u32,
    ack: u32,
    flags: TcpFlags,
    payload_len: usize,
)
    requires
        c.state == TcpState::Established,
        !flags.rst,
    ensures
        next(c, seq, ack, flags, payload_len).1 == TcpAction::Nothing,
        next(c, seq, ack, flags, payload_len).0 == c,
{
}

/// Law: how a listening connection answers each segment. A SYN without ACK
/// or RST is answered with SYN+ACK carrying sequence number 5000 and
/// acknowledging the SYN's sequence number plus one (modulo 2^32), and the
/// connection moves to SYN-RECEIVED with those numbers recorded; a segment
/// with ACK and without RST is answered with a reset whose sequence number
/// is that acknowledgment; anything else is ignored. Only the SYN changes
/// the connection.
pub proof fn lemma_listen_transitions(
    c: Connection,
    seq: u32,
    ack: u32,
    flags: TcpFlags,
    payload_len: usize,
)
    requires
        c.state == TcpState::Listen,
    ensures
        ({
            let (d, a) = next(c, seq, ack, flags, payload_len);
            &&& (!flags.rst && flags.syn && !flags.ack) ==> {
                &&& a == (TcpAction::SendSynAck {
                    seq: 5000,
                    ack: ((seq + 1int) % 0x1_0000_0000) as u32,
                })
                &&& d.state == TcpState::SynRcvd
                &&& d.iss == 5000
                &&& d.snd_nxt == 5001
                &&& d.irs == seq
                &&& d.rcv_nxt == ((seq + 1int) % 0x1_0000_0000) as u32
            }
            &&& (!flags.rst && flags.ack) ==> a == (TcpAction::SendRst {
                seq: ack,
                ack: Option::None,
            }) && d == c
            &&& (flags.rst || (!flags.syn && !flags.ack)) ==> a == TcpAction::Nothing && d == c
        }),
{
}

/// Law: how a connection in SYN-RECEIVED answers each segment. A reset
/// sends it back to LISTEN silently; an ACK without SYN that acknowledges
/// exactly `snd_nxt` establishes it, reporting `snd_nxt` and `rcv_nxt`; an
/// ACK without SYN that acknowledges anything else is answered with a reset
/// whose sequence number is that acknowledgment; anything else is ignored.
pub proof fn lemma_syn_received_transitions(
    c: Connection,
    seq: u32,
    ack: u32,
    flags: TcpFlags,
    payload_len: usize,
)
    requires
        c.state == TcpState::SynRcvd,
    ensures
        ({
            let (d, a) = next(c, seq, ack, flags, payload_len);
            &&& d.iss == c.iss && d.snd_nxt == c.snd_nxt && d.irs == c.irs && d.rcv_nxt == c.rcv_nxt
            &&& flags.rst ==> a == TcpAction::Nothing && d.state == TcpState::Listen
            &&& (!flags.rst && flags.ack && !flags.syn && ack == c.snd_nxt) ==> a == (
            TcpAction::Establish { seq: c.snd_nxt, ack: c.rcv_nxt })
                && d.state == TcpState::Established
            &&& (!flags.rst && flags.ack && !flags.syn && ack != c.snd_nxt) ==> a == (
            TcpAction::SendRst { seq: ack, ack: Option::None }) && d.state == TcpState::SynRcvd
            &&& (!flags.rst && !(flags.ack && !flags.syn)) ==> a == TcpAction::Nothing && d.state
                == TcpState::SynRcvd
        }),
{
}

/// Law: an established connection that receives a reset closes, tells its
/// owner so, and keeps its numbers; a closed connection ignores resets and
/// answers every other segment with the closed-connection reset.
pub proof fn lemma_reset_and_closed_transitions(
    c: Connection,
    seq: u32,
    ack: u32,
    flags: TcpFlags,
    payload_len: usize,
)
    ensures
        ({
            let (d, a) = next(c, seq, ack, flags, payload_len);
            &&& (c.state == TcpState::Established && flags.rst) ==> {
                &&& a == TcpAction::Closed
                &&& d.state == TcpState::Closed
                &&& d.iss == c.iss && d.snd_nxt == c.snd_nxt && d.irs == c.irs
                &&& d.rcv_nxt == c.rcv_nxt
            }
            &&& (c.state == TcpState::Closed && flags.rst) ==> a == TcpAction::Nothing && d == c
            &&& (c.state == TcpState::Closed && !flags.rst) ==> a == rst_for_closed(
                seq,
                ack,
                flags,
                payload_len,
            ) && d == c
        }),
{
}

/// Law: every step keeps the handshake numbers consistent, so every
/// connection reached from `new_listening` by steps has them.
pub proof fn lemma_step_keeps_handshake_consistent(
    c: Connection,
    seq: u32,
    ack: u32,
    flags: TcpFlags,
    payload_len: usize,
)
    requires
        handshake_consistent(c),
    ensures
        handshake_consistent(next(c, seq, ack, flags, payload_len).0),
{
}

/// Law: a closed connection stays closed, unchanged, whatever arrives.
pub proof fn lemma_closed_is_final(
    c: Connection,
    seq: u32,
    ack: u32,
    flags: TcpFlags,
    payload_len: usize,
)
    requires
        c.state == TcpState::Closed,
    ensures
        next(c, seq, ack, flags, payload_len).0 == c,
{
}

/// Law: a connection becomes established only from SYN-RECEIVED, on a
/// segment with ACK, without SYN or RST, that acknowledges exactly the next
/// sequence number; the handshake then completes with that number.
pub proof fn lemma_established_only_by_matching_ack(
    c: Connection,
    seq: u32,
    ack: u32,
    flags: TcpFlags,
    payload_len: usize,
)
    requires
        c.state != TcpState::Established,
        next(c, seq, ack, flags, payload_len).0.state == TcpState::Established,
    ensures
        c.state == TcpState::SynRcvd,
        flags.ack && !flags.syn && !flags.rst,
        ack == c.snd_nxt,
        next(c, seq, ack, flags, payload_len).1 == (TcpAction::Establish {
            seq: c.snd_nxt,
            ack: c.rcv_nxt,
        }),
{
}

/// Law: a connection closes only when an established connection receives a
/// reset, and the owner is then told so.
pub proof fn lemma_closes_only_on_reset(
    c: Connection,
    seq: u32,
    ack: u32,
    flags: TcpFlags,
    payload_len: usize,
)
    requires
        c.state != TcpState::Closed,
        next(c, seq, ack, flags, payload_len).0.state == TcpState::Closed,
    ensures
        c.state == TcpState::Established,
        flags.rst,
        next(c, seq, ack, flags, payload_len).1 == TcpAction::Closed,
{
}

/// Law: a segment with RST is never answered with a segment.
pub proof fn lemma_reset_is_never_answered(
    c: Connection,
    seq: u32,
    ack: u32,
    flags: TcpFlags,
    payload_len: usize,
)
    requires
        flags.rst,
    ensures
        next(c, seq, ack, flags, payload_len).1 == TcpAction::Nothing
            || next(c, seq, ack, flags, payload_len).1 == TcpAction::Closed,
{
}

} // verus!
