//! A small user-space IPv4 stack: packet views over raw bytes, the Internet
//! checksum, ICMP echo replies, UDP datagram construction, a passive TCP
//! handshake state machine and a UDP port table.

pub mod protocol;
