pub mod tcp_flags;
pub mod tcp_packet;
pub mod tcp_state;
