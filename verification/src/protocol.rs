pub mod protocol;
pub mod checksum;
pub mod icmp_packet;
pub mod ip_packet;
pub mod udp_packet;
pub mod tcp;
pub mod port_registry;
pub mod packet_handler;
