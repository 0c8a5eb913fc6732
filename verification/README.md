# tunnet

A small user-space IPv4 stack for a TUN interface. The library under `src/`
is verified with Verus; `app/` (the TUN device, the async socket and the
packet loop) is ordinary Rust around it and is not verified.

- `src/protocol/checksum.rs`: the Internet checksum as a specification
  (16-bit word sum, end-around carry, one's complement) and its laws, among
  them that a packet carrying its own checksum sums to zero.
- `src/protocol/protocol.rs`: the IPv4 protocol numbers and the
  `Checksummable` trait with the verified checksum routine.
- `src/protocol/ip_packet.rs`, `icmp_packet.rs`, `udp_packet.rs`,
  `tcp/tcp_packet.rs`: views over raw packets and the packet builders
  (IPv4 header, ICMP echo reply, UDP datagram).
- `src/protocol/tcp/tcp_state.rs`: the passive-open TCP state machine.
- `src/protocol/port_registry.rs`: the table of bound UDP ports.
- `src/protocol/packet_handler.rs`: what the stack does with each packet it
  reads (echo reply, UDP delivery, drop).
- `app/`: the TUN device, the async UDP socket and the packet loop.
