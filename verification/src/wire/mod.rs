//! Wire formats: Ethernet II, ARP, IPv4 and UDP.
//!
//! Each submodule states, over the bytes of a buffer, which buffers are
//! well-formed and what each header field holds, and reads the fields through
//! `smoltcp`'s packet wrappers.

pub mod arp;
pub mod ethernet;
pub mod ipv4;
pub mod udp;
