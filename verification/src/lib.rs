//! Packet filtering core of a userspace L2 proxy that sits between one
//! virtual machine and a host-provided virtual network interface.
//!
//! The crate decides, frame by frame, what may cross between the guest and
//! the host: it enforces MAC and IP anti-spoofing, egress CIDR policy, and
//! the handful of exceptions a guest needs to bootstrap (ARP, DHCP, DNS to
//! learned resolvers, traffic to the gateway). It also tracks the guest's
//! DHCP lease and plans the NAT port-forwarding rules that follow it.
//!
//! Everything here is decision logic over byte slices and plain values;
//! sockets, the event queue and the vendor interface belong to the caller.

pub mod clock;
pub mod dhcp_snooper;
pub mod error;
pub mod host;
pub mod net;
pub mod poller;
pub mod proxy;
pub mod pump;
pub mod rules;
pub mod wire;

pub use error::Error;
pub use host::NetType;
