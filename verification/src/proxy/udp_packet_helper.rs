//! Classifying UDP datagrams by their ports.

use crate::wire::udp;
use vstd::prelude::*;

verus! {

/// The port DNS servers listen on.
pub const DNS_PORT: u16 = 53;

/// The port DHCP servers listen on.
pub const BOOTPS_PORT: u16 = 67;

/// The port DHCP clients listen on.
pub const BOOTPC_PORT: u16 = 68;

/// The two ports of a UDP datagram.
#[derive(Debug, Clone, Copy, PartialEq, Eq, Structural)]
pub struct UdpPorts {
    pub src_port: u16,
    pub dst_port: u16,
}

/// The ports of the datagram that a buffer holds, if it holds one.
pub open spec fn ports_of(datagram: Seq<u8>) -> Option<UdpPorts> {
    if udp::well_formed(datagram) {
        Some(
            UdpPorts {
                src_port: udp::source_port(datagram),
                dst_port: udp::destination_port(datagram),
            },
        )
    } else {
        None
    }
}

impl UdpPorts {
    /// Whether the datagram is addressed to a DNS server.
    pub open spec fn spec_is_dns_request(self) -> bool {
        self.dst_port == DNS_PORT
    }

    /// Whether the datagram goes from a DHCP client or to a DHCP server.
    pub open spec fn spec_is_dhcp_request(self) -> bool {
        self.src_port == BOOTPC_PORT || self.dst_port == BOOTPS_PORT
    }

    /// Whether the datagram goes from a DHCP server or to a DHCP client.
    pub open spec fn spec_is_dhcp_response(self) -> bool {
        self.src_port == BOOTPS_PORT || self.dst_port == BOOTPC_PORT
    }

    /// Reads the ports of the datagram in `datagram`; `None` when the buffer
    /// does not hold a well-formed datagram.
    pub fn read(datagram: &[u8]) -> (ports: Option<UdpPorts>)
        ensures
            ports == ports_of(datagram@),
    {
        if !udp::checked(datagram) {
            return None;
        }
        Some(
            UdpPorts {
                src_port: udp::read_source_port(datagram),
                dst_port: udp::read_destination_port(datagram),
            },
        )
    }

    /// Whether the datagram is addressed to a DNS server.
    pub fn is_dns_request(&self) -> (r: bool)
        ensures
            r == self.spec_is_dns_request(),
    {
        self.dst_port == DNS_PORT
    }

    /// Whether the datagram goes from a DHCP client or to a DHCP server.
    pub fn is_dhcp_request(&self) -> (r: bool)
        ensures
            r == self.spec_is_dhcp_request(),
    {
        self.src_port == BOOTPC_PORT || self.dst_port == BOOTPS_PORT
    }

    /// Whether the datagram goes from a DHCP server or to a DHCP client.
    pub fn is_dhcp_response(&self) -> (r: bool)
        ensures
            r == self.spec_is_dhcp_response(),
    {
        self.src_port == BOOTPS_PORT || self.dst_port == BOOTPC_PORT
    }
}

} // verus!
