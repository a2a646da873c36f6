//! Frames from the guest to the host. Nothing passes unless a rule lets it.

use crate::dhcp_snooper::{valid_dns_target, LeaseView};
use crate::net::{be32, EthernetAddress, Ipv4Address};
use crate::proxy::udp_packet_helper::{ports_of, UdpPorts};
use crate::proxy::{Proxy, ProxyView};
use crate::rules::{lemma_longest_match_is_longest, longest_match, Action};
use crate::wire::{arp, ethernet, ipv4};
use vstd::prelude::*;

verus! {

/// Whether `src` is the leased address of a lease that still runs.
pub open spec fn valid_ip_source(lease: Option<LeaseView>, lease_valid: bool, src: u32) -> bool {
    lease_valid && (lease matches Some(lease) && lease.address == src)
}

/// The ports of the UDP datagram that an IPv4 packet carries; nothing
/// when the packet carries another protocol or either header is malformed.
pub open spec fn carried_ports(packet: Seq<u8>) -> Option<UdpPorts> {
    if ipv4::protocol(packet) == ipv4::PROTOCOL_UDP && ipv4::well_formed(packet) {
        ports_of(ipv4::payload(packet))
    } else {
        None
    }
}

/// Whether the packet is a DHCP request to the limited broadcast address,
/// which a guest must be able to send before it has an address.
pub open spec fn dhcp_bootstrap(packet: Seq<u8>) -> bool {
    carried_ports(packet) matches Some(ports) && ports.spec_is_dhcp_request() && ipv4::destination(
        packet,
    ) == 0xffff_ffffu32
}

/// Whether the packet is a DNS request to a resolver that the lease names.
pub open spec fn dns_to_resolver(lease: Option<LeaseView>, packet: Seq<u8>) -> bool {
    carried_ports(packet) matches Some(ports) && ports.spec_is_dns_request() && valid_dns_target(
        lease,
        ipv4::destination(packet),
    )
}

/// Whether the guest may send an ARP packet: the sender hardware address
/// must be the guest's, and the sender protocol address the leased address
/// of a running lease or, while there is no lease, `0.0.0.0`.
pub open spec fn arp_allowed(proxy: ProxyView, lease_valid: bool, packet: Seq<u8>) -> bool {
    let sender = arp::source_protocol_addr(packet);
    &&& arp::well_formed(packet)
    &&& arp::source_hardware_addr(packet) == proxy.vm_mac
    &&& sender.len() == 4
    &&& match proxy.lease {
        Some(lease) => lease_valid && lease.address == be32(sender, 0),
        None => be32(sender, 0) == 0,
    }
}

/// Whether the guest may send an IPv4 packet. From its leased address,
/// while the lease runs, the most specific egress rule for the destination
/// decides where there is one; without one the packet may go to globally
/// routable unicast addresses, to the gateway, and as a DNS request to the
/// resolvers of the lease. From any address a DHCP request may go to the
/// limited broadcast address.
pub open spec fn ipv4_allowed(proxy: ProxyView, lease_valid: bool, packet: Seq<u8>) -> bool {
    let dst = ipv4::destination(packet);
    let trusted = valid_ip_source(proxy.lease, lease_valid, ipv4::source(packet));
    let rule = longest_match(proxy.rules, dst);
    &&& ipv4::has_header(packet)
    &&& if trusted && rule is Some {
        rule matches Some((_, action)) && action == Action::Allow
    } else if trusted && (Ipv4Address { bits: dst }.spec_is_global_unicast() || dst
        == proxy.gateway_ip) {
        true
    } else {
        (trusted && dns_to_resolver(proxy.lease, packet)) || dhcp_bootstrap(packet)
    }
}

/// Whether a frame from the guest goes on to the host: it must come from
/// the guest's MAC address and carry an ARP or IPv4 packet that the guest
/// may send.
pub open spec fn vm_frame_allowed(proxy: ProxyView, lease_valid: bool, frame: Seq<u8>) -> bool {
    let payload = ethernet::payload(frame);
    &&& ethernet::well_formed(frame)
    &&& ethernet::source(frame) == proxy.vm_mac
    &&& if ethernet::ethertype(frame) == ethernet::ETHERTYPE_ARP {
        arp_allowed(proxy, lease_valid, payload)
    } else if ethernet::ethertype(frame) == ethernet::ETHERTYPE_IPV4 {
        ipv4::well_formed(payload) && ipv4_allowed(proxy, lease_valid, payload)
    } else {
        false
    }
}

/// A frame that does not come from the guest's MAC address never goes on
/// to the host.
pub proof fn lemma_spoofed_mac_dropped(proxy: ProxyView, lease_valid: bool, frame: Seq<u8>)
    requires
        ethernet::source(frame) != proxy.vm_mac,
    ensures
        !vm_frame_allowed(proxy, lease_valid, frame),
{
}

/// An IPv4 packet that goes on to the host either comes from the leased
/// address of a running lease or is a DHCP request to the limited broadcast
/// address.
pub proof fn lemma_forwarded_ipv4_source(proxy: ProxyView, lease_valid: bool, frame: Seq<u8>)
    requires
        vm_frame_allowed(proxy, lease_valid, frame),
        ethernet::ethertype(frame) == ethernet::ETHERTYPE_IPV4,
    ensures
        ({
            let packet = ethernet::payload(frame);
            ||| (lease_valid && (proxy.lease matches Some(lease) && lease.address == ipv4::source(
                packet,
            )))
            ||| dhcp_bootstrap(packet)
        }),
{
}

impl Proxy {
    /// Decides, by the clock, whether the lease still runs, and with that
    /// whether a frame from the guest goes on to the host.
    pub fn process_frame_from_vm(&self, frame: &[u8]) -> (forward: bool)
        ensures
            forward == vm_frame_allowed(self@, true, frame@) || forward == vm_frame_allowed(
                self@,
                false,
                frame@,
            ),
            ethernet::source(frame@) != self@.vm_mac ==> !forward,
            forward && !vm_frame_allowed(self@, false, frame@) ==> (self@.lease matches Some(lease)
                && 0 < lease.lifetime_secs),
    {
        let lease_valid = self.dhcp_snooper.lease_valid();
        self.allowed_from_vm(frame, lease_valid)
    }

    /// Whether a frame from the guest goes on to the host, given whether
    /// the lease still runs.
    pub fn allowed_from_vm(&self, frame: &[u8], lease_valid: bool) -> (allowed: bool)
        ensures
            allowed == vm_frame_allowed(self@, lease_valid, frame@),
    {
        if !ethernet::checked(frame) {
            return false;
        }
        let source = ethernet::read_source(frame);
        if !self.vm_mac_address.matches(source.octets()) {
            return false;
        }
        let ethertype = ethernet::read_ethertype(frame);
        let payload = ethernet::read_payload(frame);
        if ethertype == ethernet::ETHERTYPE_ARP {
            self.allowed_from_vm_arp(payload, lease_valid)
        } else if ethertype == ethernet::ETHERTYPE_IPV4 {
            if !ipv4::checked(payload) {
                return false;
            }
            self.allowed_from_vm_ipv4(payload, lease_valid)
        } else {
            false
        }
    }

    /// Whether the guest may send the ARP packet in `packet`, given whether
    /// the lease still runs.
    pub fn allowed_from_vm_arp(&self, packet: &[u8], lease_valid: bool) -> (allowed: bool)
        ensures
            allowed == arp_allowed(self@, lease_valid, packet@),
    {
        if !arp::checked(packet) {
            return false;
        }
        let hardware = arp::read_source_hardware_addr(packet);
        if !self.vm_mac_address.matches(hardware.as_slice()) {
            return false;
        }
        let sender = arp::read_source_protocol_addr(packet);
        if sender.len() != 4 {
            return false;
        }
        let source = Ipv4Address::new(sender[0], sender[1], sender[2], sender[3]);
        proof {
            assert(sender@ =~= seq![sender[0], sender[1], sender[2], sender[3]]);
            self.lemma_lease_view();
        }
        match self.dhcp_snooper.lease() {
            Some(lease) => lease_valid && lease.address() == source,
            None => source.is_unspecified(),
        }
    }

    /// Whether the guest may send the IPv4 packet in `packet`, given
    /// whether the lease still runs. The buffer needs to hold the fixed part
    /// of the header; its length fields are looked at only where the payload
    /// is.
    pub fn allowed_from_vm_ipv4(&self, packet: &[u8], lease_valid: bool) -> (allowed: bool)
        ensures
            allowed == ipv4_allowed(self@, lease_valid, packet@),
    {
        if packet.len() < ipv4::HEADER_LEN {
            return false;
        }
        let src = ipv4::read_source(packet);
        let dst = ipv4::read_destination(packet);
        let ports = if ipv4::read_protocol(packet) == ipv4::PROTOCOL_UDP && ipv4::checked(packet) {
            UdpPorts::read(ipv4::read_payload(packet))
        } else {
            None
        };
        proof {
            self.lemma_lease_view();
            lemma_longest_match_is_longest(self@.rules, dst@);
        }
        let trusted = lease_valid && match self.dhcp_snooper.lease() {
            Some(lease) => lease.address() == src,
            None => false,
        };
        // Is this packet coming from the address that the guest was given?
        if trusted {
            // Egress rules come first
            if !self.rules.is_empty() {
                if let Some((_, action)) = self.rules.get_lpm(dst) {
                    return match action {
                        Action::Allow => true,
                        Action::Block => false,
                    };
                }
            }
            // Without a rule, all global traffic may pass
            if dst.is_global_unicast() {
                return true;
            }
            // So may traffic to the host, or things like SSH to the guest
            // would not work
            if dst == self.gateway_ip {
                return true;
            }
            // And so may DNS requests to the resolvers that the host's
            // DHCP server gave to the guest
            if let Some(ports) = ports {
                if ports.is_dns_request() && self.dhcp_snooper.valid_dns_target(&dst) {
                    return true;
                }
            }
        }
        // DHCP requests to the broadcast address may always pass, or the
        // guest would never get a lease
        if let Some(ports) = ports {
            if ports.is_dhcp_request() && dst.is_broadcast() {
                return true;
            }
        }
        false
    }
}

} // verus!
