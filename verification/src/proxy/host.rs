//! Frames from the host to the guest. The host is trusted not to spoof,
//! so all that is looked at is the kind of frame, and the DHCP replies among
//! them, from which the guest's lease is learned.

use crate::dhcp_snooper::{
    clears_lease, decoded_reply, lease_after_reply, replaces_lease, LeaseView,
};
use crate::proxy::udp_packet_helper::{ports_of, UdpPorts};
use crate::proxy::{Proxy, ProxyView};
use crate::wire::{ethernet, ipv4, udp};
use vstd::prelude::*;

verus! {

/// Whether a frame from the host goes on to the guest: it must carry ARP
/// or IPv4.
pub open spec fn host_frame_allowed(frame: Seq<u8>) -> bool {
    &&& ethernet::well_formed(frame)
    &&& (ethernet::ethertype(frame) == ethernet::ETHERTYPE_ARP || ethernet::ethertype(frame)
        == ethernet::ETHERTYPE_IPV4)
}

/// The DHCP payload that a frame from the host carries for the guest, if
/// it carries one: the frame must be addressed to the guest's MAC address
/// and hold a well-formed IPv4 packet from the gateway, with a well-formed
/// UDP datagram from a DHCP server or to a DHCP client.
pub open spec fn snooped_reply(proxy: ProxyView, frame: Seq<u8>) -> Option<Seq<u8>> {
    let packet = ethernet::payload(frame);
    let datagram = ipv4::payload(packet);
    if ethernet::well_formed(frame) && ethernet::destination(frame) == proxy.vm_mac
        && ethernet::ethertype(frame) == ethernet::ETHERTYPE_IPV4 && ipv4::well_formed(packet)
        && ipv4::source(packet) == proxy.gateway_ip && ipv4::protocol(packet)
        == ipv4::PROTOCOL_UDP && (ports_of(datagram) matches Some(ports)
        && ports.spec_is_dhcp_response()) {
        Some(udp::payload(datagram))
    } else {
        None
    }
}

/// The guest's lease after a frame from the host was seen.
pub open spec fn lease_after_frame(proxy: ProxyView, frame: Seq<u8>) -> Option<LeaseView> {
    match snooped_reply(proxy, frame) {
        Some(payload) => lease_after_reply(proxy.lease, decoded_reply(payload)),
        None => proxy.lease,
    }
}

/// Whether a frame from the host leaves the guest's lease as it is, the
/// moment it was granted included: it does unless it carries an
/// acknowledgement with a lease time, or a refusal.
pub open spec fn lease_kept(proxy: ProxyView, frame: Seq<u8>) -> bool {
    match snooped_reply(proxy, frame) {
        Some(payload) => !replaces_lease(decoded_reply(payload)) && !clears_lease(
            decoded_reply(payload),
        ),
        None => true,
    }
}

/// What became of a write to the guest that failed.
#[derive(Debug, Clone, Copy, PartialEq, Eq, Structural)]
pub enum WriteFailure {
    /// The guest's socket was out of buffer space: the frame is lost and
    /// the proxy goes on. `report` is set the first time this happens.
    Dropped { report: bool },
    /// Any other error ends the proxy.
    Fatal,
}

/// `libc::ENOBUFS`: the error number for "no buffer space available" on
/// the platform the crate is built for.
#[verifier::external_body]
fn enobufs() -> i32 {
    libc::ENOBUFS
}

impl Proxy {
    /// Takes in a frame from the host. A DHCP reply to the guest is
    /// handed to the snooper first, so that the lease is in place before the
    /// guest can act on the reply. Returns whether the frame goes on to the
    /// guest.
    pub fn process_frame_from_host(&mut self, frame: &[u8]) -> (forward: bool)
        ensures
            forward == host_frame_allowed(frame@),
            final(self)@ == (ProxyView {
                lease: lease_after_frame(old(self)@, frame@),
                ..old(self)@
            }),
            lease_kept(old(self)@, frame@) ==> final(self).spec_lease() == old(self).spec_lease(),
    {
        if !self.allowed_from_host(frame) {
            // Block the frame by not forwarding it to the guest
            return false;
        }
        // Snoop the replies of the host's DHCP server to figure out the
        // address that was given to the guest
        self.snoop(frame);
        true
    }

    /// Whether a frame from the host goes on to the guest.
    pub fn allowed_from_host(&self, frame: &[u8]) -> (allowed: bool)
        ensures
            allowed == host_frame_allowed(frame@),
    {
        if !ethernet::checked(frame) {
            return false;
        }
        let ethertype = ethernet::read_ethertype(frame);
        ethertype == ethernet::ETHERTYPE_ARP || ethertype == ethernet::ETHERTYPE_IPV4
    }

    /// Hands the DHCP reply that a frame from the host carries for the
    /// guest, if it carries one from the gateway, to the snooper.
    pub fn snoop(&mut self, frame: &[u8])
        ensures
            final(self)@ == (ProxyView {
                lease: lease_after_frame(old(self)@, frame@),
                ..old(self)@
            }),
            lease_kept(old(self)@, frame@) ==> final(self).spec_lease() == old(self).spec_lease(),
    {
        if !ethernet::checked(frame) {
            return ;
        }
        let destination = ethernet::read_destination(frame);
        if !self.vm_mac_address.matches(destination.octets()) {
            return ;
        }
        if ethernet::read_ethertype(frame) != ethernet::ETHERTYPE_IPV4 {
            return ;
        }
        let packet = ethernet::read_payload(frame);
        if !ipv4::checked(packet) {
            return ;
        }
        if ipv4::read_source(packet) != self.gateway_ip {
            return ;
        }
        if ipv4::read_protocol(packet) != ipv4::PROTOCOL_UDP {
            return ;
        }
        let datagram = ipv4::read_payload(packet);
        let ports = match UdpPorts::read(datagram) {
            Some(ports) => ports,
            None => {
                return ;
            },
        };
        if !ports.is_dhcp_response() {
            return ;
        }
        self.dhcp_snooper.register_dhcp_reply(udp::read_payload(datagram));
    }

    /// Takes in that a write to the guest failed with the operating system
    /// error `raw_os_error`, if it came with one.
    pub fn vm_write_failed(&mut self, raw_os_error: Option<i32>) -> (outcome: WriteFailure)
        ensures
            outcome is Fatal ==> final(self)@ == old(self)@,
            outcome matches WriteFailure::Dropped { report } ==> report == !old(
                self,
            )@.enobufs_encountered && final(self)@ == (ProxyView {
                enobufs_encountered: true,
                ..old(self)@
            }),
            raw_os_error is None ==> outcome is Fatal,
            final(self).spec_lease() == old(self).spec_lease(),
    {
        self.vm_write_failed_with(raw_os_error, enobufs())
    }

    /// Takes in that a write to the guest failed with the operating system
    /// error `raw_os_error`, where `no_buffer_space` is the error number for
    /// "no buffer space available". That error loses the frame and is
    /// reported once; any other is fatal.
    pub fn vm_write_failed_with(&mut self, raw_os_error: Option<i32>, no_buffer_space: i32) -> (outcome:
        WriteFailure)
        ensures
            outcome == if raw_os_error == Some(no_buffer_space) {
                WriteFailure::Dropped { report: !old(self)@.enobufs_encountered }
            } else {
                WriteFailure::Fatal
            },
            final(self)@ == (ProxyView {
                enobufs_encountered: old(self)@.enobufs_encountered || raw_os_error == Some(
                    no_buffer_space,
                ),
                ..old(self)@
            }),
            final(self).spec_lease() == old(self).spec_lease(),
    {
        match raw_os_error {
            Some(code) => {
                if code == no_buffer_space {
                    let report = !self.enobufs_encountered;
                    self.enobufs_encountered = true;
                    return WriteFailure::Dropped { report };
                }
                WriteFailure::Fatal
            },
            None => WriteFailure::Fatal,
        }
    }
}

} // verus!
