//! ARP packets.

use smoltcp::wire::ArpPacket;
use vstd::prelude::*;

verus! {

/// The hardware address length field: octet 4.
pub open spec fn hardware_len(packet: Seq<u8>) -> int {
    packet[4] as int
}

/// The protocol address length field: octet 5.
pub open spec fn protocol_len(packet: Seq<u8>) -> int {
    packet[5] as int
}

/// A buffer holds an ARP packet when the fixed eight octets fit and the four
/// addresses, of the lengths those octets announce, fit after them.
pub open spec fn well_formed(packet: Seq<u8>) -> bool {
    &&& packet.len() >= 8
    &&& packet.len() >= 8 + 2 * hardware_len(packet) + 2 * protocol_len(packet)
}

/// The sender hardware address: `hardware_len` octets from offset 8.
pub open spec fn source_hardware_addr(packet: Seq<u8>) -> Seq<u8> {
    packet.subrange(8, 8 + hardware_len(packet))
}

/// The sender protocol address: `protocol_len` octets after the sender
/// hardware address.
pub open spec fn source_protocol_addr(packet: Seq<u8>) -> Seq<u8> {
    packet.subrange(
        8 + hardware_len(packet),
        8 + hardware_len(packet) + protocol_len(packet),
    )
}

/// `ArpPacket::new_checked`: accepts a buffer exactly when the fixed part
/// and the four variable-length addresses fit.
#[verifier::external_body]
pub(crate) fn checked(packet: &[u8]) -> (ok: bool)
    ensures
        ok == well_formed(packet@),
{
    ArpPacket::new_checked(packet).is_ok()
}

/// `ArpPacket::source_hardware_addr`: the sender hardware address field,
/// copied out of the packet.
#[verifier::external_body]
pub(crate) fn read_source_hardware_addr(packet: &[u8]) -> (addr: Vec<u8>)
    requires
        well_formed(packet@),
    ensures
        addr@ == source_hardware_addr(packet@),
{
    ArpPacket::new_unchecked(packet).source_hardware_addr().to_vec()
}

/// `ArpPacket::source_protocol_addr`: the sender protocol address field,
/// copied out of the packet.
#[verifier::external_body]
pub(crate) fn read_source_protocol_addr(packet: &[u8]) -> (addr: Vec<u8>)
    requires
        well_formed(packet@),
    ensures
        addr@ == source_protocol_addr(packet@),
{
    ArpPacket::new_unchecked(packet).source_protocol_addr().to_vec()
}

} // verus!
