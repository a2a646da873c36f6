//! IPv4 packets.

use crate::net::{be16, be32, Ipv4Address};
use smoltcp::wire::Ipv4Packet;
use vstd::prelude::*;

verus! {

/// Length of an IPv4 header without options.
pub const HEADER_LEN: usize = 20;

/// IP protocol number of UDP.
pub const PROTOCOL_UDP: u8 = 0x11;

/// The header length in octets: four times the low nibble of octet 0.
pub open spec fn header_len(packet: Seq<u8>) -> int {
    (packet[0] & 0x0f) * 4
}

/// The total length field: octets 2 and 3, big-endian.
pub open spec fn total_len(packet: Seq<u8>) -> int {
    be16(packet, 2) as int
}

/// A buffer carries the fixed part of an IPv4 header when its first twenty
/// octets are there; the address and protocol fields can then be read.
pub open spec fn has_header(packet: Seq<u8>) -> bool {
    packet.len() >= 20
}

/// A buffer holds an IPv4 packet when the fixed header fits, the header
/// length is at least twenty octets and at most the total length, and the
/// buffer holds as many octets as the total length says.
pub open spec fn well_formed(packet: Seq<u8>) -> bool {
    &&& packet.len() >= 20
    &&& packet.len() >= header_len(packet)
    &&& header_len(packet) <= total_len(packet)
    &&& packet.len() >= total_len(packet)
    &&& header_len(packet) >= 20
}

/// The source address field: octets 12 to 15, big-endian.
pub open spec fn source(packet: Seq<u8>) -> u32 {
    be32(packet, 12)
}

/// The destination address field: octets 16 to 19, big-endian.
pub open spec fn destination(packet: Seq<u8>) -> u32 {
    be32(packet, 16)
}

/// The protocol field: octet 9.
pub open spec fn protocol(packet: Seq<u8>) -> u8 {
    packet[9]
}

/// What follows the header, up to the total length.
pub open spec fn payload(packet: Seq<u8>) -> Seq<u8> {
    packet.subrange(header_len(packet), total_len(packet))
}

/// `Ipv4Packet::new_checked`: accepts a buffer exactly when its length
/// fields are consistent with each other and with the buffer.
#[verifier::external_body]
pub(crate) fn checked(packet: &[u8]) -> (ok: bool)
    ensures
        ok == well_formed(packet@),
{
    Ipv4Packet::new_checked(packet).is_ok()
}

/// `Ipv4Packet::src_addr`: the address spelled by octets 12 to 15.
#[verifier::external_body]
pub(crate) fn read_source(packet: &[u8]) -> (addr: Ipv4Address)
    requires
        has_header(packet@),
    ensures
        addr@ == source(packet@),
{
    Ipv4Address { bits: Ipv4Packet::new_unchecked(packet).src_addr().to_bits() }
}

/// `Ipv4Packet::dst_addr`: the address spelled by octets 16 to 19.
#[verifier::external_body]
pub(crate) fn read_destination(packet: &[u8]) -> (addr: Ipv4Address)
    requires
        has_header(packet@),
    ensures
        addr@ == destination(packet@),
{
    Ipv4Address { bits: Ipv4Packet::new_unchecked(packet).dst_addr().to_bits() }
}

/// `Ipv4Packet::next_header`: octet 9, mapped back from `smoltcp`'s
/// protocol enum to its number.
#[verifier::external_body]
pub(crate) fn read_protocol(packet: &[u8]) -> (protocol: u8)
    requires
        has_header(packet@),
    ensures
        protocol == self::protocol(packet@),
{
    Ipv4Packet::new_unchecked(packet).next_header().into()
}

/// `Ipv4Packet::payload`: the octets between the header length and the
/// total length.
#[verifier::external_body]
pub(crate) fn read_payload<'a>(packet: &'a [u8]) -> (payload: &'a [u8])
    requires
        well_formed(packet@),
    ensures
        payload@ == self::payload(packet@),
{
    Ipv4Packet::new_unchecked(packet).payload()
}

} // verus!
