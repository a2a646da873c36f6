//! UDP datagrams.

use crate::net::be16;
use smoltcp::wire::UdpPacket;
use vstd::prelude::*;

verus! {

/// The length field: octets 4 and 5, big-endian.
pub open spec fn length(datagram: Seq<u8>) -> int {
    be16(datagram, 4) as int
}

/// A buffer holds a UDP datagram when the eight-octet header fits and the
/// length field covers the header without running past the buffer.
pub open spec fn well_formed(datagram: Seq<u8>) -> bool {
    &&& datagram.len() >= 8
    &&& datagram.len() >= length(datagram)
    &&& length(datagram) >= 8
}

/// The source port: octets 0 and 1, big-endian.
pub open spec fn source_port(datagram: Seq<u8>) -> u16 {
    be16(datagram, 0)
}

/// The destination port: octets 2 and 3, big-endian.
pub open spec fn destination_port(datagram: Seq<u8>) -> u16 {
    be16(datagram, 2)
}

/// What follows the header, up to the length field.
pub open spec fn payload(datagram: Seq<u8>) -> Seq<u8> {
    datagram.subrange(8, length(datagram))
}

/// `UdpPacket::new_checked`: accepts a buffer exactly when the header fits
/// and the length field lies between the header length and the buffer length.
#[verifier::external_body]
pub(crate) fn checked(datagram: &[u8]) -> (ok: bool)
    ensures
        ok == well_formed(datagram@),
{
    UdpPacket::new_checked(datagram).is_ok()
}

/// `UdpPacket::src_port`: the big-endian 16-bit value at offset 0.
#[verifier::external_body]
pub(crate) fn read_source_port(datagram: &[u8]) -> (port: u16)
    requires
        well_formed(datagram@),
    ensures
        port == source_port(datagram@),
{
    UdpPacket::new_unchecked(datagram).src_port()
}

/// `UdpPacket::dst_port`: the big-endian 16-bit value at offset 2.
#[verifier::external_body]
pub(crate) fn read_destination_port(datagram: &[u8]) -> (port: u16)
    requires
        well_formed(datagram@),
    ensures
        port == destination_port(datagram@),
{
    UdpPacket::new_unchecked(datagram).dst_port()
}

/// `UdpPacket::payload`: the octets between the header and the length the
/// header announces.
#[verifier::external_body]
pub(crate) fn read_payload<'a>(datagram: &'a [u8]) -> (payload: &'a [u8])
    requires
        well_formed(datagram@),
    ensures
        payload@ == self::payload(datagram@),
{
    UdpPacket::new_unchecked(datagram).payload()
}

} // verus!
