//! Ethernet II frames.

use crate::net::{be16, EthernetAddress};
use smoltcp::wire::EthernetFrame;
use vstd::prelude::*;

verus! {

/// EtherType of IPv4.
pub const ETHERTYPE_IPV4: u16 = 0x0800;

/// EtherType of ARP.
pub const ETHERTYPE_ARP: u16 = 0x0806;

/// A buffer holds an Ethernet frame when the 14-octet header fits.
pub open spec fn well_formed(frame: Seq<u8>) -> bool {
    frame.len() >= 14
}

/// The destination address field: octets 0 to 5.
pub open spec fn destination(frame: Seq<u8>) -> Seq<u8> {
    frame.subrange(0, 6)
}

/// The source address field: octets 6 to 11.
pub open spec fn source(frame: Seq<u8>) -> Seq<u8> {
    frame.subrange(6, 12)
}

/// The EtherType field: octets 12 and 13, big-endian.
pub open spec fn ethertype(frame: Seq<u8>) -> u16 {
    be16(frame, 12)
}

/// Everything after the header.
pub open spec fn payload(frame: Seq<u8>) -> Seq<u8> {
    frame.subrange(14, frame.len() as int)
}

/// `EthernetFrame::new_checked`: accepts a buffer exactly when it is at
/// least as long as the Ethernet header.
#[verifier::external_body]
pub(crate) fn checked(frame: &[u8]) -> (ok: bool)
    ensures
        ok == well_formed(frame@),
{
    EthernetFrame::new_checked(frame).is_ok()
}

/// `EthernetFrame::dst_addr`: the six octets at the start of the frame.
#[verifier::external_body]
pub(crate) fn read_destination(frame: &[u8]) -> (mac: EthernetAddress)
    requires
        well_formed(frame@),
    ensures
        mac@ == destination(frame@),
{
    EthernetAddress(EthernetFrame::new_unchecked(frame).dst_addr().0)
}

/// `EthernetFrame::src_addr`: the six octets that follow the destination.
#[verifier::external_body]
pub(crate) fn read_source(frame: &[u8]) -> (mac: EthernetAddress)
    requires
        well_formed(frame@),
    ensures
        mac@ == source(frame@),
{
    EthernetAddress(EthernetFrame::new_unchecked(frame).src_addr().0)
}

/// `EthernetFrame::ethertype`: the big-endian 16-bit value at offset 12,
/// mapped back from `smoltcp`'s protocol enum to its number.
#[verifier::external_body]
pub(crate) fn read_ethertype(frame: &[u8]) -> (ethertype: u16)
    requires
        well_formed(frame@),
    ensures
        ethertype == self::ethertype(frame@),
{
    EthernetFrame::new_unchecked(frame).ethertype().into()
}

/// `EthernetFrame::payload`: the rest of the buffer after the header.
#[verifier::external_body]
pub(crate) fn read_payload<'a>(frame: &'a [u8]) -> (payload: &'a [u8])
    requires
        well_formed(frame@),
    ensures
        payload@ == self::payload(frame@),
{
    EthernetFrame::new_unchecked(frame).payload()
}

} // verus!
