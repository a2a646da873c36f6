//! Link-layer and network-layer addresses.

use ip_network::IpNetwork;
use vstd::prelude::*;

verus! {

/// Big-endian value of the four octets starting at `at`.
pub open spec fn be32(bytes: Seq<u8>, at: int) -> u32 {
    (bytes[at] as int * 0x100_0000 + bytes[at + 1] as int * 0x1_0000 + bytes[at + 2] as int * 0x100
        + bytes[at + 3] as int) as u32
}

/// Big-endian value of the two octets starting at `at`.
pub open spec fn be16(bytes: Seq<u8>, at: int) -> u16 {
    (bytes[at] as int * 0x100 + bytes[at + 1] as int) as u16
}

/// The octets of a big-endian 32-bit value are the octets it was built from.
pub proof fn lemma_octets_of_be32(a: u8, b: u8, c: u8, d: u8)
    ensures
        ({
            let bits = be32(seq![a, b, c, d], 0);
            &&& bits == a * 0x100_0000 + b * 0x1_0000 + c * 0x100 + d
            &&& bits / 0x100_0000 == a
            &&& bits / 0x1_0000 % 0x100 == b
            &&& bits / 0x100 % 0x100 == c
            &&& bits % 0x100 == d
        }),
{
    let n: int = a * 0x100_0000 + b * 0x1_0000 + c * 0x100 + d;
    assert(0 <= n <= 0xffff_ffff);
    let hi: int = a * 0x100 + b;
    let mid: int = hi * 0x100 + c;
    assert(n == mid * 0x100 + d);
    assert(n / 0x100 == mid && n % 0x100 == d);
    assert(mid / 0x100 == hi && mid % 0x100 == c);
    assert(hi / 0x100 == a && hi % 0x100 == b);
    assert(n == hi * 0x1_0000 + (c * 0x100 + d));
    assert(n / 0x1_0000 == hi);
    assert(n == a * 0x100_0000 + (b * 0x1_0000 + c * 0x100 + d));
    assert(n / 0x100_0000 == a);
}

/// Whether the address with the octets `a.b.c.d` counts as globally
/// routable: `192.0.0.9` and `192.0.0.10` do, and otherwise every address
/// does that lies in none of the special-purpose blocks.
pub open spec fn globally_routable(a: u8, b: u8, c: u8, d: u8) -> bool {
    ||| (a == 192 && b == 0 && c == 0 && (d == 9 || d == 10))
    ||| {
        // 0.0.0.0/8, this network
        &&& a != 0
        // 10.0.0.0/8, 172.16.0.0/12 and 192.168.0.0/16, private use
        &&& a != 10
        &&& !(a == 172 && 16 <= b <= 31)
        &&& !(a == 192 && b == 168)
        // 192.0.0.0/24, protocol assignments
        &&& !(a == 192 && b == 0 && c == 0)
        // 100.64.0.0/10, shared address space
        &&& !(a == 100 && 64 <= b <= 127)
        // 127.0.0.0/8, loopback
        &&& a != 127
        // 169.254.0.0/16, link local
        &&& !(a == 169 && b == 254)
        // 192.0.2.0/24, 198.51.100.0/24 and 203.0.113.0/24, documentation
        &&& !(a == 192 && b == 0 && c == 2)
        &&& !(a == 198 && b == 51 && c == 100)
        &&& !(a == 203 && b == 0 && c == 113)
        // 198.18.0.0/15, benchmarking
        &&& !(a == 198 && 18 <= b <= 19)
        // 240.0.0.0/4, reserved, with the limited broadcast address
        &&& a < 240
    }
}

/// `IpNetwork::is_global` on the network that holds one IPv4 address: true
/// for `192.0.0.9` and `192.0.0.10`, and otherwise false exactly for the
/// blocks its documentation lists (this network, private use, shared
/// address space, loopback, link local, protocol assignments, broadcast,
/// documentation, benchmarking, reserved).
#[verifier::external_body]
fn network_is_global(addr: Ipv4Address) -> (global: bool)
    ensures
        global == globally_routable(
            addr.spec_octets()[0],
            addr.spec_octets()[1],
            addr.spec_octets()[2],
            addr.spec_octets()[3],
        ),
{
    IpNetwork::from(smoltcp::wire::Ipv4Address::from_bits(addr.bits)).is_global()
}

/// An IPv4 address, held as its 32-bit big-endian value.
#[derive(Clone, Copy, Debug, PartialEq, Eq, Structural, Hash)]
pub struct Ipv4Address {
    pub bits: u32,
}

impl View for Ipv4Address {
    type V = u32;

    open spec fn view(&self) -> u32 {
        self.bits
    }
}

impl Ipv4Address {
    /// The four octets of the address, most significant first.
    pub open spec fn spec_octets(self) -> Seq<u8> {
        seq![
            (self.bits / 0x100_0000) as u8,
            (self.bits / 0x1_0000 % 0x100) as u8,
            (self.bits / 0x100 % 0x100) as u8,
            (self.bits % 0x100) as u8,
        ]
    }

    /// The address `a.b.c.d`.
    pub fn new(a: u8, b: u8, c: u8, d: u8) -> (addr: Ipv4Address)
        ensures
            addr@ == be32(seq![a, b, c, d], 0),
            addr.spec_octets() == seq![a, b, c, d],
    {
        let bits: u32 = (a as u32) * 0x100_0000 + (b as u32) * 0x1_0000 + (c as u32) * 0x100 + (
        d as u32);
        let addr = Ipv4Address { bits };
        proof {
            lemma_octets_of_be32(a, b, c, d);
            assert(addr.spec_octets() =~= seq![a, b, c, d]);
        }
        addr
    }

    /// The address whose 32-bit value is `bits`.
    pub fn from_bits(bits: u32) -> (addr: Ipv4Address)
        ensures
            addr@ == bits,
    {
        Ipv4Address { bits }
    }

    /// The address spelled by four octets, most significant first.
    pub fn from_octets(octets: [u8; 4]) -> (addr: Ipv4Address)
        ensures
            addr@ == be32(octets@, 0),
            addr.spec_octets() == octets@,
    {
        let addr = Ipv4Address::new(octets[0], octets[1], octets[2], octets[3]);
        assert(octets@ =~= seq![octets[0], octets[1], octets[2], octets[3]]);
        addr
    }

    /// The 32-bit value of the address.
    pub fn to_bits(self) -> (bits: u32)
        ensures
            bits == self@,
    {
        self.bits
    }

    /// The four octets of the address, most significant first.
    pub fn octets(self) -> (octets: [u8; 4])
        ensures
            octets@ == self.spec_octets(),
    {
        let octets = [
            (self.bits / 0x100_0000) as u8,
            (self.bits / 0x1_0000 % 0x100) as u8,
            (self.bits / 0x100 % 0x100) as u8,
            (self.bits % 0x100) as u8,
        ];
        assert(octets@ =~= self.spec_octets());
        octets
    }

    /// Whether this is `0.0.0.0`.
    pub fn is_unspecified(self) -> (r: bool)
        ensures
            r == (self@ == 0),
    {
        self.bits == 0
    }

    /// Whether this is the limited broadcast address `255.255.255.255`.
    pub fn is_broadcast(self) -> (r: bool)
        ensures
            r == (self@ == 0xffff_ffff),
    {
        self.bits == 0xffff_ffff
    }

    /// Whether the address lies in the multicast block `224.0.0.0/4`.
    pub open spec fn spec_is_multicast(self) -> bool {
        224 <= self.spec_octets()[0] <= 239
    }

    /// Whether the address lies in none of the special-purpose blocks.
    pub open spec fn spec_is_global(self) -> bool {
        globally_routable(
            self.spec_octets()[0],
            self.spec_octets()[1],
            self.spec_octets()[2],
            self.spec_octets()[3],
        )
    }

    /// Whether the address is a globally routable unicast address: in none
    /// of the special-purpose blocks, and not a multicast address.
    pub open spec fn spec_is_global_unicast(self) -> bool {
        self.spec_is_global() && !self.spec_is_multicast()
    }

    /// Whether the address lies in the multicast block `224.0.0.0/4`.
    pub fn is_multicast(self) -> (r: bool)
        ensures
            r == self.spec_is_multicast(),
    {
        let first: u32 = self.bits / 0x100_0000;
        224 <= first && first <= 239
    }

    /// Whether the address lies in none of the special-purpose blocks.
    pub fn is_global(self) -> (r: bool)
        ensures
            r == self.spec_is_global(),
    {
        network_is_global(self)
    }

    /// Whether the address is a globally routable unicast address.
    pub fn is_global_unicast(self) -> (r: bool)
        ensures
            r == self.spec_is_global_unicast(),
    {
        self.is_global() && !self.is_multicast()
    }
}

/// The netmask of a prefix of `len` bits: `len` ones followed by zeros.
pub open spec fn spec_prefix_mask(len: u8) -> u32 {
    if len == 0 {
        0
    } else if len >= 32 {
        0xffff_ffff
    } else {
        !(0xffff_ffffu32 >> len)
    }
}

/// The first `len` bits of `bits`, with the host part cleared.
pub open spec fn network_bits(bits: u32, len: u8) -> u32 {
    bits & spec_prefix_mask(len)
}

/// Clearing the host part twice is the same as clearing it once; a prefix
/// of all 32 bits clears nothing and a prefix of no bits clears everything.
pub proof fn lemma_network_bits(bits: u32, len: u8)
    ensures
        network_bits(network_bits(bits, len), len) == network_bits(bits, len),
        network_bits(bits, 32) == bits,
        network_bits(bits, 0) == 0,
{
    let mask = spec_prefix_mask(len);
    assert((bits & mask) & mask == bits & mask) by (bit_vector);
    assert(bits & 0xffff_ffffu32 == bits) by (bit_vector);
    assert(bits & 0u32 == 0) by (bit_vector);
}

/// The netmask of a prefix of `len` bits.
pub fn prefix_mask(len: u8) -> (mask: u32)
    requires
        len <= 32,
    ensures
        mask == spec_prefix_mask(len),
{
    if len == 0 {
        0
    } else if len == 32 {
        0xffff_ffff
    } else {
        !(0xffff_ffffu32 >> len)
    }
}

/// An IPv4 network in CIDR notation: an address and a prefix length of at
/// most 32 bits. Host bits of the address are kept as given.
#[derive(Clone, Copy, Debug, PartialEq, Eq, Hash)]
pub struct Ipv4Cidr {
    address: Ipv4Address,
    prefix_len: u8,
}

impl Ipv4Cidr {
    /// A prefix is never longer than an address.
    #[verifier::type_invariant]
    pub closed spec fn wf(self) -> bool {
        self.prefix_len <= 32
    }

    /// The address as written, host bits included.
    pub closed spec fn spec_address(self) -> Ipv4Address {
        self.address
    }

    /// The number of leading bits that make up the network.
    pub closed spec fn spec_prefix_len(self) -> u8 {
        self.prefix_len
    }

    /// The network as a pair of its bits, host part cleared, and its length.
    /// Two CIDRs name the same network exactly when their keys are equal.
    pub open spec fn key(self) -> (u32, u8) {
        (network_bits(self.spec_address()@, self.spec_prefix_len()), self.spec_prefix_len())
    }

    /// Whether `addr` lies in this network.
    pub open spec fn spec_contains(self, addr: Ipv4Address) -> bool {
        network_bits(addr@, self.spec_prefix_len()) == self.key().0
    }

    /// What `wf` says, for callers that cannot see the fields.
    pub proof fn lemma_wf(self)
        ensures
            self.wf() <==> self.spec_prefix_len() <= 32,
    {
    }

    /// The network `address/prefix_len`, or `None` when the prefix is longer
    /// than 32 bits.
    pub fn new(address: Ipv4Address, prefix_len: u8) -> (cidr: Option<Ipv4Cidr>)
        ensures
            cidr is Some <==> prefix_len <= 32,
            cidr matches Some(c) ==> c.wf() && c.spec_address() == address && c.spec_prefix_len()
                == prefix_len,
    {
        if prefix_len <= 32 {
            Some(Ipv4Cidr { address, prefix_len })
        } else {
            None
        }
    }

    /// The network that holds `address` alone.
    pub fn host(address: Ipv4Address) -> (cidr: Ipv4Cidr)
        ensures
            cidr.wf(),
            cidr.spec_address() == address,
            cidr.spec_prefix_len() == 32,
            cidr.key() == (address@, 32u8),
    {
        proof {
            lemma_network_bits(address@, 32);
        }
        Ipv4Cidr { address, prefix_len: 32 }
    }

    /// The address as written, host bits included.
    pub fn address(&self) -> (address: Ipv4Address)
        ensures
            address == self.spec_address(),
    {
        self.address
    }

    /// The number of leading bits that make up the network.
    pub fn prefix_len(&self) -> (len: u8)
        ensures
            len == self.spec_prefix_len(),
            len <= 32,
    {
        proof {
            use_type_invariant(self);
        }
        self.prefix_len
    }

    /// The first address of the network: the address with its host bits
    /// cleared.
    pub fn network(&self) -> (network: Ipv4Address)
        ensures
            network@ == self.key().0,
    {
        proof {
            use_type_invariant(self);
        }
        Ipv4Address { bits: self.address.bits & prefix_mask(self.prefix_len) }
    }

    /// Whether `addr` lies in this network.
    pub fn contains(&self, addr: Ipv4Address) -> (inside: bool)
        ensures
            inside == self.spec_contains(addr),
    {
        proof {
            use_type_invariant(self);
        }
        let mask = prefix_mask(self.prefix_len);
        addr.bits & mask == self.address.bits & mask
    }
}

/// A six-octet Ethernet II address.
#[derive(Clone, Copy, Debug, PartialEq, Eq, Hash)]
pub struct EthernetAddress(pub [u8; 6]);

impl View for EthernetAddress {
    type V = Seq<u8>;

    open spec fn view(&self) -> Seq<u8> {
        self.0@
    }
}

impl EthernetAddress {
    /// The six octets of the address.
    pub fn octets(&self) -> (octets: &[u8])
        ensures
            octets@ == self@,
    {
        self.0.as_slice()
    }

    /// Whether `octets` spells exactly this address.
    pub fn matches(&self, octets: &[u8]) -> (same: bool)
        ensures
            same == (octets@ == self@),
    {
        if octets.len() != 6 {
            return false;
        }
        let mut i: usize = 0;
        while i < 6
            invariant
                i <= 6,
                octets@.len() == 6,
                forall|j: int| 0 <= j < i ==> octets@[j] == self@[j],
            decreases 6 - i,
        {
            if octets[i] != self.0[i] {
                return false;
            }
            i += 1;
        }
        assert(octets@ =~= self@);
        true
    }
}

} // verus!
