//! Passive observation of DHCP replies.
//!
//! The snooper is the only source of truth for the guest's IPv4 identity:
//! it learns the address, the lease time and the DNS resolvers from the
//! replies the host's DHCP server sends to the guest, and from nothing else.

use crate::clock;
use crate::net::Ipv4Address;
use dhcproto::v4::{Decoder, DhcpOption, Message, OptionCode};
use dhcproto::Decodable;
use std::collections::HashSet;
use std::time::Instant;
use vstd::prelude::*;

verus! {

broadcast use vstd::std_specs::hash::group_hash_axioms;

/// DHCP message type of an acknowledgement.
pub const MESSAGE_TYPE_ACK: u8 = 5;

/// DHCP message type of a refusal.
pub const MESSAGE_TYPE_NAK: u8 = 6;

/// What lease tracking reads from a decoded DHCPv4 message.
#[derive(Debug)]
pub struct DhcpReply {
    /// The value of the message type option, if the message has one.
    pub message_type: Option<u8>,
    /// The address the server hands to the client.
    pub yiaddr: Ipv4Address,
    /// The value of the address lease time option, in seconds, if present.
    pub lease_time: Option<u32>,
    /// The addresses of the domain name server option, if present.
    pub name_servers: Option<Vec<Ipv4Address>>,
}

/// A `DhcpReply` as plain values.
pub ghost struct DhcpReplyView {
    pub message_type: Option<u8>,
    pub yiaddr: u32,
    pub lease_time: Option<u32>,
    pub name_servers: Option<Seq<u32>>,
}

/// The 32-bit values of a list of addresses, in order.
pub open spec fn address_bits(addresses: Seq<Ipv4Address>) -> Seq<u32> {
    Seq::new(addresses.len(), |i: int| addresses[i]@)
}

impl View for DhcpReply {
    type V = DhcpReplyView;

    open spec fn view(&self) -> DhcpReplyView {
        DhcpReplyView {
            message_type: self.message_type,
            yiaddr: self.yiaddr@,
            lease_time: self.lease_time,
            name_servers: match self.name_servers {
                Some(servers) => Some(address_bits(servers@)),
                None => None,
            },
        }
    }
}

/// The view of a reply that may be missing.
pub open spec fn reply_view(reply: Option<DhcpReply>) -> Option<DhcpReplyView> {
    match reply {
        Some(reply) => Some(reply@),
        None => None,
    }
}

/// Where the options of a DHCPv4 message start: after the fixed fields and
/// the magic cookie.
pub const OPTIONS_OFFSET: usize = 240;

/// Option code of a padding octet, which has neither length nor value.
pub const OPTION_PAD: u8 = 0;

/// Option code of the end of the options, which has neither length nor
/// value.
pub const OPTION_END: u8 = 255;

/// Option code of Rapid Commit, which has no value.
pub const OPTION_RAPID_COMMIT: u8 = 80;

/// Option code of Client FQDN, whose value starts with three fixed octets.
pub const OPTION_CLIENT_FQDN: u8 = 81;

/// Option code of Client Network Interface, whose value is three octets.
pub const OPTION_CLIENT_NETWORK_INTERFACE: u8 = 94;

/// The first of the four option codes of bulk lease query times, each of
/// which has a value of four octets.
pub const OPTION_BULK_LEASE_QUERY_BASE_TIME: u8 = 152;

/// The last of the four option codes of bulk lease query times.
pub const OPTION_BULK_LEASE_QUERY_END_TIME: u8 = 155;

/// Whether `length` is a length that the value of the option `code` may
/// have. Only the options whose value has a fixed length or a fixed start
/// are held to one; every other option may have any length.
pub open spec fn value_length_valid(code: u8, length: int) -> bool {
    if code == OPTION_RAPID_COMMIT {
        length == 0
    } else if code == OPTION_CLIENT_NETWORK_INTERFACE {
        length == 3
    } else if OPTION_BULK_LEASE_QUERY_BASE_TIME <= code <= OPTION_BULK_LEASE_QUERY_END_TIME {
        length == 4
    } else if code == OPTION_CLIENT_FQDN {
        length >= 3
    } else {
        true
    }
}

/// Whether the value gathered so far, if there is one, has a valid length.
/// Options of the same code that follow each other make up one value.
pub open spec fn gathered_valid(gathered: Option<(u8, int)>) -> bool {
    match gathered {
        Some((code, length)) => value_length_valid(code, length),
        None => true,
    }
}

/// Whether every value among the options from `at` on has a valid length,
/// where `gathered` is the code and the length of the value that the options
/// just before `at` make up. The options are walked as code, length and
/// value; a padding octet ends a value, and the walk ends at the end option,
/// at an option that is cut short, and where the payload ends.
pub open spec fn option_lengths_valid_from(
    payload: Seq<u8>,
    at: int,
    gathered: Option<(u8, int)>,
) -> bool
    decreases payload.len() - at,
{
    if at < 0 || at >= payload.len() {
        gathered_valid(gathered)
    } else if payload[at] == OPTION_END {
        gathered_valid(gathered)
    } else if payload[at] == OPTION_PAD {
        gathered_valid(gathered) && option_lengths_valid_from(payload, at + 1, None)
    } else if at + 1 >= payload.len() || at + 2 + payload[at + 1] > payload.len() {
        gathered_valid(gathered)
    } else {
        let code = payload[at];
        let length = payload[at + 1] as int;
        let next = at + 2 + length;
        match gathered {
            Some((same, before)) if same == code => option_lengths_valid_from(
                payload,
                next,
                Some((code, before + length)),
            ),
            _ => gathered_valid(gathered) && option_lengths_valid_from(
                payload,
                next,
                Some((code, length)),
            ),
        }
    }
}

/// Whether every option value of a DHCPv4 payload that has a fixed length
/// or a fixed start has a valid length. A payload that is too short to have
/// options has no value that could be wrong.
pub open spec fn option_lengths_valid(payload: Seq<u8>) -> bool {
    option_lengths_valid_from(payload, OPTIONS_OFFSET as int, None)
}

/// What the snooper makes of a UDP payload: nothing where an option value
/// has a length that it cannot have, and otherwise what decoding it yields.
pub open spec fn decoded_reply(payload: Seq<u8>) -> Option<DhcpReplyView> {
    if option_lengths_valid(payload) {
        dhcp_decode(payload)
    } else {
        None
    }
}

/// What decoding a UDP payload as a DHCPv4 message yields: nothing when
/// the payload does not decode, and otherwise the message's type, offered
/// address, lease time and name servers.
pub uninterp spec fn dhcp_decode(payload: Seq<u8>) -> Option<DhcpReplyView>;

/// `Message::decode` on a fresh `Decoder` over the payload, followed by
/// the accessors `opts`, `msg_type`, `get` and `yiaddr`: the fields of the
/// decoded message, moved into a `DhcpReply`. What the decoder makes of a
/// payload is a function of the payload alone. The decoder asserts the
/// lengths of the values of Rapid Commit, Client FQDN, Client Network
/// Interface and the bulk lease query times, so payloads in which one of
/// those is wrong are left out.
#[verifier::external_body]
fn decode_reply(payload: &[u8]) -> (reply: Option<DhcpReply>)
    requires
        option_lengths_valid(payload@),
    ensures
        reply_view(reply) == dhcp_decode(payload@),
{
    let message = Message::decode(&mut Decoder::new(payload)).ok()?;
    Some(DhcpReply {
        message_type: message.opts().msg_type().map(u8::from),
        yiaddr: Ipv4Address { bits: message.yiaddr().to_bits() },
        lease_time: match message.opts().get(OptionCode::AddressLeaseTime) {
            Some(DhcpOption::AddressLeaseTime(seconds)) => Some(*seconds),
            _ => None,
        },
        name_servers: match message.opts().get(OptionCode::DomainNameServer) {
            Some(DhcpOption::DomainNameServer(servers)) => Some(
                servers.iter().map(|ip| Ipv4Address { bits: ip.to_bits() }).collect()),
            _ => None,
        },
    })
}

/// Whether `length` is a length that the value of the option `code` may
/// have.
fn check_value_length(code: u8, length: usize) -> (valid: bool)
    ensures
        valid == value_length_valid(code, length as int),
{
    if code == OPTION_RAPID_COMMIT {
        length == 0
    } else if code == OPTION_CLIENT_NETWORK_INTERFACE {
        length == 3
    } else if OPTION_BULK_LEASE_QUERY_BASE_TIME <= code && code
        <= OPTION_BULK_LEASE_QUERY_END_TIME {
        length == 4
    } else if code == OPTION_CLIENT_FQDN {
        length >= 3
    } else {
        true
    }
}

/// The value gathered so far, with its length as a number without bound.
pub open spec fn gathered_view(gathered: Option<(u8, usize)>) -> Option<(u8, int)> {
    match gathered {
        Some((code, length)) => Some((code, length as int)),
        None => None,
    }
}

/// Whether the value gathered so far, if there is one, has a valid length.
fn check_gathered(gathered: Option<(u8, usize)>) -> (valid: bool)
    ensures
        valid == gathered_valid(gathered_view(gathered)),
{
    match gathered {
        Some((code, length)) => check_value_length(code, length),
        None => true,
    }
}

/// Whether every option value of a DHCPv4 payload that has a fixed length
/// or a fixed start has a valid length.
pub fn check_option_lengths(payload: &[u8]) -> (valid: bool)
    ensures
        valid == option_lengths_valid(payload@),
{
    let mut at: usize = OPTIONS_OFFSET;
    let mut gathered: Option<(u8, usize)> = None;
    while at < payload.len()
        invariant
            gathered matches Some(value) ==> value.1 <= at,
            option_lengths_valid(payload@) == option_lengths_valid_from(
                payload@,
                at as int,
                gathered_view(gathered),
            ),
        decreases payload.len() - at,
    {
        let code = payload[at];
        let so_far = check_gathered(gathered);
        if code == OPTION_END {
            return so_far;
        }
        if code == OPTION_PAD {
            if !so_far {
                return false;
            }
            gathered = None;
            at = at + 1;
        } else {
            if payload.len() - at < 2 {
                return so_far;
            }
            let length = payload[at + 1] as usize;
            if payload.len() - at - 2 < length {
                return so_far;
            }
            let continued = match gathered {
                Some((same, before)) => if same == code {
                    Some(before + length)
                } else {
                    None
                },
                None => None,
            };
            match continued {
                Some(total) => {
                    gathered = Some((code, total));
                },
                None => {
                    if !so_far {
                        return false;
                    }
                    gathered = Some((code, length));
                },
            }
            at = at + 2 + length;
        }
    }
    check_gathered(gathered)
}

/// A lease as plain values: the leased address, the time the lease lasts
/// from the moment it was granted, and the resolvers that came with it.
pub ghost struct LeaseView {
    pub address: u32,
    pub lifetime_secs: u64,
    pub dns_ips: Set<u32>,
}

impl LeaseView {
    /// Whether the lease still runs when `elapsed_secs` whole seconds have
    /// passed since it was granted.
    pub open spec fn valid_after(self, elapsed_secs: u64) -> bool {
        elapsed_secs < self.lifetime_secs
    }

    /// Whether `address` is the leased address and the lease still runs
    /// when `elapsed_secs` whole seconds have passed since it was granted.
    pub open spec fn valid_ip_source_after(self, address: u32, elapsed_secs: u64) -> bool {
        self.address == address && self.valid_after(elapsed_secs)
    }
}

/// Whether there is a lease and `addr` is one of its resolvers.
pub open spec fn valid_dns_target(lease: Option<LeaseView>, addr: u32) -> bool {
    lease matches Some(lease) && lease.dns_ips.contains(addr)
}

/// The set of addresses that occur in a list.
pub open spec fn address_set(addresses: Seq<u32>) -> Set<u32> {
    Set::new(|bits: u32| exists|i: int| 0 <= i < addresses.len() && #[trigger] addresses[i] == bits)
}

/// The lease that an acknowledgement grants, if it grants one: it must
/// carry a lease time; name servers are optional.
pub open spec fn granted_lease(reply: DhcpReplyView) -> Option<LeaseView> {
    match reply.lease_time {
        Some(seconds) => Some(
            LeaseView {
                address: reply.yiaddr,
                lifetime_secs: seconds as u64,
                dns_ips: match reply.name_servers {
                    Some(servers) => address_set(servers),
                    None => Set::empty(),
                },
            },
        ),
        None => None,
    }
}

/// Whether a decoded reply puts a new lease in place of the current one.
pub open spec fn replaces_lease(reply: Option<DhcpReplyView>) -> bool {
    reply matches Some(reply) && reply.message_type == Some(MESSAGE_TYPE_ACK)
        && reply.lease_time is Some
}

/// Whether a decoded reply clears the current lease.
pub open spec fn clears_lease(reply: Option<DhcpReplyView>) -> bool {
    reply matches Some(reply) && reply.message_type == Some(MESSAGE_TYPE_NAK)
}

/// The lease that is current after a reply was seen: an acknowledgement
/// with a lease time replaces it, a refusal clears it, and anything else,
/// a payload that does not decode included, leaves it alone.
pub open spec fn lease_after_reply(before: Option<LeaseView>, reply: Option<DhcpReplyView>)
    -> Option<LeaseView> {
    if replaces_lease(reply) {
        granted_lease(reply->0)
    } else if clears_lease(reply) {
        None
    } else {
        before
    }
}

/// After an acknowledgement that carries a lease time, the lease is the
/// one it grants: the offered address, the lease time, and the name servers
/// that came with it.
pub proof fn lemma_ack_grants_lease(before: Option<LeaseView>, reply: DhcpReplyView)
    requires
        reply.message_type == Some(MESSAGE_TYPE_ACK),
        reply.lease_time is Some,
    ensures
        lease_after_reply(before, Some(reply)) == Some(
            LeaseView {
                address: reply.yiaddr,
                lifetime_secs: reply.lease_time->0 as u64,
                dns_ips: match reply.name_servers {
                    Some(servers) => address_set(servers),
                    None => Set::empty(),
                },
            },
        ),
{
}

/// After a refusal there is no lease.
pub proof fn lemma_nak_clears_lease(before: Option<LeaseView>, reply: DhcpReplyView)
    requires
        reply.message_type == Some(MESSAGE_TYPE_NAK),
    ensures
        lease_after_reply(before, Some(reply)) is None,
{
}

/// An acknowledgement for the address `Y` with a lease time and name
/// servers yields a lease under which `Y` is a valid source for as long as
/// the lease time has not passed, and under which each of the name servers
/// is a valid DNS target.
pub proof fn lemma_ack_round_trip(
    before: Option<LeaseView>,
    reply: DhcpReplyView,
    servers: Seq<u32>,
    i: int,
    elapsed_secs: u64,
)
    requires
        reply.message_type == Some(MESSAGE_TYPE_ACK),
        reply.lease_time matches Some(seconds) && elapsed_secs < seconds,
        reply.name_servers == Some(servers),
        0 <= i < servers.len(),
    ensures
        lease_after_reply(before, Some(reply)) matches Some(lease)
            && lease.valid_ip_source_after(reply.yiaddr, elapsed_secs),
        valid_dns_target(lease_after_reply(before, Some(reply)), servers[i]),
{
    assert(address_set(servers).contains(servers[i]));
}

/// The binding of the guest to an address, as learned from an
/// acknowledgement.
#[derive(Debug)]
pub struct Lease {
    address: Ipv4Address,
    granted: Instant,
    lifetime_secs: u64,
    dns_ips: HashSet<u32>,
}

impl View for Lease {
    type V = LeaseView;

    closed spec fn view(&self) -> LeaseView {
        LeaseView {
            address: self.address@,
            lifetime_secs: self.lifetime_secs,
            dns_ips: self.dns_ips@,
        }
    }
}

impl Lease {
    /// A lease of `address` that starts now and lasts `lease_time` seconds.
    pub fn new(address: Ipv4Address, lease_time: u64, dns_ips: Vec<Ipv4Address>) -> (lease: Lease)
        ensures
            lease@ == (LeaseView {
                address: address@,
                lifetime_secs: lease_time,
                dns_ips: address_set(address_bits(dns_ips@)),
            }),
    {
        let mut set: HashSet<u32> = HashSet::new();
        let mut i: usize = 0;
        let ghost bits = address_bits(dns_ips@);
        while i < dns_ips.len()
            invariant
                i <= dns_ips.len(),
                bits == address_bits(dns_ips@),
                set@ == address_set(bits.take(i as int)),
            decreases dns_ips.len() - i,
        {
            let ip = dns_ips[i];
            set.insert(ip.to_bits());
            proof {
                let before = bits.take(i as int);
                let after = bits.take(i + 1);
                assert(after =~= before.push(ip@));
                assert forall|b: u32| #[trigger]
                    address_set(after).contains(b) == address_set(before).insert(ip@).contains(
                        b,
                    ) by {
                    if address_set(before).contains(b) {
                        let k = choose|k: int| 0 <= k < before.len() && #[trigger] before[k] == b;
                        assert(after[k] == b);
                    }
                    if b == ip@ {
                        assert(after[i as int] == b);
                    }
                }
                assert(address_set(after) =~= address_set(before).insert(ip@));
            }
            i += 1;
        }
        assert(bits.take(i as int) =~= bits);
        Lease { address, granted: clock::now(), lifetime_secs: lease_time, dns_ips: set }
    }

    /// The leased address.
    pub fn address(&self) -> (address: Ipv4Address)
        ensures
            address@ == self@.address,
    {
        self.address
    }

    /// The number of seconds the lease lasts from the moment it was granted.
    pub fn lifetime_secs(&self) -> (seconds: u64)
        ensures
            seconds == self@.lifetime_secs,
    {
        self.lifetime_secs
    }

    /// Whether `addr` is one of the resolvers that came with the lease.
    pub fn has_dns(&self, addr: &Ipv4Address) -> (known: bool)
        ensures
            known == self@.dns_ips.contains(addr@),
    {
        let bits = addr.to_bits();
        self.dns_ips.contains(&bits)
    }

    /// Whether the lease is still running when `elapsed_secs` whole seconds
    /// have passed since it was granted.
    pub fn valid_after(&self, elapsed_secs: u64) -> (valid: bool)
        ensures
            valid == self@.valid_after(elapsed_secs),
    {
        elapsed_secs < self.lifetime_secs
    }

    /// Whether the lease is still running, by the clock. A lease of no
    /// seconds never is.
    pub fn valid(&self) -> (valid: bool)
        ensures
            valid ==> 0 < self@.lifetime_secs,
    {
        let elapsed = clock::elapsed(&self.granted);
        self.valid_after(clock::whole_seconds(&elapsed))
    }

    /// Whether `address` is the leased address and the lease is still
    /// running when `elapsed_secs` whole seconds have passed since it was
    /// granted.
    pub fn valid_ip_source_after(&self, address: Ipv4Address, elapsed_secs: u64) -> (valid: bool)
        ensures
            valid == self@.valid_ip_source_after(address@, elapsed_secs),
    {
        self.address == address && self.valid_after(elapsed_secs)
    }

    /// Whether `address` is the leased address and the lease is still
    /// running, by the clock.
    pub fn valid_ip_source(&self, address: Ipv4Address) -> (valid: bool)
        ensures
            valid ==> address@ == self@.address && 0 < self@.lifetime_secs,
    {
        self.address == address && self.valid()
    }
}

/// Keeps the guest's current lease, if it has one.
#[derive(Debug)]
pub struct DhcpSnooper {
    vm_lease: Option<Lease>,
}

impl View for DhcpSnooper {
    type V = Option<LeaseView>;

    closed spec fn view(&self) -> Option<LeaseView> {
        match self.vm_lease {
            Some(lease) => Some(lease@),
            None => None,
        }
    }
}

impl Default for DhcpSnooper {
    fn default() -> (snooper: DhcpSnooper)
        ensures
            snooper@ is None,
    {
        DhcpSnooper { vm_lease: None }
    }
}

impl DhcpSnooper {
    /// The lease itself, clock reading included.
    pub closed spec fn spec_lease(&self) -> Option<Lease> {
        self.vm_lease
    }

    /// The view is the view of the lease.
    pub proof fn lemma_view(&self)
        ensures
            self@ == match self.spec_lease() {
                Some(lease) => Some(lease@),
                None => None,
            },
    {
    }

    /// A snooper that has seen nothing yet.
    pub fn new() -> (snooper: DhcpSnooper)
        ensures
            snooper@ is None,
    {
        DhcpSnooper { vm_lease: None }
    }

    /// Takes in the UDP payload of a DHCP reply. An acknowledgement that
    /// carries a lease time puts a lease that starts now in place of the
    /// current one; a refusal clears the current lease; any other payload
    /// changes nothing, and so does one that does not decode or in which an
    /// option value has a length that it cannot have.
    pub fn register_dhcp_reply(&mut self, dhcp_packet: &[u8])
        ensures
            final(self)@ == lease_after_reply(old(self)@, decoded_reply(dhcp_packet@)),
            !replaces_lease(decoded_reply(dhcp_packet@)) && !clears_lease(
                decoded_reply(dhcp_packet@),
            ) ==> final(self).spec_lease() == old(self).spec_lease(),
    {
        if !check_option_lengths(dhcp_packet) {
            return ;
        }
        let reply = decode_reply(dhcp_packet);
        self.register(reply);
    }

    /// Takes in a decoded reply, or the fact that the payload did not
    /// decode.
    pub fn register(&mut self, reply: Option<DhcpReply>)
        ensures
            final(self)@ == lease_after_reply(old(self)@, reply_view(reply)),
            !replaces_lease(reply_view(reply)) && !clears_lease(reply_view(reply))
                ==> final(self).spec_lease() == old(self).spec_lease(),
    {
        let reply = match reply {
            Some(reply) => reply,
            None => {
                return ;
            },
        };
        if reply.message_type == Some(MESSAGE_TYPE_ACK) {
            let lease_time = match reply.lease_time {
                Some(lease_time) => lease_time,
                None => {
                    return ;
                },
            };
            let dns_ips = match reply.name_servers {
                Some(servers) => servers,
                None => Vec::new(),
            };
            proof {
                if reply.name_servers is None {
                    assert(address_set(address_bits(dns_ips@)) =~= Set::<u32>::empty());
                }
            }
            self.vm_lease = Some(Lease::new(reply.yiaddr, lease_time as u64, dns_ips));
        } else if reply.message_type == Some(MESSAGE_TYPE_NAK) {
            self.vm_lease = None;
        }
    }

    /// Puts `vm_lease` in place of the current lease.
    pub fn set_lease(&mut self, vm_lease: Option<Lease>)
        ensures
            final(self).spec_lease() == vm_lease,
    {
        self.vm_lease = vm_lease;
    }

    /// The current lease.
    pub fn lease(&self) -> (lease: &Option<Lease>)
        ensures
            *lease == self.spec_lease(),
    {
        &self.vm_lease
    }

    /// Whether there is a lease and `addr` is one of its resolvers. Whether
    /// the lease has run out plays no part.
    pub fn valid_dns_target(&self, addr: &Ipv4Address) -> (valid: bool)
        ensures
            valid == valid_dns_target(self@, addr@),
    {
        match &self.vm_lease {
            Some(lease) => lease.has_dns(addr),
            None => false,
        }
    }

    /// Whether there is a lease and it is still running, by the clock.
    pub fn lease_valid(&self) -> (valid: bool)
        ensures
            valid ==> (self@ matches Some(lease) && 0 < lease.lifetime_secs),
    {
        match &self.vm_lease {
            Some(lease) => lease.valid(),
            None => false,
        }
    }
}

} // verus!
