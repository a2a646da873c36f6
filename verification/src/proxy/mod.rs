//! The filtering proxy and the parts it is made of.

pub mod exposed_port;
pub mod host;
pub mod port_forwarder;
pub mod udp_packet_helper;
pub mod vm;

pub use crate::rules::Action;
pub use exposed_port::ExposedPort;

use crate::dhcp_snooper::{DhcpSnooper, Lease, LeaseView};
use crate::net::{lemma_network_bits, EthernetAddress, Ipv4Address, Ipv4Cidr};
use crate::rules::{listed, rule_map, RuleTable};
use port_forwarder::{
    committed, plan_of, target_of, uninstalled, PortForwarder, PortForwarderView, Reconciliation,
};
use vstd::prelude::*;

verus! {

/// The state of a proxy as plain values.
pub ghost struct ProxyView {
    /// The one MAC address the guest may send from.
    pub vm_mac: Seq<u8>,
    /// The address of the host on the virtual network.
    pub gateway_ip: u32,
    /// The guest's current lease, if it has one.
    pub lease: Option<LeaseView>,
    /// The egress rules, by network.
    pub rules: Map<(u32, u8), Action>,
    /// Whether a write to the guest has run out of buffer space before.
    pub enobufs_encountered: bool,
    /// The port forwardings and whether reconciling them has failed.
    pub port_forwarder: PortForwarderView,
}

/// The packet filter between one guest and the host interface, with the
/// guest's lease and the port forwardings that depend on it.
pub struct Proxy {
    vm_mac_address: EthernetAddress,
    gateway_ip: Ipv4Address,
    dhcp_snooper: DhcpSnooper,
    rules: RuleTable,
    enobufs_encountered: bool,
    port_forwarder: PortForwarder,
}

impl View for Proxy {
    type V = ProxyView;

    closed spec fn view(&self) -> ProxyView {
        ProxyView {
            vm_mac: self.vm_mac_address@,
            gateway_ip: self.gateway_ip@,
            lease: self.dhcp_snooper@,
            rules: self.rules@,
            enobufs_encountered: self.enobufs_encountered,
            port_forwarder: self.port_forwarder@,
        }
    }
}

/// Whether the allowed networks include `0.0.0.0/0`, which lets the guest
/// reach everything and with that other guests too.
pub open spec fn allows_everything(allow: Seq<Ipv4Cidr>) -> bool {
    listed(allow, (0u32, 0u8))
}

/// Whether the allowed networks include `0.0.0.0/0`. Where they do, the
/// host interface is set up without isolation between guests.
pub fn allow_default_all(allow: &Vec<Ipv4Cidr>) -> (everything: bool)
    ensures
        everything == allows_everything(allow@),
{
    let mut i: usize = 0;
    while i < allow.len()
        invariant
            i <= allow.len(),
            forall|j: int| 0 <= j < i ==> (#[trigger] allow@[j]).key() != (0u32, 0u8),
        decreases allow.len() - i,
    {
        let cidr = allow[i];
        if cidr.prefix_len() == 0 {
            proof {
                lemma_network_bits(cidr.spec_address()@, 0);
                assert(allow@[i as int].key() == (0u32, 0u8));
            }
            return true;
        }
        i += 1;
    }
    false
}

impl Proxy {
    /// The guest's lease itself, clock reading included.
    pub closed spec fn spec_lease(&self) -> Option<Lease> {
        self.dhcp_snooper.spec_lease()
    }

    /// The lease in the view is the view of the lease.
    pub proof fn lemma_lease_view(&self)
        ensures
            self@.lease == match self.spec_lease() {
                Some(lease) => Some(lease@),
                None => None,
            },
    {
        self.dhcp_snooper.lemma_view();
    }

    /// A proxy for the guest with the MAC address `vm_mac_address`, on a
    /// network whose gateway is `gateway_ip`. A network that is both allowed
    /// and blocked is blocked. The guest has no lease yet and no port is
    /// forwarded yet.
    pub fn new(
        vm_mac_address: EthernetAddress,
        gateway_ip: Ipv4Address,
        allow: Vec<Ipv4Cidr>,
        block: Vec<Ipv4Cidr>,
        exposed_ports: Vec<ExposedPort>,
    ) -> (proxy: Proxy)
        ensures
            proxy@ == (ProxyView {
                vm_mac: vm_mac_address@,
                gateway_ip: gateway_ip@,
                lease: None,
                rules: rule_map(allow@, block@),
                enobufs_encountered: false,
                port_forwarder: PortForwarderView {
                    forwardings: uninstalled(exposed_ports@),
                    failed: false,
                },
            }),
    {
        let rules = RuleTable::new(&allow, &block);
        let port_forwarder = PortForwarder::new(exposed_ports);
        Proxy {
            vm_mac_address,
            gateway_ip,
            dhcp_snooper: DhcpSnooper::new(),
            rules,
            enobufs_encountered: false,
            port_forwarder,
        }
    }

    /// The MAC address the guest may send from.
    pub fn vm_mac_address(&self) -> (mac: EthernetAddress)
        ensures
            mac@ == self@.vm_mac,
    {
        self.vm_mac_address
    }

    /// The address of the host on the virtual network.
    pub fn gateway_ip(&self) -> (ip: Ipv4Address)
        ensures
            ip@ == self@.gateway_ip,
    {
        self.gateway_ip
    }

    /// The guest's current lease.
    pub fn lease(&self) -> (lease: &Option<Lease>)
        ensures
            *lease == self.spec_lease(),
    {
        self.dhcp_snooper.lease()
    }

    /// Whether the guest has a lease that still runs, by the clock.
    pub fn lease_valid(&self) -> (valid: bool)
        ensures
            valid ==> (self@.lease matches Some(lease) && 0 < lease.lifetime_secs),
    {
        self.dhcp_snooper.lease_valid()
    }

    /// Whether a write to the guest has run out of buffer space before.
    pub fn enobufs_encountered(&self) -> (encountered: bool)
        ensures
            encountered == self@.enobufs_encountered,
    {
        self.enobufs_encountered
    }

    /// Puts `lease` in place of the guest's current lease.
    pub fn set_lease(&mut self, lease: Option<Lease>)
        ensures
            final(self).spec_lease() == lease,
            final(self)@ == (ProxyView {
                lease: match lease {
                    Some(lease) => Some(lease@),
                    None => None,
                },
                ..old(self)@
            }),
    {
        self.dhcp_snooper.set_lease(lease);
        proof {
            self.dhcp_snooper.lemma_view();
        }
    }

    /// One idle tick of the port forwarder: decides, by the clock, whether
    /// the lease still runs, and plans the calls on the host interface that
    /// follow from that.
    pub fn tick(&self) -> (round: Reconciliation)
        ensures
            round.actions@ == plan_of(self@.port_forwarder, round.target),
            round.target == target_of(self.spec_lease(), true) || round.target == target_of(
                self.spec_lease(),
                false,
            ),
            round.target is Some ==> (self@.lease matches Some(lease) && 0 < lease.lifetime_secs),
    {
        proof {
            self.lemma_lease_view();
        }
        self.port_forwarder.tick(self.dhcp_snooper.lease())
    }

    /// One idle tick of the port forwarder, given whether the lease still
    /// runs.
    pub fn tick_at(&self, lease_valid: bool) -> (round: Reconciliation)
        ensures
            round.target == target_of(self.spec_lease(), lease_valid),
            round.actions@ == plan_of(self@.port_forwarder, round.target),
    {
        self.port_forwarder.tick_at(self.dhcp_snooper.lease(), lease_valid)
    }

    /// Takes in how far the caller got with the calls of a tick: the first
    /// `performed` were made, and `failed` tells whether the one after them
    /// failed.
    pub fn commit(&mut self, target: Option<Ipv4Address>, performed: usize, failed: bool)
        ensures
            final(self)@ == (ProxyView {
                port_forwarder: committed(
                    old(self)@.port_forwarder,
                    target,
                    performed as int,
                    failed,
                ),
                ..old(self)@
            }),
            final(self).spec_lease() == old(self).spec_lease(),
    {
        self.port_forwarder.commit(target, performed, failed);
    }

    /// Every egress rule once, as the network's bits and prefix length with
    /// the action.
    pub fn rules(&self) -> (entries: Vec<((u32, u8), Action)>)
        ensures
            forall|key: (u32, u8)| #[trigger]
                self@.rules.dom().contains(key) <==> exists|i: int|
                    0 <= i < entries@.len() && (#[trigger] entries@[i]).0 == key,
            forall|i: int|
                0 <= i < entries@.len() ==> self@.rules[(#[trigger] entries@[i]).0]
                    == entries@[i].1,
            forall|i: int, j: int|
                0 <= i < j < entries@.len() ==> (#[trigger] entries@[i]).0 != (
                #[trigger] entries@[j]).0,
    {
        self.rules.entries()
    }
}

} // verus!
