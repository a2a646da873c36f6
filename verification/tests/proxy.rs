use ipnet::Ipv4Net;
use mac_address::MacAddress;
use smoltcp::wire::Ipv4Packet;
use softnet::dhcp_snooper::Lease;
use softnet::net::{EthernetAddress, Ipv4Address, Ipv4Cidr};
use softnet::proxy::{allow_default_all, Action, Proxy};
use std::collections::BTreeMap;
use std::str::FromStr;

const VM_MAC: [u8; 6] = [0x02, 0x00, 0x00, 0x00, 0x00, 0x01];
const HOST_MAC: [u8; 6] = [0x02, 0x00, 0x00, 0x00, 0x00, 0xfe];
const GATEWAY: [u8; 4] = [192, 168, 0, 1];

fn address(text: &str) -> Ipv4Address {
    Ipv4Address::from_octets(smoltcp::wire::Ipv4Address::from_str(text).unwrap().octets())
}

fn cidr(text: &str) -> Ipv4Cidr {
    let net = Ipv4Net::from_str(text).unwrap();
    Ipv4Cidr::new(Ipv4Address::from_octets(net.addr().octets()), net.prefix_len()).unwrap()
}

fn key(text: &str) -> (u32, u8) {
    let net = Ipv4Net::from_str(text).unwrap();
    (net.network().to_bits(), net.prefix_len())
}

fn rules_of(proxy: &Proxy) -> BTreeMap<(u32, u8), Action> {
    proxy.rules().into_iter().collect()
}

fn create_proxy(vm_ip: smoltcp::wire::Ipv4Address, allow: Vec<&str>, block: Vec<&str>) -> Proxy {
    let mut proxy = Proxy::new(
        EthernetAddress(MacAddress::from_str("02:00:00:00:00:01").unwrap().bytes()),
        Ipv4Address::from_octets(GATEWAY),
        allow.into_iter().map(cidr).collect(),
        block.into_iter().map(cidr).collect(),
        Vec::default(),
    );

    proxy.set_lease(Some(Lease::new(
        Ipv4Address::from_octets(vm_ip.octets()),
        600,
        Vec::new(),
    )));

    proxy
}

fn allowed_from_vm_ipv4(proxy: &Proxy, src: smoltcp::wire::Ipv4Address, dst: &str) -> Option<()> {
    let mut buf = vec![0; 1500];

    let mut ipv4_pkt_mut = Ipv4Packet::new_unchecked(&mut buf[..]);
    ipv4_pkt_mut.set_src_addr(src);
    ipv4_pkt_mut.set_dst_addr(smoltcp::wire::Ipv4Address::from_str(dst).unwrap());

    if proxy.allowed_from_vm_ipv4(buf.as_slice(), proxy.lease_valid()) {
        Some(())
    } else {
        None
    }
}

#[test]
fn test_blocking_takes_precedence() {
    let vm_ip = smoltcp::wire::Ipv4Address::from_str("192.168.0.2").unwrap();
    let proxy = create_proxy(vm_ip, vec!["66.66.0.0/16"], vec!["66.66.0.0/16"]);

    assert_eq!(
        rules_of(&proxy),
        BTreeMap::from_iter(vec![(key("66.66.0.0/16"), Action::Block),])
    );

    assert!(allowed_from_vm_ipv4(&proxy, vm_ip, "66.66.66.66").is_none());
}

#[test]
fn test_longest_prefix_match_wins() {
    let vm_ip = smoltcp::wire::Ipv4Address::from_str("192.168.0.2").unwrap();
    let proxy = create_proxy(vm_ip, vec!["33.33.33.33/32"], vec!["33.33.33.0/24"]);

    assert_eq!(
        rules_of(&proxy),
        BTreeMap::from_iter(vec![
            (key("33.33.33.33/32"), Action::Allow),
            (key("33.33.33.0/24"), Action::Block),
        ])
    );

    assert!(allowed_from_vm_ipv4(&proxy, vm_ip, "33.33.33.32").is_none());
    assert!(allowed_from_vm_ipv4(&proxy, vm_ip, "33.33.33.33").is_some());
    assert!(allowed_from_vm_ipv4(&proxy, vm_ip, "33.33.33.34").is_none());
}

// Frames, written out octet by octet.

fn ethernet(dst: [u8; 6], src: [u8; 6], ethertype: u16, payload: &[u8]) -> Vec<u8> {
    let mut frame = Vec::new();
    frame.extend_from_slice(&dst);
    frame.extend_from_slice(&src);
    frame.extend_from_slice(&ethertype.to_be_bytes());
    frame.extend_from_slice(payload);
    frame
}

fn ipv4(src: &str, dst: &str, protocol: u8, payload: &[u8]) -> Vec<u8> {
    let total = 20 + payload.len() as u16;
    let mut packet = vec![0x45, 0x00];
    packet.extend_from_slice(&total.to_be_bytes());
    packet.extend_from_slice(&[0, 0, 0, 0, 64, protocol, 0, 0]);
    packet.extend_from_slice(&address(src).octets());
    packet.extend_from_slice(&address(dst).octets());
    packet.extend_from_slice(payload);
    packet
}

fn udp(src_port: u16, dst_port: u16, payload: &[u8]) -> Vec<u8> {
    let length = 8 + payload.len() as u16;
    let mut datagram = Vec::new();
    datagram.extend_from_slice(&src_port.to_be_bytes());
    datagram.extend_from_slice(&dst_port.to_be_bytes());
    datagram.extend_from_slice(&length.to_be_bytes());
    datagram.extend_from_slice(&[0, 0]);
    datagram.extend_from_slice(payload);
    datagram
}

fn arp(sender_mac: [u8; 6], sender_ip: &str) -> Vec<u8> {
    let mut packet = vec![0x00, 0x01, 0x08, 0x00, 6, 4, 0x00, 0x01];
    packet.extend_from_slice(&sender_mac);
    packet.extend_from_slice(&address(sender_ip).octets());
    packet.extend_from_slice(&[0; 6]);
    packet.extend_from_slice(&address("192.168.0.1").octets());
    packet
}

fn from_vm(payload_type: u16, payload: &[u8]) -> Vec<u8> {
    ethernet(HOST_MAC, VM_MAC, payload_type, payload)
}

fn proxy_with(allow: Vec<&str>, block: Vec<&str>) -> Proxy {
    Proxy::new(
        EthernetAddress(VM_MAC),
        Ipv4Address::from_octets(GATEWAY),
        allow.into_iter().map(cidr).collect(),
        block.into_iter().map(cidr).collect(),
        Vec::new(),
    )
}

fn leased(mut proxy: Proxy, ip: &str, seconds: u64, dns: Vec<&str>) -> Proxy {
    proxy.set_lease(Some(Lease::new(
        address(ip),
        seconds,
        dns.into_iter().map(address).collect(),
    )));
    proxy
}

#[test]
fn block_precedence_on_a_whole_frame() {
    let proxy = leased(
        proxy_with(vec!["66.66.0.0/16"], vec!["66.66.0.0/16"]),
        "192.168.0.2",
        600,
        vec![],
    );
    let frame = from_vm(0x0800, &ipv4("192.168.0.2", "66.66.66.66", 6, &[0; 20]));
    assert!(!proxy.process_frame_from_vm(&frame));
    assert!(!proxy.allowed_from_vm(&frame, true));
}

#[test]
fn longest_prefix_on_a_whole_frame() {
    let proxy = leased(
        proxy_with(vec!["33.33.33.33/32"], vec!["33.33.33.0/24"]),
        "192.168.0.2",
        600,
        vec![],
    );
    for (dst, expected) in [("33.33.33.32", false), ("33.33.33.33", true), ("33.33.33.34", false)] {
        let frame = from_vm(0x0800, &ipv4("192.168.0.2", dst, 6, &[0; 20]));
        assert_eq!(proxy.process_frame_from_vm(&frame), expected);
    }
}

#[test]
fn allow_rule_inside_a_blocked_network_and_back() {
    // A shorter allow does not override a longer block either.
    let proxy = leased(
        proxy_with(vec!["10.0.0.0/8"], vec!["10.1.0.0/16"]),
        "192.168.0.2",
        600,
        vec![],
    );
    let inside = from_vm(0x0800, &ipv4("192.168.0.2", "10.1.2.3", 6, &[]));
    let outside = from_vm(0x0800, &ipv4("192.168.0.2", "10.2.2.3", 6, &[]));
    assert!(!proxy.process_frame_from_vm(&inside));
    assert!(proxy.process_frame_from_vm(&outside));
}

#[test]
fn rule_with_host_bits_is_stored_under_its_network() {
    let proxy = proxy_with(vec!["10.1.2.3/8"], vec![]);
    assert_eq!(
        rules_of(&proxy),
        BTreeMap::from_iter(vec![(key("10.0.0.0/8"), Action::Allow)])
    );
}

#[test]
fn default_route_rule_matches_everything() {
    let proxy = leased(proxy_with(vec![], vec!["0.0.0.0/0"]), "192.168.0.2", 600, vec![]);
    for dst in ["8.8.8.8", "192.168.0.1", "0.0.0.0", "255.255.255.254"] {
        let frame = from_vm(0x0800, &ipv4("192.168.0.2", dst, 6, &[]));
        assert!(!proxy.process_frame_from_vm(&frame));
    }
    let proxy = leased(proxy_with(vec!["0.0.0.0/0"], vec![]), "192.168.0.2", 600, vec![]);
    for dst in ["8.8.8.8", "10.0.0.1", "224.0.0.1"] {
        let frame = from_vm(0x0800, &ipv4("192.168.0.2", dst, 6, &[]));
        assert!(proxy.process_frame_from_vm(&frame));
    }
}

#[test]
fn allow_default_all_looks_for_the_default_route() {
    assert!(allow_default_all(&vec![cidr("10.0.0.0/8"), cidr("0.0.0.0/0")]));
    assert!(allow_default_all(&vec![cidr("1.2.3.4/0")]));
    assert!(!allow_default_all(&vec![cidr("10.0.0.0/8"), cidr("0.0.0.0/1")]));
    assert!(!allow_default_all(&vec![]));
}

#[test]
fn spoofed_mac_is_dropped() {
    let proxy = leased(proxy_with(vec![], vec![]), "192.168.0.2", 600, vec![]);
    let packet = ipv4("192.168.0.2", "8.8.8.8", 6, &[]);
    let good = ethernet(HOST_MAC, VM_MAC, 0x0800, &packet);
    let spoofed = ethernet(HOST_MAC, [0x02, 0, 0, 0, 0, 0x02], 0x0800, &packet);
    // The destination address is no source address.
    let swapped = ethernet(VM_MAC, HOST_MAC, 0x0800, &packet);
    assert!(proxy.process_frame_from_vm(&good));
    assert!(!proxy.process_frame_from_vm(&spoofed));
    assert!(!proxy.process_frame_from_vm(&swapped));
}

#[test]
fn spoofed_ip_is_dropped() {
    let proxy = leased(proxy_with(vec![], vec![]), "192.168.0.2", 600, vec![]);
    let frame = from_vm(0x0800, &ipv4("192.168.0.3", "8.8.8.8", 6, &[]));
    assert!(!proxy.process_frame_from_vm(&frame));
    // Source and destination are not mixed up.
    let frame = from_vm(0x0800, &ipv4("8.8.8.8", "192.168.0.2", 6, &[]));
    assert!(!proxy.process_frame_from_vm(&frame));
}

#[test]
fn expired_lease_is_no_valid_source() {
    let proxy = leased(proxy_with(vec![], vec![]), "192.168.0.2", 0, vec![]);
    let frame = from_vm(0x0800, &ipv4("192.168.0.2", "8.8.8.8", 6, &[]));
    assert!(!proxy.process_frame_from_vm(&frame));
    assert!(!proxy.allowed_from_vm(&frame, false));
    assert!(proxy.allowed_from_vm(&frame, true));
}

#[test]
fn other_ethertypes_are_dropped() {
    let proxy = leased(proxy_with(vec![], vec![]), "192.168.0.2", 600, vec![]);
    let packet = ipv4("192.168.0.2", "8.8.8.8", 6, &[]);
    assert!(!proxy.process_frame_from_vm(&from_vm(0x86dd, &packet)));
    assert!(!proxy.process_frame_from_vm(&from_vm(0x0008, &packet)));
    assert!(proxy.process_frame_from_vm(&from_vm(0x0800, &packet)));
}

#[test]
fn malformed_frames_are_dropped() {
    let proxy = leased(proxy_with(vec![], vec![]), "192.168.0.2", 600, vec![]);
    let good = from_vm(0x0800, &ipv4("192.168.0.2", "8.8.8.8", 6, &[]));
    assert!(proxy.process_frame_from_vm(&good));
    // Too short for an Ethernet header
    assert!(!proxy.process_frame_from_vm(&good[..13]));
    assert!(!proxy.process_frame_from_vm(&[]));
    // Too short for an IPv4 header
    assert!(!proxy.process_frame_from_vm(&good[..33]));
    // Total length beyond the buffer
    let mut long = good.clone();
    long[14 + 3] = 21;
    assert!(!proxy.process_frame_from_vm(&long));
    // Header length below the minimum
    let mut short_header = good.clone();
    short_header[14] = 0x44;
    assert!(!proxy.process_frame_from_vm(&short_header));
    // Header length beyond the total length
    let mut long_header = good.clone();
    long_header[14] = 0x46;
    assert!(!proxy.process_frame_from_vm(&long_header));
}

#[test]
fn dhcp_bootstrap() {
    let proxy = proxy_with(vec![], vec![]);
    let request = udp(68, 67, &[0; 240]);
    let frame = from_vm(0x0800, &ipv4("0.0.0.0", "255.255.255.255", 17, &request));
    assert!(proxy.process_frame_from_vm(&frame));
    let frame = from_vm(0x0800, &ipv4("0.0.0.0", "8.8.8.8", 17, &request));
    assert!(!proxy.process_frame_from_vm(&frame));
}

#[test]
fn dhcp_bootstrap_goes_by_either_port() {
    let proxy = proxy_with(vec![], vec![]);
    for (src_port, dst_port, expected) in
        [(68, 1, true), (1, 67, true), (67, 68, false), (1, 2, false), (67, 1, false)]
    {
        let request = udp(src_port, dst_port, &[]);
        let frame = from_vm(0x0800, &ipv4("0.0.0.0", "255.255.255.255", 17, &request));
        assert_eq!(proxy.process_frame_from_vm(&frame), expected);
    }
    // The same ports under another protocol number are no DHCP request.
    let frame = from_vm(0x0800, &ipv4("0.0.0.0", "255.255.255.255", 6, &udp(68, 67, &[])));
    assert!(!proxy.process_frame_from_vm(&frame));
}

#[test]
fn dhcp_bootstrap_needs_a_well_formed_datagram() {
    let proxy = proxy_with(vec![], vec![]);
    let mut request = udp(68, 67, &[0; 4]);
    // Length field below the header length
    request[5] = 7;
    let frame = from_vm(0x0800, &ipv4("0.0.0.0", "255.255.255.255", 17, &request));
    assert!(!proxy.process_frame_from_vm(&frame));
    // Length field beyond the datagram
    request[5] = 13;
    let frame = from_vm(0x0800, &ipv4("0.0.0.0", "255.255.255.255", 17, &request));
    assert!(!proxy.process_frame_from_vm(&frame));
    request[5] = 12;
    let frame = from_vm(0x0800, &ipv4("0.0.0.0", "255.255.255.255", 17, &request));
    assert!(proxy.process_frame_from_vm(&frame));
    // Too short for a UDP header
    let frame = from_vm(0x0800, &ipv4("0.0.0.0", "255.255.255.255", 17, &request[..7]));
    assert!(!proxy.process_frame_from_vm(&frame));
}

#[test]
fn dhcp_bootstrap_passes_a_blocked_source_but_not_a_block_rule() {
    // A guest with a running lease renews by broadcast: with a block rule
    // for everything the rule decides, as for any packet from the lease.
    let proxy = leased(proxy_with(vec![], vec!["0.0.0.0/0"]), "192.168.0.2", 600, vec![]);
    let request = udp(68, 67, &[]);
    let frame = from_vm(0x0800, &ipv4("192.168.0.2", "255.255.255.255", 17, &request));
    assert!(!proxy.process_frame_from_vm(&frame));
    let frame = from_vm(0x0800, &ipv4("0.0.0.0", "255.255.255.255", 17, &request));
    assert!(proxy.process_frame_from_vm(&frame));
}

#[test]
fn arp_probe() {
    let proxy = proxy_with(vec![], vec![]);
    let probe = from_vm(0x0806, &arp(VM_MAC, "0.0.0.0"));
    assert!(proxy.process_frame_from_vm(&probe));
    let early = from_vm(0x0806, &arp(VM_MAC, "192.168.0.5"));
    assert!(!proxy.process_frame_from_vm(&early));

    let proxy = leased(proxy, "192.168.0.5", 600, vec![]);
    assert!(proxy.process_frame_from_vm(&from_vm(0x0806, &arp(VM_MAC, "192.168.0.5"))));
    assert!(!proxy.process_frame_from_vm(&from_vm(0x0806, &arp(VM_MAC, "192.168.0.6"))));
    assert!(!proxy.process_frame_from_vm(&from_vm(0x0806, &arp(VM_MAC, "0.0.0.0"))));
}

#[test]
fn arp_with_another_sender_hardware_address_is_dropped() {
    let proxy = proxy_with(vec![], vec![]);
    let packet = arp([0x02, 0, 0, 0, 0, 0x02], "0.0.0.0");
    assert!(!proxy.process_frame_from_vm(&from_vm(0x0806, &packet)));
    assert!(!proxy.allowed_from_vm_arp(&packet, false));
    assert!(proxy.allowed_from_vm_arp(&arp(VM_MAC, "0.0.0.0"), false));
}

#[test]
fn arp_with_an_expired_lease_is_dropped() {
    let proxy = leased(proxy_with(vec![], vec![]), "192.168.0.5", 0, vec![]);
    assert!(!proxy.process_frame_from_vm(&from_vm(0x0806, &arp(VM_MAC, "192.168.0.5"))));
    assert!(!proxy.process_frame_from_vm(&from_vm(0x0806, &arp(VM_MAC, "0.0.0.0"))));
}

#[test]
fn malformed_arp_is_dropped() {
    let proxy = proxy_with(vec![], vec![]);
    let packet = arp(VM_MAC, "0.0.0.0");
    assert!(proxy.allowed_from_vm_arp(&packet, false));
    // Cut short
    assert!(!proxy.allowed_from_vm_arp(&packet[..27], false));
    assert!(!proxy.allowed_from_vm_arp(&packet[..7], false));
    // A protocol address of another length than an IPv4 address
    let mut odd = vec![0x00, 0x01, 0x08, 0x00, 6, 2, 0x00, 0x01];
    odd.extend_from_slice(&VM_MAC);
    odd.extend_from_slice(&[0, 0]);
    odd.extend_from_slice(&[0; 6]);
    odd.extend_from_slice(&[0, 0]);
    assert!(!proxy.allowed_from_vm_arp(&odd, false));
    // A hardware address of another length than a MAC address
    let mut odd = vec![0x00, 0x01, 0x08, 0x00, 5, 4, 0x00, 0x01];
    odd.extend_from_slice(&VM_MAC[..5]);
    odd.extend_from_slice(&[0; 4]);
    odd.extend_from_slice(&[0; 5]);
    odd.extend_from_slice(&[0; 4]);
    assert!(!proxy.allowed_from_vm_arp(&odd, false));
}

#[test]
fn dns_to_learned_resolver() {
    let proxy = leased(proxy_with(vec![], vec![]), "192.168.0.2", 600, vec!["192.168.0.53"]);
    let query = udp(40000, 53, &[0; 12]);
    let frame = from_vm(0x0800, &ipv4("192.168.0.2", "192.168.0.53", 17, &query));
    assert!(proxy.process_frame_from_vm(&frame));
    // Another private address is no resolver
    let frame = from_vm(0x0800, &ipv4("192.168.0.2", "192.168.0.54", 17, &query));
    assert!(!proxy.process_frame_from_vm(&frame));
    // Another port at the resolver is no DNS
    let other = udp(53, 54, &[0; 12]);
    let frame = from_vm(0x0800, &ipv4("192.168.0.2", "192.168.0.53", 17, &other));
    assert!(!proxy.process_frame_from_vm(&frame));
    // TCP to the resolver is no DNS request either
    let frame = from_vm(0x0800, &ipv4("192.168.0.2", "192.168.0.53", 6, &query));
    assert!(!proxy.process_frame_from_vm(&frame));
}

#[test]
fn dns_to_global_resolver() {
    let proxy = leased(proxy_with(vec![], vec![]), "192.168.0.2", 600, vec!["1.1.1.1"]);
    let query = udp(40000, 53, &[0; 12]);
    let frame = from_vm(0x0800, &ipv4("192.168.0.2", "1.1.1.1", 17, &query));
    assert!(proxy.process_frame_from_vm(&frame));
    // 8.8.4.4 is no learned resolver, but it is globally routable
    let frame = from_vm(0x0800, &ipv4("192.168.0.2", "8.8.4.4", 17, &query));
    assert!(proxy.process_frame_from_vm(&frame));

    // With a block rule for it, only the rule counts
    let proxy = leased(
        proxy_with(vec![], vec!["8.8.4.4/32", "1.1.1.1/32"]),
        "192.168.0.2",
        600,
        vec!["1.1.1.1"],
    );
    let frame = from_vm(0x0800, &ipv4("192.168.0.2", "8.8.4.4", 17, &query));
    assert!(!proxy.process_frame_from_vm(&frame));
    let frame = from_vm(0x0800, &ipv4("192.168.0.2", "1.1.1.1", 17, &query));
    assert!(!proxy.process_frame_from_vm(&frame));
}

#[test]
fn dns_resolver_of_an_expired_lease_is_no_target() {
    let proxy = leased(proxy_with(vec![], vec![]), "192.168.0.2", 0, vec!["192.168.0.53"]);
    let query = udp(40000, 53, &[0; 12]);
    let frame = from_vm(0x0800, &ipv4("192.168.0.2", "192.168.0.53", 17, &query));
    assert!(!proxy.process_frame_from_vm(&frame));
}

#[test]
fn gateway_is_reachable() {
    let proxy = leased(proxy_with(vec![], vec![]), "192.168.0.2", 600, vec![]);
    let frame = from_vm(0x0800, &ipv4("192.168.0.2", "192.168.0.1", 6, &[]));
    assert!(proxy.process_frame_from_vm(&frame));
    let frame = from_vm(0x0800, &ipv4("192.168.0.2", "192.168.0.3", 6, &[]));
    assert!(!proxy.process_frame_from_vm(&frame));
}

#[test]
fn only_global_unicast_passes_without_a_rule() {
    let proxy = leased(proxy_with(vec![], vec![]), "192.168.0.2", 600, vec![]);
    for (dst, expected) in [
        ("8.8.8.8", true),
        ("80.9.12.3", true),
        ("10.0.0.1", false),
        ("172.16.0.1", false),
        ("127.0.0.1", false),
        ("169.254.1.1", false),
        ("255.255.255.255", false),
        ("224.0.0.1", false),
        ("239.255.255.250", false),
        ("240.0.0.1", false),
        ("0.1.2.3", false),
    ] {
        let frame = from_vm(0x0800, &ipv4("192.168.0.2", dst, 6, &[]));
        assert_eq!(proxy.process_frame_from_vm(&frame), expected, "{}", dst);
    }
}

#[test]
fn options_in_the_ipv4_header_are_skipped() {
    let proxy = proxy_with(vec![], vec![]);
    // A header of 24 octets: the datagram starts after the options
    let request = udp(68, 67, &[]);
    let mut packet = vec![0x46, 0x00, 0x00, 32, 0, 0, 0, 0, 64, 17, 0, 0];
    packet.extend_from_slice(&[0, 0, 0, 0]);
    packet.extend_from_slice(&[255, 255, 255, 255]);
    packet.extend_from_slice(&[0, 68, 0, 68]);
    packet.extend_from_slice(&request);
    assert!(proxy.process_frame_from_vm(&from_vm(0x0800, &packet)));
    // Octets past the total length are no part of the datagram
    let mut packet = ipv4("0.0.0.0", "255.255.255.255", 17, &request[..7]);
    packet.push(8);
    assert!(!proxy.process_frame_from_vm(&from_vm(0x0800, &packet)));
}

#[test]
fn accessors_return_what_was_given() {
    let proxy = proxy_with(vec![], vec![]);
    assert_eq!(proxy.vm_mac_address(), EthernetAddress(VM_MAC));
    assert_eq!(proxy.gateway_ip(), address("192.168.0.1"));
    assert!(proxy.lease().is_none());
    assert!(!proxy.lease_valid());
    assert!(!proxy.enobufs_encountered());
    assert!(rules_of(&proxy).is_empty());
    let proxy = leased(proxy, "192.168.0.2", 600, vec![]);
    assert_eq!(proxy.lease().as_ref().unwrap().address(), address("192.168.0.2"));
    assert!(proxy.lease_valid());
}
