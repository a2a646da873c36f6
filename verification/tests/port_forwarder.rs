use softnet::dhcp_snooper::Lease;
use softnet::net::Ipv4Address;
use softnet::proxy::port_forwarder::{HostAction, PortForwarder, PortForwarding};
use softnet::proxy::ExposedPort;

fn ip(d: u8) -> Ipv4Address {
    Ipv4Address::new(192, 168, 64, d)
}

fn port(external_port: u16, internal_port: u16) -> ExposedPort {
    ExposedPort { external_port, internal_port }
}

fn remove(external_port: u16) -> HostAction {
    HostAction::RemoveRule { external_port }
}

fn add(external_port: u16, address: Ipv4Address, internal_port: u16) -> HostAction {
    HostAction::AddRule { external_port, address, internal_port }
}

fn installed(forwarder: &PortForwarder) -> Vec<Option<Ipv4Address>> {
    forwarder.forwardings().iter().map(|f| f.forwarding_to_addr).collect()
}

/// Makes every call of a tick and reports all of them as made.
fn tick(forwarder: &mut PortForwarder, lease: &Option<Lease>) -> Vec<HostAction> {
    let round = forwarder.tick(lease);
    forwarder.commit(round.target, round.actions.len(), false);
    round.actions
}

#[test]
fn port_forward_reconcile() {
    let mut forwarder = PortForwarder::new(vec![port(2222, 22)]);
    let a = Some(Lease::new(ip(2), 600, vec![]));
    let b = Some(Lease::new(ip(3), 600, vec![]));

    assert_eq!(tick(&mut forwarder, &a), vec![add(2222, ip(2), 22)]);
    assert_eq!(installed(&forwarder), vec![Some(ip(2))]);

    assert_eq!(tick(&mut forwarder, &b), vec![remove(2222), add(2222, ip(3), 22)]);
    assert_eq!(installed(&forwarder), vec![Some(ip(3))]);
}

#[test]
fn tick_is_idempotent() {
    let mut forwarder = PortForwarder::new(vec![port(2222, 22), port(8080, 80)]);
    let lease = Some(Lease::new(ip(2), 600, vec![]));
    assert_eq!(
        tick(&mut forwarder, &lease),
        vec![add(2222, ip(2), 22), add(8080, ip(2), 80)]
    );
    for _ in 0..3 {
        assert_eq!(tick(&mut forwarder, &lease), vec![]);
        assert_eq!(installed(&forwarder), vec![Some(ip(2)), Some(ip(2))]);
    }
}

#[test]
fn no_lease_takes_everything_down() {
    let mut forwarder = PortForwarder::new(vec![port(2222, 22), port(8080, 80), port(53, 53)]);
    assert_eq!(tick(&mut forwarder, &None), vec![]);
    let lease = Some(Lease::new(ip(2), 600, vec![]));
    tick(&mut forwarder, &lease);
    assert_eq!(tick(&mut forwarder, &None), vec![remove(2222), remove(8080), remove(53)]);
    assert_eq!(installed(&forwarder), vec![None, None, None]);
    assert_eq!(tick(&mut forwarder, &None), vec![]);
}

#[test]
fn expired_lease_takes_everything_down() {
    let mut forwarder = PortForwarder::new(vec![port(2222, 22)]);
    let lease = Some(Lease::new(ip(2), 600, vec![]));
    tick(&mut forwarder, &lease);
    let expired = Some(Lease::new(ip(2), 0, vec![]));
    let round = forwarder.tick(&expired);
    assert_eq!(round.target, None);
    assert_eq!(round.actions, vec![remove(2222)]);
    // The same by an explicit reading of the clock
    let round = forwarder.tick_at(&lease, false);
    assert_eq!(round.target, None);
    assert_eq!(round.actions, vec![remove(2222)]);
    let round = forwarder.tick_at(&expired, true);
    assert_eq!(round.target, Some(ip(2)));
    assert_eq!(round.actions, vec![]);
}

#[test]
fn tick_names_its_target() {
    let forwarder = PortForwarder::new(vec![port(2222, 22)]);
    let lease = Some(Lease::new(ip(2), 600, vec![]));
    assert_eq!(forwarder.tick(&lease).target, Some(ip(2)));
    assert_eq!(forwarder.tick(&None).target, None);
    assert_eq!(forwarder.tick_at(&None, true).target, None);
}

#[test]
fn plan_mixes_what_each_forwarding_needs() {
    let mut forwarder = PortForwarder::new(vec![port(1, 11), port(2, 12), port(3, 13)]);
    // Install the first two for .2, then move the first to .3 by hand
    forwarder.commit(Some(ip(2)), 2, false);
    assert_eq!(installed(&forwarder), vec![Some(ip(2)), Some(ip(2)), None]);
    forwarder.commit(Some(ip(3)), 2, false);
    assert_eq!(installed(&forwarder), vec![Some(ip(3)), Some(ip(2)), None]);
    assert_eq!(
        forwarder.plan(Some(ip(3))),
        vec![remove(2), add(2, ip(3), 12), add(3, ip(3), 13)]
    );
    assert_eq!(
        forwarder.plan(Some(ip(2))),
        vec![remove(1), add(1, ip(2), 11), add(3, ip(2), 13)]
    );
    assert_eq!(forwarder.plan(None), vec![remove(1), remove(2)]);
}

#[test]
fn commit_follows_the_calls_that_were_made() {
    let fresh = || {
        let mut forwarder = PortForwarder::new(vec![port(1, 11), port(2, 12)]);
        forwarder.commit(Some(ip(2)), 2, false);
        forwarder
    };
    // The plan for .3 is: remove 1, add 1, remove 2, add 2
    let expected = [
        vec![Some(ip(2)), Some(ip(2))],
        vec![None, Some(ip(2))],
        vec![Some(ip(3)), Some(ip(2))],
        vec![Some(ip(3)), None],
        vec![Some(ip(3)), Some(ip(3))],
        vec![Some(ip(3)), Some(ip(3))],
    ];
    for (performed, expected) in expected.iter().enumerate() {
        let mut forwarder = fresh();
        forwarder.commit(Some(ip(3)), performed, false);
        assert_eq!(&installed(&forwarder), expected, "after {} calls", performed);
        assert!(!forwarder.failed());
    }
}

#[test]
fn failure_latches() {
    let mut forwarder = PortForwarder::new(vec![port(1, 11), port(2, 12)]);
    let lease = Some(Lease::new(ip(2), 600, vec![]));
    let round = forwarder.tick(&lease);
    assert_eq!(round.actions.len(), 2);
    // The first call was made, the second failed
    forwarder.commit(round.target, 1, true);
    assert!(forwarder.failed());
    assert_eq!(installed(&forwarder), vec![Some(ip(2)), None]);
    // From now on nothing is asked for and nothing changes
    assert_eq!(forwarder.tick(&lease).actions, vec![]);
    assert_eq!(forwarder.tick(&None).actions, vec![]);
    assert_eq!(forwarder.plan(Some(ip(3))), vec![]);
    forwarder.commit(Some(ip(3)), 4, false);
    assert!(forwarder.failed());
    assert_eq!(installed(&forwarder), vec![Some(ip(2)), None]);
}

#[test]
fn new_forwarder_has_nothing_installed() {
    let forwarder = PortForwarder::new(vec![port(2222, 22), port(8080, 80)]);
    assert!(!forwarder.failed());
    assert_eq!(
        forwarder.forwardings(),
        &vec![
            PortForwarding { exposed_port: port(2222, 22), forwarding_to_addr: None },
            PortForwarding { exposed_port: port(8080, 80), forwarding_to_addr: None },
        ]
    );
    let forwarder = PortForwarder::new(vec![]);
    assert_eq!(forwarder.plan(Some(ip(2))), vec![]);
}

#[test]
fn one_rule_per_port_at_every_moment() {
    // Replays the calls of a lease flip against a table of rules by port.
    let mut forwarder = PortForwarder::new(vec![port(1, 11), port(2, 12), port(3, 13)]);
    let mut rules = std::collections::BTreeMap::new();
    let leases = [
        Some(Lease::new(ip(2), 600, vec![])),
        Some(Lease::new(ip(3), 600, vec![])),
        None,
        Some(Lease::new(ip(3), 600, vec![])),
    ];
    for lease in leases.iter() {
        for action in tick(&mut forwarder, lease) {
            match action {
                HostAction::RemoveRule { external_port } => {
                    assert!(rules.remove(&external_port).is_some());
                }
                HostAction::AddRule { external_port, address, internal_port } => {
                    assert!(rules.insert(external_port, (address, internal_port)).is_none());
                }
            }
        }
        for forwarding in forwarder.forwardings().iter() {
            let rule = rules.get(&forwarding.exposed_port.external_port).copied();
            let expected = forwarding
                .forwarding_to_addr
                .map(|address| (address, forwarding.exposed_port.internal_port));
            assert_eq!(rule, expected);
            assert_eq!(forwarding.forwarding_to_addr, lease.as_ref().map(|l| l.address()));
        }
    }
}
