//! Reconciling NAT port forwardings with the guest's lease.
//!
//! The forwarder never talks to the host interface itself. A tick yields the
//! calls that bring the interface in line with the lease, in the order in
//! which they are to be made; the caller makes them and reports back how far
//! it got.

use crate::dhcp_snooper::Lease;
use crate::net::Ipv4Address;
use crate::proxy::exposed_port::ExposedPort;
use vstd::prelude::*;

verus! {

/// One configured port mapping, with the guest address that the host
/// interface currently forwards it to, if it forwards it at all.
#[derive(Debug, Clone, Copy, PartialEq, Eq, Structural)]
pub struct PortForwarding {
    pub exposed_port: ExposedPort,
    pub forwarding_to_addr: Option<Ipv4Address>,
}

/// A call to make on the host interface.
#[derive(Debug, Clone, Copy, PartialEq, Eq, Structural)]
pub enum HostAction {
    /// Remove the forwarding rule of an external port.
    RemoveRule { external_port: u16 },
    /// Forward an external port to a port of the guest at `address`.
    AddRule { external_port: u16, address: Ipv4Address, internal_port: u16 },
}

/// What a tick asks of the caller: the calls to make, in order, and the
/// address that the forwardings are being moved to (none when they are
/// being taken down).
#[derive(Debug)]
pub struct Reconciliation {
    pub target: Option<Ipv4Address>,
    pub actions: Vec<HostAction>,
}

/// The calls that move one forwarding to `target`: nothing when it is
/// there already, a removal when it points elsewhere, and an addition when
/// there is an address to point it to.
pub open spec fn pending(forwarding: PortForwarding, target: Option<Ipv4Address>) -> Seq<
    HostAction,
> {
    let port = forwarding.exposed_port;
    let remove = HostAction::RemoveRule { external_port: port.external_port };
    match (forwarding.forwarding_to_addr, target) {
        (None, None) => seq![],
        (Some(_), None) => seq![remove],
        (None, Some(address)) => seq![
            HostAction::AddRule {
                external_port: port.external_port,
                address,
                internal_port: port.internal_port,
            },
        ],
        (Some(installed), Some(address)) => if installed == address {
            seq![]
        } else {
            seq![
                remove,
                HostAction::AddRule {
                    external_port: port.external_port,
                    address,
                    internal_port: port.internal_port,
                },
            ]
        },
    }
}

/// The calls that move every forwarding to `target`, forwarding by
/// forwarding in the order of configuration.
pub open spec fn plan(forwardings: Seq<PortForwarding>, target: Option<Ipv4Address>) -> Seq<
    HostAction,
>
    decreases forwardings.len(),
{
    if forwardings.len() == 0 {
        seq![]
    } else {
        plan(forwardings.drop_last(), target) + pending(forwardings.last(), target)
    }
}

/// A forwarding after the first `performed` of its pending calls were made
/// (all of them, where `performed` is more than there are).
pub open spec fn advanced(forwarding: PortForwarding, target: Option<Ipv4Address>, performed: int)
    -> PortForwarding {
    if performed <= 0 || pending(forwarding, target).len() == 0 {
        forwarding
    } else if performed >= pending(forwarding, target).len() {
        PortForwarding { exposed_port: forwarding.exposed_port, forwarding_to_addr: target }
    } else {
        PortForwarding { exposed_port: forwarding.exposed_port, forwarding_to_addr: None }
    }
}

/// The forwardings after the first `performed` calls of the plan were made.
pub open spec fn progress(
    forwardings: Seq<PortForwarding>,
    target: Option<Ipv4Address>,
    performed: int,
) -> Seq<PortForwarding> {
    Seq::new(
        forwardings.len(),
        |i: int|
            advanced(forwardings[i], target, performed - plan(forwardings.take(i), target).len()),
    )
}

/// The forwardings for a list of port mappings, none of them installed.
pub open spec fn uninstalled(exposed_ports: Seq<ExposedPort>) -> Seq<PortForwarding> {
    Seq::new(
        exposed_ports.len(),
        |i: int| PortForwarding { exposed_port: exposed_ports[i], forwarding_to_addr: None },
    )
}

/// The address that a tick moves the forwardings to, given the lease and
/// whether it is still running: the leased address while it runs, and none
/// otherwise.
pub open spec fn target_of(lease: Option<Lease>, lease_valid: bool) -> Option<Ipv4Address> {
    match lease {
        Some(lease) => if lease_valid {
            Some(Ipv4Address { bits: lease@.address })
        } else {
            None
        },
        None => None,
    }
}

/// The state of a forwarder as plain values.
pub ghost struct PortForwarderView {
    pub forwardings: Seq<PortForwarding>,
    pub failed: bool,
}

/// The calls that a forwarder in state `state` asks for to reach `target`:
/// none once it has failed.
pub open spec fn plan_of(state: PortForwarderView, target: Option<Ipv4Address>) -> Seq<
    HostAction,
> {
    if state.failed {
        seq![]
    } else {
        plan(state.forwardings, target)
    }
}

/// The state of a forwarder after the caller reports that the first
/// `performed` calls of the plan for `target` were made and whether the
/// call after them failed. A forwarder that has failed stays as it is.
pub open spec fn committed(
    state: PortForwarderView,
    target: Option<Ipv4Address>,
    performed: int,
    failed: bool,
) -> PortForwarderView {
    if state.failed {
        state
    } else {
        PortForwarderView {
            forwardings: progress(state.forwardings, target, performed),
            failed,
        }
    }
}

/// The port mappings of a proxy and what is known of their state on the
/// host interface.
#[derive(Debug)]
pub struct PortForwarder {
    port_forwardings: Vec<PortForwarding>,
    failed: bool,
}

impl View for PortForwarder {
    type V = PortForwarderView;

    closed spec fn view(&self) -> PortForwarderView {
        PortForwarderView { forwardings: self.port_forwardings@, failed: self.failed }
    }
}

/// The plan grows by the pending calls of one more forwarding.
proof fn lemma_plan_take(forwardings: Seq<PortForwarding>, target: Option<Ipv4Address>, i: int)
    requires
        0 <= i < forwardings.len(),
    ensures
        plan(forwardings.take(i + 1), target) == plan(forwardings.take(i), target) + pending(
            forwardings[i],
            target,
        ),
{
    let longer = forwardings.take(i + 1);
    assert(longer.drop_last() =~= forwardings.take(i));
    assert(longer.last() == forwardings[i]);
}

/// The forwardings with every one of them moved to `target`.
pub open spec fn settled(forwardings: Seq<PortForwarding>, target: Option<Ipv4Address>) -> Seq<
    PortForwarding,
> {
    Seq::new(
        forwardings.len(),
        |i: int|
            PortForwarding {
                exposed_port: forwardings[i].exposed_port,
                forwarding_to_addr: target,
            },
    )
}

/// The forwardings with the first `count` of them moved to `target`.
pub open spec fn settled_upto(
    forwardings: Seq<PortForwarding>,
    target: Option<Ipv4Address>,
    count: int,
) -> Seq<PortForwarding> {
    Seq::new(
        forwardings.len(),
        |i: int|
            if i < count {
                PortForwarding {
                    exposed_port: forwardings[i].exposed_port,
                    forwarding_to_addr: target,
                }
            } else {
                forwardings[i]
            },
    )
}

/// Whether no two forwardings share an external port.
pub open spec fn distinct_external_ports(forwardings: Seq<PortForwarding>) -> bool {
    forall|i: int, j: int|
        0 <= i < j < forwardings.len() ==> (#[trigger] forwardings[i]).exposed_port.external_port
            != (#[trigger] forwardings[j]).exposed_port.external_port
}

/// Whether a forwarding is installed for the external port `port`.
pub open spec fn installed_at(forwarding: PortForwarding, port: u16) -> bool {
    forwarding.exposed_port.external_port == port && forwarding.forwarding_to_addr is Some
}

/// Whether the rules of the host interface, by external port, are what
/// the forwardings say is installed: a port has a rule exactly when a
/// forwarding is installed for it, and the rule leads to the address and the
/// internal port of that forwarding.
pub open spec fn mirrors(
    rules: Map<u16, (Ipv4Address, u16)>,
    forwardings: Seq<PortForwarding>,
) -> bool {
    &&& forall|port: u16| #[trigger]
        rules.dom().contains(port) <==> exists|i: int|
            0 <= i < forwardings.len() && installed_at(#[trigger] forwardings[i], port)
    &&& forall|i: int|
        0 <= i < forwardings.len() && (#[trigger] forwardings[i]).forwarding_to_addr is Some
            ==> rules[forwardings[i].exposed_port.external_port] == (
            forwardings[i].forwarding_to_addr->0,
            forwardings[i].exposed_port.internal_port,
        )
}

/// Whether a call would give an external port a second rule.
pub open spec fn clashes(rules: Map<u16, (Ipv4Address, u16)>, action: HostAction) -> bool {
    action matches HostAction::AddRule { external_port, .. } && rules.dom().contains(external_port)
}

/// The rules of the host interface after one call.
pub open spec fn rules_after(rules: Map<u16, (Ipv4Address, u16)>, action: HostAction) -> Map<
    u16,
    (Ipv4Address, u16),
> {
    match action {
        HostAction::RemoveRule { external_port } => rules.remove(external_port),
        HostAction::AddRule { external_port, address, internal_port } => rules.insert(
            external_port,
            (address, internal_port),
        ),
    }
}

/// The rules of the host interface after a sequence of calls.
pub open spec fn rules_after_all(rules: Map<u16, (Ipv4Address, u16)>, actions: Seq<HostAction>)
    -> Map<u16, (Ipv4Address, u16)>
    decreases actions.len(),
{
    if actions.len() == 0 {
        rules
    } else {
        rules_after(rules_after_all(rules, actions.drop_last()), actions.last())
    }
}

/// Whether at no point of a sequence of calls an external port is given a
/// second rule.
pub open spec fn clash_free(rules: Map<u16, (Ipv4Address, u16)>, actions: Seq<HostAction>) -> bool
    decreases actions.len(),
{
    if actions.len() == 0 {
        true
    } else {
        clash_free(rules, actions.drop_last()) && !clashes(
            rules_after_all(rules, actions.drop_last()),
            actions.last(),
        )
    }
}

/// The plan for a part of the forwardings is no longer than the plan for
/// all of them.
proof fn lemma_plan_len_prefix(forwardings: Seq<PortForwarding>, target: Option<Ipv4Address>, i: int)
    requires
        0 <= i <= forwardings.len(),
    ensures
        plan(forwardings.take(i), target).len() <= plan(forwardings, target).len(),
    decreases forwardings.len() - i,
{
    if i == forwardings.len() {
        assert(forwardings.take(i) =~= forwardings);
    } else {
        lemma_plan_take(forwardings, target, i);
        lemma_plan_len_prefix(forwardings, target, i + 1);
    }
}

/// Once every call of the plan was made, every forwarding is at the
/// target.
pub proof fn lemma_plan_carried_out(forwardings: Seq<PortForwarding>, target: Option<Ipv4Address>)
    ensures
        progress(forwardings, target, plan(forwardings, target).len() as int) == settled(
            forwardings,
            target,
        ),
{
    let all = plan(forwardings, target).len() as int;
    let after = progress(forwardings, target, all);
    assert forall|i: int| 0 <= i < forwardings.len() implies after[i] == settled(
        forwardings,
        target,
    )[i] by {
        lemma_plan_take(forwardings, target, i);
        lemma_plan_len_prefix(forwardings, target, i + 1);
    }
    assert(after =~= settled(forwardings, target));
}

/// Forwardings that are at the target need no call.
pub proof fn lemma_settled_needs_nothing(
    forwardings: Seq<PortForwarding>,
    target: Option<Ipv4Address>,
)
    ensures
        plan(settled(forwardings, target), target) == Seq::<HostAction>::empty(),
    decreases forwardings.len(),
{
    let done = settled(forwardings, target);
    if forwardings.len() > 0 {
        lemma_settled_needs_nothing(forwardings.drop_last(), target);
        assert(done.drop_last() =~= settled(forwardings.drop_last(), target));
        assert(plan(done, target) =~= Seq::<HostAction>::empty());
    }
}

/// A tick whose calls all succeed leaves every forwarding at the target,
/// and a second tick for the same target then asks for no call at all.
pub proof fn lemma_tick_idempotent(state: PortForwarderView, target: Option<Ipv4Address>)
    requires
        !state.failed,
    ensures
        ({
            let after = committed(state, target, plan_of(state, target).len() as int, false);
            &&& after.forwardings == settled(state.forwardings, target)
            &&& forall|i: int|
                0 <= i < after.forwardings.len() ==> (#[trigger] after.forwardings[i])
                    == (PortForwarding {
                    exposed_port: state.forwardings[i].exposed_port,
                    forwarding_to_addr: target,
                })
            &&& !after.failed
            &&& plan_of(after, target) == Seq::<HostAction>::empty()
        }),
{
    lemma_plan_carried_out(state.forwardings, target);
    lemma_settled_needs_nothing(state.forwardings, target);
}

/// A failure is final: a forwarder that has failed asks for nothing, and
/// nothing that is reported to it changes it.
pub proof fn lemma_failure_latches(
    state: PortForwarderView,
    target: Option<Ipv4Address>,
    performed: int,
    failed: bool,
)
    requires
        state.failed,
    ensures
        plan_of(state, target) == Seq::<HostAction>::empty(),
        committed(state, target, performed, failed) == state,
{
}

/// Making the calls for the first `count` forwardings never gives a port
/// a second rule, and leaves the host interface with the rules of those
/// forwardings at the target and of the others as they were.
proof fn lemma_one_rule_per_port_upto(
    rules: Map<u16, (Ipv4Address, u16)>,
    forwardings: Seq<PortForwarding>,
    target: Option<Ipv4Address>,
    count: int,
)
    requires
        distinct_external_ports(forwardings),
        mirrors(rules, forwardings),
        0 <= count <= forwardings.len(),
    ensures
        clash_free(rules, plan(forwardings.take(count), target)),
        mirrors(
            rules_after_all(rules, plan(forwardings.take(count), target)),
            settled_upto(forwardings, target, count),
        ),
    decreases count,
{
    if count == 0 {
        assert(forwardings.take(0) =~= Seq::<PortForwarding>::empty());
        assert(settled_upto(forwardings, target, 0) =~= forwardings);
    } else {
        let k = count - 1;
        lemma_one_rule_per_port_upto(rules, forwardings, target, k);
        lemma_plan_take(forwardings, target, k);
        let done = plan(forwardings.take(k), target);
        let reached = rules_after_all(rules, done);
        let before = settled_upto(forwardings, target, k);
        let after = settled_upto(forwardings, target, count);
        let forwarding = forwardings[k];
        let port = forwarding.exposed_port.external_port;
        let calls = pending(forwarding, target);
        let all = done + calls;
        assert(before[k] == forwarding);
        // No other forwarding has a rule for this port.
        assert forall|i: int| 0 <= i < before.len() && i != k implies !installed_at(
            #[trigger] before[i],
            port,
        ) by {
            assert(before[i].exposed_port == forwardings[i].exposed_port);
            if i < k {
                assert(forwardings[i].exposed_port.external_port
                    != forwardings[k].exposed_port.external_port);
            } else {
                assert(forwardings[k].exposed_port.external_port
                    != forwardings[i].exposed_port.external_port);
            }
        }
        assert forall|i: int| 0 <= i < after.len() && i != k implies after[i] == before[i] by {}
        assert(plan(forwardings.take(count), target) == all);
        assert(after[k] == (PortForwarding {
            exposed_port: forwarding.exposed_port,
            forwarding_to_addr: target,
        }));
        if calls.len() == 0 {
            assert(all =~= done);
            assert(forwarding.forwarding_to_addr == target);
            assert(after =~= before);
        } else if calls.len() == 1 {
            assert(all.drop_last() =~= done);
            assert(all.last() == calls[0]);
            let last = rules_after(reached, calls[0]);
            assert(rules_after_all(rules, all) == last);
            if forwarding.forwarding_to_addr is None {
                assert(!reached.dom().contains(port)) by {
                    if reached.dom().contains(port) {
                        let i = choose|i: int|
                            0 <= i < before.len() && installed_at(#[trigger] before[i], port);
                        assert(i == k);
                    }
                }
                assert(calls[0] == (HostAction::AddRule {
                    external_port: port,
                    address: target->0,
                    internal_port: forwarding.exposed_port.internal_port,
                }));
            } else {
                assert(target is None);
                assert(calls[0] == (HostAction::RemoveRule { external_port: port }));
            }
            assert(!clashes(reached, calls[0]));
            assert(clash_free(rules, all));
            lemma_mirrors_after(reached, last, before, after, k);
        } else {
            assert(calls[0] == (HostAction::RemoveRule { external_port: port }));
            assert(calls[1] == (HostAction::AddRule {
                external_port: port,
                address: target->0,
                internal_port: forwarding.exposed_port.internal_port,
            }));
            let first = rules_after(reached, calls[0]);
            let last = rules_after(first, calls[1]);
            let middle = done.push(calls[0]);
            assert(all.drop_last() =~= middle);
            assert(all.last() == calls[1]);
            assert(middle.drop_last() =~= done);
            assert(middle.last() == calls[0]);
            assert(rules_after_all(rules, middle) == first);
            assert(rules_after_all(rules, all) == last);
            assert(!first.dom().contains(port));
            assert(clash_free(rules, middle));
            assert(clash_free(rules, all));
            assert(last =~= reached.insert(port, (target->0, forwarding.exposed_port.internal_port)));
            lemma_mirrors_after(reached, last, before, after, k);
        }
    }
}

/// Where the forwardings change at one place only, and the rules change
/// for the port of that place only, to what the forwarding there says, the
/// rules go on mirroring the forwardings.
proof fn lemma_mirrors_after(
    rules: Map<u16, (Ipv4Address, u16)>,
    changed: Map<u16, (Ipv4Address, u16)>,
    before: Seq<PortForwarding>,
    after: Seq<PortForwarding>,
    k: int,
)
    requires
        mirrors(rules, before),
        0 <= k < before.len() == after.len(),
        after[k].exposed_port == before[k].exposed_port,
        forall|i: int| 0 <= i < after.len() && i != k ==> after[i] == before[i],
        forall|i: int|
            0 <= i < before.len() && i != k ==> !installed_at(
                #[trigger] before[i],
                before[k].exposed_port.external_port,
            ),
        changed == match after[k].forwarding_to_addr {
            Some(address) => rules.insert(
                before[k].exposed_port.external_port,
                (address, before[k].exposed_port.internal_port),
            ),
            None => rules.remove(before[k].exposed_port.external_port),
        },
    ensures
        mirrors(changed, after),
{
    let here = before[k].exposed_port.external_port;
    assert forall|port: u16| #[trigger]
        changed.dom().contains(port) <==> exists|i: int|
            0 <= i < after.len() && installed_at(#[trigger] after[i], port) by {
        if changed.dom().contains(port) {
            if port == here {
                assert(installed_at(after[k], port));
            } else {
                assert(rules.dom().contains(port));
                let i = choose|i: int|
                    0 <= i < before.len() && installed_at(#[trigger] before[i], port);
                assert(i != k);
                assert(installed_at(after[i], port));
            }
        }
        if exists|i: int| 0 <= i < after.len() && installed_at(#[trigger] after[i], port) {
            let i = choose|i: int| 0 <= i < after.len() && installed_at(#[trigger] after[i], port);
            if i != k {
                assert(installed_at(before[i], port));
                assert(port != here);
                assert(rules.dom().contains(port));
            }
        }
    }
    assert forall|i: int|
        0 <= i < after.len() && (#[trigger] after[i]).forwarding_to_addr is Some implies changed[after[i].exposed_port.external_port]
        == (after[i].forwarding_to_addr->0, after[i].exposed_port.internal_port) by {
        if i != k {
            assert(installed_at(before[i], before[i].exposed_port.external_port));
            assert(before[i].exposed_port.external_port != here);
        }
    }
}

/// Where no two forwardings share an external port and the host
/// interface has the rules that the forwardings say are installed, the calls
/// of a tick never give a port a second rule, and once they are made the host
/// interface has one rule for each forwarding, leading to the target, or none
/// at all where there is no target.
pub proof fn lemma_one_rule_per_port(
    rules: Map<u16, (Ipv4Address, u16)>,
    forwardings: Seq<PortForwarding>,
    target: Option<Ipv4Address>,
)
    requires
        distinct_external_ports(forwardings),
        mirrors(rules, forwardings),
    ensures
        clash_free(rules, plan(forwardings, target)),
        mirrors(rules_after_all(rules, plan(forwardings, target)), settled(forwardings, target)),
{
    lemma_one_rule_per_port_upto(rules, forwardings, target, forwardings.len() as int);
    assert(forwardings.take(forwardings.len() as int) =~= forwardings);
    assert(settled_upto(forwardings, target, forwardings.len() as int) =~= settled(
        forwardings,
        target,
    ));
}

/// The plan for the first forwardings is the start of the plan for all of
/// them.
proof fn lemma_plan_prefix(forwardings: Seq<PortForwarding>, target: Option<Ipv4Address>, j: int)
    requires
        0 <= j <= forwardings.len(),
    ensures
        plan(forwardings.take(j), target).len() <= plan(forwardings, target).len(),
        plan(forwardings, target).take(plan(forwardings.take(j), target).len() as int) == plan(
            forwardings.take(j),
            target,
        ),
    decreases forwardings.len() - j,
{
    let whole = plan(forwardings, target);
    let here = plan(forwardings.take(j), target);
    if j == forwardings.len() {
        assert(forwardings.take(j) =~= forwardings);
        assert(whole.take(whole.len() as int) =~= whole);
    } else {
        lemma_plan_prefix(forwardings, target, j + 1);
        lemma_plan_take(forwardings, target, j);
        let next = plan(forwardings.take(j + 1), target);
        assert(next.take(here.len() as int) =~= here);
        assert(whole.take(next.len() as int).take(here.len() as int) =~= whole.take(
            here.len() as int,
        ));
    }
}

/// The forwarding whose calls the call number `performed` of the plan
/// falls among.
proof fn lemma_find_forwarding(
    forwardings: Seq<PortForwarding>,
    target: Option<Ipv4Address>,
    performed: int,
    upto: int,
) -> (k: int)
    requires
        0 < upto <= forwardings.len(),
        0 <= performed <= plan(forwardings.take(upto), target).len(),
    ensures
        0 <= k < upto,
        plan(forwardings.take(k), target).len() <= performed <= plan(
            forwardings.take(k + 1),
            target,
        ).len(),
    decreases upto,
{
    if performed >= plan(forwardings.take(upto - 1), target).len() {
        upto - 1
    } else {
        assert(forwardings.take(0) =~= Seq::<PortForwarding>::empty());
        lemma_find_forwarding(forwardings, target, performed, upto - 1)
    }
}

/// Among forwardings that share no external port, of which the first `k`
/// are at the target, none but the one at `k` is installed for the port of
/// the one at `k`.
proof fn lemma_port_is_own(
    forwardings: Seq<PortForwarding>,
    target: Option<Ipv4Address>,
    k: int,
)
    requires
        distinct_external_ports(forwardings),
        0 <= k < forwardings.len(),
    ensures
        forall|i: int|
            0 <= i < forwardings.len() && i != k ==> !installed_at(
                #[trigger] settled_upto(forwardings, target, k)[i],
                forwardings[k].exposed_port.external_port,
            ),
{
    let before = settled_upto(forwardings, target, k);
    assert forall|i: int| 0 <= i < forwardings.len() && i != k implies !installed_at(
        #[trigger] before[i],
        forwardings[k].exposed_port.external_port,
    ) by {
        assert(before[i].exposed_port == forwardings[i].exposed_port);
        if i < k {
            assert(forwardings[i].exposed_port.external_port
                != forwardings[k].exposed_port.external_port);
        } else {
            assert(forwardings[k].exposed_port.external_port
                != forwardings[i].exposed_port.external_port);
        }
    }
}

/// However far the caller gets with the calls of a tick, what the
/// forwarder takes the forwardings to be after `commit` is what the host
/// interface has: where no two forwardings share an external port and the
/// host interface starts out with the rules that the forwardings say are
/// installed, it has, after the first `performed` calls, the rules that the
/// forwardings as brought up to those calls say are installed.
pub proof fn lemma_commit_mirrors(
    rules: Map<u16, (Ipv4Address, u16)>,
    forwardings: Seq<PortForwarding>,
    target: Option<Ipv4Address>,
    performed: int,
)
    requires
        distinct_external_ports(forwardings),
        mirrors(rules, forwardings),
        0 <= performed <= plan(forwardings, target).len(),
    ensures
        mirrors(
            rules_after_all(rules, plan(forwardings, target).take(performed)),
            progress(forwardings, target, performed),
        ),
{
    let whole = plan(forwardings, target);
    let state = progress(forwardings, target, performed);
    if forwardings.len() == 0 {
        assert(whole.take(performed) =~= whole);
        assert(state =~= forwardings);
    } else {
        assert(forwardings.take(forwardings.len() as int) =~= forwardings);
        let k = lemma_find_forwarding(forwardings, target, performed, forwardings.len() as int);
        let done = plan(forwardings.take(k), target);
        let calls = pending(forwardings[k], target);
        let m = performed - done.len();
        let made = whole.take(performed);
        lemma_plan_take(forwardings, target, k);
        lemma_plan_prefix(forwardings, target, k + 1);
        assert(made =~= done + calls.take(m)) by {
            let next = plan(forwardings.take(k + 1), target);
            assert(whole.take(next.len() as int).take(performed) =~= made);
            assert((done + calls).take(performed) =~= done + calls.take(m));
        }
        lemma_one_rule_per_port_upto(rules, forwardings, target, k);
        let reached = rules_after_all(rules, done);
        let before = settled_upto(forwardings, target, k);
        let port = forwardings[k].exposed_port.external_port;
        // What the forwardings are taken to be after the calls that were made
        assert forall|i: int| 0 <= i < state.len() && i != k implies state[i] == before[i] by {
            if i < k {
                lemma_plan_take(forwardings, target, i);
                lemma_plan_prefix(forwardings.take(k), target, i + 1);
                assert(forwardings.take(k).take(i + 1) =~= forwardings.take(i + 1));
            } else {
                lemma_plan_prefix(forwardings.take(i), target, k + 1);
                assert(forwardings.take(i).take(k + 1) =~= forwardings.take(k + 1));
            }
        }
        assert(state[k] == advanced(forwardings[k], target, m));
        assert(before[k] == forwardings[k]);
        if m == 0 {
            assert(calls.take(0) =~= Seq::<HostAction>::empty());
            assert(made =~= done);
            assert(state =~= before);
        } else if m == calls.len() {
            assert(calls.take(m) =~= calls);
            lemma_one_rule_per_port_upto(rules, forwardings, target, k + 1);
            assert(state =~= settled_upto(forwardings, target, k + 1));
        } else {
            // One call of two was made: the rule is removed and not yet
            // added again.
            assert(calls.len() == 2 && m == 1);
            assert(calls[0] == (HostAction::RemoveRule { external_port: port }));
            assert(calls.take(1) =~= seq![calls[0]]);
            assert(made.drop_last() =~= done);
            assert(made.last() == calls[0]);
            let last = rules_after(reached, calls[0]);
            assert(rules_after_all(rules, made) == last);
            lemma_port_is_own(forwardings, target, k);
            lemma_mirrors_after(reached, last, before, state, k);
        }
    }
}

/// When the lease moves to a new address, one tick whose calls all succeed
/// leaves every forwarding installed for the new address and the host
/// interface with exactly one rule for each of them, and at no point on the
/// way does a port have two rules. This takes that no two forwardings share
/// an external port and that the host interface starts out with the rules
/// that the forwardings say are installed.
pub proof fn lemma_lease_transition(
    rules: Map<u16, (Ipv4Address, u16)>,
    state: PortForwarderView,
    new_addr: Ipv4Address,
)
    requires
        !state.failed,
        distinct_external_ports(state.forwardings),
        mirrors(rules, state.forwardings),
    ensures
        ({
            let calls = plan_of(state, Some(new_addr));
            let after = committed(state, Some(new_addr), calls.len() as int, false);
            &&& clash_free(rules, calls)
            &&& mirrors(rules_after_all(rules, calls), after.forwardings)
            &&& after.forwardings.len() == state.forwardings.len()
            &&& forall|i: int|
                0 <= i < after.forwardings.len() ==> (#[trigger] after.forwardings[i])
                    == (PortForwarding {
                    exposed_port: state.forwardings[i].exposed_port,
                    forwarding_to_addr: Some(new_addr),
                })
        }),
{
    lemma_tick_idempotent(state, Some(new_addr));
    lemma_one_rule_per_port(rules, state.forwardings, Some(new_addr));
}

/// How many calls it takes to move one forwarding to `target`.
fn pending_count(forwarding: PortForwarding, target: Option<Ipv4Address>) -> (count: usize)
    ensures
        count == pending(forwarding, target).len(),
{
    match (forwarding.forwarding_to_addr, target) {
        (None, None) => 0,
        (Some(_), None) => 1,
        (None, Some(_)) => 1,
        (Some(installed), Some(address)) => if installed == address {
            0
        } else {
            2
        },
    }
}

impl PortForwarder {
    /// A forwarder for `exposed_ports`, with nothing installed yet.
    pub fn new(exposed_ports: Vec<ExposedPort>) -> (forwarder: PortForwarder)
        ensures
            forwarder@.forwardings == uninstalled(exposed_ports@),
            !forwarder@.failed,
    {
        let mut port_forwardings: Vec<PortForwarding> = Vec::new();
        let mut i: usize = 0;
        while i < exposed_ports.len()
            invariant
                i <= exposed_ports.len(),
                port_forwardings@ == uninstalled(exposed_ports@.take(i as int)),
            decreases exposed_ports.len() - i,
        {
            port_forwardings.push(
                PortForwarding { exposed_port: exposed_ports[i], forwarding_to_addr: None },
            );
            assert(port_forwardings@ =~= uninstalled(exposed_ports@.take(i + 1)));
            i += 1;
        }
        assert(exposed_ports@.take(i as int) =~= exposed_ports@);
        PortForwarder { port_forwardings, failed: false }
    }

    /// The configured forwardings, each with the address it is installed
    /// for, in the order of configuration.
    pub fn forwardings(&self) -> (forwardings: &Vec<PortForwarding>)
        ensures
            forwardings@ == self@.forwardings,
    {
        &self.port_forwardings
    }

    /// Whether reconciling has failed before.
    pub fn failed(&self) -> (failed: bool)
        ensures
            failed == self@.failed,
    {
        self.failed
    }

    /// The calls that bring the host interface in line with `target`: the
    /// address every forwarding is to point to, or none to take them all
    /// down. A forwarder that has failed asks for nothing.
    pub fn plan(&self, target: Option<Ipv4Address>) -> (actions: Vec<HostAction>)
        ensures
            actions@ == plan_of(self@, target),
    {
        let mut actions: Vec<HostAction> = Vec::new();
        if self.failed {
            return actions;
        }
        let mut i: usize = 0;
        while i < self.port_forwardings.len()
            invariant
                i <= self.port_forwardings.len(),
                actions@ == plan(self.port_forwardings@.take(i as int), target),
            decreases self.port_forwardings.len() - i,
        {
            let forwarding = self.port_forwardings[i];
            let port = forwarding.exposed_port;
            let ghost before = actions@;
            proof {
                lemma_plan_take(self.port_forwardings@, target, i as int);
            }
            match forwarding.forwarding_to_addr {
                Some(installed) => {
                    match target {
                        Some(address) => {
                            if installed != address {
                                actions.push(
                                    HostAction::RemoveRule { external_port: port.external_port },
                                );
                                actions.push(
                                    HostAction::AddRule {
                                        external_port: port.external_port,
                                        address,
                                        internal_port: port.internal_port,
                                    },
                                );
                            }
                        },
                        None => {
                            actions.push(
                                HostAction::RemoveRule { external_port: port.external_port },
                            );
                        },
                    }
                },
                None => {
                    match target {
                        Some(address) => {
                            actions.push(
                                HostAction::AddRule {
                                    external_port: port.external_port,
                                    address,
                                    internal_port: port.internal_port,
                                },
                            );
                        },
                        None => {},
                    }
                },
            }
            assert(actions@ =~= before + pending(forwarding, target));
            i += 1;
        }
        assert(self.port_forwardings@.take(i as int) =~= self.port_forwardings@);
        actions
    }

    /// Takes in how far the caller got with the plan for `target`: the
    /// first `performed` calls were made, and `failed` tells whether the call
    /// after them failed. Each forwarding is brought up to what the calls
    /// that were made did to it; a failure is latched, and a forwarder that
    /// has failed before is left alone.
    pub fn commit(&mut self, target: Option<Ipv4Address>, performed: usize, failed: bool)
        ensures
            final(self)@ == committed(old(self)@, target, performed as int, failed),
    {
        if self.failed {
            return ;
        }
        let ghost before = self.port_forwardings@;
        let mut remaining: usize = performed;
        let mut i: usize = 0;
        while i < self.port_forwardings.len()
            invariant
                i <= self.port_forwardings@.len() == before.len(),
                !self.failed,
                remaining <= performed,
                remaining as int == if performed - plan(before.take(i as int), target).len() > 0 {
                    performed - plan(before.take(i as int), target).len()
                } else {
                    0
                },
                forall|j: int|
                    0 <= j < i ==> #[trigger] self.port_forwardings@[j] == advanced(
                        before[j],
                        target,
                        performed - plan(before.take(j), target).len(),
                    ),
                forall|j: int|
                    i <= j < before.len() ==> #[trigger] self.port_forwardings@[j] == before[j],
            decreases self.port_forwardings.len() - i,
        {
            let forwarding = self.port_forwardings[i];
            let count = pending_count(forwarding, target);
            proof {
                lemma_plan_take(before, target, i as int);
            }
            if remaining > 0 && count > 0 {
                let reached = if remaining >= count {
                    target
                } else {
                    None
                };
                self.port_forwardings.set(
                    i,
                    PortForwarding {
                        exposed_port: forwarding.exposed_port,
                        forwarding_to_addr: reached,
                    },
                );
            }
            remaining = if remaining >= count {
                remaining - count
            } else {
                0
            };
            i += 1;
        }
        self.failed = failed;
        assert(self.port_forwardings@ =~= progress(before, target, performed as int));
    }

    /// One idle tick: decides, by the clock, whether the lease still runs,
    /// and plans the calls that follow from that. With no lease, or with a
    /// lease that has run out, every installed forwarding is taken down;
    /// with a running lease every forwarding is moved to the leased address.
    pub fn tick(&self, lease: &Option<Lease>) -> (round: Reconciliation)
        ensures
            round.actions@ == plan_of(self@, round.target),
            round.target == target_of(*lease, true) || round.target == target_of(*lease, false),
            round.target is Some ==> (*lease matches Some(l) && 0 < l@.lifetime_secs),
    {
        let lease_valid = match lease {
            Some(lease) => lease.valid(),
            None => false,
        };
        self.tick_at(lease, lease_valid)
    }

    /// One idle tick, given whether the lease still runs.
    pub fn tick_at(&self, lease: &Option<Lease>, lease_valid: bool) -> (round: Reconciliation)
        ensures
            round.target == target_of(*lease, lease_valid),
            round.actions@ == plan_of(self@, round.target),
    {
        let target = match lease {
            Some(lease) => if lease_valid {
                Some(lease.address())
            } else {
                None
            },
            None => None,
        };
        Reconciliation { target, actions: self.plan(target) }
    }
}

} // verus!
