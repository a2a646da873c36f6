use softnet::poller::{readiness, EventKey, Readiness, WAIT_TIMEOUT_MS};
use softnet::pump::{after_read, failure_on, plan_round, DrainStep, ReadOutcome, Round, Side};
use softnet::{Error, NetType};

#[test]
fn event_keys() {
    assert_eq!(EventKey::VM.key(), 0);
    assert_eq!(EventKey::Host.key(), 1);
    assert_eq!(EventKey::Interrupt.key(), 2);
    assert_eq!(WAIT_TIMEOUT_MS, 100);
}

#[test]
fn readiness_from_event_keys() {
    let none = Readiness { vm_readable: false, host_readable: false, interrupt: false };
    assert_eq!(readiness(&[]), none);
    assert_eq!(readiness(&[0]), Readiness { vm_readable: true, ..none });
    assert_eq!(readiness(&[1]), Readiness { host_readable: true, ..none });
    assert_eq!(readiness(&[2]), Readiness { interrupt: true, ..none });
    assert_eq!(readiness(&[3, 17]), none);
    assert_eq!(
        readiness(&[2, 0, 0, 1]),
        Readiness { vm_readable: true, host_readable: true, interrupt: true }
    );
    assert_eq!(
        readiness(&[1, 5, 2]),
        Readiness { vm_readable: false, host_readable: true, interrupt: true }
    );
}

#[test]
fn timeout_ticks() {
    let round = plan_round(readiness(&[]));
    assert_eq!(
        round,
        Round { drain_vm: false, drain_host: false, stop: false, tick: true, rearm: true }
    );
}

#[test]
fn readable_sides_are_drained_without_a_tick() {
    assert_eq!(
        plan_round(readiness(&[0])),
        Round { drain_vm: true, drain_host: false, stop: false, tick: false, rearm: true }
    );
    assert_eq!(
        plan_round(readiness(&[1])),
        Round { drain_vm: false, drain_host: true, stop: false, tick: false, rearm: true }
    );
    assert_eq!(
        plan_round(readiness(&[0, 1])),
        Round { drain_vm: true, drain_host: true, stop: false, tick: false, rearm: true }
    );
}

#[test]
fn interrupt_stops_after_draining() {
    assert_eq!(
        plan_round(readiness(&[2])),
        Round { drain_vm: false, drain_host: false, stop: true, tick: false, rearm: false }
    );
    assert_eq!(
        plan_round(readiness(&[0, 1, 2])),
        Round { drain_vm: true, drain_host: true, stop: true, tick: false, rearm: false }
    );
}

#[test]
fn draining_ends_where_nothing_is_left() {
    for side in [Side::Vm, Side::Host] {
        assert_eq!(after_read(side, ReadOutcome::Frame), DrainStep::Process);
        assert_eq!(after_read(side, ReadOutcome::Empty), DrainStep::Done);
    }
    assert_eq!(
        after_read(Side::Vm, ReadOutcome::Failed),
        DrainStep::Abort(Error::VMIOFailed)
    );
    assert_eq!(
        after_read(Side::Host, ReadOutcome::Failed),
        DrainStep::Abort(Error::HostIOFailed)
    );
    assert_eq!(failure_on(Side::Vm), Error::VMIOFailed);
    assert_eq!(failure_on(Side::Host), Error::HostIOFailed);
}

#[test]
fn error_messages() {
    assert_eq!(Error::InitFailed.message(), "initialization failed");
    assert_eq!(Error::PollFailed.message(), "failed to poll");
    assert_eq!(Error::VmnetFailed.message(), "vmnet failed");
    assert_eq!(Error::VmnetUnexpected.message(), "vmnet returned unexpected data");
    assert_eq!(Error::VMIOFailed.message(), "failed to do I/O on VM socket");
    assert_eq!(Error::HostIOFailed.message(), "failed to do I/O on host socket");
}

#[test]
fn net_types() {
    assert_ne!(NetType::Nat, NetType::Host);
    assert_eq!(NetType::Nat.clone(), NetType::Nat);
}
