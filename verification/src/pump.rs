//! The decisions of the packet pump.
//!
//! The pump itself, which waits, reads and writes, is the caller's. What it
//! does after a wait and after each read is decided here.

use crate::error::Error;
use crate::poller::Readiness;
use vstd::prelude::*;

verus! {

/// What the pump does after a wait, in this order: drain the guest's
/// socket, drain the host interface, then either stop, or reconcile the port
/// forwardings where the wait timed out, and arm the queue again.
#[derive(Debug, Clone, Copy, PartialEq, Eq, Structural)]
pub struct Round {
    /// Read from the guest until nothing is left.
    pub drain_vm: bool,
    /// Read from the host interface until nothing is left.
    pub drain_host: bool,
    /// Return: the process was asked to stop.
    pub stop: bool,
    /// Reconcile the port forwardings with the lease.
    pub tick: bool,
    /// Arm the queue for the next wait.
    pub rearm: bool,
}

/// What the pump does after a wait that ended with `ready`.
pub fn plan_round(ready: Readiness) -> (round: Round)
    ensures
        round == (Round {
            drain_vm: ready.vm_readable,
            drain_host: ready.host_readable,
            stop: ready.interrupt,
            tick: !ready.vm_readable && !ready.host_readable && !ready.interrupt,
            rearm: !ready.interrupt,
        }),
{
    Round {
        drain_vm: ready.vm_readable,
        drain_host: ready.host_readable,
        stop: ready.interrupt,
        tick: !ready.vm_readable && !ready.host_readable && !ready.interrupt,
        rearm: !ready.interrupt,
    }
}

/// One of the two sides that the pump reads from and writes to.
#[derive(Debug, Clone, Copy, PartialEq, Eq, Structural)]
pub enum Side {
    /// The guest's socket.
    Vm,
    /// The host interface.
    Host,
}

/// How a read ended.
#[derive(Debug, Clone, Copy, PartialEq, Eq, Structural)]
pub enum ReadOutcome {
    /// A frame was read.
    Frame,
    /// Nothing is left to read: the guest's socket would block, or the
    /// host interface read nothing.
    Empty,
    /// The read failed in any other way.
    Failed,
}

/// What the pump does after a read.
#[derive(Debug, Clone, Copy, PartialEq, Eq, Structural)]
pub enum DrainStep {
    /// Filter the frame and read on.
    Process,
    /// This side is drained.
    Done,
    /// End the pump with an error.
    Abort(Error),
}

/// The error that a failure on `side` ends the pump with.
pub open spec fn io_error(side: Side) -> Error {
    match side {
        Side::Vm => Error::VMIOFailed,
        Side::Host => Error::HostIOFailed,
    }
}

/// What the pump does after a read from `side` ended with `outcome`.
/// Finding nothing to read is how draining ends and no error.
pub fn after_read(side: Side, outcome: ReadOutcome) -> (step: DrainStep)
    ensures
        step == match outcome {
            ReadOutcome::Frame => DrainStep::Process,
            ReadOutcome::Empty => DrainStep::Done,
            ReadOutcome::Failed => DrainStep::Abort(io_error(side)),
        },
{
    match outcome {
        ReadOutcome::Frame => DrainStep::Process,
        ReadOutcome::Empty => DrainStep::Done,
        ReadOutcome::Failed => DrainStep::Abort(failure_on(side)),
    }
}

/// The error that a failed read from or write to `side` ends the pump
/// with.
pub fn failure_on(side: Side) -> (error: Error)
    ensures
        error == io_error(side),
{
    match side {
        Side::Vm => Error::VMIOFailed,
        Side::Host => Error::HostIOFailed,
    }
}

} // verus!
