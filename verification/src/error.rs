//! The ways in which a proxy can fail.

use vstd::prelude::*;

verus! {

/// What went wrong. Frames that do not decode, reads that find nothing and
/// writes that run out of buffer space are no errors; what is listed here ends
/// the proxy.
#[derive(Debug, Clone, Copy, PartialEq, Eq, Structural)]
pub enum Error {
    /// Setting up descriptors, sockets or the event queue failed.
    InitFailed,
    /// An operation on the event queue failed.
    PollFailed,
    /// The host interface could not be set up.
    VmnetFailed,
    /// The host interface did not report its start address or its packet
    /// size.
    VmnetUnexpected,
    /// Reading from or writing to the guest's socket failed.
    VMIOFailed,
    /// Reading from or writing to the host interface failed.
    HostIOFailed,
}

impl Error {
    /// A short description of the failure.
    pub open spec fn spec_message(self) -> Seq<char> {
        match self {
            Error::InitFailed => "initialization failed"@,
            Error::PollFailed => "failed to poll"@,
            Error::VmnetFailed => "vmnet failed"@,
            Error::VmnetUnexpected => "vmnet returned unexpected data"@,
            Error::VMIOFailed => "failed to do I/O on VM socket"@,
            Error::HostIOFailed => "failed to do I/O on host socket"@,
        }
    }

    /// A short description of the failure.
    pub fn message(&self) -> (text: &'static str)
        ensures
            text@ == self.spec_message(),
    {
        match self {
            Error::InitFailed => "initialization failed",
            Error::PollFailed => "failed to poll",
            Error::VmnetFailed => "vmnet failed",
            Error::VmnetUnexpected => "vmnet returned unexpected data",
            Error::VMIOFailed => "failed to do I/O on VM socket",
            Error::HostIOFailed => "failed to do I/O on host socket",
        }
    }
}

} // verus!
