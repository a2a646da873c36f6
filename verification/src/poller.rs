//! Reading the events of the readiness queue.
//!
//! The queue watches three sources, each registered under a key of its own,
//! and a wait ends after a tenth of a second at the latest.

use vstd::prelude::*;

verus! {

/// How long a wait on the queue lasts at most, in milliseconds.
pub const WAIT_TIMEOUT_MS: u64 = 100;

/// The sources that the queue watches.
#[derive(Debug, Clone, Copy, PartialEq, Eq, Structural)]
pub enum EventKey {
    /// The guest's socket is readable.
    VM,
    /// The host interface has packets.
    Host,
    /// The process was asked to stop.
    Interrupt,
}

impl EventKey {
    /// The number under which the source is registered.
    pub open spec fn spec_key(self) -> usize {
        match self {
            EventKey::VM => 0,
            EventKey::Host => 1,
            EventKey::Interrupt => 2,
        }
    }

    /// The number under which the source is registered.
    pub fn key(self) -> (key: usize)
        ensures
            key == self.spec_key(),
    {
        match self {
            EventKey::VM => 0,
            EventKey::Host => 1,
            EventKey::Interrupt => 2,
        }
    }
}

/// Which of the sources had an event when a wait ended.
#[derive(Debug, Clone, Copy, PartialEq, Eq, Structural)]
pub struct Readiness {
    pub vm_readable: bool,
    pub host_readable: bool,
    pub interrupt: bool,
}

/// Whether `key` is among `keys`.
fn reported(keys: &[usize], key: usize) -> (found: bool)
    ensures
        found == keys@.contains(key),
{
    let mut i: usize = 0;
    while i < keys.len()
        invariant
            i <= keys.len(),
            forall|j: int| 0 <= j < i ==> keys@[j] != key,
        decreases keys.len() - i,
    {
        if keys[i] == key {
            return true;
        }
        i += 1;
    }
    false
}

/// Which of the sources had an event, given the keys of the events that a
/// wait returned. A wait that timed out returns none.
pub fn readiness(keys: &[usize]) -> (ready: Readiness)
    ensures
        ready.vm_readable == keys@.contains(EventKey::VM.spec_key()),
        ready.host_readable == keys@.contains(EventKey::Host.spec_key()),
        ready.interrupt == keys@.contains(EventKey::Interrupt.spec_key()),
{
    Readiness {
        vm_readable: reported(keys, EventKey::VM.key()),
        host_readable: reported(keys, EventKey::Host.key()),
        interrupt: reported(keys, EventKey::Interrupt.key()),
    }
}

} // verus!
