//! A "something changed" signal: a version number that every producer of a
//! change bumps, and that a waiter compares with the version it last saw.
use vstd::prelude::*;

verus! {

#[derive(Debug, Clone, Copy, PartialEq, Eq, Structural)]
pub struct SchedulerSignal {
    pub version: u64,
}

impl SchedulerSignal {
    pub fn new() -> (s: SchedulerSignal)
        ensures
            s.version == 0,
    {
        SchedulerSignal { version: 0 }
    }

    pub fn version(&self) -> (v: u64)
        ensures
            v == self.version,
    {
        self.version
    }

    /// Records one change.
    pub fn notify_change(&mut self)
        requires
            old(self).version < u64::MAX,
        ensures
            final(self).version == old(self).version + 1,
    {
        self.version = self.version + 1;
    }

    /// The current version if it differs from `last_seen`; `None` means no
    /// change yet, and the caller keeps waiting.
    pub fn wait_for_change(&self, last_seen: u64) -> (r: Option<u64>)
        ensures
            r == if self.version == last_seen { None } else { Some(self.version) },
    {
        if self.version == last_seen {
            None
        } else {
            Some(self.version)
        }
    }
}

/// A waiter that has seen version `v` notices every later notification.
pub proof fn lemma_notify_is_seen(s: SchedulerSignal, last_seen: u64)
    requires
        s.version == last_seen,
        s.version < u64::MAX,
    ensures
        (SchedulerSignal { version: (s.version + 1) as u64 }).version != last_seen,
{
}

} // verus!
