//! Signals raised on state changes, and the log that captures them.
//!
//! The registries never talk to a transport. Each operation appends the
//! signals it raises to a `SignalLog` handed in by the caller, who forwards
//! them to subscribers afterwards.

use vstd::prelude::*;
use crate::identity::Identity;

verus! {

/// A notification for external subscribers, carrying the state after the
/// change.
#[derive(Clone, Copy, Debug, PartialEq, Eq)]
pub enum Signal {
    /// The verified flag of `authority` was written and now reads
    /// `is_verified`.
    VerifiedAuthorityChanged { authority: Identity, is_verified: bool },
    /// A schema was created under `uid` by `deployer`.
    SchemaRegistered { uid: Identity, deployer: Identity },
}

/// Captured signals, oldest first.
#[derive(Debug)]
pub struct SignalLog {
    pub entries: Vec<Signal>,
}

impl View for SignalLog {
    type V = Seq<Signal>;

    open spec fn view(&self) -> Seq<Signal> {
        self.entries@
    }
}

impl SignalLog {
    /// A log with nothing captured.
    pub fn new() -> (log: SignalLog)
        ensures
            log@ == Seq::<Signal>::empty(),
    {
        SignalLog { entries: Vec::new() }
    }

    /// Appends one signal; nothing already captured is touched.
    pub fn emit(&mut self, signal: Signal)
        ensures
            final(self)@ == old(self)@.push(signal),
    {
        self.entries.push(signal);
    }

    /// Number of captured signals.
    pub fn len(&self) -> (n: usize)
        ensures
            n == self@.len(),
    {
        self.entries.len()
    }

    /// The signal at `index`, counted from the oldest, if there is one.
    pub fn get(&self, index: usize) -> (signal: Option<Signal>)
        ensures
            signal == if index < self@.len() {
                Some(self@[index as int])
            } else {
                None
            },
    {
        if index < self.entries.len() {
            Some(self.entries[index])
        } else {
            None
        }
    }

    /// Hands out everything captured so far, oldest first, and leaves the
    /// log empty.
    pub fn drain(&mut self) -> (taken: Vec<Signal>)
        ensures
            taken@ == old(self)@,
            final(self)@ == Seq::<Signal>::empty(),
    {
        let mut taken: Vec<Signal> = Vec::new();
        std::mem::swap(&mut self.entries, &mut taken);
        taken
    }
}

} // verus!
