//! Watch supervision.
//!
//! The supervisor owns the active snapshot and the liveness of its watch
//! slots. The surrounding program creates one event source per watch spec,
//! plus one for the configuration document, multiplexes them with a bounded
//! wait, and asks this state machine what to do with each outcome: whether a
//! config-file notification triggers a reload, whether a reload outcome
//! replaces the snapshot, and whether a ready slot is dispatched or drained.

use vstd::prelude::*;

use crate::config::Config;
use crate::events::{EventKind, FsEvent};

verus! {

/// What is done with a message reported ready on a watch slot.
#[derive(Debug, Clone, Copy, PartialEq, Eq, Structural)]
pub enum SlotDisposition {
    /// The slot was already dead: take the message out and discard it.
    Drain,
    /// The sender side is gone: the slot is now marked dead, nothing is
    /// dispatched.
    MarkedDead,
    /// Dispatch the message.
    Dispatch,
}

/// The supervisor's state: the active snapshot and one liveness flag per
/// watch slot. The flags stand for the event sources the surrounding program
/// created for the active snapshot's watch specs; a dead slot stays in the
/// multiplexed set, drained, until the next successful reload rebuilds the
/// whole set.
pub struct Supervisor {
    /// The active configuration snapshot.
    pub config: Config,
    /// Which slots are dead: their sender side is gone.
    pub dead: Vec<bool>,
}

impl Supervisor {
    /// One liveness flag per watch spec of the active snapshot.
    pub open spec fn wf(&self) -> bool {
        self.dead@.len() == self.config.watch@.len()
    }

    /// Adopt `config` as the active snapshot, with every slot alive.
    pub fn new(config: Config) -> (s: Supervisor)
        ensures
            s.wf(),
            s.config == config,
            forall|i: int| 0 <= i < s.dead@.len() ==> !s.dead@[i],
    {
        let n = config.watch.len();
        let mut dead: Vec<bool> = Vec::new();
        let mut i: usize = 0;
        while i < n
            invariant
                i <= n,
                dead@.len() == i,
                forall|k: int| 0 <= k < i ==> !dead@[k],
            decreases n - i,
        {
            dead.push(false);
            i = i + 1;
        }
        Supervisor { config, dead }
    }

    /// A configuration-document notification triggers a reload exactly when
    /// it reports a modification and carries no rescan notice.
    pub fn should_reload(ev: &FsEvent) -> (r: bool)
        ensures
            r == (ev.kind is Modify && !ev.rescan),
    {
        !ev.rescan && matches!(ev.kind, EventKind::Modify)
    }

    /// Adopt the outcome of a reload attempt.
    ///
    /// A failed attempt — no candidate snapshot, because the document did not
    /// parse or a new watch source could not be set up — changes nothing: the
    /// previous snapshot and all its slots stay in effect, so dispatch keeps
    /// working with the old buckets (reload isolation). A successful attempt
    /// replaces the snapshot wholesale and rebuilds the slots, all alive;
    /// partial replacement never happens.
    pub fn apply_reload(&mut self, candidate: Option<Config>) -> (accepted: bool)
        ensures
            accepted == candidate is Some,
            candidate is None ==> *final(self) == *old(self),
            candidate matches Some(c) ==> final(self).config == c && final(self).wf() && (forall|i: int| 0 <= i < final(self).dead@.len() ==> !final(self).dead@[i]),
    {
        match candidate {
            Some(c) => {
                let fresh = Supervisor::new(c);
                *self = fresh;
                true
            },
            None => false,
        }
    }

    /// Classify a message reported ready on slot `idx`: a message on a dead
    /// slot is drained without dispatch; a disconnect marks the slot dead; any
    /// other message is dispatched. The snapshot never changes here, and only
    /// the one flag changes, only on a disconnect.
    pub fn on_slot_ready(&mut self, idx: usize, disconnected: bool) -> (d: SlotDisposition)
        requires
            idx < old(self).dead@.len(),
        ensures
            final(self).config == old(self).config,
            final(self).dead@.len() == old(self).dead@.len(),
            old(self).dead@[idx as int] ==> d is Drain && *final(self) == *old(self),
            !old(self).dead@[idx as int] && disconnected ==> d is MarkedDead && final(self).dead@ == old(self).dead@.update(idx as int, true),
            !old(self).dead@[idx as int] && !disconnected ==> d is Dispatch && *final(self) == *old(self),
    {
        if self.dead[idx] {
            SlotDisposition::Drain
        } else if disconnected {
            self.dead.set(idx, true);
            SlotDisposition::MarkedDead
        } else {
            SlotDisposition::Dispatch
        }
    }
}

} // verus!
