//! The notification model.
//!
//! A raw filesystem notification is reduced, by the surrounding program, to
//! the plain facts the dispatch logic reads: what kind of change was
//! reported, whether the backend asked for a rescan of its bookkeeping, and
//! which paths are concerned.

use vstd::prelude::*;

verus! {

/// The kind of a filesystem notification, as far as dispatch cares.
#[derive(Debug, Clone, Copy, PartialEq, Eq, Structural)]
pub enum EventKind {
    /// A file was created.
    CreateFile,
    /// A directory was created.
    CreateFolder,
    /// Something else was created (a link, or a creation of unknown kind).
    CreateOther,
    /// An existing entry was modified.
    Modify,
    /// Anything else.
    Other,
}

/// One filesystem notification, reduced to plain values.
#[derive(Debug, Clone)]
pub struct FsEvent {
    /// What happened.
    pub kind: EventKind,
    /// Whether the watch backend restarted its internal bookkeeping and asks
    /// for a rescan; such a notice is a no-op for dispatch and for reload.
    pub rescan: bool,
    /// The paths the notification reports.
    pub paths: Vec<String>,
}

} // verus!
