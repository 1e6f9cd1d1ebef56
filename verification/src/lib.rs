//! A file-organizing engine: entries discovered under watched directories are
//! routed into configured destination buckets according to filename and
//! extension rules, with a move, copy, or delete action applied under a
//! configurable collision policy.
//!
//! The crate holds the decision pipeline (matching, selection, collision
//! handling), the one-shot directory walk, and the watch-supervision state
//! machine. Reading raw notifications from the operating system, parsing the
//! configuration document, and the command line are left to the surrounding
//! program, which hands this library plain values.

pub mod bucket;
pub mod config;
pub mod errors;
pub mod events;
pub mod filters;
pub mod fsops;
pub mod paths;
pub mod supervisor;
pub mod watch_path;

pub use errors::JError;
