//! Process orchestration and filesystem change detection for a desktop tool
//! that drives interactive command-line agents against a working folder.
//!
//! The crate holds the decision logic of that subsystem: the registry of
//! managed processes with cooperative cancellation, the per-read step of the
//! output streaming loop, the provider descriptors, and the classifier that
//! turns raw filesystem notifications into semantic change events.  All I/O
//! (pseudo-terminals, native watchers, event delivery) stays with the caller,
//! which hands plain values in and carries the decisions out.

pub mod paths;
pub mod provider;
pub mod status;
pub mod supervisor;
pub mod stream;
pub mod text;
pub mod scan;
pub mod order;
pub mod fileset;
pub mod search;
pub mod links;
pub mod iterations;
pub mod classify;
pub mod events;
pub mod watch;

