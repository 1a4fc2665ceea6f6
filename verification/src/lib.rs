//! A verified model of recursive tree copy and move between directories.
//!
//! The filesystem is modelled as a tree of nodes (`model::Node`): regular
//! files carry their bytes, a volume id and a readability flag, directories
//! carry their child entries in iteration order, and every other kind of
//! entry (symlink, socket, device) is a single opaque `Other` node.  The
//! operations `rust_copy` and `rust_move` transform such trees exactly as the
//! corresponding filesystem operations would: copy duplicates a tree into a
//! destination directory, move prefers an atomic whole-tree rename and falls
//! back to a per-entry strategy when source and destination volumes differ.
//!
//! The same decisions drive the real filesystem through `engine`: verified
//! step functions that hand a driver one action at a time — probe, create,
//! list, copy, rename, remove — and take the outcome back as an event, so
//! that an unverified caller performs the blocking calls and nothing else.

pub mod boundary;
pub mod engine;
pub mod laws;
pub mod model;
pub mod ops;
