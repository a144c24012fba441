//! Core of a desktop disk-reclamation utility: it classifies reclaimable
//! files (caches, trash, logs, large files), folds scan results into
//! summaries, reports batch deletions with per-item failure isolation, and
//! drives coarse start/stop/enable transitions for background services.
//! Every operation's result is rendered into one uniform response envelope.
//!
//! The raw filesystem and service-manager primitives are external
//! collaborators: the surrounding application enumerates files, deletes
//! paths and talks to the OS service manager, and hands this crate plain
//! values (records, sizes, per-item outcomes). Everything this crate does
//! with those values is verified.

pub mod cleaner;
pub mod models;
pub mod response;
pub mod services;
