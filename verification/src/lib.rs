//! Verified core of a tool that mirrors the `common/` directory of an
//! infrastructure repository into a target repository.
//!
//! The crate decides; it never touches the disk or spawns a process. A driver
//! performs each [`syncer::SyncRequest`] and hands back a [`syncer::SyncReply`].

pub mod text;
pub mod files;
pub mod git;
pub mod syncer;
pub mod model;
pub mod laws;
pub mod tasks;
