//! An offline-first client library for a wallabag bookmarking server.
//!
//! The library keeps a local, queryable copy of saved articles ("entries"),
//! their annotations and tags, together with queues of changes made while
//! offline.  A synchronization engine reconciles the local copy against the
//! remote authoritative store with last-write-wins conflict resolution, and
//! tracks pending creations and deletions until the remote side has confirmed
//! them.
//!
//! All network and disk traffic stays outside this crate: the sync engine is
//! a state machine that hands out the next remote request and consumes the
//! response, so a thin driver around it performs the actual calls.

pub mod annotations;
pub mod backend;
pub mod endpoint;
pub mod entry;
pub mod errors;
pub mod resolver;
pub mod store;
pub mod strutil;
pub mod sync;
pub mod table;
pub mod types;
