//! An asset-loading coordinator.
//!
//! Consumers ask for an asset by its logical name and get a handle at once.
//! Handles are reference tokens: making, cloning and dropping one writes an
//! operation to a queue, from any thread, and the coordinator applies the
//! queue to the reference counts once per cycle. In the same cycle every
//! load moves on by one step: a request is handed to a worker, bytes that
//! arrived are decoded into a staged version and committed, and an asset
//! that nobody refers to any more is released.
//!
//! - `ids`, `indirect`: identifiers, and the logical names that resolve to
//!   them.
//! - `channel`, `handle`: the queue of reference-count operations and the
//!   handles that write to it.
//! - `slot`, `engine`: the state machine of one load, and the table of all
//!   of them.
//! - `registry`, `storage`: the way from an asset type's tag to its typed
//!   storage, and a storage with staged and visible versions.
//! - `server`: the coordinator itself.
//! - `settings`, `error`: where assets come from, and what can go wrong.

pub mod channel;
pub mod engine;
pub mod error;
pub mod handle;
pub mod ids;
pub mod indirect;
pub mod registry;
pub mod server;
pub mod settings;
pub mod slot;
pub mod storage;
