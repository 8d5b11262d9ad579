//! The chat ingestion and filtering core of a multi-channel chat watcher:
//! a typed message model over inbound protocol frames, per-channel bounded
//! message buffers with regex and badge filtering, transcript sink status,
//! a debounced alert, and the decision core of the protocol client that
//! joins, parts, routes, reconnects and reconciles echoed sends. The
//! connection itself, the files and the audio device belong to the caller;
//! everything here is specified and verified.

#![allow(unused_imports)]
use vstd::prelude::*;

pub mod alert;
pub mod channel;
pub mod client;
pub mod filter;
pub mod message;
pub mod pattern;
pub mod persist;
pub mod text;
pub mod transcript;

verus! {

/// Default bound on how many messages a channel retains in each of its
/// two buffers.
pub const MAX_MESSAGE_COUNT: usize = 1000;

} // verus!
