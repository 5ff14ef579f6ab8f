//! A sandboxed plugin runtime for an interactive 3D application.
//!
//! Untrusted WebAssembly modules are loaded from a directory and isolated in
//! their own linear-memory sandboxes; every interaction with the host crosses
//! the boundary as a serialized message. This crate holds the runtime's
//! decision logic: the command/event wire codec, the guest path sanitizer,
//! the entity handle table, the per-frame dispatch plan, and the host-side
//! game layer built on the custom channel. The host shell (wasm engine,
//! filesystem, worker threads, scene graph) performs the effects that these
//! decisions call for.

pub mod assets;
pub mod engine_codec;
pub mod field;
pub mod game;
pub mod game_codec;
pub mod handles;
pub mod path;
pub mod runtime;
pub mod wire;

use vstd::prelude::*;

verus! {

/// Interval, in frames, between two sweeps of the entity handle table for
/// entries whose host entity has disappeared.
pub const CLEANUP_INTERVAL_FRAMES: u64 = 60;

} // verus!
