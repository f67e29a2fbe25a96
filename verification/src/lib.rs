//! A bridge from `tracing` spans to `puffin` profiler scopes.
//!
//! Entering a span begins a scope in the calling thread's profiler stream and
//! exiting it ends that scope again; a per-thread stack pairs the two. The
//! contracts of this crate state which profiler calls each span notification
//! makes, and Verus proves the code against them.

pub use puffin;

pub mod fields;
pub mod laws;
pub mod layer;
pub mod plugin;
pub mod scopes;
pub mod stack;
pub mod text;

pub use layer::PuffinLayer;
pub use plugin::PuffinTracePlugin;
pub use scopes::new_frame_system;
