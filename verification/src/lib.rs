//! A verified model of a dynamic-memory front end in the style of the
//! mimalloc allocator interface.
//!
//! The crate models the layer that sits between clients and an allocator
//! engine: it decides, for every `(size, alignment)` request, which engine
//! entry point is the cheapest correct one (natural-alignment fast path
//! versus over-aligned slow path), it manages isolated heaps with bulk
//! lifecycle operations (`delete` migrates live blocks, `destroy` frees
//! them), it keeps a process-wide options registry with set / set-if-unset
//! semantics, and it records the diagnostic callback registrations
//! (output, error, deferred free) together with the events delivered to
//! them.
//!
//! All state lives in an explicitly passed [`MiMalloc`] context value, and
//! every operation carries a contract that pins down its result and its
//! effect on the state.

pub mod align;
pub mod config;
pub mod dispatch;
pub mod diag;
pub mod engine;
pub mod front;
pub mod heaps;
pub mod laws;
pub mod options;
pub mod state;
pub mod visit;

pub use state::MiMalloc;

pub use dispatch::AllocError;

