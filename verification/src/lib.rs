//! Relocation of filesystem entries into a recoverable trash area.
//!
//! Operating-system paths are untyped byte sequences, while the native
//! deletion services take text. The core of this crate is the translation
//! between the two: a reversible byte-path codec, a builder for safely
//! quoted automation-script literals, a dispatcher over the available
//! deletion strategies, and a reconciler that turns what a strategy
//! reports back into per-item metadata records.

pub mod codec;
pub mod context;
pub mod direct;
pub mod error;
pub mod item;
pub mod script;
pub mod service;
