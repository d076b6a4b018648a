//! A string interning table with verified lookup/insert behaviour.
//!
//! An [`Interner`] maps text values to dense integer indices, assigned in
//! first-seen order, and recovers the text behind any index it issued. A
//! [`Symbol`] is a cheap, copyable handle wrapping one such index; equality
//! and ordering on handles go by the index alone, so handle order is
//! interning order, not lexicographic text order. A [`SharedInterner`]
//! wraps an interner in a reader-writer lock so that many threads can
//! intern and look up text concurrently.

pub mod interner;
pub mod laws;
pub mod shared;

pub use interner::Interner;
pub use interner::Symbol;
pub use shared::SharedInterner;
