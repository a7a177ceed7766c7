//! A dense, growable container that hands out generation-checked handles.
//!
//! Values live in one contiguous vector of slots. Removing a value leaves a
//! hole that the next insertion fills, lowest index first, so the storage
//! never grows past the peak number of live values. Every handle carries the
//! generation of the slot it was issued for; a handle whose slot has since
//! been freed no longer matches and is recognised as stale.

pub mod holes;
pub mod item;
pub mod laws;
pub mod model;
pub mod packed;
pub mod slot;

pub use item::Item;
pub use packed::PackedData;
pub use slot::Slot;
