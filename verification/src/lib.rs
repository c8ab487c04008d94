//! An ordered grocery-list store.
//!
//! Items carry a dense, zero-based `position` that defines their display
//! order; every operation of the store keeps the set of positions a gapless
//! permutation of `0 .. N-1` for the `N` live items.  A retention sweep
//! removes items that were checked off before a caller-supplied cutoff.

mod clock;
pub mod errors;
pub mod laws;
pub mod models;
pub mod store;
pub mod sweep;
