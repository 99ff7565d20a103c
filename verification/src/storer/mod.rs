//! Implementations of the stores.

pub mod memory;
