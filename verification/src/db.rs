//! Records, the ordered store that keeps them, and the operations on both.

pub mod config;
pub mod keys;
pub mod laws;
pub mod models;
pub mod ops;
pub mod store;
