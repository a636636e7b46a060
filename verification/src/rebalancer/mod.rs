//! The control plane: which VM moves where, and the carrying out of a move.

pub mod config;
pub mod control;
pub mod dial;
pub mod driver;
pub mod executor;
pub mod placement;
pub mod pseudo_executor;
