//! The front door: what it is told and how it is configured.

pub mod command;
pub mod config;
