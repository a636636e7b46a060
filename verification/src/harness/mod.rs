//! The measurement harness: seeded load, latency records, reports, and the simulation that pits
//! turns against drains.

pub mod chaos;
pub mod loadgen;
pub mod recorder;
pub mod report;
pub mod schedule;
