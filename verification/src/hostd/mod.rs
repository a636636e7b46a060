//! The host side: the VM lifecycle, quiescence, snapshots and their transfer.

pub mod api;
pub mod bench;
pub mod campaign;
pub mod compat;
pub mod daemon;
pub mod drain;
pub mod fc;
pub mod firecracker;
pub mod guestlink;
pub mod guestload;
pub mod migrate;
pub mod net;
pub mod process;
pub mod pseudo_firecracker;
pub mod quiesce;
pub mod registry;
pub mod statedir;
pub mod steps;
pub mod sysmem;
pub mod telemetry;
pub mod transfer;
pub mod uffd;
pub mod vm;
