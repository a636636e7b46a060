//! The guest side: the supervisor inside the VM, its channel to the host, and the clock fix-up
//! after a restore.

pub mod channel;
pub mod clock;
pub mod framing;
pub mod guest;
pub mod pseudo_channel;
pub mod tracker;
pub mod wrap;
