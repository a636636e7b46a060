//! How durations cross the wire: as whole milliseconds.

pub mod millis;
