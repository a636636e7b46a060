//! The names of the host's metrics.

use vstd::prelude::*;

verus! {

/// Migrations that succeeded.
pub const MIGRATIONS_TOTAL: &'static str = "sleepwalk_migrations_total";

/// Attempts at a migration that failed.
pub const MIGRATION_FAILURES_TOTAL: &'static str = "sleepwalk_migration_failures_total";

/// How long the source's guest stood still, in seconds.
pub const FREEZE_WINDOW_SECONDS: &'static str = "sleepwalk_freeze_window_seconds";

/// How many bytes of snapshots were moved.
pub const SNAPSHOT_BYTES_TOTAL: &'static str = "sleepwalk_snapshot_bytes_total";

} // verus!
