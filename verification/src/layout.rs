//! Where the supervisor keeps its files: a directory in the working
//! directory, made once and never removed, with the record, the lock and the
//! log in it.

use vstd::prelude::*;

verus! {

/// The name of the status directory, in the working directory.
pub const STATUS_DIR: &'static str = "guarderd.status.d";

/// The name of the record file, in the status directory.
pub const RECORD_FILE: &'static str = "pid";

/// The name of the lock file, in the status directory. What it holds does not
/// matter.
pub const LOCK_FILE: &'static str = "lock";

/// The name of the log file, in the status directory.
pub const LOG_FILE: &'static str = "stdout.log";

} // verus!
