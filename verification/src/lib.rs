//! A minimal process supervisor: it runs one command in the background,
//! starts it again whenever it exits, keeps its output in a log of bounded
//! size, and is stopped and looked at from other processes through a small
//! record on disk.
//!
//! This library holds what the supervisor decides and what it reads and
//! writes, with a proof for each rule. It forks, waits, sleeps and touches
//! files nowhere: whoever drives it does that, and reports back. The one
//! thing that it asks the system itself is whether a process exists.
//!
//! - [`launch`]: taking the instance lock and detaching from the terminal.
//! - [`supervisor`]: the loop that spawns, waits and restarts.
//! - [`log_sink`]: appending the captured output and rotating the log.
//! - [`shutdown`]: what happens when the daemon is asked to terminate.
//! - [`record`]: the record of the daemon and its child, as text.
//! - [`stop`]: stopping a daemon by its record.
//! - [`process`]: whether a process exists, and the status report.
//! - [`journal`]: the lines that the daemon writes about itself.
//! - [`layout`]: the names of the supervisor's files.
//! - [`decimal`] and [`text`]: numbers and characters, for the above.

pub mod decimal;
pub mod journal;
pub mod launch;
pub mod layout;
pub mod log_sink;
pub mod process;
pub mod record;
pub mod shutdown;
pub mod stop;
pub mod supervisor;
pub mod text;
