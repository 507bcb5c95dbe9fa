//! Other processes: whether one exists, and the signals that are sent to one.

use vstd::prelude::*;
use vstd::string::*;
use crate::decimal::{decimal, push_decimal};
use crate::record::ProcessRecord;

verus! {

/// The two signals that the supervisor and its commands send.
#[derive(Clone, Copy, Debug, PartialEq, Eq, Structural)]
pub enum Signal {
    /// The request to terminate, which the target may handle.
    Terminate,
    /// The kill that the target cannot handle.
    Kill,
}

/// How asking the system about a process ended.
#[derive(Clone, Copy, Debug, PartialEq, Eq, Structural)]
pub enum ProbeOutcome {
    /// The system knows the process and would let us signal it.
    Found,
    /// The system knows no such process.
    NoSuchProcess,
    /// The question failed in any other way, such as for want of permission.
    Failed,
}

/// Whether a process counts as existing after a probe that ended in
/// `outcome`: it does unless the system said that there is no such process.
/// A probe that failed otherwise proves nothing, and the process is taken to
/// be there.
pub open spec fn counts_as_alive(outcome: ProbeOutcome) -> bool {
    outcome != ProbeOutcome::NoSuchProcess
}

/// Whether a process counts as existing after a probe that ended in
/// `outcome`.
pub fn is_alive(outcome: ProbeOutcome) -> (alive: bool)
    ensures
        alive == counts_as_alive(outcome),
{
    match outcome {
        ProbeOutcome::NoSuchProcess => false,
        _ => true,
    }
}

/// Asks the system about the process `pid` with `nix::sys::signal::kill` and
/// no signal, which checks for an error and sends nothing. Tells apart
/// success, the error `ESRCH` and every other error. Nothing is claimed about
/// which of them comes back: that depends on the processes of the machine at
/// the time of the call.
#[verifier::external_body]
fn probe(pid: i32) -> (outcome: ProbeOutcome) {
    match nix::sys::signal::kill(nix::unistd::Pid::from_raw(pid), None) {
        Ok(()) => ProbeOutcome::Found,
        Err(nix::errno::Errno::ESRCH) => ProbeOutcome::NoSuchProcess,
        Err(_) => ProbeOutcome::Failed,
    }
}

/// Whether the process `pid` exists, as far as the system tells at the time
/// of the call. No signal is sent. See [`counts_as_alive`] for how the
/// system's answer is read.
pub fn is_process_exist(pid: i32) -> (alive: bool) {
    is_alive(probe(pid))
}

/// The processes of a record and whether each of them runs.
#[derive(Clone, Copy, Debug, PartialEq, Eq, Structural)]
pub struct StatusReport {
    pub daemon_pid: i32,
    pub daemon_running: bool,
    pub child_pid: i32,
    pub child_running: bool,
}

/// The text of a truth value.
pub open spec fn bool_text(b: bool) -> Seq<char> {
    if b {
        "true"@
    } else {
        "false"@
    }
}

impl StatusReport {
    /// The report names the processes of `record`.
    pub open spec fn is_about(self, record: ProcessRecord) -> bool {
        self.daemon_pid == record.daemon_pid && self.child_pid == record.child_pid
    }

    /// The line that reports the daemon.
    pub open spec fn daemon_text(self) -> Seq<char> {
        "Daemon PID: "@ + decimal(self.daemon_pid as int) + ", running: "@ + bool_text(
            self.daemon_running,
        )
    }

    /// The line that reports the child.
    pub open spec fn child_text(self) -> Seq<char> {
        "Child PID: "@ + decimal(self.child_pid as int) + ", running: "@ + bool_text(
            self.child_running,
        )
    }

    /// The report for `record`, given whether its processes run.
    pub fn new(record: ProcessRecord, daemon_running: bool, child_running: bool) -> (report:
        StatusReport)
        ensures
            report == (StatusReport {
                daemon_pid: record.daemon_pid,
                daemon_running,
                child_pid: record.child_pid,
                child_running,
            }),
    {
        StatusReport {
            daemon_pid: record.daemon_pid,
            daemon_running,
            child_pid: record.child_pid,
            child_running,
        }
    }

    /// The line that reports the daemon.
    pub fn daemon_line(&self) -> (line: String)
        ensures
            line@ == self.daemon_text(),
    {
        let mut line = String::new();
        line.append("Daemon PID: ");
        push_decimal(&mut line, self.daemon_pid);
        line.append(", running: ");
        line.append(bool_str(self.daemon_running));
        assert(line@ =~= self.daemon_text());
        line
    }

    /// The line that reports the child.
    pub fn child_line(&self) -> (line: String)
        ensures
            line@ == self.child_text(),
    {
        let mut line = String::new();
        line.append("Child PID: ");
        push_decimal(&mut line, self.child_pid);
        line.append(", running: ");
        line.append(bool_str(self.child_running));
        assert(line@ =~= self.child_text());
        line
    }
}

fn bool_str(b: bool) -> (text: &'static str)
    ensures
        text@ == bool_text(b),
{
    if b {
        "true"
    } else {
        "false"
    }
}

/// Probes the processes of `record`, the child first, and reports on both.
/// The report names the identifiers of the record; whether they run is what
/// the system said at the time.
pub fn status(record: ProcessRecord) -> (report: StatusReport)
    ensures
        report.is_about(record),
{
    let child_running = is_process_exist(record.child_pid);
    let daemon_running = is_process_exist(record.daemon_pid);
    StatusReport::new(record, daemon_running, child_running)
}

} // verus!
