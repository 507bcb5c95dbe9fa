//! What the termination handler does when the daemon is asked to stop.
//!
//! The handler runs at any moment of the supervision loop. It asks the
//! current child, if there is one, to terminate, clears the running flag,
//! says that the daemon shuts down, makes sure that the log is on disk, and
//! ends the process at once: it does not wait for the loop to notice. The
//! instance lock is left for the system to release.

use vstd::prelude::*;
use crate::process::Signal;

verus! {

/// The status that the daemon exits with after a shutdown request.
pub const SHUTDOWN_EXIT_STATUS: i32 = 0;

/// One step of the shutdown.
#[derive(Clone, Copy, Debug, PartialEq, Eq, Structural)]
pub enum ShutdownStep {
    /// Send `signal` to the child `pid`; a failure is passed over.
    SignalChild { pid: i32, signal: Signal },
    /// Clear the running flag.
    ClearRunningFlag,
    /// Log that the daemon shuts down.
    Announce,
    /// Flush the log and sync it to disk, if it is open.
    SyncLog,
    /// Exit with `status`.
    Exit { status: i32 },
}

/// The steps of the shutdown, in order, where `current_child` is the child
/// that runs, if any.
pub open spec fn shutdown_steps(current_child: Option<i32>) -> Seq<ShutdownStep> {
    let rest = seq![
        ShutdownStep::ClearRunningFlag,
        ShutdownStep::Announce,
        ShutdownStep::SyncLog,
        ShutdownStep::Exit { status: SHUTDOWN_EXIT_STATUS },
    ];
    match current_child {
        Some(pid) => seq![ShutdownStep::SignalChild { pid, signal: Signal::Terminate }] + rest,
        None => rest,
    }
}

/// The steps of the shutdown, in order.
pub fn shutdown_plan(current_child: Option<i32>) -> (plan: Vec<ShutdownStep>)
    ensures
        plan@ == shutdown_steps(current_child),
{
    let mut plan: Vec<ShutdownStep> = Vec::new();
    match current_child {
        Some(pid) => {
            plan.push(ShutdownStep::SignalChild { pid, signal: Signal::Terminate });
        },
        None => {},
    }
    plan.push(ShutdownStep::ClearRunningFlag);
    plan.push(ShutdownStep::Announce);
    plan.push(ShutdownStep::SyncLog);
    plan.push(ShutdownStep::Exit { status: SHUTDOWN_EXIT_STATUS });
    assert(plan@ =~= shutdown_steps(current_child));
    plan
}

/// The shutdown always clears the flag before it ends the process, and it
/// signals the child first and only where there is one.
pub proof fn lemma_shutdown_order(current_child: Option<i32>)
    ensures
        ({
            let steps = shutdown_steps(current_child);
            let n = steps.len() as int;
            &&& steps[n - 4] == ShutdownStep::ClearRunningFlag
            &&& steps[n - 3] == ShutdownStep::Announce
            &&& steps[n - 2] == ShutdownStep::SyncLog
            &&& steps[n - 1] == (ShutdownStep::Exit { status: 0 })
            &&& current_child is None ==> n == 4
            &&& current_child matches Some(pid) ==> n == 5 && steps[0] == (
                ShutdownStep::SignalChild { pid, signal: Signal::Terminate }
            )
        }),
{
}

} // verus!
