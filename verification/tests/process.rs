use guarderd::process::{is_alive, is_process_exist, status, ProbeOutcome, Signal, StatusReport};
use guarderd::record::ProcessRecord;
use guarderd::shutdown::{shutdown_plan, ShutdownStep, SHUTDOWN_EXIT_STATUS};

fn own_pid() -> i32 {
    nix::unistd::getpid().as_raw()
}

#[test]
fn only_a_missing_process_counts_as_dead() {
    assert!(is_alive(ProbeOutcome::Found));
    assert!(is_alive(ProbeOutcome::Failed));
    assert!(!is_alive(ProbeOutcome::NoSuchProcess));
}

#[test]
fn this_process_exists() {
    assert!(is_process_exist(own_pid()));
}

#[test]
fn a_process_beyond_every_pid_does_not_exist() {
    assert!(!is_process_exist(i32::MAX));
}

#[test]
fn status_reports_the_processes_of_the_record() {
    let report = status(ProcessRecord { daemon_pid: own_pid(), child_pid: i32::MAX });
    assert_eq!(
        report,
        StatusReport { daemon_pid: own_pid(), daemon_running: true, child_pid: i32::MAX, child_running: false }
    );
}

#[test]
fn status_of_a_stale_record_reports_both_as_not_running() {
    let report = status(ProcessRecord { daemon_pid: i32::MAX, child_pid: i32::MAX - 1 });
    assert!(!report.daemon_running);
    assert!(!report.child_running);
    assert_eq!(report.daemon_line(), "Daemon PID: 2147483647, running: false");
    assert_eq!(report.child_line(), "Child PID: 2147483646, running: false");
}

#[test]
fn status_lines_name_pid_and_liveness() {
    let report = StatusReport::new(ProcessRecord { daemon_pid: 12, child_pid: 345 }, true, false);
    assert_eq!(report, StatusReport { daemon_pid: 12, daemon_running: true, child_pid: 345, child_running: false });
    assert_eq!(report.daemon_line(), "Daemon PID: 12, running: true");
    assert_eq!(report.child_line(), "Child PID: 345, running: false");
}

#[test]
fn shutdown_signals_the_child_first() {
    assert_eq!(
        shutdown_plan(Some(55)),
        vec![
            ShutdownStep::SignalChild { pid: 55, signal: Signal::Terminate },
            ShutdownStep::ClearRunningFlag,
            ShutdownStep::Announce,
            ShutdownStep::SyncLog,
            ShutdownStep::Exit { status: 0 },
        ]
    );
}

#[test]
fn shutdown_without_a_child_signals_nobody() {
    assert_eq!(
        shutdown_plan(None),
        vec![
            ShutdownStep::ClearRunningFlag,
            ShutdownStep::Announce,
            ShutdownStep::SyncLog,
            ShutdownStep::Exit { status: SHUTDOWN_EXIT_STATUS },
        ]
    );
    assert_eq!(SHUTDOWN_EXIT_STATUS, 0);
}
