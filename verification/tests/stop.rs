use guarderd::process::Signal;
use guarderd::record::ProcessRecord;
use guarderd::stop::{
    StopAction, StopEvent, StopNote, StopOrder, StopPhase, StopSequence, CHILD_BUDGET_SECS, CHILD_POLL_MILLIS,
    DAEMON_GRACE_MILLIS,
};

const RECORD: ProcessRecord = ProcessRecord { daemon_pid: 10, child_pid: 20 };
const ALIVE: StopEvent = StopEvent::Probed { alive: true };
const GONE: StopEvent = StopEvent::Probed { alive: false };

fn quietly(action: StopAction) -> Option<StopOrder> {
    Some(StopOrder { note: None, action })
}

fn saying(note: StopNote, action: StopAction) -> Option<StopOrder> {
    Some(StopOrder { note: Some(note), action })
}

fn waiting_for_child() -> StopSequence {
    let mut s = StopSequence::new(RECORD);
    s.step(ALIVE);
    s.step(StopEvent::Done);
    s.step(StopEvent::Done);
    assert_eq!(
        s.step(GONE),
        saying(StopNote::WaitingForChild { daemon_pid: 10, child_pid: 20 }, StopAction::StartClock)
    );
    s
}

#[test]
fn stop_constants() {
    assert_eq!(DAEMON_GRACE_MILLIS, 1000);
    assert_eq!(CHILD_POLL_MILLIS, 100);
    assert_eq!(CHILD_BUDGET_SECS, 5);
}

#[test]
fn stop_without_a_daemon_sends_nothing() {
    let mut s = StopSequence::new(RECORD);
    assert_eq!(s, StopSequence { record: RECORD, phase: StopPhase::CheckingDaemon });
    assert_eq!(s.step(GONE), saying(StopNote::DaemonNotRunning { pid: 10 }, StopAction::Probe { pid: 20 }));
    assert_eq!(s.phase, StopPhase::CheckingChild);
    assert_eq!(s.step(GONE), saying(StopNote::ChildNotRunning { pid: 20 }, StopAction::Finish));
    assert_eq!(s.phase, StopPhase::Finished);
    for event in [ALIVE, GONE, StopEvent::Done, StopEvent::Elapsed { secs: 9 }] {
        assert_eq!(s.step(event), None);
        assert_eq!(s.phase, StopPhase::Finished);
    }
}

#[test]
fn stop_of_a_stale_record_reports_both_as_not_running() {
    let mut s = StopSequence::new(RECORD);
    let mut said: Vec<String> = Vec::new();
    let mut event = GONE;
    loop {
        let order = s.step(event).expect("the probe was waited for");
        if let Some(note) = order.note {
            said.push(note.message());
        }
        match order.action {
            StopAction::Probe { .. } => event = GONE,
            StopAction::Finish => break,
            other => panic!("nothing but probes is asked for: {:?}", other),
        }
    }
    assert_eq!(said, vec!["Daemon 10 is not running", "Child process 20 is not running"]);
}

#[test]
fn stop_without_a_daemon_leaves_a_live_child_alone() {
    let mut s = StopSequence::new(RECORD);
    assert_eq!(s.step(GONE), saying(StopNote::DaemonNotRunning { pid: 10 }, StopAction::Probe { pid: 20 }));
    assert_eq!(s.step(StopEvent::Done), None);
    assert_eq!(s.step(StopEvent::Elapsed { secs: 0 }), None);
    assert_eq!(s.phase, StopPhase::CheckingChild);
    assert_eq!(s.step(ALIVE), saying(StopNote::ChildRunning { pid: 20 }, StopAction::Finish));
    assert_eq!(s.phase, StopPhase::Finished);
    assert_eq!(s.step(ALIVE), None);
}

#[test]
fn stop_twice_without_a_daemon_gives_the_same() {
    let mut first = StopSequence::new(RECORD);
    let mut second = StopSequence::new(first.record);
    assert_eq!(first.step(GONE), second.step(GONE));
    assert_eq!(first.step(GONE), second.step(GONE));
    assert_eq!(first, second);
    let mut again = StopSequence::new(first.record);
    assert_eq!(again.step(GONE), saying(StopNote::DaemonNotRunning { pid: 10 }, StopAction::Probe { pid: 20 }));
    assert_eq!(again.step(GONE), saying(StopNote::ChildNotRunning { pid: 20 }, StopAction::Finish));
    assert_eq!(again, first);
}

#[test]
fn stop_of_a_live_daemon_ends_with_both_settled() {
    // every way through: the daemon terminates or not, the child exits early, late or never
    for daemon_survives in [false, true] {
        for child_exits_after in [Some(0u64), Some(3), None] {
            let mut s = StopSequence::new(RECORD);
            let mut event = ALIVE;
            let mut daemon_probes = 1;
            let mut child_polls = 0;
            let mut secs = 0;
            let mut daemon_settled = false;
            let mut child_settled = false;
            let mut steps = 0;
            loop {
                steps += 1;
                assert!(steps < 500);
                let order = s.step(event).expect("every report was waited for");
                event = match order.action {
                    StopAction::Probe { pid: 10 } => {
                        daemon_probes += 1;
                        let alive = daemon_survives;
                        daemon_settled |= !alive;
                        StopEvent::Probed { alive }
                    }
                    StopAction::Probe { pid: 20 } => {
                        let alive = match child_exits_after {
                            Some(polls) => child_polls < polls,
                            None => true,
                        };
                        child_polls += 1;
                        child_settled = !alive;
                        StopEvent::Probed { alive }
                    }
                    StopAction::Probe { pid } => panic!("probe of a stranger: {}", pid),
                    StopAction::Send { pid: 10, signal: Signal::Kill } => {
                        daemon_settled = true;
                        StopEvent::Done
                    }
                    StopAction::Send { pid: 20, signal: Signal::Kill } => {
                        child_settled = true;
                        StopEvent::Done
                    }
                    StopAction::Send { pid, signal } => {
                        assert_eq!((pid, signal), (10, Signal::Terminate));
                        StopEvent::Done
                    }
                    StopAction::Sleep { millis } => {
                        if millis == 100 {
                            secs += 1;
                        }
                        StopEvent::Done
                    }
                    StopAction::StartClock => StopEvent::Elapsed { secs: 0 },
                    StopAction::ReadClock => StopEvent::Elapsed { secs },
                    StopAction::Finish => break,
                };
            }
            assert_eq!(daemon_probes, 2);
            assert!(daemon_settled);
            assert!(child_settled);
            assert_eq!(s.phase, StopPhase::Finished);
        }
    }
}

#[test]
fn daemon_that_terminates_is_not_killed() {
    let mut s = StopSequence::new(RECORD);
    assert_eq!(s.step(ALIVE), quietly(StopAction::Send { pid: 10, signal: Signal::Terminate }));
    assert_eq!(s.step(StopEvent::Done), quietly(StopAction::Sleep { millis: 1000 }));
    assert_eq!(s.step(StopEvent::Done), quietly(StopAction::Probe { pid: 10 }));
    assert_eq!(
        s.step(GONE),
        saying(StopNote::WaitingForChild { daemon_pid: 10, child_pid: 20 }, StopAction::StartClock)
    );
    assert_eq!(s.phase, StopPhase::Timing);
}

#[test]
fn daemon_that_survives_is_killed() {
    let mut s = StopSequence::new(RECORD);
    s.step(ALIVE);
    s.step(StopEvent::Done);
    s.step(StopEvent::Done);
    assert_eq!(
        s.step(ALIVE),
        saying(StopNote::DaemonSurvived { pid: 10 }, StopAction::Send { pid: 10, signal: Signal::Kill })
    );
    assert_eq!(
        s.step(StopEvent::Done),
        saying(StopNote::WaitingForChild { daemon_pid: 10, child_pid: 20 }, StopAction::StartClock)
    );
}

#[test]
fn child_that_exits_in_time_is_not_killed() {
    let mut s = waiting_for_child();
    assert_eq!(s.step(StopEvent::Elapsed { secs: 0 }), quietly(StopAction::Probe { pid: 20 }));
    assert_eq!(
        s.step(ALIVE),
        saying(StopNote::ChildStillRunning { pid: 20 }, StopAction::Sleep { millis: 100 })
    );
    assert_eq!(s.step(StopEvent::Done), quietly(StopAction::ReadClock));
    assert_eq!(s.step(StopEvent::Elapsed { secs: 0 }), quietly(StopAction::Probe { pid: 20 }));
    assert_eq!(s.step(GONE), saying(StopNote::ChildExited { pid: 20 }, StopAction::Probe { pid: 20 }));
    assert_eq!(s.step(GONE), quietly(StopAction::Finish));
    assert_eq!(s.phase, StopPhase::Finished);
}

#[test]
fn child_is_polled_until_the_budget_is_used_up() {
    let mut s = waiting_for_child();
    let mut polls = 0;
    for tenth in 0..100u64 {
        let secs = tenth / 10;
        let order = s.step(StopEvent::Elapsed { secs });
        assert_eq!(order, quietly(StopAction::Probe { pid: 20 }));
        if secs >= 5 {
            assert_eq!(s.phase, StopPhase::FinalCheck);
            break;
        }
        assert_eq!(s.phase, StopPhase::PollingChild);
        polls += 1;
        assert_eq!(
            s.step(ALIVE),
            saying(StopNote::ChildStillRunning { pid: 20 }, StopAction::Sleep { millis: 100 })
        );
        assert_eq!(s.step(StopEvent::Done), quietly(StopAction::ReadClock));
    }
    assert_eq!(polls, 50);
    assert_eq!(
        s.step(ALIVE),
        saying(StopNote::ChildSurvived { pid: 20 }, StopAction::Send { pid: 20, signal: Signal::Kill })
    );
    assert_eq!(s.step(StopEvent::Done), quietly(StopAction::Finish));
    assert_eq!(s.phase, StopPhase::Finished);
}

#[test]
fn child_that_reappears_after_exit_is_killed() {
    let mut s = waiting_for_child();
    s.step(StopEvent::Elapsed { secs: 1 });
    assert_eq!(s.step(GONE), saying(StopNote::ChildExited { pid: 20 }, StopAction::Probe { pid: 20 }));
    assert_eq!(
        s.step(ALIVE),
        saying(StopNote::ChildSurvived { pid: 20 }, StopAction::Send { pid: 20, signal: Signal::Kill })
    );
}

#[test]
fn stop_passes_over_what_it_did_not_wait_for() {
    let mut s = StopSequence::new(RECORD);
    let fresh = s;
    assert_eq!(s.step(StopEvent::Done), None);
    assert_eq!(s.step(StopEvent::Elapsed { secs: 1 }), None);
    assert_eq!(s, fresh);
    s.step(ALIVE);
    assert_eq!(s.step(ALIVE), None);
    assert_eq!(s.phase, StopPhase::Terminating);
}

#[test]
fn stop_notes_read_as_messages() {
    assert_eq!(StopNote::DaemonNotRunning { pid: 10 }.message(), "Daemon 10 is not running");
    assert_eq!(StopNote::ChildNotRunning { pid: 20 }.message(), "Child process 20 is not running");
    assert_eq!(StopNote::ChildRunning { pid: 20 }.message(), "Child process 20 is running");
    assert_eq!(
        StopNote::DaemonSurvived { pid: 10 }.message(),
        "Daemon 10 is still running after SIGTERM, sending SIGKILL"
    );
    assert_eq!(
        StopNote::WaitingForChild { daemon_pid: 10, child_pid: 20 }.message(),
        "Stopped daemon 10, waiting for child 20 to exit"
    );
    assert_eq!(StopNote::ChildExited { pid: 20 }.message(), "Child process 20 exited");
    assert_eq!(StopNote::ChildStillRunning { pid: 20 }.message(), "Child process 20 is still running");
    assert_eq!(
        StopNote::ChildSurvived { pid: -20 }.message(),
        "Child process -20 is still running after 5 seconds, killing it"
    );
}
