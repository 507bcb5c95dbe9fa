use guarderd::process::StatusReport;
use guarderd::record::{format_record, parse_record, ProcessRecord};
use guarderd::supervisor::{Action, Event, Phase, Supervisor, Task, DEFAULT_RESTART_INTERVAL_SECS};

const SET: Event = Event::Flag { running: true };
const CLEARED: Event = Event::Flag { running: false };

fn exited_child(interval: u64) -> Supervisor {
    let mut s = Supervisor::new(1, interval);
    assert_eq!(s.step(SET), Some(Action::Spawn));
    assert_eq!(s.step(Event::Spawned { child_pid: 2 }), Some(Action::Record { daemon_pid: 1, child_pid: 2 }));
    assert_eq!(s.step(Event::Exited), Some(Action::ReportExit { child_pid: 2 }));
    s
}

#[test]
fn new_supervisor_awaits_its_first_spawn() {
    let s = Supervisor::new(77, 5);
    assert_eq!(s, Supervisor { daemon_pid: 77, restart_interval: 5, phase: Phase::AwaitingSpawn });
    assert_eq!(s.current_child(), None);
    assert!(!s.is_terminated());
    assert_eq!(DEFAULT_RESTART_INTERVAL_SECS, 5);
}

#[test]
fn first_cycle_spawns_records_and_waits() {
    let mut s = Supervisor::new(77, 5);
    assert_eq!(s.step(SET), Some(Action::Spawn));
    assert_eq!(s.phase, Phase::Spawning);
    assert_eq!(s.step(Event::Spawned { child_pid: 80 }), Some(Action::Record { daemon_pid: 77, child_pid: 80 }));
    assert_eq!(s.phase, Phase::ChildRunning { child_pid: 80 });
    assert_eq!(s.current_child(), Some(80));
    assert_eq!(s.step(Event::Exited), Some(Action::ReportExit { child_pid: 80 }));
    assert_eq!(s.phase, Phase::ChildExited { child_pid: 80 });
    assert_eq!(s.current_child(), None);
}

#[test]
fn current_child_is_known_only_while_it_runs() {
    let mut s = Supervisor::new(1, 0);
    let mut known = vec![s.current_child()];
    for event in [SET, Event::Spawned { child_pid: 8 }, Event::Exited, SET, SET, Event::Spawned { child_pid: 9 }] {
        assert!(s.step(event).is_some());
        known.push(s.current_child());
    }
    assert_eq!(known, vec![None, None, Some(8), None, None, None, Some(9)]);
}

#[test]
fn failed_spawn_aborts_the_daemon() {
    let mut s = Supervisor::new(1, 5);
    assert_eq!(s.step(SET), Some(Action::Spawn));
    assert_eq!(s.step(Event::Failed { task: Task::Wait }), None);
    assert_eq!(s.step(Event::Failed { task: Task::Record }), None);
    assert_eq!(s.step(Event::Failed { task: Task::Spawn }), Some(Action::Abort { task: Task::Spawn }));
    assert!(s.is_terminated());
    assert_eq!(s.step(SET), Some(Action::Finish));
}

#[test]
fn failed_record_or_wait_aborts_the_daemon() {
    for task in [Task::Record, Task::Wait] {
        let mut s = Supervisor::new(1, 5);
        s.step(SET);
        s.step(Event::Spawned { child_pid: 2 });
        assert_eq!(s.step(Event::Failed { task: Task::Spawn }), None);
        assert_eq!(s.step(Event::Failed { task }), Some(Action::Abort { task }));
        assert!(s.is_terminated());
        assert_eq!(s.current_child(), None);
        assert_eq!(s.step(Event::Exited), Some(Action::Finish));
    }
}

#[test]
fn failure_is_passed_over_where_nothing_was_tried() {
    for task in [Task::Spawn, Task::Record, Task::Wait] {
        let mut s = Supervisor::new(1, 5);
        assert_eq!(s.step(Event::Failed { task }), None);
        let mut s = exited_child(5);
        assert_eq!(s.step(Event::Failed { task }), None);
        s.step(SET);
        assert_eq!(s.step(Event::Failed { task }), None);
        assert_eq!(s.phase, Phase::RestartDelay { remaining: 5 });
    }
}

#[test]
fn restart_waits_exactly_the_interval() {
    for interval in [1u64, 2, 3, 5, 10] {
        let mut s = exited_child(interval);
        assert_eq!(s.step(SET), Some(Action::Announce { seconds: interval }));
        for left in (1..=interval).rev() {
            assert_eq!(s.phase, Phase::RestartDelay { remaining: left });
            assert_eq!(s.step(SET), Some(Action::Sleep));
        }
        assert_eq!(s.phase, Phase::AwaitingSpawn);
        assert_eq!(s.step(SET), Some(Action::Spawn));
    }
}

#[test]
fn restart_without_delay_spawns_at_once() {
    let mut s = exited_child(0);
    assert_eq!(s.step(SET), Some(Action::Announce { seconds: 0 }));
    assert_eq!(s.phase, Phase::AwaitingSpawn);
    assert_eq!(s.step(SET), Some(Action::Spawn));
}

#[test]
fn shutdown_after_exit_ends_the_loop() {
    let mut s = exited_child(5);
    assert_eq!(s.step(CLEARED), Some(Action::Finish));
    assert!(s.is_terminated());
    assert_eq!(s.current_child(), None);
}

#[test]
fn shutdown_during_the_delay_prevents_the_spawn() {
    for sleeps_before in 0..5u64 {
        let mut s = exited_child(5);
        assert_eq!(s.step(SET), Some(Action::Announce { seconds: 5 }));
        for _ in 0..sleeps_before {
            assert_eq!(s.step(SET), Some(Action::Sleep));
        }
        assert_eq!(s.step(CLEARED), Some(Action::Finish));
        assert!(s.is_terminated());
        for event in [SET, CLEARED, Event::Spawned { child_pid: 9 }, Event::Exited, Event::Failed { task: Task::Wait }, SET] {
            assert_eq!(s.step(event), Some(Action::Finish));
            assert!(s.is_terminated());
        }
    }
}

#[test]
fn shutdown_before_the_spawn_prevents_it() {
    let mut s = Supervisor::new(1, 5);
    assert_eq!(s.step(CLEARED), Some(Action::Finish));
    assert!(s.is_terminated());
    let mut s = exited_child(1);
    assert_eq!(s.step(SET), Some(Action::Announce { seconds: 1 }));
    assert_eq!(s.step(SET), Some(Action::Sleep));
    assert_eq!(s.step(CLEARED), Some(Action::Finish));
    assert_eq!(s.step(SET), Some(Action::Finish));
}

#[test]
fn events_out_of_turn_change_nothing() {
    let mut s = Supervisor::new(1, 5);
    assert_eq!(s.step(Event::Spawned { child_pid: 3 }), None);
    assert_eq!(s.step(Event::Exited), None);
    assert_eq!(s, Supervisor::new(1, 5));
    assert_eq!(s.step(SET), Some(Action::Spawn));
    let spawning = s;
    assert_eq!(s.step(SET), None);
    assert_eq!(s.step(CLEARED), None);
    assert_eq!(s.step(Event::Exited), None);
    assert_eq!(s, spawning);
    assert_eq!(s.step(Event::Spawned { child_pid: 3 }), Some(Action::Record { daemon_pid: 1, child_pid: 3 }));
    let running = s;
    assert_eq!(s.step(SET), None);
    assert_eq!(s.step(CLEARED), None);
    assert_eq!(s.step(Event::Spawned { child_pid: 4 }), None);
    assert_eq!(s, running);
}

#[test]
fn record_store_always_holds_the_latest_child() {
    let daemon_pid = 4242;
    let mut s = Supervisor::new(daemon_pid, 0);
    let mut stored = String::new();
    for child_pid in [100, 101, 102, 250, 7] {
        assert_eq!(s.step(SET), Some(Action::Spawn));
        match s.step(Event::Spawned { child_pid }) {
            Some(Action::Record { daemon_pid: d, child_pid: c }) => {
                stored = format_record(ProcessRecord { daemon_pid: d, child_pid: c });
            }
            other => panic!("expected a record, got {:?}", other),
        }
        assert_eq!(parse_record(&stored), Ok(ProcessRecord { daemon_pid, child_pid }));
        assert_eq!(s.current_child(), Some(child_pid));
        assert_eq!(s.step(Event::Exited), Some(Action::ReportExit { child_pid }));
        assert_eq!(s.step(SET), Some(Action::Announce { seconds: 0 }));
        assert_eq!(s.daemon_pid, daemon_pid);
    }
}

#[test]
fn failing_command_is_respawned_every_second_until_stopped() {
    let daemon_pid = 900;
    let mut s = Supervisor::new(daemon_pid, 1);
    let mut next_pid = 901;
    let mut seen: Vec<i32> = Vec::new();
    let mut sleeps = 0;
    let mut event = SET;
    let mut steps = 0;
    loop {
        steps += 1;
        let stop_requested = seen.len() == 4 && sleeps == 4;
        event = match s.step(event) {
            Some(Action::Spawn) => {
                let child_pid = next_pid;
                next_pid += 1;
                Event::Spawned { child_pid }
            }
            Some(Action::Record { daemon_pid: d, child_pid }) => {
                assert_eq!(d, daemon_pid);
                let stored = format_record(ProcessRecord { daemon_pid: d, child_pid });
                assert_eq!(parse_record(&stored), Ok(ProcessRecord { daemon_pid, child_pid }));
                assert!(!seen.contains(&child_pid));
                seen.push(child_pid);
                Event::Exited
            }
            Some(Action::ReportExit { child_pid }) => {
                assert_eq!(Some(&child_pid), seen.last());
                Event::Flag { running: !stop_requested }
            }
            Some(Action::Announce { seconds }) => {
                assert_eq!(seconds, 1);
                SET
            }
            Some(Action::Sleep) => {
                sleeps += 1;
                assert_eq!(sleeps, seen.len());
                Event::Flag { running: !(seen.len() == 4 && sleeps == 4) }
            }
            Some(Action::Finish) => break,
            Some(Action::Abort { task }) => panic!("{:?} did not fail", task),
            None => panic!("the loop was shown an event out of turn"),
        };
        assert!(steps < 100);
    }
    assert_eq!(seen, vec![901, 902, 903, 904]);
    assert_eq!(sleeps, 4);
    assert!(s.is_terminated());
}

#[test]
fn status_in_two_cycles_names_one_daemon_and_two_children() {
    let mut s = Supervisor::new(500, 1);
    let mut reports: Vec<StatusReport> = Vec::new();
    for child_pid in [501, 502] {
        assert_eq!(s.step(SET), Some(Action::Spawn));
        match s.step(Event::Spawned { child_pid }) {
            Some(Action::Record { daemon_pid, child_pid }) => {
                let stored = format_record(ProcessRecord { daemon_pid, child_pid });
                let read = parse_record(&stored).expect("what was written is a record");
                reports.push(StatusReport::new(read, true, true));
            }
            other => panic!("expected a record, got {:?}", other),
        }
        assert_eq!(s.step(Event::Exited), Some(Action::ReportExit { child_pid }));
        assert_eq!(s.step(SET), Some(Action::Announce { seconds: 1 }));
        assert_eq!(s.step(SET), Some(Action::Sleep));
    }
    assert_eq!(reports[0].daemon_pid, 500);
    assert_eq!(reports[1].daemon_pid, 500);
    assert!(reports[0].daemon_running && reports[1].daemon_running);
    assert_eq!(reports[0].child_pid, 501);
    assert_eq!(reports[1].child_pid, 502);
    assert_ne!(reports[0].child_pid, reports[1].child_pid);
    assert_eq!(reports[1].daemon_line(), "Daemon PID: 500, running: true");
    assert_eq!(reports[1].child_line(), "Child PID: 502, running: true");
}
