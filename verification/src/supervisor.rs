//! The supervision loop: spawn the command, wait for it, and start it again
//! after a delay, until the running flag is cleared.
//!
//! The loop is a state machine. Its driver spawns and waits for the child,
//! persists the record, sleeps and reads the running flag; the machine says
//! which of these comes next. The running flag goes from set to cleared once
//! and never back, so the machine ends at the first cleared flag that it is
//! shown. A spawn, a record or a wait that fails is not tried again: a
//! supervisor that cannot watch or record its child does not go on.
//!
//! The driver starts by reporting the running flag.

use vstd::prelude::*;
use crate::process::StatusReport;
use crate::record::{lemma_record_round_trip, parse_text, record_text, ProcessRecord, RecordFault};

verus! {

/// The restart delay used when none is configured, in seconds.
pub const DEFAULT_RESTART_INTERVAL_SECS: u64 = 5;

/// Where the loop stands.
#[derive(Clone, Copy, Debug, PartialEq, Eq, Structural)]
pub enum Phase {
    /// About to spawn; waiting for the value of the running flag.
    AwaitingSpawn,
    /// A spawn was asked for; waiting for the child's identifier.
    Spawning,
    /// The child runs; waiting for it to exit.
    ChildRunning { child_pid: i32 },
    /// The child has exited; waiting for the value of the running flag.
    ChildExited { child_pid: i32 },
    /// Waiting out the restart delay, of which `remaining` seconds are left;
    /// waiting for the value of the running flag.
    RestartDelay { remaining: u64 },
    /// The loop has ended.
    Terminated,
}

/// What the driver does for the loop that can fail.
#[derive(Clone, Copy, Debug, PartialEq, Eq, Structural)]
pub enum Task {
    /// Spawning the command.
    Spawn,
    /// Persisting the record.
    Record,
    /// Waiting for the child.
    Wait,
}

/// What the driver reports to the loop.
#[derive(Clone, Copy, Debug, PartialEq, Eq, Structural)]
pub enum Event {
    /// The running flag as it was just read.
    Flag { running: bool },
    /// The command was spawned as the process `child_pid`.
    Spawned { child_pid: i32 },
    /// The child has exited.
    Exited,
    /// `task` has failed.
    Failed { task: Task },
}

/// What the loop asks its driver to do next.
#[derive(Clone, Copy, Debug, PartialEq, Eq, Structural)]
pub enum Action {
    /// Spawn the command, with its output going to the daemon's and with
    /// the request to terminate as the signal it gets when the daemon dies,
    /// and report the child's identifier.
    Spawn,
    /// Persist both identifiers, wait for the child and report its exit.
    Record { daemon_pid: i32, child_pid: i32 },
    /// Log that `child_pid` has exited, then report the running flag.
    ReportExit { child_pid: i32 },
    /// Log that the command restarts in `seconds` seconds, then report the
    /// running flag.
    Announce { seconds: u64 },
    /// Sleep for one second, then report the running flag.
    Sleep,
    /// Return from the loop.
    Finish,
    /// Abort the daemon: `task` has failed.
    Abort { task: Task },
}

/// The loop's state.
#[derive(Clone, Copy, Debug, PartialEq, Eq, Structural)]
pub struct Supervisor {
    /// The daemon's own identifier, which goes into every record.
    pub daemon_pid: i32,
    /// Seconds between a child's exit and the next spawn.
    pub restart_interval: u64,
    pub phase: Phase,
}

/// A step's outcome: the state after it and, unless the event was not the one
/// the loop was waiting for, the action to take.
pub type Step = (Supervisor, Option<Action>);

impl Supervisor {
    /// A restart delay that is being waited out has between one second and
    /// the whole interval left.
    pub open spec fn wf(self) -> bool {
        self.phase matches Phase::RestartDelay { remaining } ==> 0 < remaining
            <= self.restart_interval
    }

    /// The loop before its first spawn.
    pub open spec fn initial(daemon_pid: i32, restart_interval: u64) -> Supervisor {
        Supervisor { daemon_pid, restart_interval, phase: Phase::AwaitingSpawn }
    }

    /// The same loop in another phase.
    pub open spec fn at(self, phase: Phase) -> Supervisor {
        Supervisor { phase, ..self }
    }

    /// The loop's transition function. An event that the current phase does
    /// not wait for changes nothing and asks for nothing. Once the loop has
    /// ended, every event is answered by the request to return.
    pub open spec fn next(self, event: Event) -> Step {
        match (self.phase, event) {
            (Phase::Terminated, _) => (self, Some(Action::Finish)),
            (Phase::AwaitingSpawn, Event::Flag { running }) => {
                if running {
                    (self.at(Phase::Spawning), Some(Action::Spawn))
                } else {
                    (self.at(Phase::Terminated), Some(Action::Finish))
                }
            },
            (Phase::Spawning, Event::Spawned { child_pid }) => (
                self.at(Phase::ChildRunning { child_pid }),
                Some(Action::Record { daemon_pid: self.daemon_pid, child_pid }),
            ),
            (Phase::Spawning, Event::Failed { task }) => {
                if task == Task::Spawn {
                    (self.at(Phase::Terminated), Some(Action::Abort { task }))
                } else {
                    (self, None)
                }
            },
            (Phase::ChildRunning { child_pid }, Event::Exited) => (
                self.at(Phase::ChildExited { child_pid }),
                Some(Action::ReportExit { child_pid }),
            ),
            (Phase::ChildRunning { child_pid }, Event::Failed { task }) => {
                if task == Task::Spawn {
                    (self, None)
                } else {
                    (self.at(Phase::Terminated), Some(Action::Abort { task }))
                }
            },
            (Phase::ChildExited { child_pid }, Event::Flag { running }) => {
                if !running {
                    (self.at(Phase::Terminated), Some(Action::Finish))
                } else if self.restart_interval == 0 {
                    (self.at(Phase::AwaitingSpawn), Some(Action::Announce { seconds: 0 }))
                } else {
                    (
                        self.at(Phase::RestartDelay { remaining: self.restart_interval }),
                        Some(Action::Announce { seconds: self.restart_interval }),
                    )
                }
            },
            (Phase::RestartDelay { remaining }, Event::Flag { running }) => {
                if !running {
                    (self.at(Phase::Terminated), Some(Action::Finish))
                } else if remaining <= 1 {
                    (self.at(Phase::AwaitingSpawn), Some(Action::Sleep))
                } else {
                    (
                        self.at(Phase::RestartDelay { remaining: (remaining - 1) as u64 }),
                        Some(Action::Sleep),
                    )
                }
            },
            _ => (self, None),
        }
    }

    /// The loop before its first spawn, for the daemon `daemon_pid`.
    pub fn new(daemon_pid: i32, restart_interval: u64) -> (supervisor: Supervisor)
        ensures
            supervisor == Supervisor::initial(daemon_pid, restart_interval),
            supervisor.wf(),
    {
        Supervisor { daemon_pid, restart_interval, phase: Phase::AwaitingSpawn }
    }

    /// Takes one event and returns the action that answers it, or `None` where
    /// the loop was not waiting for that event.
    pub fn step(&mut self, event: Event) -> (action: Option<Action>)
        ensures
            (*final(self), action) == old(self).next(event),
            old(self).wf() ==> final(self).wf(),
    {
        match (self.phase, event) {
            (Phase::Terminated, _) => Some(Action::Finish),
            (Phase::AwaitingSpawn, Event::Flag { running }) => {
                if running {
                    self.phase = Phase::Spawning;
                    Some(Action::Spawn)
                } else {
                    self.phase = Phase::Terminated;
                    Some(Action::Finish)
                }
            },
            (Phase::Spawning, Event::Spawned { child_pid }) => {
                self.phase = Phase::ChildRunning { child_pid };
                Some(Action::Record { daemon_pid: self.daemon_pid, child_pid })
            },
            (Phase::Spawning, Event::Failed { task }) => {
                match task {
                    Task::Spawn => {
                        self.phase = Phase::Terminated;
                        Some(Action::Abort { task })
                    },
                    _ => None,
                }
            },
            (Phase::ChildRunning { child_pid }, Event::Exited) => {
                self.phase = Phase::ChildExited { child_pid };
                Some(Action::ReportExit { child_pid })
            },
            (Phase::ChildRunning { child_pid }, Event::Failed { task }) => {
                match task {
                    Task::Spawn => None,
                    _ => {
                        self.phase = Phase::Terminated;
                        Some(Action::Abort { task })
                    },
                }
            },
            (Phase::ChildExited { child_pid }, Event::Flag { running }) => {
                if !running {
                    self.phase = Phase::Terminated;
                    Some(Action::Finish)
                } else if self.restart_interval == 0 {
                    self.phase = Phase::AwaitingSpawn;
                    Some(Action::Announce { seconds: 0 })
                } else {
                    self.phase = Phase::RestartDelay { remaining: self.restart_interval };
                    Some(Action::Announce { seconds: self.restart_interval })
                }
            },
            (Phase::RestartDelay { remaining }, Event::Flag { running }) => {
                if !running {
                    self.phase = Phase::Terminated;
                    Some(Action::Finish)
                } else if remaining <= 1 {
                    self.phase = Phase::AwaitingSpawn;
                    Some(Action::Sleep)
                } else {
                    self.phase = Phase::RestartDelay { remaining: remaining - 1 };
                    Some(Action::Sleep)
                }
            },
            _ => None,
        }
    }

    /// The current child: the identifier of the child that runs, and none
    /// before the first spawn and once the child has exited. This is whom a
    /// shutdown request asks to terminate.
    pub fn current_child(&self) -> (child: Option<i32>)
        ensures
            child == self.child(),
    {
        match self.phase {
            Phase::ChildRunning { child_pid } => Some(child_pid),
            _ => None,
        }
    }

    /// The current child: the identifier of the child that runs, if one does.
    pub open spec fn child(self) -> Option<i32> {
        match self.phase {
            Phase::ChildRunning { child_pid } => Some(child_pid),
            _ => None,
        }
    }

    /// The loop has ended.
    pub fn is_terminated(&self) -> (ended: bool)
        ensures
            ended == (self.phase == Phase::Terminated),
    {
        match self.phase {
            Phase::Terminated => true,
            _ => false,
        }
    }
}

impl Supervisor {
    /// The loop after it has taken `events` in turn.
    pub open spec fn after(self, events: Seq<Event>) -> Supervisor
        decreases events.len(),
    {
        if events.len() == 0 {
            self
        } else {
            self.after(events.drop_last()).next(events.last()).0
        }
    }

    /// The loop's answer to the event at index `i` of `events`, taken in turn.
    pub open spec fn answer(self, events: Seq<Event>, i: int) -> Option<Action> {
        self.after(events.take(i)).next(events[i]).1
    }
}

/// `n` readings of the running flag that all found it set.
pub open spec fn set_flags(n: nat) -> Seq<Event> {
    Seq::new(n, |i: int| Event::Flag { running: true })
}

/// Taking two runs of events one after the other is taking them as one run.
pub proof fn lemma_after_concat(s: Supervisor, first: Seq<Event>, second: Seq<Event>)
    ensures
        s.after(first + second) == s.after(first).after(second),
    decreases second.len(),
{
    if second.len() == 0 {
        assert(first + second =~= first);
    } else {
        assert((first + second).drop_last() =~= first + second.drop_last());
        assert((first + second).last() == second.last());
        lemma_after_concat(s, first, second.drop_last());
    }
}

/// No event changes the daemon's identifier or the restart interval, and the
/// loop stays well formed.
pub proof fn lemma_settings_are_fixed(s: Supervisor, events: Seq<Event>)
    ensures
        s.after(events).daemon_pid == s.daemon_pid,
        s.after(events).restart_interval == s.restart_interval,
        s.wf() ==> s.after(events).wf(),
    decreases events.len(),
{
    if events.len() > 0 {
        lemma_settings_are_fixed(s, events.drop_last());
    }
}

/// The record store holds the latest child. Every record that the loop asks
/// for names the daemon that the loop was made for, the same throughout, and
/// the child whose spawn was just reported, who is the current child from
/// then on; and what is written for it is read back as just these two. Every
/// reported spawn that the loop was waiting for is answered by such a record.
pub proof fn lemma_record_names_latest_child(s: Supervisor, events: Seq<Event>, i: int)
    requires
        0 <= i < events.len(),
    ensures
        s.answer(events, i) matches Some(Action::Record { daemon_pid, child_pid }) ==> {
            &&& daemon_pid == s.daemon_pid
            &&& events[i] == (Event::Spawned { child_pid })
            &&& s.after(events.take(i + 1)).child() == Some(child_pid)
            &&& parse_text(record_text(ProcessRecord { daemon_pid, child_pid })) == Ok::<
                ProcessRecord,
                RecordFault,
            >(ProcessRecord { daemon_pid: s.daemon_pid, child_pid })
        },
        events[i] matches Event::Spawned { child_pid } ==> {
            ||| s.answer(events, i) == Some(
                Action::Record { daemon_pid: s.daemon_pid, child_pid },
            )
            ||| s.answer(events, i) == Some(Action::Finish)
            ||| s.answer(events, i) == None::<Action>
        },
{
    lemma_settings_are_fixed(s, events.take(i));
    assert(events.take(i + 1).drop_last() =~= events.take(i));
    match s.answer(events, i) {
        Some(Action::Record { daemon_pid, child_pid }) => {
            lemma_record_round_trip(ProcessRecord { daemon_pid, child_pid });
        },
        _ => {},
    }
}

impl Supervisor {
    /// The record that the loop asks for in answer to the event at index `i`
    /// of `events`, if it asks for one.
    pub open spec fn recorded(self, events: Seq<Event>, i: int) -> Option<ProcessRecord> {
        match self.answer(events, i) {
            Some(Action::Record { daemon_pid, child_pid }) => Some(
                ProcessRecord { daemon_pid, child_pid },
            ),
            _ => None,
        }
    }
}

/// Status across restart cycles. Reports on the records of any two spawns of
/// one loop name the same daemon, the one that the loop was made for, and
/// each names the child whose spawn its record followed. So the child of the
/// second report differs from that of the first exactly where the system
/// gave the two children different identifiers. Whether the processes run is
/// for the system to say.
pub proof fn lemma_status_across_cycles(
    s: Supervisor,
    events: Seq<Event>,
    i: int,
    j: int,
    first: StatusReport,
    second: StatusReport,
)
    requires
        0 <= i < events.len(),
        0 <= j < events.len(),
        s.recorded(events, i) is Some,
        s.recorded(events, j) is Some,
        first.is_about(s.recorded(events, i)->0),
        second.is_about(s.recorded(events, j)->0),
    ensures
        first.daemon_pid == s.daemon_pid,
        second.daemon_pid == s.daemon_pid,
        events[i] == (Event::Spawned { child_pid: first.child_pid }),
        events[j] == (Event::Spawned { child_pid: second.child_pid }),
        first.child_pid != second.child_pid <==> events[i] != events[j],
{
    lemma_record_names_latest_child(s, events, i);
    lemma_record_names_latest_child(s, events, j);
}

/// No spawn without the flag. The loop asks for a spawn only in answer to a
/// reading of the running flag that found it set, and only when it is about
/// to spawn: each child is started after the flag was looked at.
pub proof fn lemma_spawn_follows_set_flag(s: Supervisor, event: Event)
    requires
        s.next(event).1 == Some(Action::Spawn),
    ensures
        s.phase == Phase::AwaitingSpawn,
        event == (Event::Flag { running: true }),
        s.next(event).0 == s.at(Phase::Spawning),
{
}

/// A failure is final. Where the loop takes the report that a spawn, a record
/// or a wait has failed, it asks to abort and has ended: nothing is tried
/// again.
pub proof fn lemma_failure_aborts(s: Supervisor, task: Task)
    requires
        s.phase != Phase::Terminated,
        s.next(Event::Failed { task }).1 is Some,
    ensures
        s.next(Event::Failed { task }) == (
            s.at(Phase::Terminated),
            Some(Action::Abort { task }),
        ),
        task == Task::Spawn <==> s.phase == Phase::Spawning,
        task != Task::Spawn <==> s.phase is ChildRunning,
{
}

/// Once the loop has ended it stays ended: it answers every event by asking
/// to return, and so never asks for a spawn again.
pub proof fn lemma_terminated_is_final(s: Supervisor, events: Seq<Event>)
    requires
        s.phase == Phase::Terminated,
    ensures
        s.after(events) == s,
        forall|i: int| 0 <= i < events.len() ==> s.answer(events, i) == Some(Action::Finish),
    decreases events.len(),
{
    if events.len() > 0 {
        lemma_terminated_is_final(s, events.drop_last());
    }
    assert forall|i: int| 0 <= i < events.len() implies s.answer(events, i) == Some(
        Action::Finish,
    ) by {
        lemma_terminated_is_final(s, events.take(i));
    }
}

/// A cleared running flag ends the loop. Where the loop takes a reading that
/// found the flag cleared, it asks to return and has ended, whatever it is
/// shown afterwards: no spawn follows a shutdown request that arrived before
/// the spawn or during the restart delay.
pub proof fn lemma_cleared_flag_ends_loop(s: Supervisor, events: Seq<Event>, i: int)
    requires
        0 <= i < events.len(),
        events[i] == (Event::Flag { running: false }),
        s.answer(events, i) is Some,
    ensures
        s.answer(events, i) == Some(Action::Finish),
        s.after(events).phase == Phase::Terminated,
        forall|j: int| i < j < events.len() ==> s.answer(events, j) == Some(Action::Finish),
{
    let before = s.after(events.take(i));
    let ended = s.after(events.take(i + 1));
    assert(events.take(i + 1).drop_last() =~= events.take(i));
    assert(ended == before.next(events[i]).0);
    assert(ended.phase == Phase::Terminated);
    assert forall|j: int| i < j <= events.len() implies s.after(events.take(j)) == ended by {
        let rest = events.subrange(i + 1, j);
        assert(events.take(j) =~= events.take(i + 1) + rest);
        lemma_after_concat(s, events.take(i + 1), rest);
        lemma_terminated_is_final(ended, rest);
    }
    assert(events.take(events.len() as int) =~= events);
}

/// While the restart delay is waited out and the flag stays set, each second
/// that is left is slept away, and then the loop is about to spawn.
proof fn lemma_delay_counts_down(s: Supervisor, remaining: u64, j: nat)
    requires
        s.phase == (Phase::RestartDelay { remaining }),
        0 < remaining,
        j <= remaining,
    ensures
        j < remaining ==> s.after(set_flags(j)) == s.at(
            Phase::RestartDelay { remaining: (remaining - j) as u64 },
        ),
        j == remaining ==> s.after(set_flags(j)) == s.at(Phase::AwaitingSpawn),
    decreases j,
{
    if j > 0 {
        lemma_delay_counts_down(s, remaining, (j - 1) as nat);
        assert(set_flags(j).drop_last() =~= set_flags((j - 1) as nat));
    }
}

/// The restart delay. After a child's exit that finds the running flag set,
/// and as long as every later reading finds it set, the loop asks for exactly
/// `restart_interval` sleeps of one second each and, right after them, for the
/// next spawn: no sooner and no later.
pub proof fn lemma_restart_waits_out_interval(s: Supervisor, child_pid: i32)
    requires
        s.phase == (Phase::ChildExited { child_pid }),
    ensures
        ({
            let n = s.restart_interval as nat;
            let flags = set_flags(n + 1);
            let (delayed, announced) = s.next(Event::Flag { running: true });
            &&& announced == Some(Action::Announce { seconds: s.restart_interval })
            &&& forall|j: int| 0 <= j < n ==> delayed.answer(flags, j) == Some(Action::Sleep)
            &&& delayed.answer(flags, n as int) == Some(Action::Spawn)
        }),
{
    let n = s.restart_interval as nat;
    let flags = set_flags(n + 1);
    let delayed = s.next(Event::Flag { running: true }).0;
    if n == 0 {
        assert(flags.take(0) =~= Seq::<Event>::empty());
    } else {
        assert forall|j: int| 0 <= j <= n implies (j < n ==> delayed.answer(flags, j) == Some(
            Action::Sleep,
        )) && (j == n ==> delayed.answer(flags, j) == Some(Action::Spawn)) by {
            assert(flags.take(j) =~= set_flags(j as nat));
            lemma_delay_counts_down(delayed, s.restart_interval, j as nat);
        }
    }
}

} // verus!
