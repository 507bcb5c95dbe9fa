//! Starting the daemon: take the instance lock, detach from the terminal in
//! two forks, and hand over to the supervision loop.
//!
//! At most one supervisor runs per working directory. Whoever cannot take the
//! lock is refused before anything else happens: it does not fork, and it
//! leaves the record of the supervisor that holds the lock alone.
//!
//! Detaching is all or nothing. The first fork's parent exits at once, its
//! child starts a new session, the second fork's parent exits too, and the
//! process that is left changes to the root directory and reads its own
//! identifier. A step that fails aborts the start.
//!
//! The driver starts by trying to take the lock, and reports how that ended.

use vstd::prelude::*;

verus! {

/// How the attempt to take the instance lock ended.
#[derive(Clone, Copy, Debug, PartialEq, Eq, Structural)]
pub enum LockOutcome {
    /// The lock is held by this process from now on.
    Acquired,
    /// Another process holds the lock.
    Busy,
    /// The lock file could not be opened or locked for another reason.
    Unavailable,
}

/// Why a start was refused.
#[derive(Clone, Copy, Debug, PartialEq, Eq, Structural)]
pub enum LockError {
    /// A supervisor already runs in this working directory.
    AlreadyRunning,
    /// The lock file could not be used.
    Io,
}

/// The side of a fork that the reporting process is on.
#[derive(Clone, Copy, Debug, PartialEq, Eq, Structural)]
pub enum ForkOutcome {
    /// This process is the one that called fork.
    Parent,
    /// This process is the new one.
    Child,
    /// No process was created.
    Failed,
}

/// The steps of detaching, for naming the one that failed.
#[derive(Clone, Copy, Debug, PartialEq, Eq, Structural)]
pub enum DetachStep {
    FirstFork,
    NewSession,
    SecondFork,
    ChangeDir,
}

/// What the start is waiting for.
#[derive(Clone, Copy, Debug, PartialEq, Eq, Structural)]
pub enum LaunchPhase {
    /// Waiting for the outcome of taking the lock.
    Locking,
    /// Waiting for the outcome of the first fork.
    FirstFork,
    /// Waiting for the outcome of starting a new session.
    NewSession,
    /// Waiting for the outcome of the second fork.
    SecondFork,
    /// Waiting for the outcome of changing to the root directory.
    ChangingDir,
    /// Waiting for the identifier of this process.
    ReadingPid,
    /// Nothing is left to do here.
    Finished,
}

/// What the driver reports.
#[derive(Clone, Copy, Debug, PartialEq, Eq, Structural)]
pub enum LaunchEvent {
    Lock { outcome: LockOutcome },
    Forked { side: ForkOutcome },
    /// Whether the new session was started.
    SessionStarted { ok: bool },
    /// Whether the working directory is now the root directory.
    DirChanged { ok: bool },
    /// The identifier of this process.
    Pid { pid: i32 },
}

/// What the driver is asked to do next.
#[derive(Clone, Copy, Debug, PartialEq, Eq, Structural)]
pub enum LaunchAction {
    /// Fork and report which side this process is on.
    Fork,
    /// Start a new session and report whether that worked.
    StartSession,
    /// Change to the root directory and report whether that worked.
    ChangeToRoot,
    /// Report the identifier of this process.
    ReadPid,
    /// Say why the start is refused, and return.
    Refuse { error: LockError },
    /// Exit with status 0: this process is a parent that has done its part.
    ExitParent,
    /// Abort: the named step failed and the process tree is not what it
    /// should be.
    Abort { step: DetachStep },
    /// Set the running flag, install the termination handler, start the log
    /// drain, send this process's output to it, and run the supervision loop
    /// as the daemon `daemon_pid`.
    Supervise { daemon_pid: i32 },
}

/// The state of a start.
#[derive(Clone, Copy, Debug, PartialEq, Eq, Structural)]
pub struct Launcher {
    pub phase: LaunchPhase,
}

/// A step's outcome: the state after it and, unless the event was not the one
/// that was waited for, the action to take.
pub type LaunchStep = (Launcher, Option<LaunchAction>);

impl Launcher {
    /// A start that has not tried the lock yet.
    pub open spec fn initial() -> Launcher {
        Launcher { phase: LaunchPhase::Locking }
    }

    /// The transition function. An event that the current phase does not wait
    /// for changes nothing and asks for nothing.
    pub open spec fn next(self, event: LaunchEvent) -> LaunchStep {
        let finished = Launcher { phase: LaunchPhase::Finished };
        match (self.phase, event) {
            (LaunchPhase::Locking, LaunchEvent::Lock { outcome }) => match outcome {
                LockOutcome::Acquired => (
                    Launcher { phase: LaunchPhase::FirstFork },
                    Some(LaunchAction::Fork),
                ),
                LockOutcome::Busy => (
                    finished,
                    Some(LaunchAction::Refuse { error: LockError::AlreadyRunning }),
                ),
                LockOutcome::Unavailable => (
                    finished,
                    Some(LaunchAction::Refuse { error: LockError::Io }),
                ),
            },
            (LaunchPhase::FirstFork, LaunchEvent::Forked { side }) => match side {
                ForkOutcome::Parent => (finished, Some(LaunchAction::ExitParent)),
                ForkOutcome::Child => (
                    Launcher { phase: LaunchPhase::NewSession },
                    Some(LaunchAction::StartSession),
                ),
                ForkOutcome::Failed => (
                    finished,
                    Some(LaunchAction::Abort { step: DetachStep::FirstFork }),
                ),
            },
            (LaunchPhase::NewSession, LaunchEvent::SessionStarted { ok }) => {
                if ok {
                    (Launcher { phase: LaunchPhase::SecondFork }, Some(LaunchAction::Fork))
                } else {
                    (finished, Some(LaunchAction::Abort { step: DetachStep::NewSession }))
                }
            },
            (LaunchPhase::SecondFork, LaunchEvent::Forked { side }) => match side {
                ForkOutcome::Parent => (finished, Some(LaunchAction::ExitParent)),
                ForkOutcome::Child => (
                    Launcher { phase: LaunchPhase::ChangingDir },
                    Some(LaunchAction::ChangeToRoot),
                ),
                ForkOutcome::Failed => (
                    finished,
                    Some(LaunchAction::Abort { step: DetachStep::SecondFork }),
                ),
            },
            (LaunchPhase::ChangingDir, LaunchEvent::DirChanged { ok }) => {
                if ok {
                    (Launcher { phase: LaunchPhase::ReadingPid }, Some(LaunchAction::ReadPid))
                } else {
                    (finished, Some(LaunchAction::Abort { step: DetachStep::ChangeDir }))
                }
            },
            (LaunchPhase::ReadingPid, LaunchEvent::Pid { pid }) => (
                finished,
                Some(LaunchAction::Supervise { daemon_pid: pid }),
            ),
            _ => (self, None),
        }
    }

    /// The start after it has taken `events` in turn.
    pub open spec fn after(self, events: Seq<LaunchEvent>) -> Launcher
        decreases events.len(),
    {
        if events.len() == 0 {
            self
        } else {
            self.after(events.drop_last()).next(events.last()).0
        }
    }

    /// The answer to the event at index `i` of `events`, taken in turn.
    pub open spec fn answer(self, events: Seq<LaunchEvent>, i: int) -> Option<LaunchAction> {
        self.after(events.take(i)).next(events[i]).1
    }

    /// A start that has not tried the lock yet.
    pub fn new() -> (launcher: Launcher)
        ensures
            launcher == Launcher::initial(),
    {
        Launcher { phase: LaunchPhase::Locking }
    }

    /// Takes one event and returns the action that answers it, or `None` where
    /// that event was not waited for.
    pub fn step(&mut self, event: LaunchEvent) -> (action: Option<LaunchAction>)
        ensures
            (*final(self), action) == old(self).next(event),
    {
        match (self.phase, event) {
            (LaunchPhase::Locking, LaunchEvent::Lock { outcome }) => match outcome {
                LockOutcome::Acquired => {
                    self.phase = LaunchPhase::FirstFork;
                    Some(LaunchAction::Fork)
                },
                LockOutcome::Busy => {
                    self.phase = LaunchPhase::Finished;
                    Some(LaunchAction::Refuse { error: LockError::AlreadyRunning })
                },
                LockOutcome::Unavailable => {
                    self.phase = LaunchPhase::Finished;
                    Some(LaunchAction::Refuse { error: LockError::Io })
                },
            },
            (LaunchPhase::FirstFork, LaunchEvent::Forked { side }) => match side {
                ForkOutcome::Parent => {
                    self.phase = LaunchPhase::Finished;
                    Some(LaunchAction::ExitParent)
                },
                ForkOutcome::Child => {
                    self.phase = LaunchPhase::NewSession;
                    Some(LaunchAction::StartSession)
                },
                ForkOutcome::Failed => {
                    self.phase = LaunchPhase::Finished;
                    Some(LaunchAction::Abort { step: DetachStep::FirstFork })
                },
            },
            (LaunchPhase::NewSession, LaunchEvent::SessionStarted { ok }) => {
                if ok {
                    self.phase = LaunchPhase::SecondFork;
                    Some(LaunchAction::Fork)
                } else {
                    self.phase = LaunchPhase::Finished;
                    Some(LaunchAction::Abort { step: DetachStep::NewSession })
                }
            },
            (LaunchPhase::SecondFork, LaunchEvent::Forked { side }) => match side {
                ForkOutcome::Parent => {
                    self.phase = LaunchPhase::Finished;
                    Some(LaunchAction::ExitParent)
                },
                ForkOutcome::Child => {
                    self.phase = LaunchPhase::ChangingDir;
                    Some(LaunchAction::ChangeToRoot)
                },
                ForkOutcome::Failed => {
                    self.phase = LaunchPhase::Finished;
                    Some(LaunchAction::Abort { step: DetachStep::SecondFork })
                },
            },
            (LaunchPhase::ChangingDir, LaunchEvent::DirChanged { ok }) => {
                if ok {
                    self.phase = LaunchPhase::ReadingPid;
                    Some(LaunchAction::ReadPid)
                } else {
                    self.phase = LaunchPhase::Finished;
                    Some(LaunchAction::Abort { step: DetachStep::ChangeDir })
                }
            },
            (LaunchPhase::ReadingPid, LaunchEvent::Pid { pid }) => {
                self.phase = LaunchPhase::Finished;
                Some(LaunchAction::Supervise { daemon_pid: pid })
            },
            _ => None,
        }
    }
}

impl LaunchPhase {
    /// The place of the phase in the order of a start.
    pub open spec fn rank(self) -> nat {
        match self {
            LaunchPhase::Locking => 0,
            LaunchPhase::FirstFork => 1,
            LaunchPhase::NewSession => 2,
            LaunchPhase::SecondFork => 3,
            LaunchPhase::ChangingDir => 4,
            LaunchPhase::ReadingPid => 5,
            LaunchPhase::Finished => 6,
        }
    }
}

/// A start goes through its phases in order. An event that is taken moves the
/// start to the next phase or ends it; no phase is left out or come back to.
/// So the supervision loop, which is reached from the last phase alone, is
/// reached only by the process that has the lock, is the child of both forks,
/// leads no session and stands in the root directory.
pub proof fn lemma_launch_in_order(s: Launcher, event: LaunchEvent)
    ensures
        s.next(event).1 is None ==> s.next(event).0 == s,
        s.next(event).1 is Some ==> s.phase != LaunchPhase::Finished && (s.next(event).0.phase
            == LaunchPhase::Finished || s.next(event).0.phase.rank() == s.phase.rank() + 1),
        s.next(event).1 == Some(LaunchAction::Fork) ==> event == (
            LaunchEvent::Lock { outcome: LockOutcome::Acquired }
        ) || event == (LaunchEvent::SessionStarted { ok: true }),
        s.next(event).1 == Some(LaunchAction::StartSession) || s.next(event).1 == Some(
            LaunchAction::ChangeToRoot,
        ) ==> event == (LaunchEvent::Forked { side: ForkOutcome::Child }),
        s.next(event).1 == Some(LaunchAction::ReadPid) ==> event == (
            LaunchEvent::DirChanged { ok: true }
        ),
{
}

/// The events of a start that goes through: the lock is free, both forks
/// report the child's side, both other steps work, and the process that is
/// left is `pid`.
pub open spec fn detached_as(pid: i32) -> Seq<LaunchEvent> {
    seq![
        LaunchEvent::Lock { outcome: LockOutcome::Acquired },
        LaunchEvent::Forked { side: ForkOutcome::Child },
        LaunchEvent::SessionStarted { ok: true },
        LaunchEvent::Forked { side: ForkOutcome::Child },
        LaunchEvent::DirChanged { ok: true },
        LaunchEvent::Pid { pid },
    ]
}

/// Once nothing is left to do, nothing is asked for, whatever is reported.
pub proof fn lemma_finished_is_final(s: Launcher, events: Seq<LaunchEvent>)
    requires
        s.phase == LaunchPhase::Finished,
    ensures
        s.after(events) == s,
        forall|i: int| 0 <= i < events.len() ==> s.answer(events, i) == None::<LaunchAction>,
    decreases events.len(),
{
    if events.len() > 0 {
        lemma_finished_is_final(s, events.drop_last());
    }
    assert forall|i: int| 0 <= i < events.len() implies s.answer(events, i) == None::<
        LaunchAction,
    > by {
        lemma_finished_is_final(s, events.take(i));
    }
}

/// Mutual exclusion, on the side of the one who comes second. A start that
/// does not get the lock is refused at once, as already running where another
/// process holds the lock, and asks for nothing after that: it does not fork
/// or detach, and never reaches the supervision loop, which alone spawns the
/// command and writes the record.
pub proof fn lemma_refused_without_lock(events: Seq<LaunchEvent>)
    requires
        events.len() > 0,
        events[0] matches LaunchEvent::Lock { outcome } && outcome != LockOutcome::Acquired,
    ensures
        events[0] == (LaunchEvent::Lock { outcome: LockOutcome::Busy }) ==> Launcher::initial().answer(
            events,
            0,
        ) == Some(LaunchAction::Refuse { error: LockError::AlreadyRunning }),
        events[0] == (LaunchEvent::Lock { outcome: LockOutcome::Unavailable })
            ==> Launcher::initial().answer(events, 0) == Some(
            LaunchAction::Refuse { error: LockError::Io },
        ),
        forall|i: int| 0 < i < events.len() ==> Launcher::initial().answer(events, i) == None::<
            LaunchAction,
        >,
{
    let start = Launcher::initial();
    let refused = Launcher { phase: LaunchPhase::Finished };
    assert(events.take(0) =~= Seq::<LaunchEvent>::empty());
    assert(events.take(1).drop_last() =~= events.take(0));
    assert(start.after(events.take(1)) == refused);
    assert forall|i: int| 0 < i < events.len() implies start.answer(events, i) == None::<
        LaunchAction,
    > by {
        let rest = events.subrange(1, i);
        assert(events.take(i) =~= events.take(1) + rest);
        lemma_launch_after_concat(start, events.take(1), rest);
        lemma_finished_is_final(refused, rest);
    }
}

/// Taking two runs of events one after the other is taking them as one run.
pub proof fn lemma_launch_after_concat(
    s: Launcher,
    first: Seq<LaunchEvent>,
    second: Seq<LaunchEvent>,
)
    ensures
        s.after(first + second) == s.after(first).after(second),
    decreases second.len(),
{
    if second.len() == 0 {
        assert(first + second =~= first);
    } else {
        assert((first + second).drop_last() =~= first + second.drop_last());
        assert((first + second).last() == second.last());
        lemma_launch_after_concat(s, first, second.drop_last());
    }
}

/// Detaching, step by step. With the lock taken, the start asks for a fork, a
/// new session, a second fork, the change of directory and the process's
/// identifier, in this order, and then hands that identifier to the
/// supervision loop.
pub proof fn lemma_detach_sequence(pid: i32)
    ensures
        ({
            let start = Launcher::initial();
            let events = detached_as(pid);
            &&& start.answer(events, 0) == Some(LaunchAction::Fork)
            &&& start.answer(events, 1) == Some(LaunchAction::StartSession)
            &&& start.answer(events, 2) == Some(LaunchAction::Fork)
            &&& start.answer(events, 3) == Some(LaunchAction::ChangeToRoot)
            &&& start.answer(events, 4) == Some(LaunchAction::ReadPid)
            &&& start.answer(events, 5) == Some(LaunchAction::Supervise { daemon_pid: pid })
            &&& start.after(events).phase == LaunchPhase::Finished
        }),
{
    let start = Launcher::initial();
    let events = detached_as(pid);
    assert(events.take(0) =~= Seq::<LaunchEvent>::empty());
    assert(events.take(1).drop_last() =~= events.take(0));
    assert(events.take(2).drop_last() =~= events.take(1));
    assert(events.take(3).drop_last() =~= events.take(2));
    assert(events.take(4).drop_last() =~= events.take(3));
    assert(events.take(5).drop_last() =~= events.take(4));
    assert(events.drop_last() =~= events.take(5));
    assert(start.after(events.take(1)).phase == LaunchPhase::FirstFork);
    assert(start.after(events.take(2)).phase == LaunchPhase::NewSession);
    assert(start.after(events.take(3)).phase == LaunchPhase::SecondFork);
    assert(start.after(events.take(4)).phase == LaunchPhase::ChangingDir);
    assert(start.after(events.take(5)).phase == LaunchPhase::ReadingPid);
}

/// Only the process that detaching leaves behind runs the supervision loop.
/// The loop is reached from the wait for the process's identifier alone, and
/// a fork's parent, or a step that failed, ends the start.
pub proof fn lemma_supervise_only_when_detached(s: Launcher, event: LaunchEvent)
    ensures
        s.next(event).1 matches Some(LaunchAction::Supervise { daemon_pid }) ==> (s.phase
            == LaunchPhase::ReadingPid && event == (LaunchEvent::Pid { pid: daemon_pid })),
        event == (LaunchEvent::Forked { side: ForkOutcome::Parent }) && s.next(event).1 is Some
            ==> s.next(event) == (
            Launcher { phase: LaunchPhase::Finished },
            Some(LaunchAction::ExitParent),
        ),
        (event == (LaunchEvent::Forked { side: ForkOutcome::Failed }) || event == (
            LaunchEvent::SessionStarted { ok: false }
        ) || event == (LaunchEvent::DirChanged { ok: false })) && s.next(event).1 is Some
            ==> s.next(event).0.phase == LaunchPhase::Finished
            && s.next(event).1 matches Some(LaunchAction::Abort { .. }),
{
}

} // verus!
