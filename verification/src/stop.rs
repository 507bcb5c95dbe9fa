//! Stopping a daemon from another process, by the identifiers in its record.
//!
//! The daemon is asked to terminate and given a second; if it is still there
//! it is killed. The child gets five seconds, looked at every 100 ms, and is
//! killed if it outlives them. Where the daemon is already gone, that is said,
//! the child is looked at once and it is said whether it runs, and nothing is
//! signalled. A signal that cannot be delivered counts as sent: its target is
//! taken to be gone.
//!
//! The driver starts by probing the daemon, and reports what it found.

use vstd::prelude::*;
use vstd::string::*;
use crate::decimal::{decimal, push_decimal};
use crate::process::Signal;
use crate::record::ProcessRecord;

verus! {

/// Milliseconds that the daemon gets to terminate before it is killed.
pub const DAEMON_GRACE_MILLIS: u64 = 1000;

/// Milliseconds between two looks at the child.
pub const CHILD_POLL_MILLIS: u64 = 100;

/// Seconds that the child gets to exit before it is killed.
pub const CHILD_BUDGET_SECS: u64 = 5;

/// What stopping is waiting for.
#[derive(Clone, Copy, Debug, PartialEq, Eq, Structural)]
pub enum StopPhase {
    /// Waiting for the first probe of the daemon.
    CheckingDaemon,
    /// The daemon was gone at the first probe; waiting for the probe of the
    /// child that it left.
    CheckingChild,
    /// Waiting for the request to terminate to be sent to the daemon.
    Terminating,
    /// Waiting for the daemon's second to pass.
    Grace,
    /// Waiting for the second probe of the daemon.
    RecheckingDaemon,
    /// Waiting for the kill to be sent to the daemon.
    KillingDaemon,
    /// Waiting for the time spent on the child so far.
    Timing,
    /// Waiting for a probe of the child, within its time.
    PollingChild,
    /// Waiting for the pause between two looks at the child to pass.
    Napping,
    /// Waiting for the last probe of the child.
    FinalCheck,
    /// Waiting for the kill to be sent to the child.
    KillingChild,
    /// Nothing is left to do.
    Finished,
}

/// What the driver reports.
#[derive(Clone, Copy, Debug, PartialEq, Eq, Structural)]
pub enum StopEvent {
    /// Whether the probed process exists.
    Probed { alive: bool },
    /// The sleep is over, or the signal was sent or could not be delivered.
    Done,
    /// Whole seconds since the clock was started.
    Elapsed { secs: u64 },
}

/// What the driver is asked to do next.
#[derive(Clone, Copy, Debug, PartialEq, Eq, Structural)]
pub enum StopAction {
    /// Probe `pid` and report whether it exists.
    Probe { pid: i32 },
    /// Send `signal` to `pid` and report that this is done.
    Send { pid: i32, signal: Signal },
    /// Sleep for `millis` milliseconds and report that this is done.
    Sleep { millis: u64 },
    /// Start the clock and report the seconds on it.
    StartClock,
    /// Report the seconds on the clock.
    ReadClock,
    /// Return.
    Finish,
}

/// What the user is told on the way.
#[derive(Clone, Copy, Debug, PartialEq, Eq, Structural)]
pub enum StopNote {
    /// The daemon was gone before anything was sent.
    DaemonNotRunning { pid: i32 },
    /// The child of a daemon that was gone is gone too.
    ChildNotRunning { pid: i32 },
    /// The child of a daemon that was gone is still there; it is left alone.
    ChildRunning { pid: i32 },
    /// The daemon outlived its second and is killed.
    DaemonSurvived { pid: i32 },
    /// The daemon is dealt with; the child is waited for.
    WaitingForChild { daemon_pid: i32, child_pid: i32 },
    /// The child is gone.
    ChildExited { pid: i32 },
    /// The child is still there and gets another pause.
    ChildStillRunning { pid: i32 },
    /// The child outlived its time and is killed.
    ChildSurvived { pid: i32 },
}

impl StopNote {
    /// The note as the user reads it.
    pub open spec fn text(self) -> Seq<char> {
        match self {
            StopNote::DaemonNotRunning { pid } => "Daemon "@ + decimal(pid as int)
                + " is not running"@,
            StopNote::ChildNotRunning { pid } => "Child process "@ + decimal(pid as int)
                + " is not running"@,
            StopNote::ChildRunning { pid } => "Child process "@ + decimal(pid as int)
                + " is running"@,
            StopNote::DaemonSurvived { pid } => "Daemon "@ + decimal(pid as int)
                + " is still running after SIGTERM, sending SIGKILL"@,
            StopNote::WaitingForChild { daemon_pid, child_pid } => "Stopped daemon "@ + decimal(
                daemon_pid as int,
            ) + ", waiting for child "@ + decimal(child_pid as int) + " to exit"@,
            StopNote::ChildExited { pid } => "Child process "@ + decimal(pid as int)
                + " exited"@,
            StopNote::ChildStillRunning { pid } => "Child process "@ + decimal(pid as int)
                + " is still running"@,
            StopNote::ChildSurvived { pid } => "Child process "@ + decimal(pid as int)
                + " is still running after 5 seconds, killing it"@,
        }
    }

    /// The note as the user reads it.
    pub fn message(&self) -> (message: String)
        ensures
            message@ == self.text(),
    {
        let mut message = String::new();
        match *self {
            StopNote::DaemonNotRunning { pid } => {
                message.append("Daemon ");
                push_decimal(&mut message, pid);
                message.append(" is not running");
            },
            StopNote::ChildNotRunning { pid } => {
                message.append("Child process ");
                push_decimal(&mut message, pid);
                message.append(" is not running");
            },
            StopNote::ChildRunning { pid } => {
                message.append("Child process ");
                push_decimal(&mut message, pid);
                message.append(" is running");
            },
            StopNote::DaemonSurvived { pid } => {
                message.append("Daemon ");
                push_decimal(&mut message, pid);
                message.append(" is still running after SIGTERM, sending SIGKILL");
            },
            StopNote::WaitingForChild { daemon_pid, child_pid } => {
                message.append("Stopped daemon ");
                push_decimal(&mut message, daemon_pid);
                message.append(", waiting for child ");
                push_decimal(&mut message, child_pid);
                message.append(" to exit");
            },
            StopNote::ChildExited { pid } => {
                message.append("Child process ");
                push_decimal(&mut message, pid);
                message.append(" exited");
            },
            StopNote::ChildStillRunning { pid } => {
                message.append("Child process ");
                push_decimal(&mut message, pid);
                message.append(" is still running");
            },
            StopNote::ChildSurvived { pid } => {
                message.append("Child process ");
                push_decimal(&mut message, pid);
                message.append(" is still running after 5 seconds, killing it");
            },
        }
        assert(message@ =~= self.text());
        message
    }
}

/// An answer: what to tell the user, if anything, and what to do then.
#[derive(Clone, Copy, Debug, PartialEq, Eq, Structural)]
pub struct StopOrder {
    pub note: Option<StopNote>,
    pub action: StopAction,
}

/// The state of stopping.
#[derive(Clone, Copy, Debug, PartialEq, Eq, Structural)]
pub struct StopSequence {
    /// The processes to stop.
    pub record: ProcessRecord,
    pub phase: StopPhase,
}

/// A step's outcome: the state after it and, unless the event was not the one
/// that was waited for, the answer.
pub type StopStep = (StopSequence, Option<StopOrder>);

/// An answer that tells the user nothing.
pub open spec fn quietly(action: StopAction) -> Option<StopOrder> {
    Some(StopOrder { note: None, action })
}

/// An answer that tells the user `note` first.
pub open spec fn saying(note: StopNote, action: StopAction) -> Option<StopOrder> {
    Some(StopOrder { note: Some(note), action })
}

impl StopSequence {
    /// Stopping the processes of `record`, before the first probe.
    pub open spec fn initial(record: ProcessRecord) -> StopSequence {
        StopSequence { record, phase: StopPhase::CheckingDaemon }
    }

    /// The same sequence in another phase.
    pub open spec fn at(self, phase: StopPhase) -> StopSequence {
        StopSequence { phase, ..self }
    }

    /// The transition function. An event that the current phase does not wait
    /// for changes nothing and gets no answer.
    pub open spec fn next(self, event: StopEvent) -> StopStep {
        let daemon = self.record.daemon_pid;
        let child = self.record.child_pid;
        let waiting = StopNote::WaitingForChild { daemon_pid: daemon, child_pid: child };
        match (self.phase, event) {
            (StopPhase::CheckingDaemon, StopEvent::Probed { alive }) => {
                if alive {
                    (
                        self.at(StopPhase::Terminating),
                        quietly(StopAction::Send { pid: daemon, signal: Signal::Terminate }),
                    )
                } else {
                    (
                        self.at(StopPhase::CheckingChild),
                        saying(
                            StopNote::DaemonNotRunning { pid: daemon },
                            StopAction::Probe { pid: child },
                        ),
                    )
                }
            },
            (StopPhase::CheckingChild, StopEvent::Probed { alive }) => {
                if alive {
                    (
                        self.at(StopPhase::Finished),
                        saying(StopNote::ChildRunning { pid: child }, StopAction::Finish),
                    )
                } else {
                    (
                        self.at(StopPhase::Finished),
                        saying(StopNote::ChildNotRunning { pid: child }, StopAction::Finish),
                    )
                }
            },
            (StopPhase::Terminating, StopEvent::Done) => (
                self.at(StopPhase::Grace),
                quietly(StopAction::Sleep { millis: DAEMON_GRACE_MILLIS }),
            ),
            (StopPhase::Grace, StopEvent::Done) => (
                self.at(StopPhase::RecheckingDaemon),
                quietly(StopAction::Probe { pid: daemon }),
            ),
            (StopPhase::RecheckingDaemon, StopEvent::Probed { alive }) => {
                if alive {
                    (
                        self.at(StopPhase::KillingDaemon),
                        saying(
                            StopNote::DaemonSurvived { pid: daemon },
                            StopAction::Send { pid: daemon, signal: Signal::Kill },
                        ),
                    )
                } else {
                    (self.at(StopPhase::Timing), saying(waiting, StopAction::StartClock))
                }
            },
            (StopPhase::KillingDaemon, StopEvent::Done) => (
                self.at(StopPhase::Timing),
                saying(waiting, StopAction::StartClock),
            ),
            (StopPhase::Timing, StopEvent::Elapsed { secs }) => {
                if secs < CHILD_BUDGET_SECS {
                    (self.at(StopPhase::PollingChild), quietly(StopAction::Probe { pid: child }))
                } else {
                    (self.at(StopPhase::FinalCheck), quietly(StopAction::Probe { pid: child }))
                }
            },
            (StopPhase::PollingChild, StopEvent::Probed { alive }) => {
                if alive {
                    (
                        self.at(StopPhase::Napping),
                        saying(
                            StopNote::ChildStillRunning { pid: child },
                            StopAction::Sleep { millis: CHILD_POLL_MILLIS },
                        ),
                    )
                } else {
                    (
                        self.at(StopPhase::FinalCheck),
                        saying(
                            StopNote::ChildExited { pid: child },
                            StopAction::Probe { pid: child },
                        ),
                    )
                }
            },
            (StopPhase::Napping, StopEvent::Done) => (
                self.at(StopPhase::Timing),
                quietly(StopAction::ReadClock),
            ),
            (StopPhase::FinalCheck, StopEvent::Probed { alive }) => {
                if alive {
                    (
                        self.at(StopPhase::KillingChild),
                        saying(
                            StopNote::ChildSurvived { pid: child },
                            StopAction::Send { pid: child, signal: Signal::Kill },
                        ),
                    )
                } else {
                    (self.at(StopPhase::Finished), quietly(StopAction::Finish))
                }
            },
            (StopPhase::KillingChild, StopEvent::Done) => (
                self.at(StopPhase::Finished),
                quietly(StopAction::Finish),
            ),
            _ => (self, None),
        }
    }

    /// The sequence after it has taken `events` in turn.
    pub open spec fn after(self, events: Seq<StopEvent>) -> StopSequence
        decreases events.len(),
    {
        if events.len() == 0 {
            self
        } else {
            self.after(events.drop_last()).next(events.last()).0
        }
    }

    /// The answer to the event at index `i` of `events`, taken in turn.
    pub open spec fn answer(self, events: Seq<StopEvent>, i: int) -> Option<StopOrder> {
        self.after(events.take(i)).next(events[i]).1
    }

    /// Stopping the processes of `record`, before the first probe.
    pub fn new(record: ProcessRecord) -> (sequence: StopSequence)
        ensures
            sequence == StopSequence::initial(record),
    {
        StopSequence { record, phase: StopPhase::CheckingDaemon }
    }

    /// Takes one event and returns the answer to it, or `None` where that
    /// event was not waited for.
    pub fn step(&mut self, event: StopEvent) -> (order: Option<StopOrder>)
        ensures
            (*final(self), order) == old(self).next(event),
    {
        let daemon = self.record.daemon_pid;
        let child = self.record.child_pid;
        let waiting = StopNote::WaitingForChild { daemon_pid: daemon, child_pid: child };
        match (self.phase, event) {
            (StopPhase::CheckingDaemon, StopEvent::Probed { alive }) => {
                if alive {
                    self.phase = StopPhase::Terminating;
                    quiet(StopAction::Send { pid: daemon, signal: Signal::Terminate })
                } else {
                    self.phase = StopPhase::CheckingChild;
                    say(StopNote::DaemonNotRunning { pid: daemon }, StopAction::Probe { pid: child })
                }
            },
            (StopPhase::CheckingChild, StopEvent::Probed { alive }) => {
                self.phase = StopPhase::Finished;
                if alive {
                    say(StopNote::ChildRunning { pid: child }, StopAction::Finish)
                } else {
                    say(StopNote::ChildNotRunning { pid: child }, StopAction::Finish)
                }
            },
            (StopPhase::Terminating, StopEvent::Done) => {
                self.phase = StopPhase::Grace;
                quiet(StopAction::Sleep { millis: DAEMON_GRACE_MILLIS })
            },
            (StopPhase::Grace, StopEvent::Done) => {
                self.phase = StopPhase::RecheckingDaemon;
                quiet(StopAction::Probe { pid: daemon })
            },
            (StopPhase::RecheckingDaemon, StopEvent::Probed { alive }) => {
                if alive {
                    self.phase = StopPhase::KillingDaemon;
                    say(
                        StopNote::DaemonSurvived { pid: daemon },
                        StopAction::Send { pid: daemon, signal: Signal::Kill },
                    )
                } else {
                    self.phase = StopPhase::Timing;
                    say(waiting, StopAction::StartClock)
                }
            },
            (StopPhase::KillingDaemon, StopEvent::Done) => {
                self.phase = StopPhase::Timing;
                say(waiting, StopAction::StartClock)
            },
            (StopPhase::Timing, StopEvent::Elapsed { secs }) => {
                if secs < CHILD_BUDGET_SECS {
                    self.phase = StopPhase::PollingChild;
                } else {
                    self.phase = StopPhase::FinalCheck;
                }
                quiet(StopAction::Probe { pid: child })
            },
            (StopPhase::PollingChild, StopEvent::Probed { alive }) => {
                if alive {
                    self.phase = StopPhase::Napping;
                    say(
                        StopNote::ChildStillRunning { pid: child },
                        StopAction::Sleep { millis: CHILD_POLL_MILLIS },
                    )
                } else {
                    self.phase = StopPhase::FinalCheck;
                    say(StopNote::ChildExited { pid: child }, StopAction::Probe { pid: child })
                }
            },
            (StopPhase::Napping, StopEvent::Done) => {
                self.phase = StopPhase::Timing;
                quiet(StopAction::ReadClock)
            },
            (StopPhase::FinalCheck, StopEvent::Probed { alive }) => {
                if alive {
                    self.phase = StopPhase::KillingChild;
                    say(
                        StopNote::ChildSurvived { pid: child },
                        StopAction::Send { pid: child, signal: Signal::Kill },
                    )
                } else {
                    self.phase = StopPhase::Finished;
                    quiet(StopAction::Finish)
                }
            },
            (StopPhase::KillingChild, StopEvent::Done) => {
                self.phase = StopPhase::Finished;
                quiet(StopAction::Finish)
            },
            _ => None,
        }
    }
}

fn quiet(action: StopAction) -> (order: Option<StopOrder>)
    ensures
        order == quietly(action),
{
    Some(StopOrder { note: None, action })
}

fn say(note: StopNote, action: StopAction) -> (order: Option<StopOrder>)
    ensures
        order == saying(note, action),
{
    Some(StopOrder { note: Some(note), action })
}

/// Once nothing is left to do, no event gets an answer.
pub proof fn lemma_stop_finished_is_final(s: StopSequence, events: Seq<StopEvent>)
    requires
        s.phase == StopPhase::Finished,
    ensures
        s.after(events) == s,
        forall|i: int| 0 <= i < events.len() ==> s.answer(events, i) == None::<StopOrder>,
    decreases events.len(),
{
    if events.len() > 0 {
        lemma_stop_finished_is_final(s, events.drop_last());
    }
    assert forall|i: int| 0 <= i < events.len() implies s.answer(events, i) == None::<
        StopOrder,
    > by {
        lemma_stop_finished_is_final(s, events.take(i));
    }
}

/// Taking two runs of events one after the other is taking them as one run.
pub proof fn lemma_stop_after_concat(
    s: StopSequence,
    first: Seq<StopEvent>,
    second: Seq<StopEvent>,
)
    ensures
        s.after(first + second) == s.after(first).after(second),
    decreases second.len(),
{
    if second.len() == 0 {
        assert(first + second =~= first);
    } else {
        assert((first + second).drop_last() =~= first + second.drop_last());
        assert((first + second).last() == second.last());
        lemma_stop_after_concat(s, first, second.drop_last());
    }
}

/// Whether `order` asks for a signal to be sent.
pub open spec fn orders_signal(order: Option<StopOrder>) -> bool {
    order matches Some(given) && given.action is Send
}

/// No event changes the record that is being stopped.
pub proof fn lemma_stop_record_is_fixed(s: StopSequence, events: Seq<StopEvent>)
    ensures
        s.after(events).record == s.record,
    decreases events.len(),
{
    if events.len() > 0 {
        lemma_stop_record_is_fixed(s, events.drop_last());
    }
}

/// Once the daemon was found gone, no signal is asked for, whatever is
/// reported.
proof fn lemma_stale_sends_nothing(s: StopSequence, events: Seq<StopEvent>)
    requires
        s.phase == StopPhase::CheckingChild || s.phase == StopPhase::Finished,
    ensures
        s.after(events).phase == StopPhase::CheckingChild || s.after(events).phase
            == StopPhase::Finished,
        forall|i: int| 0 <= i < events.len() ==> !orders_signal(#[trigger] s.answer(events, i)),
    decreases events.len(),
{
    if events.len() > 0 {
        lemma_stale_sends_nothing(s, events.drop_last());
    }
    assert forall|i: int| 0 <= i < events.len() implies !orders_signal(
        #[trigger] s.answer(events, i),
    ) by {
        lemma_stale_sends_nothing(s, events.take(i));
    }
}

/// Stopping what does not run changes nothing. Where the first probe finds no
/// daemon, the user is told so and the child is probed; whether the child is
/// gone too or still there, the user is told that as well, and the sequence
/// is over. Both processes of a stale record are so reported as not running.
/// No signal is sent on the way, to the daemon or to the child, whatever is
/// reported. The record is left as it was, so stopping again starts from the
/// same state and gives the same.
pub proof fn lemma_stop_without_daemon(record: ProcessRecord, events: Seq<StopEvent>)
    requires
        events.len() > 0,
        events[0] == (StopEvent::Probed { alive: false }),
    ensures
        StopSequence::initial(record).answer(events, 0) == saying(
            StopNote::DaemonNotRunning { pid: record.daemon_pid },
            StopAction::Probe { pid: record.child_pid },
        ),
        events.len() > 1 && events[1] == (StopEvent::Probed { alive: false })
            ==> StopSequence::initial(record).answer(events, 1) == saying(
            StopNote::ChildNotRunning { pid: record.child_pid },
            StopAction::Finish,
        ),
        events.len() > 1 && events[1] == (StopEvent::Probed { alive: true })
            ==> StopSequence::initial(record).answer(events, 1) == saying(
            StopNote::ChildRunning { pid: record.child_pid },
            StopAction::Finish,
        ),
        events.len() > 1 && events[1] is Probed ==> StopSequence::initial(record).after(
            events,
        ).phase == StopPhase::Finished && forall|i: int|
            1 < i < events.len() ==> StopSequence::initial(record).answer(events, i) == None::<
                StopOrder,
            >,
        forall|i: int|
            0 <= i < events.len() ==> !orders_signal(
                #[trigger] StopSequence::initial(record).answer(events, i),
            ),
        StopSequence::initial(StopSequence::initial(record).after(events).record)
            == StopSequence::initial(record),
{
    let start = StopSequence::initial(record);
    let stale = start.at(StopPhase::CheckingChild);
    let over = start.at(StopPhase::Finished);
    let later = events.subrange(1, events.len() as int);
    lemma_stop_record_is_fixed(start, events);
    assert(events.take(0) =~= Seq::<StopEvent>::empty());
    assert(events.take(1).drop_last() =~= events.take(0));
    assert(start.after(events.take(1)) == stale);
    lemma_stale_sends_nothing(stale, later);
    assert forall|i: int| 0 <= i < events.len() implies !orders_signal(
        #[trigger] start.answer(events, i),
    ) by {
        if i > 0 {
            let rest = events.subrange(1, i);
            assert(events.take(i) =~= events.take(1) + rest);
            lemma_stop_after_concat(start, events.take(1), rest);
            assert(later.take(i - 1) =~= rest);
            assert(later[i - 1] == events[i]);
            assert(start.answer(events, i) == stale.answer(later, i - 1));
        }
    }
    if events.len() > 1 && events[1] is Probed {
        assert(events.take(2).drop_last() =~= events.take(1));
        assert(start.after(events.take(2)) == over);
        assert forall|i: int| 1 < i <= events.len() implies start.after(events.take(i))
            == over by {
            let rest = events.subrange(2, i);
            assert(events.take(i) =~= events.take(2) + rest);
            lemma_stop_after_concat(start, events.take(2), rest);
            lemma_stop_finished_is_final(over, rest);
        }
        assert(events.take(events.len() as int) =~= events);
    }
}

impl StopSequence {
    /// The process whose probe is waited for, if one is.
    pub open spec fn probed(self) -> Option<i32> {
        match self.phase {
            StopPhase::CheckingDaemon | StopPhase::RecheckingDaemon => Some(
                self.record.daemon_pid,
            ),
            StopPhase::CheckingChild | StopPhase::PollingChild | StopPhase::FinalCheck => Some(
                self.record.child_pid,
            ),
            _ => None,
        }
    }
}

/// The event at index `j` of `events` settles the process `pid`: it reports
/// that the probe of `pid` found it gone, or it is answered by the order to
/// kill `pid`.
pub open spec fn settles(s: StopSequence, events: Seq<StopEvent>, j: int, pid: i32) -> bool {
    &&& 0 <= j < events.len()
    &&& {
        ||| events[j] == (StopEvent::Probed { alive: false }) && s.after(
            events.take(j),
        ).probed() == Some(pid)
        ||| s.answer(events, j) is Some && s.answer(events, j)->0.action == (
            StopAction::Send { pid, signal: Signal::Kill }
        )
    }
}

/// One of the first `k` events of `events` settles the process `pid`.
pub open spec fn settled_within(
    s: StopSequence,
    events: Seq<StopEvent>,
    k: int,
    pid: i32,
) -> bool {
    exists|j: int| 0 <= j < k && #[trigger] settles(s, events, j, pid)
}

/// How far stopping a live daemon has come says what was done: past the
/// second probe of the daemon, the daemon is settled; past the last probe of
/// the child, the child is settled too.
proof fn lemma_stop_progress(record: ProcessRecord, events: Seq<StopEvent>, k: int)
    requires
        0 < k <= events.len(),
        events[0] == (StopEvent::Probed { alive: true }),
    ensures
        ({
            let start = StopSequence::initial(record);
            let phase = start.after(events.take(k)).phase;
            &&& start.after(events.take(k)).record == record
            &&& phase != StopPhase::CheckingDaemon
            &&& phase != StopPhase::CheckingChild
            &&& phase != StopPhase::Terminating && phase != StopPhase::Grace && phase
                != StopPhase::RecheckingDaemon ==> settled_within(
                start,
                events,
                k,
                record.daemon_pid,
            )
            &&& phase == StopPhase::KillingChild || phase == StopPhase::Finished
                ==> settled_within(start, events, k, record.child_pid)
        }),
    decreases k,
{
    let start = StopSequence::initial(record);
    assert(events.take(k).drop_last() =~= events.take(k - 1));
    if k == 1 {
        assert(events.take(0) =~= Seq::<StopEvent>::empty());
    } else {
        lemma_stop_progress(record, events, k - 1);
        let before = start.after(events.take(k - 1));
        if before.phase == StopPhase::RecheckingDaemon && events[k - 1] is Probed {
            assert(settles(start, events, k - 1, record.daemon_pid));
        }
        if before.phase == StopPhase::FinalCheck && events[k - 1] is Probed {
            assert(settles(start, events, k - 1, record.child_pid));
        }
    }
}

/// Stopping a live daemon ends only when both are dealt with. Where the
/// first probe finds the daemon alive and the sequence comes to its end, the
/// daemon was found gone by a probe or its kill was ordered, and so was the
/// child: none of the two is left running unseen.
pub proof fn lemma_stop_settles_both(record: ProcessRecord, events: Seq<StopEvent>, i: int)
    requires
        0 <= i < events.len(),
        events[0] == (StopEvent::Probed { alive: true }),
        StopSequence::initial(record).answer(events, i) is Some,
        StopSequence::initial(record).answer(events, i)->0.action == StopAction::Finish,
    ensures
        settled_within(StopSequence::initial(record), events, i + 1, record.daemon_pid),
        settled_within(StopSequence::initial(record), events, i + 1, record.child_pid),
{
    let start = StopSequence::initial(record);
    assert(events.take(0) =~= Seq::<StopEvent>::empty());
    assert(i > 0);
    lemma_stop_progress(record, events, i);
    lemma_stop_progress(record, events, i + 1);
    assert(events.take(i + 1).drop_last() =~= events.take(i));
}

/// A signal goes only to a process of the record that a probe has just found
/// alive; the request to terminate goes to the daemon alone, and only as the
/// first signal.
pub proof fn lemma_signals_follow_live_probe(s: StopSequence, event: StopEvent)
    ensures
        s.next(event).1 matches Some(order) ==> (order.action matches StopAction::Send {
            pid,
            signal,
        } ==> {
            &&& event == (StopEvent::Probed { alive: true })
            &&& pid == s.record.daemon_pid || pid == s.record.child_pid
            &&& signal == Signal::Terminate ==> pid == s.record.daemon_pid && s.phase
                == StopPhase::CheckingDaemon
        }),
        s.next(event).0.record == s.record,
{
}

/// The events of stopping a daemon that ignores the request to terminate and
/// a child that is still there when its time is up, after one look at the
/// child before that.
pub open spec fn stubborn_events() -> Seq<StopEvent> {
    seq![
        StopEvent::Probed { alive: true },
        StopEvent::Done,
        StopEvent::Done,
        StopEvent::Probed { alive: true },
        StopEvent::Done,
        StopEvent::Elapsed { secs: 0 },
        StopEvent::Probed { alive: true },
        StopEvent::Done,
        StopEvent::Elapsed { secs: CHILD_BUDGET_SECS },
        StopEvent::Probed { alive: true },
        StopEvent::Done,
    ]
}

/// Escalation, step by step. A daemon that is alive is asked to terminate and
/// given its second; still alive, it is killed. The child is then looked at,
/// with a pause after each look that finds it, until its time is up; still
/// alive then, it is killed too. The two are dealt with one after the other.
pub proof fn lemma_stop_escalates(record: ProcessRecord)
    ensures
        ({
            let start = StopSequence::initial(record);
            let events = stubborn_events();
            let daemon = record.daemon_pid;
            let child = record.child_pid;
            &&& start.answer(events, 0) == quietly(
                StopAction::Send { pid: daemon, signal: Signal::Terminate },
            )
            &&& start.answer(events, 1) == quietly(StopAction::Sleep { millis: 1000 })
            &&& start.answer(events, 2) == quietly(StopAction::Probe { pid: daemon })
            &&& start.answer(events, 3) == saying(
                StopNote::DaemonSurvived { pid: daemon },
                StopAction::Send { pid: daemon, signal: Signal::Kill },
            )
            &&& start.answer(events, 4) == saying(
                StopNote::WaitingForChild { daemon_pid: daemon, child_pid: child },
                StopAction::StartClock,
            )
            &&& start.answer(events, 5) == quietly(StopAction::Probe { pid: child })
            &&& start.answer(events, 6) == saying(
                StopNote::ChildStillRunning { pid: child },
                StopAction::Sleep { millis: 100 },
            )
            &&& start.answer(events, 7) == quietly(StopAction::ReadClock)
            &&& start.answer(events, 8) == quietly(StopAction::Probe { pid: child })
            &&& start.answer(events, 9) == saying(
                StopNote::ChildSurvived { pid: child },
                StopAction::Send { pid: child, signal: Signal::Kill },
            )
            &&& start.answer(events, 10) == quietly(StopAction::Finish)
            &&& start.after(events).phase == StopPhase::Finished
        }),
{
    let start = StopSequence::initial(record);
    let events = stubborn_events();
    assert(events.take(0) =~= Seq::<StopEvent>::empty());
    assert(events.take(1).drop_last() =~= events.take(0));
    assert(events.take(2).drop_last() =~= events.take(1));
    assert(events.take(3).drop_last() =~= events.take(2));
    assert(events.take(4).drop_last() =~= events.take(3));
    assert(events.take(5).drop_last() =~= events.take(4));
    assert(events.take(6).drop_last() =~= events.take(5));
    assert(events.take(7).drop_last() =~= events.take(6));
    assert(events.take(8).drop_last() =~= events.take(7));
    assert(events.take(9).drop_last() =~= events.take(8));
    assert(events.take(10).drop_last() =~= events.take(9));
    assert(events.drop_last() =~= events.take(10));
    assert(start.after(events.take(1)).phase == StopPhase::Terminating);
    assert(start.after(events.take(2)).phase == StopPhase::Grace);
    assert(start.after(events.take(3)).phase == StopPhase::RecheckingDaemon);
    assert(start.after(events.take(4)).phase == StopPhase::KillingDaemon);
    assert(start.after(events.take(5)).phase == StopPhase::Timing);
    assert(start.after(events.take(6)).phase == StopPhase::PollingChild);
    assert(start.after(events.take(7)).phase == StopPhase::Napping);
    assert(start.after(events.take(8)).phase == StopPhase::Timing);
    assert(start.after(events.take(9)).phase == StopPhase::FinalCheck);
    assert(start.after(events.take(10)).phase == StopPhase::KillingChild);
}

} // verus!
