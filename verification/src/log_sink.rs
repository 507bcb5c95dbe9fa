//! The accounting of the log drain: when a chunk is appended, when the log's
//! size is looked at, and when the log is rotated.
//!
//! The drain reads the captured output in chunks and appends each chunk to the
//! log. It counts the bytes appended since it last looked at the log's size.
//! Once that count has reached [`CHECK_INTERVAL`], the next chunk waits for a
//! checkpoint: the log is measured, and where it is longer than the configured
//! maximum it is cut to nothing and restarted with a marker line. Rotation
//! keeps no history.
//!
//! Before each read the drain looks at the running flag and ends if it is
//! cleared. That is a shortcut: the drain ends with the stream in any case,
//! and it ends, with a word about it, when a read fails.
//!
//! The drain itself only decides. Whoever drives it reads the pipe, measures
//! and writes the file, and reports back what happened. The driver starts by
//! reporting the running flag.

use vstd::prelude::*;

verus! {

/// Bytes appended between two looks at the log's size: 1 MiB.
pub const CHECK_INTERVAL: u64 = 1048576;

/// Size of the buffer that one read fills, and so the longest chunk.
pub const DRAIN_BUFFER_LEN: usize = 4096;

/// The rotation threshold used when none is configured, in MiB.
pub const DEFAULT_MAX_LOG_SIZE_MIB: u64 = 10;

/// Bytes in one MiB.
pub const MIB: u64 = 1048576;

/// The size of `mib` MiB in bytes; `None` where a `u64` cannot hold it.
pub fn mib_to_bytes(mib: u64) -> (bytes: Option<u64>)
    ensures
        match bytes {
            Some(b) => b == mib * MIB,
            None => mib * MIB > u64::MAX,
        },
{
    mib.checked_mul(MIB)
}

/// How one read from the pipe ended.
#[derive(Clone, Copy, Debug, PartialEq, Eq, Structural)]
pub enum ReadResult {
    /// The read returned this many bytes; none means the stream has ended.
    Bytes { len: usize },
    /// The read failed because the stream ended in the middle of a read.
    UnexpectedEof,
    /// The read failed in any other way.
    Error,
}

/// What the drain is waiting for.
#[derive(Clone, Copy, Debug, PartialEq, Eq, Structural)]
pub enum DrainPhase {
    /// Waiting for the value of the running flag.
    Polling,
    /// Waiting for a read to end.
    Reading,
    /// Waiting for the log's length; a chunk of `pending` bytes is held back.
    Checking { pending: usize },
    /// The drain has ended.
    Stopped,
}

/// What the driver reports to the drain.
#[derive(Clone, Copy, Debug, PartialEq, Eq, Structural)]
pub enum DrainEvent {
    /// The running flag as it was just read.
    Flag { running: bool },
    /// A read from the pipe has ended.
    Read { result: ReadResult },
    /// The log's current length in bytes.
    Measured { log_len: u64 },
}

/// What the drain asks its driver to do next.
#[derive(Clone, Copy, Debug, PartialEq, Eq, Structural)]
pub enum DrainAction {
    /// Read the next chunk from the pipe and report how the read ended.
    Read,
    /// Measure the log and report its length.
    Measure,
    /// Append the chunk of `len` bytes, then report the running flag.
    Append { len: usize },
    /// Flush the log, append the chunk, then report the running flag.
    FlushThenAppend { len: usize },
    /// Cut the log to nothing, write the rotation marker, flush, append the
    /// chunk, then report the running flag.
    RotateThenAppend { len: usize },
    /// End the drain; with `report`, say first that reading failed.
    Stop { report: bool },
}

/// The drain's state.
#[derive(Clone, Copy, Debug, PartialEq, Eq, Structural)]
pub struct LogSink {
    /// The log is rotated at a checkpoint that finds it longer than this.
    pub max_log_size: u64,
    /// Bytes appended since the log's size was last looked at.
    pub written_since_check: u64,
    pub phase: DrainPhase,
}

/// A step's outcome: the state after it and, unless the event was not the one
/// the drain was waiting for, the action to take.
pub type DrainStep = (LogSink, Option<DrainAction>);

impl LogSink {
    /// What holds of every state that the drain reaches from its start: the
    /// count stays below one interval and one buffer, and a chunk held back
    /// is a chunk that a read can return.
    pub open spec fn wf(self) -> bool {
        &&& self.written_since_check < CHECK_INTERVAL + DRAIN_BUFFER_LEN
        &&& self.phase matches DrainPhase::Checking { pending } ==> 0 < pending
            <= DRAIN_BUFFER_LEN
    }

    /// The drain before its first read.
    pub open spec fn initial(max_log_size: u64) -> LogSink {
        LogSink { max_log_size, written_since_check: 0, phase: DrainPhase::Polling }
    }

    /// A checkpoint is due before the next chunk is appended.
    pub open spec fn checkpoint_due(self) -> bool {
        self.written_since_check >= CHECK_INTERVAL
    }

    /// The drain's transition function. An event that the current phase does
    /// not wait for changes nothing and asks for nothing, and so does a chunk
    /// longer than the read buffer. Once the drain has ended, every event is
    /// answered by the request to stop.
    pub open spec fn next(self, event: DrainEvent) -> DrainStep {
        match (self.phase, event) {
            (DrainPhase::Stopped, _) => (self, Some(DrainAction::Stop { report: false })),
            (DrainPhase::Polling, DrainEvent::Flag { running }) => {
                if running {
                    (LogSink { phase: DrainPhase::Reading, ..self }, Some(DrainAction::Read))
                } else {
                    (
                        LogSink { phase: DrainPhase::Stopped, ..self },
                        Some(DrainAction::Stop { report: false }),
                    )
                }
            },
            (DrainPhase::Reading, DrainEvent::Read { result }) => match result {
                ReadResult::Bytes { len } => {
                    if len == 0 {
                        (
                            LogSink { phase: DrainPhase::Stopped, ..self },
                            Some(DrainAction::Stop { report: false }),
                        )
                    } else if len > DRAIN_BUFFER_LEN {
                        (self, None)
                    } else if self.checkpoint_due() {
                        (
                            LogSink { phase: DrainPhase::Checking { pending: len }, ..self },
                            Some(DrainAction::Measure),
                        )
                    } else {
                        (
                            LogSink {
                                written_since_check: (self.written_since_check + len) as u64,
                                phase: DrainPhase::Polling,
                                ..self
                            },
                            Some(DrainAction::Append { len }),
                        )
                    }
                },
                ReadResult::UnexpectedEof => (
                    LogSink { phase: DrainPhase::Stopped, ..self },
                    Some(DrainAction::Stop { report: false }),
                ),
                ReadResult::Error => (
                    LogSink { phase: DrainPhase::Stopped, ..self },
                    Some(DrainAction::Stop { report: true }),
                ),
            },
            (DrainPhase::Checking { pending }, DrainEvent::Measured { log_len }) => (
                LogSink {
                    written_since_check: pending as u64,
                    phase: DrainPhase::Polling,
                    ..self
                },
                Some(
                    if log_len > self.max_log_size {
                        DrainAction::RotateThenAppend { len: pending }
                    } else {
                        DrainAction::FlushThenAppend { len: pending }
                    },
                ),
            ),
            _ => (self, None),
        }
    }

    /// The drain before its first read, rotating above `max_log_size` bytes.
    pub fn new(max_log_size: u64) -> (sink: LogSink)
        ensures
            sink == LogSink::initial(max_log_size),
            sink.wf(),
    {
        LogSink { max_log_size, written_since_check: 0, phase: DrainPhase::Polling }
    }

    /// Takes one event and returns the action that answers it, or `None` where
    /// the drain was not waiting for that event.
    pub fn step(&mut self, event: DrainEvent) -> (action: Option<DrainAction>)
        ensures
            (*final(self), action) == old(self).next(event),
            old(self).wf() ==> final(self).wf(),
    {
        match (self.phase, event) {
            (DrainPhase::Stopped, _) => Some(DrainAction::Stop { report: false }),
            (DrainPhase::Polling, DrainEvent::Flag { running }) => {
                if running {
                    self.phase = DrainPhase::Reading;
                    Some(DrainAction::Read)
                } else {
                    self.phase = DrainPhase::Stopped;
                    Some(DrainAction::Stop { report: false })
                }
            },
            (DrainPhase::Reading, DrainEvent::Read { result }) => match result {
                ReadResult::Bytes { len } => {
                    if len == 0 {
                        self.phase = DrainPhase::Stopped;
                        Some(DrainAction::Stop { report: false })
                    } else if len > DRAIN_BUFFER_LEN {
                        None
                    } else if self.written_since_check >= CHECK_INTERVAL {
                        self.phase = DrainPhase::Checking { pending: len };
                        Some(DrainAction::Measure)
                    } else {
                        self.written_since_check = self.written_since_check + len as u64;
                        self.phase = DrainPhase::Polling;
                        Some(DrainAction::Append { len })
                    }
                },
                ReadResult::UnexpectedEof => {
                    self.phase = DrainPhase::Stopped;
                    Some(DrainAction::Stop { report: false })
                },
                ReadResult::Error => {
                    self.phase = DrainPhase::Stopped;
                    Some(DrainAction::Stop { report: true })
                },
            },
            (DrainPhase::Checking { pending }, DrainEvent::Measured { log_len }) => {
                let rotate = log_len > self.max_log_size;
                self.written_since_check = pending as u64;
                self.phase = DrainPhase::Polling;
                if rotate {
                    Some(DrainAction::RotateThenAppend { len: pending })
                } else {
                    Some(DrainAction::FlushThenAppend { len: pending })
                }
            },
            _ => None,
        }
    }
}

/// The log's length after the driver has carried out `action` on a log of
/// `before` bytes, where the rotation marker is `marker_len` bytes long.
pub open spec fn log_len_after(action: Option<DrainAction>, before: nat, marker_len: nat) -> nat {
    match action {
        Some(DrainAction::Append { len }) => before + len as nat,
        Some(DrainAction::FlushThenAppend { len }) => before + len as nat,
        Some(DrainAction::RotateThenAppend { len }) => marker_len + len as nat,
        _ => before,
    }
}

/// One turn of the drain on a model of the log: the running flag is set, a
/// read returns `len` bytes, and nobody but the drain writes to the log, which
/// holds `log_len` bytes before the turn. Gives the drain and the log's length
/// after the turn.
pub open spec fn drain_chunk(sink: LogSink, log_len: nat, len: usize, marker_len: nat) -> (
    LogSink,
    nat,
) {
    let polled = sink.next(DrainEvent::Flag { running: true }).0;
    let read = polled.next(DrainEvent::Read { result: ReadResult::Bytes { len } });
    if read.1 == Some(DrainAction::Measure) {
        let checked = read.0.next(DrainEvent::Measured { log_len: log_len as u64 });
        (checked.0, log_len_after(checked.1, log_len, marker_len))
    } else {
        (read.0, log_len_after(read.1, log_len, marker_len))
    }
}

/// The part of the log that was there when the drain last looked at it, or
/// that a rotation has put there since: what the log holds without the bytes
/// that were appended since the last checkpoint.
pub open spec fn settled_len(sink: LogSink, log_len: nat) -> int {
    log_len - sink.written_since_check
}

/// What that part is kept to: the maximum, or the marker where it is longer.
pub open spec fn settled_bound(sink: LogSink, marker_len: nat) -> nat {
    if marker_len > sink.max_log_size {
        marker_len
    } else {
        sink.max_log_size as nat
    }
}

/// What a log that held `initial_len` bytes when the drain started is kept
/// below: one interval and one buffer more than the longest of
/// [`settled_bound`] and `initial_len`.
pub open spec fn log_len_bound(sink: LogSink, marker_len: nat, initial_len: nat) -> nat {
    let base = if initial_len > settled_bound(sink, marker_len) {
        initial_len
    } else {
        settled_bound(sink, marker_len)
    };
    base + CHECK_INTERVAL as nat + DRAIN_BUFFER_LEN as nat
}

/// The drain and the log after the turns for chunks of `lens` bytes, one
/// after the other.
pub open spec fn drain_chunks(sink: LogSink, log_len: nat, lens: Seq<usize>, marker_len: nat) -> (
    LogSink,
    nat,
)
    decreases lens.len(),
{
    if lens.len() == 0 {
        (sink, log_len)
    } else {
        let before = drain_chunks(sink, log_len, lens.drop_last(), marker_len);
        drain_chunk(before.0, before.1, lens.last(), marker_len)
    }
}

/// A checkpoint that finds the log longer than the maximum rotates it: the
/// log then holds the marker and the chunk that was held back, and nothing
/// else.
pub proof fn lemma_checkpoint_rotates(sink: LogSink, pending: usize, log_len: u64, marker_len: nat)
    requires
        sink.phase == (DrainPhase::Checking { pending }),
        log_len > sink.max_log_size,
    ensures
        sink.next(DrainEvent::Measured { log_len }).1 == Some(
            DrainAction::RotateThenAppend { len: pending },
        ),
        log_len_after(sink.next(DrainEvent::Measured { log_len }).1, log_len as nat, marker_len)
            == marker_len + pending,
        sink.next(DrainEvent::Measured { log_len }).0.written_since_check == pending,
{
}

/// A checkpoint that finds the log no longer than the maximum keeps it and
/// appends the chunk that was held back.
pub proof fn lemma_checkpoint_keeps(sink: LogSink, pending: usize, log_len: u64, marker_len: nat)
    requires
        sink.phase == (DrainPhase::Checking { pending }),
        log_len <= sink.max_log_size,
    ensures
        sink.next(DrainEvent::Measured { log_len }).1 == Some(
            DrainAction::FlushThenAppend { len: pending },
        ),
        log_len_after(sink.next(DrainEvent::Measured { log_len }).1, log_len as nat, marker_len)
            == log_len + pending,
        sink.next(DrainEvent::Measured { log_len }).0.written_since_check == pending,
{
}

/// One turn of the drain, in full. The log is looked at exactly when the
/// count has reached the interval. At such a checkpoint a log longer than the
/// maximum is left holding the marker and the new chunk; otherwise the chunk
/// is added to what the log held. The count restarts at a checkpoint and grows
/// by the chunk's length.
pub proof fn lemma_drain_chunk(sink: LogSink, log_len: nat, len: usize, marker_len: nat)
    requires
        sink.phase == DrainPhase::Polling,
        0 < len <= DRAIN_BUFFER_LEN,
        log_len <= u64::MAX,
    ensures
        ({
            let (after, new_len) = drain_chunk(sink, log_len, len, marker_len);
            &&& after.phase == DrainPhase::Polling
            &&& after.max_log_size == sink.max_log_size
            &&& sink.checkpoint_due() ==> after.written_since_check == len
            &&& sink.checkpoint_due() && log_len > sink.max_log_size ==> new_len == marker_len
                + len
            &&& sink.checkpoint_due() && log_len <= sink.max_log_size ==> new_len == log_len
                + len
            &&& !sink.checkpoint_due() ==> after.written_since_check
                == sink.written_since_check + len
            &&& !sink.checkpoint_due() ==> new_len == log_len + len
        }),
{
}

/// The log stays bounded, turn by turn. Where the settled part of the log is
/// no longer than `base`, which is no less than its bound, it is so after one
/// more turn, and the log as a whole is shorter than `base` and one interval
/// and one buffer. A turn with a checkpoint brings the settled part within
/// its bound, however long the log was.
pub proof fn lemma_log_stays_bounded(
    sink: LogSink,
    log_len: nat,
    len: usize,
    marker_len: nat,
    base: nat,
)
    requires
        sink.wf(),
        sink.phase == DrainPhase::Polling,
        0 < len <= DRAIN_BUFFER_LEN,
        log_len <= u64::MAX,
        settled_bound(sink, marker_len) <= base,
        settled_len(sink, log_len) <= base,
    ensures
        ({
            let (after, new_len) = drain_chunk(sink, log_len, len, marker_len);
            &&& after.wf()
            &&& after.phase == DrainPhase::Polling
            &&& after.max_log_size == sink.max_log_size
            &&& settled_len(after, new_len) <= base
            &&& new_len < base + CHECK_INTERVAL + DRAIN_BUFFER_LEN
            &&& sink.checkpoint_due() ==> settled_len(after, new_len) <= settled_bound(
                after,
                marker_len,
            )
        }),
{
}

/// The log stays bounded, for good. Whatever the log held when the drain
/// started, and however many chunks the drain is given, the log stays shorter
/// than [`log_len_bound`]: than the maximum, or the marker or what the log
/// held at the start where that is longer, and one interval and one buffer.
/// The maximum is kept up to that much, and no closer.
pub proof fn lemma_log_never_reaches_bound(
    max_log_size: u64,
    initial_len: nat,
    lens: Seq<usize>,
    marker_len: nat,
)
    requires
        log_len_bound(LogSink::initial(max_log_size), marker_len, initial_len) <= u64::MAX,
        forall|i: int| 0 <= i < lens.len() ==> 0 < #[trigger] lens[i] <= DRAIN_BUFFER_LEN,
    ensures
        ({
            let start = LogSink::initial(max_log_size);
            let (after, new_len) = drain_chunks(start, initial_len, lens, marker_len);
            &&& after.wf()
            &&& after.phase == DrainPhase::Polling
            &&& after.max_log_size == max_log_size
            &&& settled_len(after, new_len) + CHECK_INTERVAL + DRAIN_BUFFER_LEN <= log_len_bound(
                start,
                marker_len,
                initial_len,
            )
            &&& lens.len() == 0 ==> new_len == initial_len
            &&& lens.len() > 0 ==> new_len < log_len_bound(start, marker_len, initial_len)
        }),
    decreases lens.len(),
{
    let start = LogSink::initial(max_log_size);
    let base = (log_len_bound(start, marker_len, initial_len) - CHECK_INTERVAL
        - DRAIN_BUFFER_LEN) as nat;
    if lens.len() > 0 {
        let front = lens.drop_last();
        assert forall|i: int| 0 <= i < front.len() implies 0 < #[trigger] front[i]
            <= DRAIN_BUFFER_LEN by {
            assert(front[i] == lens[i]);
        }
        lemma_log_never_reaches_bound(max_log_size, initial_len, front, marker_len);
        let before = drain_chunks(start, initial_len, front, marker_len);
        lemma_log_stays_bounded(before.0, before.1, lens.last(), marker_len, base);
    }
}

} // verus!
