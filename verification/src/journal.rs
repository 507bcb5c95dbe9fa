//! The lines that the daemon writes to its log about itself.
//!
//! Each line starts with the time in square brackets, written as RFC 3339
//! gives it for UTC, such as `[2015-05-15T00:00:00+00:00]`.

use vstd::prelude::*;
use vstd::string::*;
use crate::decimal::{decimal, digits, push_decimal, push_digits};

verus! {

/// The RFC 3339 text of the instant that lies `secs` seconds and `nanos`
/// nanoseconds after the start of 1970 in UTC, as `chrono` writes it; `None`
/// where `chrono` knows no such instant.
pub uninterp spec fn rfc3339_text(secs: i64, nanos: u32) -> Option<Seq<char>>;

/// Makes the instant with `chrono::DateTime::from_timestamp` and writes it
/// with `chrono::DateTime::to_rfc3339`. The first gives no instant for
/// seconds out of its range or nanoseconds that are no part of a second; the
/// second depends on the instant alone, so its result has a name, and the
/// contract says no more than that.
#[verifier::external_body]
fn rfc3339(secs: i64, nanos: u32) -> (text: Option<String>)
    ensures
        match text {
            Some(stamp) => rfc3339_text(secs, nanos) == Some(stamp@),
            None => rfc3339_text(secs, nanos) is None,
        },
{
    match chrono::DateTime::from_timestamp(secs, nanos) {
        Some(instant) => Some(instant.to_rfc3339()),
        None => None,
    }
}

/// A log line: the time `stamp` in brackets, a space, and `body`.
pub open spec fn stamped_text(stamp: Seq<char>, body: Seq<char>) -> Seq<char> {
    "["@ + stamp + "] "@ + body
}

/// What the log says after a rotation.
pub open spec fn rotation_text() -> Seq<char> {
    "Log size exceeded. Rotated"@
}

/// What the log says when the daemon is asked to stop.
pub open spec fn shutdown_text() -> Seq<char> {
    "Daemon: Received Ctrl-C, shutting down..."@
}

/// What the log says when the child `child_pid` has exited with `status`.
pub open spec fn exit_text(child_pid: i32, status: Seq<char>) -> Seq<char> {
    "Child process "@ + decimal(child_pid as int) + " exited with status "@ + status
}

/// What the log says before the restart delay of `seconds` seconds.
pub open spec fn restart_text(seconds: u64) -> Seq<char> {
    "Restarting child process in "@ + digits(seconds as nat) + " seconds..."@
}

/// The log line that says `body` at the time written as `stamp`.
pub fn stamped(stamp: &str, body: &str) -> (line: String)
    ensures
        line@ == stamped_text(stamp@, body@),
{
    let mut line = String::new();
    line.append("[");
    line.append(stamp);
    line.append("] ");
    line.append(body);
    assert(line@ =~= stamped_text(stamp@, body@));
    line
}

/// The log line that says `body` at the instant `secs` seconds and `nanos`
/// nanoseconds after the start of 1970 in UTC; `None` where there is no such
/// instant.
pub fn log_line(secs: i64, nanos: u32, body: &str) -> (line: Option<String>)
    ensures
        match rfc3339_text(secs, nanos) {
            Some(stamp) => line matches Some(text) && text@ == stamped_text(stamp, body@),
            None => line is None,
        },
{
    match rfc3339(secs, nanos) {
        Some(stamp) => Some(stamped(stamp.as_str(), body)),
        None => None,
    }
}

/// What the log says after a rotation.
pub fn rotation_notice() -> (body: &'static str)
    ensures
        body@ == rotation_text(),
{
    "Log size exceeded. Rotated"
}

/// What the log says when the daemon is asked to stop.
pub fn shutdown_notice() -> (body: &'static str)
    ensures
        body@ == shutdown_text(),
{
    "Daemon: Received Ctrl-C, shutting down..."
}

/// What the log says when the child `child_pid` has exited with `status`.
pub fn exit_notice(child_pid: i32, status: &str) -> (body: String)
    ensures
        body@ == exit_text(child_pid, status@),
{
    let mut body = String::new();
    body.append("Child process ");
    push_decimal(&mut body, child_pid);
    body.append(" exited with status ");
    body.append(status);
    assert(body@ =~= exit_text(child_pid, status@));
    body
}

/// What the log says before the restart delay of `seconds` seconds.
pub fn restart_notice(seconds: u64) -> (body: String)
    ensures
        body@ == restart_text(seconds),
{
    let mut body = String::new();
    body.append("Restarting child process in ");
    push_digits(&mut body, seconds);
    body.append(" seconds...");
    assert(body@ =~= restart_text(seconds));
    body
}

/// The rotation marker is as long as its time and 29 characters more.
pub proof fn lemma_rotation_marker_len(stamp: Seq<char>)
    ensures
        stamped_text(stamp, rotation_text()).len() == stamp.len() + 29,
{
    reveal_strlit("[");
    reveal_strlit("] ");
    reveal_strlit("Log size exceeded. Rotated");
}

} // verus!
