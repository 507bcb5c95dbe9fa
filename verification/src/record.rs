//! The record of the daemon and its current child, as it is kept on disk.
//!
//! The record is text, one `key: value` line for each identifier:
//!
//! ```text
//! daemon_pid: 4711
//! child_pid: 4712
//! ```
//!
//! Reading is lenient about what it does not know and strict about what it
//! does. Lines are taken in turn, each without the white space around it. A
//! line without a colon is passed over, and so is a line whose key, the part
//! before the first colon, is not one of the two. The value of a known key
//! must be a whole number that an `i32` holds; the first one that is not ends
//! the reading with an error that names it. A key that comes again replaces
//! the value before. When all lines are read both identifiers must have been
//! found: none is made up.

use vstd::prelude::*;
use vstd::string::*;
use crate::decimal::{
    decimal, is_number_char, lemma_decimal_chars, lemma_parse_decimal, parse_i32, parse_i32_range,
    push_decimal,
};
use crate::text::{
    find, index_of, is_space, lemma_index_of_after, lemma_trim_keeps, range_is, to_chars, trim,
    trim_range, trim_start,
};

verus! {

/// The identifiers of the daemon and of the child that it started last.
#[derive(Clone, Copy, Debug, PartialEq, Eq, Structural)]
pub struct ProcessRecord {
    pub daemon_pid: i32,
    pub child_pid: i32,
}

/// The two entries of a record.
#[derive(Clone, Copy, Debug, PartialEq, Eq, Structural)]
pub enum Field {
    DaemonPid,
    ChildPid,
}

/// Why no record was read.
#[derive(Debug, PartialEq, Eq)]
pub enum RecordError {
    /// There is no record.
    NotFound,
    /// The entry `field` holds `value`, which is no identifier.
    InvalidValue { field: Field, value: String },
    /// The record has no entry `field`.
    MissingField { field: Field },
}

/// A [`RecordError`] as contracts see it.
pub enum RecordFault {
    NotFound,
    InvalidValue { field: Field, value: Seq<char> },
    MissingField { field: Field },
}

impl View for RecordError {
    type V = RecordFault;

    open spec fn view(&self) -> RecordFault {
        match self {
            RecordError::NotFound => RecordFault::NotFound,
            RecordError::InvalidValue { field, value } => RecordFault::InvalidValue {
                field: *field,
                value: value@,
            },
            RecordError::MissingField { field } => RecordFault::MissingField { field: *field },
        }
    }
}

impl RecordFault {
    /// The error as the user reads it.
    pub open spec fn text(self) -> Seq<char> {
        match self {
            RecordFault::NotFound => "PID file does not exist"@,
            RecordFault::InvalidValue { field, value } => "failed to parse "@ + field.key()
                + ": "@ + value,
            RecordFault::MissingField { field } => field.key() + " not found in PID file"@,
        }
    }
}

impl Field {
    /// The key that the entry is written under.
    pub open spec fn key(self) -> Seq<char> {
        match self {
            Field::DaemonPid => "daemon_pid"@,
            Field::ChildPid => "child_pid"@,
        }
    }

    /// The key that the entry is written under.
    pub fn name(&self) -> (name: &'static str)
        ensures
            name@ == self.key(),
    {
        match self {
            Field::DaemonPid => "daemon_pid",
            Field::ChildPid => "child_pid",
        }
    }
}

impl RecordError {
    /// The error as the user reads it.
    pub fn message(&self) -> (message: String)
        ensures
            message@ == self@.text(),
    {
        let mut message = String::new();
        match self {
            RecordError::NotFound => {
                message.append("PID file does not exist");
            },
            RecordError::InvalidValue { field, value } => {
                message.append("failed to parse ");
                message.append(field.name());
                message.append(": ");
                message.append(value.as_str());
            },
            RecordError::MissingField { field } => {
                message.append(field.name());
                message.append(" not found in PID file");
            },
        }
        assert(message@ =~= self@.text());
        message
    }
}

/// The outcome of reading a record, as contracts see it.
pub open spec fn outcome_view(outcome: Result<ProcessRecord, RecordError>) -> Result<
    ProcessRecord,
    RecordFault,
> {
    match outcome {
        Ok(record) => Ok(record),
        Err(error) => Err(error@),
    }
}

/// The line that gives `field` the value `value`, without its line end.
pub open spec fn entry_text(field: Field, value: i32) -> Seq<char> {
    field.key() + seq![':', ' '] + decimal(value as int)
}

/// The text of a record: the daemon's line, then the child's.
pub open spec fn record_text(record: ProcessRecord) -> Seq<char> {
    entry_text(Field::DaemonPid, record.daemon_pid) + seq!['\n'] + entry_text(
        Field::ChildPid,
        record.child_pid,
    ) + seq!['\n']
}

/// The lines of `s`: its parts between line feeds. A line feed at the very
/// end starts no further line.
pub open spec fn lines(s: Seq<char>) -> Seq<Seq<char>>
    decreases s.len(),
{
    let end = index_of(s, '\n');
    if s.len() == 0 {
        Seq::empty()
    } else if end < 0 || end >= s.len() {
        seq![s]
    } else {
        seq![s.take(end)] + lines(s.skip(end + 1))
    }
}

/// What one line says.
pub enum Line {
    /// Nothing that concerns the record.
    Skipped,
    /// `field` has the value `value`.
    Entry { field: Field, value: i32 },
    /// `field` is given as `text`, which is no identifier.
    Invalid { field: Field, text: Seq<char> },
}

/// What the value `value`, given for `field`, says.
pub open spec fn read_value(field: Field, value: Seq<char>) -> Line {
    match parse_i32(value) {
        Some(number) => Line::Entry { field, value: number },
        None => Line::Invalid { field, text: value },
    }
}

/// What the line `line` says.
pub open spec fn read_line(line: Seq<char>) -> Line {
    let entry = trim(line);
    let colon = index_of(entry, ':');
    if colon < 0 || colon >= entry.len() {
        Line::Skipped
    } else {
        let key = trim(entry.take(colon));
        let value = trim(entry.skip(colon + 1));
        if key == Field::DaemonPid.key() {
            read_value(Field::DaemonPid, value)
        } else if key == Field::ChildPid.key() {
            read_value(Field::ChildPid, value)
        } else {
            Line::Skipped
        }
    }
}

/// The identifiers found so far.
pub struct Found {
    pub daemon_pid: Option<i32>,
    pub child_pid: Option<i32>,
}

impl Found {
    /// Nothing found yet.
    pub open spec fn nothing() -> Found {
        Found { daemon_pid: None, child_pid: None }
    }

    /// The same with `value` found for `field`, in place of what was there.
    pub open spec fn with(self, field: Field, value: i32) -> Found {
        match field {
            Field::DaemonPid => Found { daemon_pid: Some(value), ..self },
            Field::ChildPid => Found { child_pid: Some(value), ..self },
        }
    }

    /// The record, where both identifiers were found; else the first that is
    /// missing, the daemon's before the child's.
    pub open spec fn complete(self) -> Result<ProcessRecord, RecordFault> {
        match (self.daemon_pid, self.child_pid) {
            (Some(daemon_pid), Some(child_pid)) => Ok(ProcessRecord { daemon_pid, child_pid }),
            (None, _) => Err(RecordFault::MissingField { field: Field::DaemonPid }),
            (_, None) => Err(RecordFault::MissingField { field: Field::ChildPid }),
        }
    }
}

/// What is found after `lines` are read in turn, starting from `found`; or
/// the first value that is no identifier.
pub open spec fn read_lines(lines: Seq<Seq<char>>, found: Found) -> Result<Found, RecordFault>
    decreases lines.len(),
{
    if lines.len() == 0 {
        Ok(found)
    } else {
        match read_line(lines.first()) {
            Line::Skipped => read_lines(lines.drop_first(), found),
            Line::Entry { field, value } => read_lines(
                lines.drop_first(),
                found.with(field, value),
            ),
            Line::Invalid { field, text } => Err(RecordFault::InvalidValue { field, value: text }),
        }
    }
}

/// The record that the text `s` holds, or why it holds none.
pub open spec fn parse_text(s: Seq<char>) -> Result<ProcessRecord, RecordFault> {
    match read_lines(lines(s), Found::nothing()) {
        Ok(found) => found.complete(),
        Err(fault) => Err(fault),
    }
}

/// Writes `record` as text.
pub fn format_record(record: ProcessRecord) -> (text: String)
    ensures
        text@ == record_text(record),
{
    proof {
        reveal_strlit(": ");
        reveal_strlit("\n");
    }
    let mut text = String::new();
    text.append(Field::DaemonPid.name());
    text.append(": ");
    push_decimal(&mut text, record.daemon_pid);
    text.append("\n");
    text.append(Field::ChildPid.name());
    text.append(": ");
    push_decimal(&mut text, record.child_pid);
    text.append("\n");
    assert(text@ =~= record_text(record));
    text
}

/// Reads a record from the text `content`.
#[verifier::loop_isolation(false)]
pub fn parse_record(content: &str) -> (outcome: Result<ProcessRecord, RecordError>)
    ensures
        outcome_view(outcome) == parse_text(content@),
{
    let chars = to_chars(content);
    let daemon_key = to_chars(Field::DaemonPid.name());
    let child_key = to_chars(Field::ChildPid.name());
    let n = chars.len();
    let mut daemon_pid: Option<i32> = None;
    let mut child_pid: Option<i32> = None;
    let mut pos: usize = 0;
    assert(chars@.skip(0) =~= chars@);
    while pos < n
        invariant
            pos <= n,
            read_lines(lines(chars@), Found::nothing()) == read_lines(
                lines(chars@.skip(pos as int)),
                Found { daemon_pid, child_pid },
            ),
        decreases n - pos,
    {
        let ghost rest = chars@.skip(pos as int);
        let end = find(&chars, pos, n, '\n');
        let after: usize = if end < n {
            end + 1
        } else {
            n
        };
        let ghost line = chars@.subrange(pos as int, end as int);
        proof {
            assert(chars@.subrange(pos as int, n as int) =~= rest);
            assert(rest.take(end - pos) =~= line);
            if end < n {
                assert(rest.skip(end - pos + 1) =~= chars@.skip(after as int));
            } else {
                assert(line =~= rest);
                assert(lines(chars@.skip(after as int)) =~= Seq::<Seq<char>>::empty());
            }
            assert(lines(rest).first() == line);
            assert(lines(rest).drop_first() =~= lines(chars@.skip(after as int)));
        }
        let (from, to) = trim_range(&chars, pos, end);
        let colon = find(&chars, from, to, ':');
        if colon < to {
            let ghost entry = chars@.subrange(from as int, to as int);
            let (key_from, key_to) = trim_range(&chars, from, colon);
            let (value_from, value_to) = trim_range(&chars, colon + 1, to);
            proof {
                assert(entry.take(colon - from) =~= chars@.subrange(from as int, colon as int));
                assert(entry.skip(colon - from + 1) =~= chars@.subrange(colon + 1, to as int));
            }
            let field = if range_is(&chars, key_from, key_to, &daemon_key) {
                Some(Field::DaemonPid)
            } else if range_is(&chars, key_from, key_to, &child_key) {
                Some(Field::ChildPid)
            } else {
                None
            };
            match field {
                Some(field) => {
                    match parse_i32_range(&chars, value_from, value_to) {
                        Some(number) => {
                            match field {
                                Field::DaemonPid => {
                                    daemon_pid = Some(number);
                                },
                                Field::ChildPid => {
                                    child_pid = Some(number);
                                },
                            }
                        },
                        None => {
                            let value = content.substring_char(value_from, value_to).to_owned();
                            return Err(RecordError::InvalidValue { field, value });
                        },
                    }
                },
                None => {},
            }
        }
        pos = after;
    }
    assert(lines(chars@.skip(pos as int)) =~= Seq::<Seq<char>>::empty());
    match (daemon_pid, child_pid) {
        (Some(daemon_pid), Some(child_pid)) => Ok(ProcessRecord { daemon_pid, child_pid }),
        (None, _) => Err(RecordError::MissingField { field: Field::DaemonPid }),
        (_, None) => Err(RecordError::MissingField { field: Field::ChildPid }),
    }
}

/// Reads a record from what the record file holds; `None` stands for a file
/// that is not there.
pub fn load_record(content: Option<&str>) -> (outcome: Result<ProcessRecord, RecordError>)
    ensures
        outcome_view(outcome) == match content {
            Some(text) => parse_text(text@),
            None => Err(RecordFault::NotFound),
        },
{
    match content {
        Some(text) => parse_record(text),
        None => Err(RecordError::NotFound),
    }
}

/// The two keys, character by character.
proof fn lemma_keys()
    ensures
        Field::DaemonPid.key() =~= seq!['d', 'a', 'e', 'm', 'o', 'n', '_', 'p', 'i', 'd'],
        Field::ChildPid.key() =~= seq!['c', 'h', 'i', 'l', 'd', '_', 'p', 'i', 'd'],
{
    reveal_strlit("daemon_pid");
    reveal_strlit("child_pid");
}

/// A line that is followed by a line feed is the first line of the text, and
/// the other lines are those of what follows the line feed.
pub proof fn lemma_first_line(line: Seq<char>, rest: Seq<char>)
    requires
        forall|i: int| 0 <= i < line.len() ==> line[i] != '\n',
    ensures
        lines(line + seq!['\n'] + rest) == seq![line] + lines(rest),
{
    let text = line + seq!['\n'] + rest;
    let tail = seq!['\n'] + rest;
    assert(text =~= line + tail);
    assert(tail.first() == '\n');
    lemma_index_of_after(line, tail, '\n');
    assert(text.take(line.len() as int) =~= line);
    assert(text.skip(line.len() as int + 1) =~= rest);
}

/// The line that is written for an entry says that entry.
pub proof fn lemma_read_entry(field: Field, value: i32)
    ensures
        read_line(entry_text(field, value)) == (Line::Entry { field, value }),
        forall|i: int|
            0 <= i < entry_text(field, value).len() ==> entry_text(field, value)[i] != '\n',
{
    let key = field.key();
    let number = decimal(value as int);
    let line = entry_text(field, value);
    let tail = seq![':', ' '] + number;
    lemma_keys();
    lemma_decimal_chars(value as int);
    lemma_parse_decimal(value);
    assert(!is_space(number.first()) && !is_space(number.last())) by {
        assert(is_number_char(number[0]));
        assert(is_number_char(number[number.len() - 1]));
    }
    assert forall|i: int| 0 <= i < key.len() implies key[i] != ':' && key[i] != '\n' && !is_space(
        key[i],
    ) by {
        if field == Field::DaemonPid {
            let k = seq!['d', 'a', 'e', 'm', 'o', 'n', '_', 'p', 'i', 'd'];
            assert(key[i] == k[i]);
        } else {
            let k = seq!['c', 'h', 'i', 'l', 'd', '_', 'p', 'i', 'd'];
            assert(key[i] == k[i]);
        }
    }
    assert forall|i: int| 0 <= i < line.len() implies line[i] != '\n' by {
        if i >= key.len() + 2 {
            assert(line[i] == number[i - key.len() - 2]);
            assert(is_number_char(number[i - key.len() - 2]));
        }
    }
    assert(line.first() == key[0]);
    assert(line.last() == number.last());
    lemma_trim_keeps(line);
    assert(line =~= key + tail);
    assert(tail.first() == ':');
    lemma_index_of_after(key, tail, ':');
    assert(index_of(line, ':') == key.len());
    assert(line.take(key.len() as int) =~= key);
    assert(key.first() == key[0] && key.last() == key[key.len() - 1]);
    lemma_trim_keeps(key);
    let spaced = line.skip(key.len() as int + 1);
    assert(spaced =~= seq![' '] + number);
    assert(is_space(spaced.first()));
    assert(spaced.drop_first() =~= number);
    assert(trim_start(spaced) == trim_start(number));
    lemma_trim_keeps(number);
    assert(trim(spaced) == number);
    assert(Field::DaemonPid.key().len() != Field::ChildPid.key().len());
}

/// What is written is read back: the text of a record holds that record.
pub proof fn lemma_record_round_trip(record: ProcessRecord)
    ensures
        parse_text(record_text(record)) == Ok::<ProcessRecord, RecordFault>(record),
{
    let first = entry_text(Field::DaemonPid, record.daemon_pid);
    let second = entry_text(Field::ChildPid, record.child_pid);
    let empty = Seq::<char>::empty();
    lemma_read_entry(Field::DaemonPid, record.daemon_pid);
    lemma_read_entry(Field::ChildPid, record.child_pid);
    assert(record_text(record) =~= first + seq!['\n'] + (second + seq!['\n'] + empty));
    lemma_first_line(first, second + seq!['\n'] + empty);
    lemma_first_line(second, empty);
    let all = lines(record_text(record));
    assert(all =~= seq![first, second]);
    let found = Found::nothing().with(Field::DaemonPid, record.daemon_pid);
    assert(all.drop_first() =~= seq![second]);
    assert(seq![second].drop_first() =~= Seq::<Seq<char>>::empty());
    assert(read_lines(seq![second], found) == Ok::<Found, RecordFault>(
        found.with(Field::ChildPid, record.child_pid),
    )) by {
        reveal_with_fuel(read_lines, 2);
    }
}

/// Unknown lines are tolerated: a first line that says nothing about the
/// record can be left out.
pub proof fn lemma_skipped_line(line: Seq<char>, rest: Seq<char>)
    requires
        forall|i: int| 0 <= i < line.len() ==> line[i] != '\n',
        read_line(line) == Line::Skipped,
    ensures
        parse_text(line + seq!['\n'] + rest) == parse_text(rest),
{
    lemma_first_line(line, rest);
    assert((seq![line] + lines(rest)).drop_first() =~= lines(rest));
}

/// The value that `line` gives to `field`, if it gives one.
pub open spec fn value_in(line: Seq<char>, field: Field) -> Option<i32> {
    match read_line(line) {
        Line::Entry { field: given, value } => if given == field {
            Some(value)
        } else {
            None
        },
        _ => None,
    }
}

/// The error that `line` is, if it gives a known key a value that is no
/// identifier.
pub open spec fn fault_in(line: Seq<char>) -> Option<RecordFault> {
    match read_line(line) {
        Line::Invalid { field, text } => Some(RecordFault::InvalidValue { field, value: text }),
        _ => None,
    }
}

/// The line at index `i` of `lines` is the first that gives a known key a
/// value that is no identifier.
pub open spec fn first_invalid_at(lines: Seq<Seq<char>>, i: int) -> bool {
    &&& 0 <= i < lines.len()
    &&& read_line(lines[i]) is Invalid
    &&& forall|j: int| 0 <= j < i ==> !(read_line(#[trigger] lines[j]) is Invalid)
}

/// The line at index `i` of `lines` is the last that gives `field` a value.
pub open spec fn last_entry_at(lines: Seq<Seq<char>>, field: Field, i: int) -> bool {
    &&& 0 <= i < lines.len()
    &&& value_in(lines[i], field) is Some
    &&& forall|j: int| i < j < lines.len() ==> value_in(#[trigger] lines[j], field) is None
}

/// No line of `lines` gives `field` a value.
pub open spec fn no_entry(lines: Seq<Seq<char>>, field: Field) -> bool {
    forall|j: int| 0 <= j < lines.len() ==> value_in(#[trigger] lines[j], field) is None
}

impl Found {
    /// What was found for `field`.
    pub open spec fn get(self, field: Field) -> Option<i32> {
        match field {
            Field::DaemonPid => self.daemon_pid,
            Field::ChildPid => self.child_pid,
        }
    }
}

/// The first bad value ends the reading. Lines are read up to the first that
/// gives a known key a value that is no identifier; the error names that key
/// and that value. Without such a line every line is read.
pub proof fn lemma_first_invalid_line(lines: Seq<Seq<char>>, found: Found)
    ensures
        read_lines(lines, found) is Err <==> exists|i: int| first_invalid_at(lines, i),
        forall|i: int| #[trigger]
            first_invalid_at(lines, i) ==> fault_in(lines[i]) is Some && read_lines(lines, found)
                == Err::<Found, RecordFault>(fault_in(lines[i])->0),
    decreases lines.len(),
{
    if lines.len() > 0 {
        let rest = lines.drop_first();
        let later = match read_line(lines.first()) {
            Line::Entry { field, value } => found.with(field, value),
            _ => found,
        };
        lemma_first_invalid_line(rest, later);
        if read_line(lines.first()) is Invalid {
            assert(first_invalid_at(lines, 0));
            assert forall|i: int| #[trigger] first_invalid_at(lines, i) implies i == 0 by {
                if i > 0 {
                    assert(!(read_line(lines[0]) is Invalid));
                }
            }
        } else {
            assert forall|i: int| #[trigger] first_invalid_at(lines, i) implies first_invalid_at(
                rest,
                i - 1,
            ) by {
                assert(rest[i - 1] == lines[i]);
                assert forall|j: int| 0 <= j < i - 1 implies !(read_line(#[trigger] rest[j])
                    is Invalid) by {
                    assert(rest[j] == lines[j + 1]);
                }
            }
            assert forall|i: int| #[trigger] first_invalid_at(rest, i) implies first_invalid_at(
                lines,
                i + 1,
            ) by {
                assert(rest[i] == lines[i + 1]);
                assert forall|j: int| 0 <= j < i + 1 implies !(read_line(#[trigger] lines[j])
                    is Invalid) by {
                    if j > 0 {
                        assert(rest[j - 1] == lines[j]);
                    }
                }
            }
            if read_lines(lines, found) is Err {
                let i = choose|i: int| first_invalid_at(rest, i);
                assert(first_invalid_at(lines, i + 1));
            }
            assert forall|i: int| #[trigger] first_invalid_at(lines, i) implies fault_in(
                lines[i],
            ) is Some && read_lines(lines, found) == Err::<Found, RecordFault>(
                fault_in(lines[i])->0,
            ) by {
                assert(first_invalid_at(rest, i - 1));
                assert(rest[i - 1] == lines[i]);
            }
        }
    }
}

/// The last value counts, and none is made up. Where every line is read, an
/// identifier is what the last line that gives it says; where no line gives
/// it, it stays as it was before the reading.
pub proof fn lemma_last_entry_counts(lines: Seq<Seq<char>>, found: Found, field: Field)
    requires
        read_lines(lines, found) is Ok,
    ensures
        no_entry(lines, field) ==> read_lines(lines, found)->Ok_0.get(field) == found.get(field),
        forall|i: int| #[trigger]
            last_entry_at(lines, field, i) ==> read_lines(lines, found)->Ok_0.get(field)
                == value_in(lines[i], field),
    decreases lines.len(),
{
    if lines.len() > 0 {
        let rest = lines.drop_first();
        let later = match read_line(lines.first()) {
            Line::Entry { field, value } => found.with(field, value),
            _ => found,
        };
        lemma_last_entry_counts(rest, later, field);
        if no_entry(lines, field) {
            assert(value_in(lines[0], field) is None);
            assert forall|j: int| 0 <= j < rest.len() implies value_in(
                #[trigger] rest[j],
                field,
            ) is None by {
                assert(rest[j] == lines[j + 1]);
            }
        }
        assert forall|i: int| #[trigger] last_entry_at(lines, field, i) implies read_lines(
            lines,
            found,
        )->Ok_0.get(field) == value_in(lines[i], field) by {
            if i == 0 {
                assert forall|j: int| 0 <= j < rest.len() implies value_in(
                    #[trigger] rest[j],
                    field,
                ) is None by {
                    assert(rest[j] == lines[j + 1]);
                }
                assert(no_entry(rest, field));
            } else {
                assert(rest[i - 1] == lines[i]);
                assert forall|j: int| i - 1 < j < rest.len() implies value_in(
                    #[trigger] rest[j],
                    field,
                ) is None by {
                    assert(rest[j] == lines[j + 1]);
                }
                assert(last_entry_at(rest, field, i - 1));
            }
        }
    }
}

/// What a text holds, said without reading line by line. The first line that
/// gives a known key a bad value is the error. Without such a line, the text
/// holds a record exactly if it has a line for each identifier, and the
/// record is made of the last value given for each; an identifier without a
/// line is missing, the daemon's first. No value is made up.
pub proof fn lemma_parse_text(s: Seq<char>)
    ensures
        forall|i: int| #[trigger]
            first_invalid_at(lines(s), i) ==> fault_in(lines(s)[i]) is Some && parse_text(s)
                == Err::<ProcessRecord, RecordFault>(fault_in(lines(s)[i])->0),
        (exists|i: int| first_invalid_at(lines(s), i)) <==> parse_text(s) matches Err(
            RecordFault::InvalidValue { .. },
        ),
        parse_text(s) == Err::<ProcessRecord, RecordFault>(
            RecordFault::MissingField { field: Field::DaemonPid },
        ) <==> !(exists|i: int| first_invalid_at(lines(s), i)) && no_entry(
            lines(s),
            Field::DaemonPid,
        ),
        parse_text(s) == Err::<ProcessRecord, RecordFault>(
            RecordFault::MissingField { field: Field::ChildPid },
        ) <==> !(exists|i: int| first_invalid_at(lines(s), i)) && !no_entry(
            lines(s),
            Field::DaemonPid,
        ) && no_entry(lines(s), Field::ChildPid),
        forall|i: int, j: int|
            parse_text(s) is Ok && #[trigger] last_entry_at(lines(s), Field::DaemonPid, i)
                && #[trigger] last_entry_at(lines(s), Field::ChildPid, j) ==> parse_text(s)
                == Ok::<ProcessRecord, RecordFault>(
                ProcessRecord {
                    daemon_pid: value_in(lines(s)[i], Field::DaemonPid)->0,
                    child_pid: value_in(lines(s)[j], Field::ChildPid)->0,
                },
            ),
        !(parse_text(s) matches Err(RecordFault::NotFound)),
{
    let all = lines(s);
    let nothing = Found::nothing();
    lemma_first_invalid_line(all, nothing);
    if read_lines(all, nothing) is Ok {
        lemma_last_entry_counts(all, nothing, Field::DaemonPid);
        lemma_last_entry_counts(all, nothing, Field::ChildPid);
        lemma_entry_is_found(all, nothing, Field::DaemonPid);
        lemma_entry_is_found(all, nothing, Field::ChildPid);
    }
}

/// Where every line is read, an identifier that some line gives is found.
proof fn lemma_entry_is_found(lines: Seq<Seq<char>>, found: Found, field: Field)
    requires
        read_lines(lines, found) is Ok,
    ensures
        !no_entry(lines, field) || found.get(field) is Some ==> read_lines(
            lines,
            found,
        )->Ok_0.get(field) is Some,
    decreases lines.len(),
{
    if lines.len() > 0 && (!no_entry(lines, field) || found.get(field) is Some) {
        let rest = lines.drop_first();
        let later = match read_line(lines.first()) {
            Line::Entry { field, value } => found.with(field, value),
            _ => found,
        };
        if later.get(field) is None {
            let j = choose|j: int| 0 <= j < lines.len() && value_in(#[trigger] lines[j], field)
                is Some;
            assert(j > 0);
            assert(rest[j - 1] == lines[j]);
        }
        lemma_entry_is_found(rest, later, field);
    }
}

} // verus!
