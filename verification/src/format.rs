//! How an entry is shown.
//!
//! A shown entry has five columns: the sequence number from its cursor, its
//! time in UTC, its priority, its unit with the process id in brackets, and
//! its message. A column whose field the entry lacks holds `N/A`.

use crate::cursor::{cursor_index, get_entry_nr};
use crate::entry::{not_available, present, present_field, sentinel, EntryView, LogEntry};
use crate::error::{FormatError, Warning};
use crate::number::{decimal_text, parse_i64, parse_signed};
use crate::text::text_of;
use crate::time::{format_utc, micros_to_seconds, utc_text, whole_seconds, TIMESTAMP_PATTERN};
use vstd::prelude::*;
use vstd::string::StringExecFns;

verus! {

/// One entry as it is shown.
#[derive(Debug, PartialEq, Eq)]
pub struct FormattedLogEntry {
    /// The sequence number, in decimal.
    pub sequence_number: String,
    /// The time in UTC, `YYYY-MM-DD HH:MM:SS`.
    pub timestamp: String,
    /// The priority, as the entry gives it.
    pub loglevel: String,
    /// The unit, and the process id in round brackets behind it.
    pub unit_name: String,
    /// The message.
    pub message: String,
}

/// A shown entry as plain text values.
pub struct RecordView {
    pub sequence_number: Seq<char>,
    pub timestamp: Seq<char>,
    pub loglevel: Seq<char>,
    pub unit_name: Seq<char>,
    pub message: Seq<char>,
}

impl View for FormattedLogEntry {
    type V = RecordView;

    open spec fn view(&self) -> RecordView {
        RecordView {
            sequence_number: self.sequence_number@,
            timestamp: self.timestamp@,
            loglevel: self.loglevel@,
            unit_name: self.unit_name@,
            message: self.message@,
        }
    }
}

/// The text of a field, and `N/A` where the entry lacks it.
pub open spec fn shown(field: Option<Seq<char>>) -> Seq<char> {
    match field {
        Some(text) => text,
        None => not_available(),
    }
}

/// The sequence column: the number in the cursor, in decimal; `N/A` for an
/// entry without a cursor; an error for a cursor that holds no number.
pub open spec fn sequence_column(e: EntryView) -> Result<Seq<char>, FormatError> {
    match present(e.cursor) {
        Some(cursor) => match cursor_index(cursor) {
            Ok(n) => Ok(decimal_text(n)),
            Err(error) => Err(error),
        },
        None => Ok(not_available()),
    }
}

/// What is noted while the entry is formatted: that it has no cursor.
pub open spec fn format_notes(e: EntryView) -> Seq<Warning> {
    if present(e.cursor) is None {
        seq![Warning::NoCursor]
    } else {
        Seq::empty()
    }
}

/// The time of an entry in whole seconds from the epoch: its timestamp,
/// which counts microseconds, divided by a million and rounded toward zero.
/// `None` for an entry without a timestamp, an error where the timestamp is
/// no signed number of 64 bits.
pub open spec fn entry_seconds(e: EntryView) -> Result<Option<int>, FormatError> {
    match e.realtime_timestamp {
        Some(text) => match parse_signed(text, i64::MIN as int, i64::MAX as int) {
            Some(micros) => Ok(Some(whole_seconds(micros))),
            None => Err(FormatError::InvalidTimestamp),
        },
        None => Ok(None),
    }
}

/// The time column for an entry with a timestamp, where `text` is what
/// the calendar gives for its time: that text, and an error where the
/// calendar gives none.
pub open spec fn time_column(text: Option<Seq<char>>) -> Result<Seq<char>, FormatError> {
    match text {
        Some(t) => Ok(t),
        None => Err(FormatError::TimestampOutOfRange),
    }
}

/// The time column of an entry: its time in UTC, and `N/A` for an entry
/// without a timestamp.
pub open spec fn timestamp_column(e: EntryView) -> Result<Seq<char>, FormatError> {
    match entry_seconds(e) {
        Ok(Some(seconds)) => time_column(utc_text(seconds, TIMESTAMP_PATTERN@)),
        Ok(None) => Ok(not_available()),
        Err(error) => Err(error),
    }
}

/// The unit column: the unit, then the process id in round brackets.
pub open spec fn unit_column(e: EntryView) -> Seq<char> {
    e.resolved_unit() + seq!['('] + shown(e.pid) + seq![')']
}

/// The entry as it is shown, given its sequence and time columns.
pub open spec fn composed(e: EntryView, sequence_number: Seq<char>, timestamp: Seq<char>)
    -> RecordView {
    RecordView {
        sequence_number,
        timestamp,
        loglevel: shown(present(e.priority)),
        unit_name: unit_column(e),
        message: shown(e.message),
    }
}

/// The entry as it is shown. Of two unreadable fields the cursor is
/// reported, since it is read first.
pub open spec fn record_of(e: EntryView) -> Result<RecordView, FormatError> {
    match sequence_column(e) {
        Ok(sequence_number) => match timestamp_column(e) {
            Ok(timestamp) => Ok(composed(e, sequence_number, timestamp)),
            Err(error) => Err(error),
        },
        Err(error) => Err(error),
    }
}

/// A copy of the field, or `N/A` where it is absent.
fn shown_field(field: Option<&String>) -> (text: String)
    ensures
        text@ == match field {
            Some(t) => t@,
            None => not_available(),
        },
{
    match field {
        Some(t) => t.clone(),
        None => sentinel(),
    }
}

/// The sequence column of an entry. A missing cursor is noted in `log`.
pub fn format_sequence(entry: &LogEntry, log: &mut Vec<Warning>) -> (r: Result<String, FormatError>)
    ensures
        match r {
            Ok(text) => sequence_column(entry@) == Ok::<Seq<char>, FormatError>(text@),
            Err(error) => sequence_column(entry@) == Err::<Seq<char>, FormatError>(error),
        },
        final(log)@ == old(log)@ + format_notes(entry@),
{
    let ghost noted = log@;
    match present_field(&entry.cursor) {
        Some(cursor) => {
            assert(noted + Seq::<Warning>::empty() =~= noted);
            get_entry_nr(cursor)
        },
        None => {
            log.push(Warning::NoCursor);
            assert(log@ =~= noted + seq![Warning::NoCursor]);
            Ok(sentinel())
        },
    }
}

/// The time of an entry in whole seconds from the epoch.
pub fn seconds_of(entry: &LogEntry) -> (r: Result<Option<i64>, FormatError>)
    ensures
        match r {
            Ok(Some(seconds)) => entry_seconds(entry@) == Ok::<Option<int>, FormatError>(
                Some(seconds as int),
            ),
            Ok(None) => entry_seconds(entry@) == Ok::<Option<int>, FormatError>(None),
            Err(error) => entry_seconds(entry@) == Err::<Option<int>, FormatError>(error),
        },
{
    match &entry.realtime_timestamp {
        Some(text) => match parse_i64(text.as_str()) {
            Some(micros) => Ok(Some(micros_to_seconds(micros))),
            None => Err(FormatError::InvalidTimestamp),
        },
        None => Ok(None),
    }
}

/// The time column for an entry with a timestamp, where `text` is what
/// the calendar gives for its time. A time that the calendar does not reach
/// is an error.
pub fn time_field(text: Option<String>) -> (r: Result<String, FormatError>)
    ensures
        match r {
            Ok(column) => time_column(text_of(text)) == Ok::<Seq<char>, FormatError>(column@),
            Err(error) => time_column(text_of(text)) == Err::<Seq<char>, FormatError>(error),
        },
{
    match text {
        Some(t) => Ok(t),
        None => Err(FormatError::TimestampOutOfRange),
    }
}

/// The time column of an entry.
pub fn format_timestamp(entry: &LogEntry) -> (r: Result<String, FormatError>)
    ensures
        match r {
            Ok(text) => timestamp_column(entry@) == Ok::<Seq<char>, FormatError>(text@),
            Err(error) => timestamp_column(entry@) == Err::<Seq<char>, FormatError>(error),
        },
{
    match seconds_of(entry) {
        Ok(Some(seconds)) => time_field(format_utc(seconds, TIMESTAMP_PATTERN)),
        Ok(None) => Ok(sentinel()),
        Err(error) => Err(error),
    }
}

/// The entry as it is shown, given its sequence and time columns.
pub fn compose(entry: &LogEntry, sequence_number: String, timestamp: String) -> (record:
    FormattedLogEntry)
    ensures
        record@ == composed(entry@, sequence_number@, timestamp@),
{
    let mut unit_name = entry.resolved_unit();
    let pid = shown_field(entry.pid.as_ref());
    proof {
        reveal_strlit("(");
        reveal_strlit(")");
        assert("("@ =~= seq!['(']);
        assert(")"@ =~= seq![')']);
    }
    unit_name.append("(");
    unit_name.append(pid.as_str());
    unit_name.append(")");
    FormattedLogEntry {
        sequence_number,
        timestamp,
        loglevel: shown_field(present_field(&entry.priority)),
        unit_name,
        message: shown_field(entry.message.as_ref()),
    }
}

/// The entry as it is shown. A missing cursor is noted in `log`.
pub fn format_entry(entry: &LogEntry, log: &mut Vec<Warning>) -> (r: Result<
    FormattedLogEntry,
    FormatError,
>)
    ensures
        match r {
            Ok(record) => record_of(entry@) == Ok::<RecordView, FormatError>(record@),
            Err(error) => record_of(entry@) == Err::<RecordView, FormatError>(error),
        },
        final(log)@ == old(log)@ + format_notes(entry@),
{
    let sequence_number = match format_sequence(entry, log) {
        Ok(text) => text,
        Err(error) => {
            return Err(error);
        },
    };
    let timestamp = match format_timestamp(entry) {
        Ok(text) => text,
        Err(error) => {
            return Err(error);
        },
    };
    Ok(compose(entry, sequence_number, timestamp))
}

} // verus!
