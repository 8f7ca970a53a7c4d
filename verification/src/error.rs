//! What can go wrong: a value on the command line that cannot be read, a
//! field of an entry that cannot be read while the report is made, and the
//! lesser defects that are noted and passed over.

use crate::number::{decimal_text, to_decimal};
use vstd::prelude::*;
use vstd::string::StringExecFns;

verus! {

/// The value on the command line that could not be read.
#[derive(Debug, Clone, Copy, PartialEq, Eq, Structural)]
pub enum OptError {
    /// The priority level is no unsigned number.
    InvalidPriority,
    /// The number of entries is no unsigned number.
    InvalidNumber,
    /// The start of the time window is no time of day.
    InvalidTimeFrom,
    /// The end of the time window is no time of day.
    InvalidTimeTo,
    /// The start of the calendar window is no date.
    InvalidDateFrom,
    /// The end of the calendar window is no date.
    InvalidDateTo,
}

/// The field of an entry that could not be read. One such field ends the
/// report: no part of it is shown.
#[derive(Debug, Clone, Copy, PartialEq, Eq, Structural)]
pub enum FormatError {
    /// The priority is no unsigned number.
    InvalidPriority,
    /// No segment of the cursor begins with `i=`.
    NoSequenceNumber,
    /// What follows `i=` in the cursor is no hexadecimal number of 32 bits.
    InvalidSequenceNumber,
    /// The timestamp is no signed number of 64 bits.
    InvalidTimestamp,
    /// The timestamp lies outside the calendar.
    TimestampOutOfRange,
}

/// A defect in the options or in the data that the viewer notes and passes
/// over. Notes are gathered in the order in which the defects are met.
#[derive(Debug, Clone, Copy, PartialEq, Eq, Structural)]
pub enum Warning {
    /// The priority level asked for is above 7; 7 is used in its place.
    LevelTooHigh {
        /// The level that was asked for.
        level: u32,
    },
    /// An entry of the file has no boot id.
    NoBootId,
    /// An entry names no boot and is left out of the report.
    EntryIgnored,
    /// No field of an entry names its unit.
    NoUnit,
    /// An entry has no priority.
    NoPriority,
    /// An entry has no cursor.
    NoCursor,
}

impl Warning {
    /// The text of `message`.
    pub open spec fn message_text(&self) -> Seq<char> {
        match self {
            Warning::LevelTooHigh { level } => "Invalid log level: "@ + decimal_text(*level as nat)
                + ", default level DEBUG (7) will be used"@,
            Warning::NoBootId => "Unable to get BOOT_ID from entry"@,
            Warning::EntryIgnored => "Unable to format log entry, ignoring"@,
            Warning::NoUnit => "Unable to get syslog identifier (unit name) for log entry"@,
            Warning::NoPriority => "Unable to get log level for entry"@,
            Warning::NoCursor => "Unable to cursor string for entry"@,
        }
    }

    /// A line that tells of the defect.
    pub fn message(&self) -> (text: String)
        ensures
            text@ == self.message_text(),
    {
        match self {
            Warning::LevelTooHigh { level } => {
                let mut text = "Invalid log level: ".to_owned();
                text.append(to_decimal(*level as u64).as_str());
                text.append(", default level DEBUG (7) will be used");
                text
            },
            Warning::NoBootId => "Unable to get BOOT_ID from entry".to_owned(),
            Warning::EntryIgnored => "Unable to format log entry, ignoring".to_owned(),
            Warning::NoUnit => "Unable to get syslog identifier (unit name) for log entry".to_owned(),
            Warning::NoPriority => "Unable to get log level for entry".to_owned(),
            Warning::NoCursor => "Unable to cursor string for entry".to_owned(),
        }
    }
}

impl OptError {
    /// The text of `message`.
    pub open spec fn message_text(&self) -> Seq<char> {
        match self {
            OptError::InvalidPriority => "the priority level is not an unsigned number"@,
            OptError::InvalidNumber => "the number of entries is not an unsigned number"@,
            OptError::InvalidTimeFrom => "the start time is not a time of day (hour:minute:second)"@,
            OptError::InvalidTimeTo => "the stop time is not a time of day (hour:minute:second)"@,
            OptError::InvalidDateFrom => "the start date is not a date (year:month:day)"@,
            OptError::InvalidDateTo => "the stop date is not a date (year:month:day)"@,
        }
    }

    /// A line that says which value could not be read.
    pub fn message(&self) -> (text: &'static str)
        ensures
            text@ == self.message_text(),
    {
        match self {
            OptError::InvalidPriority => "the priority level is not an unsigned number",
            OptError::InvalidNumber => "the number of entries is not an unsigned number",
            OptError::InvalidTimeFrom => "the start time is not a time of day (hour:minute:second)",
            OptError::InvalidTimeTo => "the stop time is not a time of day (hour:minute:second)",
            OptError::InvalidDateFrom => "the start date is not a date (year:month:day)",
            OptError::InvalidDateTo => "the stop date is not a date (year:month:day)",
        }
    }
}

impl FormatError {
    /// The text of `message`.
    pub open spec fn message_text(&self) -> Seq<char> {
        match self {
            FormatError::InvalidPriority => "the priority of an entry is not an unsigned number"@,
            FormatError::NoSequenceNumber => "the cursor of an entry has no sequence number"@,
            FormatError::InvalidSequenceNumber => "the sequence number in a cursor is not a hexadecimal number"@,
            FormatError::InvalidTimestamp => "the timestamp of an entry is not a number"@,
            FormatError::TimestampOutOfRange => "the timestamp of an entry is outside the calendar"@,
        }
    }

    /// A line that says which field could not be read.
    pub fn message(&self) -> (text: &'static str)
        ensures
            text@ == self.message_text(),
    {
        match self {
            FormatError::InvalidPriority => "the priority of an entry is not an unsigned number",
            FormatError::NoSequenceNumber => "the cursor of an entry has no sequence number",
            FormatError::InvalidSequenceNumber => "the sequence number in a cursor is not a hexadecimal number",
            FormatError::InvalidTimestamp => "the timestamp of an entry is not a number",
            FormatError::TimestampOutOfRange => "the timestamp of an entry is outside the calendar",
        }
    }
}

} // verus!
