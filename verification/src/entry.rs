//! One entry of a journal export.
//!
//! The journal writes an entry as a set of named text fields, and any of them
//! may be absent. `LogEntry` holds the fields that the viewer knows, each as
//! an optional string.

use crate::text::text_of;
use vstd::prelude::*;

verus! {

/// One journal entry. Every field is optional: exports are not populated
/// consistently.
#[derive(Debug)]
pub struct LogEntry {
    /// `__CURSOR`: the opaque position token of the entry.
    pub cursor: Option<String>,
    /// `__REALTIME_TIMESTAMP`: microseconds since the epoch, in decimal.
    pub realtime_timestamp: Option<String>,
    /// `__MONOTONIC_TIMESTAMP`
    pub monotonic_timestamp: Option<String>,
    /// `_BOOT_ID`: the boot during which the entry was written.
    pub boot_id: Option<String>,
    /// `_TRANSPORT`
    pub transport: Option<String>,
    /// `SYSLOG_FACILITY`
    pub syslog_facility: Option<String>,
    /// `_UID`
    pub uid: Option<String>,
    /// `_GID`
    pub gid: Option<String>,
    /// `_MACHINE_ID`
    pub machine_id: Option<String>,
    /// `SYSLOG_IDENTIFIER`
    pub syslog_identifier: Option<String>,
    /// `_PID`
    pub pid: Option<String>,
    /// `_CMDLINE`
    pub cmdline: Option<String>,
    /// `_SYSTEMD_CGROUP`
    pub systemd_cgroup: Option<String>,
    /// `_SYSTEMD_UNIT`
    pub systemd_unit: Option<String>,
    /// `MESSAGE`
    pub message: Option<String>,
    /// `_HOSTNAME`
    pub hostname: Option<String>,
    /// `PRIORITY`: the syslog level, 0 to 7, in decimal.
    pub priority: Option<String>,
    /// `CODE_FILE`
    pub code_file: Option<String>,
    /// `CODE_LINE`
    pub code_line: Option<String>,
    /// `CODE_FUNCTION`
    pub code_function: Option<String>,
    /// `ERRNO`
    pub errno: Option<String>,
    /// `UNIT`
    pub unit: Option<String>,
}

/// A journal entry as plain text values.
pub struct EntryView {
    pub cursor: Option<Seq<char>>,
    pub realtime_timestamp: Option<Seq<char>>,
    pub monotonic_timestamp: Option<Seq<char>>,
    pub boot_id: Option<Seq<char>>,
    pub transport: Option<Seq<char>>,
    pub syslog_facility: Option<Seq<char>>,
    pub uid: Option<Seq<char>>,
    pub gid: Option<Seq<char>>,
    pub machine_id: Option<Seq<char>>,
    pub syslog_identifier: Option<Seq<char>>,
    pub pid: Option<Seq<char>>,
    pub cmdline: Option<Seq<char>>,
    pub systemd_cgroup: Option<Seq<char>>,
    pub systemd_unit: Option<Seq<char>>,
    pub message: Option<Seq<char>>,
    pub hostname: Option<Seq<char>>,
    pub priority: Option<Seq<char>>,
    pub code_file: Option<Seq<char>>,
    pub code_line: Option<Seq<char>>,
    pub code_function: Option<Seq<char>>,
    pub errno: Option<Seq<char>>,
    pub unit: Option<Seq<char>>,
}

impl View for LogEntry {
    type V = EntryView;

    open spec fn view(&self) -> EntryView {
        EntryView {
            cursor: text_of(self.cursor),
            realtime_timestamp: text_of(self.realtime_timestamp),
            monotonic_timestamp: text_of(self.monotonic_timestamp),
            boot_id: text_of(self.boot_id),
            transport: text_of(self.transport),
            syslog_facility: text_of(self.syslog_facility),
            uid: text_of(self.uid),
            gid: text_of(self.gid),
            machine_id: text_of(self.machine_id),
            syslog_identifier: text_of(self.syslog_identifier),
            pid: text_of(self.pid),
            cmdline: text_of(self.cmdline),
            systemd_cgroup: text_of(self.systemd_cgroup),
            systemd_unit: text_of(self.systemd_unit),
            message: text_of(self.message),
            hostname: text_of(self.hostname),
            priority: text_of(self.priority),
            code_file: text_of(self.code_file),
            code_line: text_of(self.code_line),
            code_function: text_of(self.code_function),
            errno: text_of(self.errno),
            unit: text_of(self.unit),
        }
    }
}

impl EntryView {
    /// The entry that has no field at all.
    pub open spec fn blank() -> EntryView {
        EntryView {
            cursor: None,
            realtime_timestamp: None,
            monotonic_timestamp: None,
            boot_id: None,
            transport: None,
            syslog_facility: None,
            uid: None,
            gid: None,
            machine_id: None,
            syslog_identifier: None,
            pid: None,
            cmdline: None,
            systemd_cgroup: None,
            systemd_unit: None,
            message: None,
            hostname: None,
            priority: None,
            code_file: None,
            code_line: None,
            code_function: None,
            errno: None,
            unit: None,
        }
    }
}

impl Default for LogEntry {
    /// The entry that has no field at all.
    fn default() -> (e: LogEntry)
        ensures
            e@ == EntryView::blank(),
    {
        LogEntry {
            cursor: None,
            realtime_timestamp: None,
            monotonic_timestamp: None,
            boot_id: None,
            transport: None,
            syslog_facility: None,
            uid: None,
            gid: None,
            machine_id: None,
            syslog_identifier: None,
            pid: None,
            cmdline: None,
            systemd_cgroup: None,
            systemd_unit: None,
            message: None,
            hostname: None,
            priority: None,
            code_file: None,
            code_line: None,
            code_function: None,
            errno: None,
            unit: None,
        }
    }
}

/// The text that is shown in place of a field that an entry lacks.
pub open spec fn not_available() -> Seq<char> {
    seq!['N', '/', 'A']
}

/// The text of a field that is there and not empty.
pub open spec fn present(field: Option<Seq<char>>) -> Option<Seq<char>> {
    match field {
        Some(text) => if text.len() > 0 {
            Some(text)
        } else {
            None
        },
        None => None,
    }
}

/// The text of the first of `fields` that is there and not empty.
pub open spec fn first_present(fields: Seq<Option<Seq<char>>>) -> Option<Seq<char>>
    decreases fields.len(),
{
    if fields.len() == 0 {
        None
    } else if present(fields[0]) is Some {
        fields[0]
    } else {
        first_present(fields.skip(1))
    }
}

impl EntryView {
    /// The boot that the entry belongs to; `None` where the entry names none.
    pub open spec fn session(self) -> Option<Seq<char>> {
        present(self.boot_id)
    }

    /// The fields that may name the unit, the most telling one first.
    pub open spec fn unit_fields(self) -> Seq<Option<Seq<char>>> {
        seq![self.unit, self.systemd_unit, self.syslog_identifier]
    }

    /// The unit that the entry names: the first of `unit_fields` that is
    /// there and not empty.
    pub open spec fn named_unit(self) -> Option<Seq<char>> {
        first_present(self.unit_fields())
    }

    /// The unit that the entry comes from: the unit that it names, and
    /// `N/A` where it names none.
    pub open spec fn resolved_unit(self) -> Seq<char> {
        match self.named_unit() {
            Some(unit) => unit,
            None => not_available(),
        }
    }
}

/// The text that is shown in place of a field that an entry lacks.
pub fn sentinel() -> (text: String)
    ensures
        text@ == not_available(),
{
    proof {
        reveal_strlit("N/A");
    }
    let text = "N/A".to_owned();
    assert(text@ =~= not_available());
    text
}

/// The field, where it is there and not empty.
pub fn present_field(field: &Option<String>) -> (r: Option<&String>)
    ensures
        match r {
            Some(text) => present(text_of(*field)) == Some(text@),
            None => present(text_of(*field)) is None,
        },
{
    match field {
        Some(text) => if text.as_str().is_empty() {
            None
        } else {
            Some(text)
        },
        None => None,
    }
}

/// The first of `fields` that is there and not empty.
pub fn first_present_field<'a>(fields: &[&'a Option<String>]) -> (r: Option<&'a String>)
    ensures
        match r {
            Some(text) => first_present(field_texts(fields@)) == Some(text@),
            None => first_present(field_texts(fields@)) is None,
        },
{
    let ghost all = field_texts(fields@);
    let mut i: usize = 0;
    assert(all.skip(0) =~= all);
    while i < fields.len()
        invariant
            i <= fields.len(),
            all == field_texts(fields@),
            first_present(all) == first_present(all.skip(i as int)),
        decreases fields.len() - i,
    {
        assert(all.skip(i as int)[0] == text_of(*fields@[i as int]));
        assert(all.skip(i as int).skip(1) =~= all.skip(i + 1));
        match present_field(fields[i]) {
            Some(text) => {
                return Some(text);
            },
            None => {},
        }
        i = i + 1;
    }
    None
}

/// The texts of `fields`, in order.
pub open spec fn field_texts(fields: Seq<&Option<String>>) -> Seq<Option<Seq<char>>> {
    Seq::new(fields.len(), |i: int| text_of(*fields[i]))
}

impl LogEntry {
    /// The boot that the entry belongs to; `None` where the entry names none.
    pub fn session(&self) -> (r: Option<&String>)
        ensures
            match r {
                Some(id) => self@.session() == Some(id@),
                None => self@.session() is None,
            },
    {
        present_field(&self.boot_id)
    }

    /// The unit that the entry names.
    pub fn named_unit(&self) -> (r: Option<&String>)
        ensures
            match r {
                Some(unit) => self@.named_unit() == Some(unit@),
                None => self@.named_unit() is None,
            },
    {
        let fields = [&self.unit, &self.systemd_unit, &self.syslog_identifier];
        assert(field_texts(fields@) =~= self@.unit_fields());
        first_present_field(fields.as_slice())
    }

    /// The unit that the entry comes from.
    pub fn resolved_unit(&self) -> (unit: String)
        ensures
            unit@ == self@.resolved_unit(),
    {
        match self.named_unit() {
            Some(unit) => unit.clone(),
            None => sentinel(),
        }
    }
}

/// The views of `entries`, in order.
pub open spec fn entry_views(entries: Seq<LogEntry>) -> Seq<EntryView> {
    Seq::new(entries.len(), |i: int| entries[i]@)
}

} // verus!
