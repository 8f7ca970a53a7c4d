//! A parsed journal file and the report on it.
//!
//! The entries of a file are held in the order in which the file gives
//! them. The report groups the entries that are shown by boot: one section
//! for each boot, the boots in the order in which they were asked for or,
//! where none was asked for, in which the file first names them.

use crate::entry::{entry_views, EntryView, LogEntry};
use crate::error::{FormatError, Warning};
use crate::filter::{accepted, accepts, filter_notes};
use crate::format::{format_entry, format_notes, record_of, FormattedLogEntry, RecordView};
use crate::opt::{CliOptions, OptionsView};
use crate::text::{lists, lists_text, texts};
use vstd::prelude::*;

verus! {

/// The shown entries of one boot.
#[derive(Debug, PartialEq, Eq)]
pub struct BootLog {
    /// The boot.
    pub boot_id: String,
    /// Its entries, in the order of the file.
    pub entries: Vec<FormattedLogEntry>,
}

/// `BootLog` as plain values.
pub struct BootLogView {
    pub boot_id: Seq<char>,
    pub entries: Seq<RecordView>,
}

/// The views of `entries`, in order.
pub open spec fn records(entries: Seq<FormattedLogEntry>) -> Seq<RecordView> {
    Seq::new(entries.len(), |i: int| entries[i]@)
}

impl View for BootLog {
    type V = BootLogView;

    open spec fn view(&self) -> BootLogView {
        BootLogView { boot_id: self.boot_id@, entries: records(self.entries@) }
    }
}

/// The views of `logs`, in order.
pub open spec fn boot_logs(logs: Seq<BootLog>) -> Seq<BootLogView> {
    Seq::new(logs.len(), |i: int| logs[i]@)
}

/// `list` without the repetitions: of equal texts only the first stays.
pub open spec fn distinct(list: Seq<Seq<char>>) -> Seq<Seq<char>>
    decreases list.len(),
{
    if list.len() == 0 {
        Seq::empty()
    } else {
        let before = distinct(list.drop_last());
        if lists_text(before, list.last()) {
            before
        } else {
            before.push(list.last())
        }
    }
}

/// The boots that the entries name, each once, in the order in which the
/// entries first name them. An entry without a boot id adds nothing.
pub open spec fn boot_ids_of(entries: Seq<EntryView>) -> Seq<Seq<char>>
    decreases entries.len(),
{
    if entries.len() == 0 {
        Seq::empty()
    } else {
        let before = boot_ids_of(entries.drop_last());
        match entries.last().boot_id {
            Some(id) => if lists_text(before, id) {
                before
            } else {
                before.push(id)
            },
            None => before,
        }
    }
}

/// What becomes of one entry in a report on `boots`: it is left out
/// (`Ok(None)`), it is shown as a record, or one of its fields cannot be
/// read. Only an entry that passes the filters is formatted.
pub open spec fn outcome(e: EntryView, o: OptionsView, boots: Seq<Seq<char>>) -> Result<
    Option<RecordView>,
    FormatError,
> {
    match accepted(e, o, boots) {
        Ok(true) => match record_of(e) {
            Ok(record) => Ok(Some(record)),
            Err(error) => Err(error),
        },
        Ok(false) => Ok(None),
        Err(error) => Err(error),
    }
}

/// The error of the first entry that has one, in the order of the file.
pub open spec fn first_failure(
    entries: Seq<EntryView>,
    o: OptionsView,
    boots: Seq<Seq<char>>,
) -> Option<FormatError>
    decreases entries.len(),
{
    if entries.len() == 0 {
        None
    } else {
        match first_failure(entries.drop_last(), o, boots) {
            Some(error) => Some(error),
            None => match outcome(entries.last(), o, boots) {
                Ok(_) => None,
                Err(error) => Some(error),
            },
        }
    }
}

/// The records of the entries of `boot` that are shown, in the order of the
/// file.
pub open spec fn boot_records(
    entries: Seq<EntryView>,
    o: OptionsView,
    boots: Seq<Seq<char>>,
    boot: Seq<char>,
) -> Seq<RecordView>
    decreases entries.len(),
{
    if entries.len() == 0 {
        Seq::empty()
    } else {
        let before = boot_records(entries.drop_last(), o, boots, boot);
        let e = entries.last();
        match outcome(e, o, boots) {
            Ok(Some(record)) => if e.session() == Some(boot) {
                before.push(record)
            } else {
                before
            },
            _ => before,
        }
    }
}

/// The sections of a report on `boots`: one for each boot, in the order of
/// `boots`, a boot that is named twice having one section.
pub open spec fn sections(entries: Seq<EntryView>, o: OptionsView, boots: Seq<Seq<char>>) -> Seq<
    BootLogView,
> {
    let keys = distinct(boots);
    Seq::new(
        keys.len(),
        |i: int| BootLogView { boot_id: keys[i], entries: boot_records(entries, o, boots, keys[i]) },
    )
}

/// The report on `boots`: its sections, or the error of the first entry
/// that has one. No part of a report is given once an entry has an error.
pub open spec fn report_of(entries: Seq<EntryView>, o: OptionsView, boots: Seq<Seq<char>>)
    -> Result<Seq<BootLogView>, FormatError> {
    match first_failure(entries, o, boots) {
        Some(error) => Err(error),
        None => Ok(sections(entries, o, boots)),
    }
}

/// What is noted of one entry in a report on `boots`: what its test notes
/// and, where it passes, what its formatting notes.
pub open spec fn entry_notes(e: EntryView, o: OptionsView, boots: Seq<Seq<char>>) -> Seq<Warning> {
    if accepted(e, o, boots) == Ok::<bool, FormatError>(true) {
        filter_notes(e, o, boots) + format_notes(e)
    } else {
        filter_notes(e, o, boots)
    }
}

/// What is noted while the report on `boots` is made: the notes of the
/// entries in the order of the file, up to and with the first entry that
/// has an error.
pub open spec fn report_notes(entries: Seq<EntryView>, o: OptionsView, boots: Seq<Seq<char>>)
    -> Seq<Warning>
    decreases entries.len(),
{
    if entries.len() == 0 {
        Seq::empty()
    } else if first_failure(entries.drop_last(), o, boots) is Some {
        report_notes(entries.drop_last(), o, boots)
    } else {
        report_notes(entries.drop_last(), o, boots) + entry_notes(entries.last(), o, boots)
    }
}

/// What is noted while the boots of a file are gathered: each entry that
/// has no boot id.
pub open spec fn index_notes(entries: Seq<EntryView>) -> Seq<Warning>
    decreases entries.len(),
{
    if entries.len() == 0 {
        Seq::empty()
    } else if entries.last().boot_id is None {
        index_notes(entries.drop_last()).push(Warning::NoBootId)
    } else {
        index_notes(entries.drop_last())
    }
}

/// The first `cap` of `entries`, and all of them where `cap` is 0.
pub open spec fn limited(entries: Seq<RecordView>, cap: int) -> Seq<RecordView> {
    if 0 < cap < entries.len() {
        entries.take(cap)
    } else {
        entries
    }
}

/// The sections with at most `cap` entries each, and as they are where
/// `cap` is 0.
pub open spec fn limited_sections(logs: Seq<BootLogView>, cap: int) -> Seq<BootLogView> {
    Seq::new(
        logs.len(),
        |i: int| BootLogView { boot_id: logs[i].boot_id, entries: limited(logs[i].entries, cap) },
    )
}

/// A parsed journal file as plain values.
pub struct LogfileView {
    /// The name of the file, as it was given.
    pub filename: Seq<char>,
    /// The entries, in the order of the file.
    pub entries: Seq<EntryView>,
    /// The options under which the file is viewed.
    pub options: OptionsView,
}

/// The boots that the report is about: those that were asked for, and all
/// the boots of the file where none was.
pub open spec fn report_boots(v: LogfileView) -> Seq<Seq<char>> {
    if v.options.boot_filter.len() != 0 {
        v.options.boot_filter
    } else {
        boot_ids_of(v.entries)
    }
}

/// What the viewer shows for a file.
#[derive(Debug, PartialEq, Eq)]
pub enum Printout {
    /// The boots of the file, where only they were asked for.
    BootList {
        /// The name of the file.
        filename: String,
        /// The boots, in the order in which the file first names them.
        boot_ids: Vec<String>,
    },
    /// No report: a field of an entry could not be read.
    Failed {
        /// The first error, in the order of the file.
        error: FormatError,
    },
    /// The report.
    Report {
        /// The number of entries in the file, over all boots and before
        /// any filter. Every section is headed with it.
        total_entries: usize,
        /// The sections, each cut to the number of entries asked for.
        boots: Vec<BootLog>,
    },
}

/// `Printout` as plain values.
pub enum PrintoutView {
    BootList { filename: Seq<char>, boot_ids: Seq<Seq<char>> },
    Failed { error: FormatError },
    Report { total_entries: nat, boots: Seq<BootLogView> },
}

impl View for Printout {
    type V = PrintoutView;

    open spec fn view(&self) -> PrintoutView {
        match self {
            Printout::BootList { filename, boot_ids } => PrintoutView::BootList {
                filename: filename@,
                boot_ids: texts(boot_ids@),
            },
            Printout::Failed { error } => PrintoutView::Failed { error: *error },
            Printout::Report { total_entries, boots } => PrintoutView::Report {
                total_entries: *total_entries as nat,
                boots: boot_logs(boots@),
            },
        }
    }
}

/// What is noted while the viewer makes what it shows: nothing for a list
/// of boots, and the notes of the report else.
pub open spec fn printout_notes(v: LogfileView) -> Seq<Warning> {
    if v.options.list_boots {
        Seq::empty()
    } else {
        report_notes(v.entries, v.options, report_boots(v))
    }
}

/// What the viewer shows for a file: the list of its boots where that was
/// asked for, and else the report, or the error that prevents it.
pub open spec fn printout_of(v: LogfileView) -> PrintoutView {
    if v.options.list_boots {
        PrintoutView::BootList { filename: v.filename, boot_ids: boot_ids_of(v.entries) }
    } else {
        match report_of(v.entries, v.options, report_boots(v)) {
            Ok(logs) => PrintoutView::Report {
                total_entries: v.entries.len(),
                boots: limited_sections(logs, v.options.num_of_entries),
            },
            Err(error) => PrintoutView::Failed { error },
        }
    }
}

/// A parsed journal file, with the options under which it is viewed.
pub struct ParsedLogfile {
    filename: String,
    log_entries: Vec<LogEntry>,
    total_entries: usize,
    parse_opt: CliOptions,
    boot_ids: Vec<String>,
}

impl View for ParsedLogfile {
    type V = LogfileView;

    closed spec fn view(&self) -> LogfileView {
        LogfileView {
            filename: self.filename@,
            entries: entry_views(self.log_entries@),
            options: self.parse_opt@,
        }
    }
}

/// The first `n + 1` of `entries` are the first `n` and `entries[n]`.
proof fn lemma_take_step(entries: Seq<EntryView>, n: int)
    requires
        0 <= n < entries.len(),
    ensures
        entries.take(n + 1).drop_last() == entries.take(n),
        entries.take(n + 1).last() == entries[n],
{
    assert(entries.take(n + 1).drop_last() =~= entries.take(n));
}

/// The place of `id` among the boots of `logs`.
fn find_boot(logs: &Vec<BootLog>, id: &String) -> (r: Option<usize>)
    ensures
        match r {
            Some(j) => j < logs.len() && logs@[j as int].boot_id@ == id@,
            None => forall|j: int| 0 <= j < logs.len() ==> logs@[j].boot_id@ != id@,
        },
{
    let mut j: usize = 0;
    while j < logs.len()
        invariant
            j <= logs.len(),
            forall|k: int| 0 <= k < j ==> logs@[k].boot_id@ != id@,
        decreases logs.len() - j,
    {
        if logs[j].boot_id == *id {
            return Some(j);
        }
        j = j + 1;
    }
    None
}

/// The boots that the entries name, each once, in the order in which the
/// entries first name them. Each entry without a boot id is noted in `log`.
pub fn boot_ids(entries: &Vec<LogEntry>, log: &mut Vec<Warning>) -> (ids: Vec<String>)
    ensures
        texts(ids@) == boot_ids_of(entry_views(entries@)),
        final(log)@ == old(log)@ + index_notes(entry_views(entries@)),
{
    let ghost all = entry_views(entries@);
    let ghost noted = log@;
    let mut ids: Vec<String> = Vec::new();
    let mut i: usize = 0;
    assert(texts(ids@) =~= boot_ids_of(all.take(0)));
    assert(log@ =~= noted + index_notes(all.take(0)));
    while i < entries.len()
        invariant
            i <= entries.len(),
            all == entry_views(entries@),
            texts(ids@) == boot_ids_of(all.take(i as int)),
            log@ == noted + index_notes(all.take(i as int)),
        decreases entries.len() - i,
    {
        proof {
            lemma_take_step(all, i as int);
        }
        let ghost before = texts(ids@);
        match &entries[i].boot_id {
            Some(id) => {
                if !lists(&ids, id) {
                    ids.push(id.clone());
                    assert(texts(ids@) =~= before.push(id@));
                }
            },
            None => {
                log.push(Warning::NoBootId);
                assert(log@ =~= noted + index_notes(all.take(i as int)).push(Warning::NoBootId));
            },
        }
        i = i + 1;
    }
    assert(all.take(i as int) =~= all);
    ids
}

/// The sections `logs` are those of a report on `boots` over `entries`.
pub open spec fn filled(
    logs: Seq<BootLog>,
    entries: Seq<EntryView>,
    o: OptionsView,
    boots: Seq<Seq<char>>,
) -> bool {
    &&& logs.len() == distinct(boots).len()
    &&& forall|j: int|
        0 <= j < logs.len() ==> (#[trigger] logs[j]).boot_id@ == distinct(boots)[j] && records(
            logs[j].entries@,
        ) == boot_records(entries, o, boots, distinct(boots)[j])
}

/// One section without entries for each of `boots`, a boot that is named
/// twice having one section.
fn empty_sections(boots: &Vec<String>) -> (logs: Vec<BootLog>)
    ensures
        logs.len() == distinct(texts(boots@)).len(),
        forall|j: int|
            0 <= j < logs.len() ==> (#[trigger] logs@[j]).boot_id@ == distinct(texts(boots@))[j]
                && logs@[j].entries@.len() == 0,
{
    let ghost wanted = texts(boots@);
    let mut logs: Vec<BootLog> = Vec::new();
    let mut k: usize = 0;
    assert(wanted.take(0) =~= Seq::<Seq<char>>::empty());
    while k < boots.len()
        invariant
            k <= boots.len(),
            wanted == texts(boots@),
            logs.len() == distinct(wanted.take(k as int)).len(),
            forall|j: int|
                0 <= j < logs.len() ==> (#[trigger] logs@[j]).boot_id@ == distinct(
                    wanted.take(k as int),
                )[j] && logs@[j].entries@.len() == 0,
        decreases boots.len() - k,
    {
        let ghost seen = distinct(wanted.take(k as int));
        assert(wanted.take(k + 1).drop_last() =~= wanted.take(k as int));
        assert(wanted.take(k + 1).last() == boots@[k as int]@);
        match find_boot(&logs, &boots[k]) {
            Some(j) => {
                assert(logs@[j as int].boot_id@ == seen[j as int]);
                assert(lists_text(seen, boots@[k as int]@));
            },
            None => {
                assert forall|j: int| 0 <= j < seen.len() implies seen[j] != boots@[k as int]@ by {
                    assert(logs@[j].boot_id@ == seen[j]);
                }
                logs.push(BootLog { boot_id: boots[k].clone(), entries: Vec::new() });
            },
        }
        k = k + 1;
    }
    assert(wanted.take(k as int) =~= wanted);
    logs
}

/// Puts `record` at the end of the section of the boot `id`.
fn add_record(
    logs: &mut Vec<BootLog>,
    id: &String,
    record: FormattedLogEntry,
    Ghost(keys): Ghost<Seq<Seq<char>>>,
)
    requires
        old(logs).len() == keys.len(),
        forall|j: int| 0 <= j < keys.len() ==> (#[trigger] old(logs)@[j]).boot_id@ == keys[j],
        forall|i: int, j: int| 0 <= i < j < keys.len() ==> keys[i] != keys[j],
        lists_text(keys, id@),
    ensures
        final(logs).len() == keys.len(),
        forall|j: int|
            0 <= j < keys.len() ==> (#[trigger] final(logs)@[j]).boot_id@ == keys[j] && records(
                final(logs)@[j].entries@,
            ) == if keys[j] == id@ {
                records(old(logs)@[j].entries@).push(record@)
            } else {
                records(old(logs)@[j].entries@)
            },
{
    match find_boot(logs, id) {
        Some(j) => {
            let ghost before = logs@;
            logs[j].entries.push(record);
            assert(logs@[j as int].boot_id@ == before[j as int].boot_id@);
            assert(records(logs@[j as int].entries@) =~= records(before[j as int].entries@).push(
                record@,
            ));
            assert forall|k: int| 0 <= k < keys.len() && k != j implies keys[k] != id@ by {
                assert(before[k].boot_id@ == keys[k]);
                assert(before[j as int].boot_id@ == keys[j as int]);
            }
        },
        None => {
            proof {
                let k = choose|k: int| 0 <= k < keys.len() && keys[k] == id@;
                assert(logs@[k].boot_id@ == keys[k]);
            }
        },
    }
}

/// What becomes of one entry in a report on `boots` under `options`: it is
/// left out, it is shown as a record, or one of its fields cannot be read.
/// What the entry lacks is noted in `log`.
pub fn show_entry(
    entry: &LogEntry,
    options: &CliOptions,
    boots: &Vec<String>,
    log: &mut Vec<Warning>,
) -> (r: Result<Option<FormattedLogEntry>, FormatError>)
    ensures
        match r {
            Ok(Some(record)) => outcome(entry@, options@, texts(boots@)) == Ok::<
                Option<RecordView>,
                FormatError,
            >(Some(record@)),
            Ok(None) => outcome(entry@, options@, texts(boots@)) == Ok::<
                Option<RecordView>,
                FormatError,
            >(None),
            Err(error) => outcome(entry@, options@, texts(boots@)) == Err::<
                Option<RecordView>,
                FormatError,
            >(error),
        },
        final(log)@ == old(log)@ + entry_notes(entry@, options@, texts(boots@)),
{
    let ghost noted = log@;
    match accepts(entry, options, boots, log) {
        Ok(true) => {
            let ghost tested = log@;
            let formatted = format_entry(entry, log);
            assert(log@ =~= noted + (filter_notes(entry@, options@, texts(boots@)) + format_notes(
                entry@,
            )));
            match formatted {
                Ok(record) => Ok(Some(record)),
                Err(error) => Err(error),
            }
        },
        Ok(false) => Ok(None),
        Err(error) => Err(error),
    }
}

impl ParsedLogfile {
    /// The entries are counted, and the boots are those that the entries
    /// name.
    #[verifier::type_invariant]
    spec fn well_formed(self) -> bool {
        &&& self.total_entries == self.log_entries.len()
        &&& texts(self.boot_ids@) == boot_ids_of(entry_views(self.log_entries@))
    }

    /// The file `parse_options` names, holding `entries`. Each entry
    /// without a boot id is noted in `log`.
    pub fn new(parse_options: &CliOptions, entries: Vec<LogEntry>, log: &mut Vec<Warning>) -> (file:
        ParsedLogfile)
        ensures
            file@ == (LogfileView {
                filename: parse_options@.logfile,
                entries: entry_views(entries@),
                options: parse_options@,
            }),
            final(log)@ == old(log)@ + index_notes(entry_views(entries@)),
    {
        let ids = boot_ids(&entries, log);
        let number = entries.len();
        ParsedLogfile {
            filename: parse_options.logfile_name().clone(),
            log_entries: entries,
            total_entries: number,
            parse_opt: parse_options.clone(),
            boot_ids: ids,
        }
    }

    /// The boots that the report is about.
    fn boots(&self) -> (boots: &Vec<String>)
        ensures
            texts(boots@) == report_boots(self@),
    {
        proof {
            use_type_invariant(self);
        }
        let boot_filter = self.parse_opt.boot_filter();
        if boot_filter.len() != 0 {
            boot_filter
        } else {
            &self.boot_ids
        }
    }

    /// The report: for each boot its entries that are shown, formatted, or
    /// the error of the first entry that has one. What the entries lack is
    /// noted in `log`.
    pub fn format_entry_list(&self, log: &mut Vec<Warning>) -> (r: Result<Vec<BootLog>, FormatError>)
        ensures
            match r {
                Ok(logs) => report_of(self@.entries, self@.options, report_boots(self@)) == Ok::<
                    Seq<BootLogView>,
                    FormatError,
                >(boot_logs(logs@)),
                Err(error) => report_of(self@.entries, self@.options, report_boots(self@)) == Err::<
                    Seq<BootLogView>,
                    FormatError,
                >(error),
            },
            r matches Ok(logs) ==> forall|i: int, j: int|
                0 <= i < j < logs.len() ==> logs@[i].boot_id@ != logs@[j].boot_id@,
            final(log)@ == old(log)@ + report_notes(
                self@.entries,
                self@.options,
                report_boots(self@),
            ),
    {
        let ghost noted = log@;
        let boots = self.boots();
        let ghost all = self@.entries;
        let ghost o = self@.options;
        let ghost wanted = texts(boots@);
        let mut logs = empty_sections(boots);
        proof {
            lemma_distinct_has_no_repetition(wanted);
            assert forall|j: int| 0 <= j < logs.len() implies records(
                (#[trigger] logs@[j]).entries@,
            ) == boot_records(all.take(0), o, wanted, distinct(wanted)[j]) by {
                assert(records(logs@[j].entries@) =~= Seq::<RecordView>::empty());
            }
        }
        let mut i: usize = 0;
        assert(log@ =~= noted + report_notes(all.take(0), o, wanted));
        while i < self.log_entries.len()
            invariant
                i <= self.log_entries.len(),
                all == entry_views(self.log_entries@),
                all == self@.entries,
                o == self.parse_opt@,
                o == self@.options,
                wanted == texts(boots@),
                wanted == report_boots(self@),
                noted == old(log)@,
                log@ == noted + report_notes(all.take(i as int), o, wanted),
                first_failure(all.take(i as int), o, wanted) is None,
                filled(logs@, all.take(i as int), o, wanted),
            decreases self.log_entries.len() - i,
        {
            let entry = &self.log_entries[i];
            let ghost upto = log@;
            proof {
                lemma_take_step(all, i as int);
                assert(entry@ == all[i as int]);
            }
            let shown = show_entry(entry, &self.parse_opt, boots, log);
            assert(log@ =~= noted + report_notes(all.take(i + 1), o, wanted));
            match shown {
                Ok(Some(record)) => {
                    let id = entry.session().unwrap();
                    proof {
                        lemma_distinct_lists_the_same(wanted, id@);
                        lemma_distinct_has_no_repetition(wanted);
                    }
                    add_record(&mut logs, id, record, Ghost(distinct(wanted)));
                },
                Ok(None) => {},
                Err(error) => {
                    proof {
                        assert(first_failure(all.take(i + 1), o, wanted) == Some(error));
                        lemma_failure_stays(all, o, wanted, i + 1);
                        lemma_notes_end_with_failure(all, o, wanted, i + 1);
                    }
                    return Err(error);
                },
            }
            i = i + 1;
        }
        assert(all.take(i as int) =~= all);
        assert(boot_logs(logs@) =~= sections(all, o, wanted));
        Ok(logs)
    }

    /// What the viewer shows for the file. What the entries of a report
    /// lack is noted in `log`.
    pub fn print(self, log: &mut Vec<Warning>) -> (shown: Printout)
        ensures
            shown@ == printout_of(self@),
            final(log)@ == old(log)@ + printout_notes(self@),
    {
        proof {
            use_type_invariant(&self);
        }
        if self.parse_opt.list_boots() {
            assert(log@ + Seq::<Warning>::empty() =~= log@);
            return Printout::BootList { filename: self.filename, boot_ids: self.boot_ids };
        }
        let cap = self.parse_opt.num_of_entries();
        match self.format_entry_list(log) {
            Ok(logs) => {
                let ghost full = boot_logs(logs@);
                let mut boots = logs;
                let mut j: usize = 0;
                while j < boots.len()
                    invariant
                        j <= boots.len(),
                        boots.len() == full.len(),
                        forall|k: int|
                            0 <= k < j ==> (#[trigger] boots@[k])@ == (BootLogView {
                                boot_id: full[k].boot_id,
                                entries: limited(full[k].entries, cap as int),
                            }),
                        forall|k: int| j <= k < boots.len() ==> (#[trigger] boots@[k])@ == full[k],
                    decreases boots.len() - j,
                {
                    if cap > 0 && boots[j].entries.len() > cap as usize {
                        let ghost before = boots@[j as int].entries@;
                        boots[j].entries.truncate(cap as usize);
                        assert(records(boots@[j as int].entries@) =~= records(before).take(
                            cap as int,
                        ));
                    }
                    j = j + 1;
                }
                assert(boot_logs(boots@) =~= limited_sections(full, cap as int));
                Printout::Report { total_entries: self.total_entries, boots }
            },
            Err(error) => Printout::Failed { error },
        }
    }
}

/// `distinct` lists the texts that the list itself lists.
pub proof fn lemma_distinct_lists_the_same(list: Seq<Seq<char>>, item: Seq<char>)
    ensures
        lists_text(distinct(list), item) == lists_text(list, item),
    decreases list.len(),
{
    if list.len() > 0 {
        let before = distinct(list.drop_last());
        lemma_distinct_lists_the_same(list.drop_last(), item);
        if lists_text(list, item) {
            let i = choose|i: int| 0 <= i < list.len() && list[i] == item;
            if i < list.len() - 1 {
                assert(list.drop_last()[i] == item);
                let k = choose|k: int| 0 <= k < before.len() && before[k] == item;
                assert(distinct(list)[k] == item);
            } else if !lists_text(before, list.last()) {
                assert(distinct(list)[before.len() as int] == item);
            }
        }
        if lists_text(distinct(list), item) {
            let k = choose|k: int| 0 <= k < distinct(list).len() && distinct(list)[k] == item;
            if k < before.len() {
                assert(before[k] == item);
                let i = choose|i: int| 0 <= i < list.drop_last().len() && list.drop_last()[i] == item;
                assert(list[i] == item);
            } else {
                assert(list[list.len() - 1] == item);
            }
        }
    }
}

/// No text stands twice in `distinct(list)`.
pub proof fn lemma_distinct_has_no_repetition(list: Seq<Seq<char>>)
    ensures
        forall|i: int, j: int|
            0 <= i < j < distinct(list).len() ==> distinct(list)[i] != distinct(list)[j],
    decreases list.len(),
{
    if list.len() > 0 {
        let before = distinct(list.drop_last());
        lemma_distinct_has_no_repetition(list.drop_last());
        if !lists_text(before, list.last()) {
            assert forall|i: int| 0 <= i < before.len() implies before[i] != list.last() by {
                if before[i] == list.last() {
                    assert(lists_text(before, list.last()));
                }
            }
        }
    }
}

/// An error among the first `n` entries is the error of the whole file.
pub proof fn lemma_failure_stays(
    entries: Seq<EntryView>,
    o: OptionsView,
    boots: Seq<Seq<char>>,
    n: int,
)
    requires
        0 <= n <= entries.len(),
        first_failure(entries.take(n), o, boots) is Some,
    ensures
        first_failure(entries, o, boots) == first_failure(entries.take(n), o, boots),
    decreases entries.len() - n,
{
    if n < entries.len() {
        assert(entries.drop_last().take(n) =~= entries.take(n));
        lemma_failure_stays(entries.drop_last(), o, boots, n);
    } else {
        assert(entries.take(n) =~= entries);
    }
}

/// Nothing is noted behind the first entry that has an error.
pub proof fn lemma_notes_end_with_failure(
    entries: Seq<EntryView>,
    o: OptionsView,
    boots: Seq<Seq<char>>,
    n: int,
)
    requires
        0 <= n <= entries.len(),
        first_failure(entries.take(n), o, boots) is Some,
    ensures
        report_notes(entries, o, boots) == report_notes(entries.take(n), o, boots),
    decreases entries.len() - n,
{
    if n < entries.len() {
        assert(entries.drop_last().take(n) =~= entries.take(n));
        lemma_failure_stays(entries.drop_last(), o, boots, n);
        lemma_notes_end_with_failure(entries.drop_last(), o, boots, n);
    } else {
        assert(entries.take(n) =~= entries);
    }
}

/// No boot stands twice among the boots of a file.
pub proof fn lemma_boot_ids_are_distinct(entries: Seq<EntryView>)
    ensures
        forall|i: int, j: int|
            0 <= i < j < boot_ids_of(entries).len() ==> boot_ids_of(entries)[i] != boot_ids_of(
                entries,
            )[j],
    decreases entries.len(),
{
    if entries.len() > 0 {
        let before = boot_ids_of(entries.drop_last());
        lemma_boot_ids_are_distinct(entries.drop_last());
        match entries.last().boot_id {
            Some(id) => {
                if !lists_text(before, id) {
                    assert forall|i: int| 0 <= i < before.len() implies before[i] != id by {
                        if before[i] == id {
                            assert(lists_text(before, id));
                        }
                    }
                }
            },
            None => {},
        }
    }
}

/// Every record of a section comes from an entry that names the boot of
/// the section. So an entry that names no boot is in no section.
pub proof fn lemma_shown_records_name_their_boot(
    entries: Seq<EntryView>,
    o: OptionsView,
    boots: Seq<Seq<char>>,
    boot: Seq<char>,
    k: int,
)
    requires
        0 <= k < boot_records(entries, o, boots, boot).len(),
    ensures
        exists|i: int|
            0 <= i < entries.len() && (#[trigger] entries[i]).session() == Some(boot) && outcome(
                entries[i],
                o,
                boots,
            ) == Ok::<Option<RecordView>, FormatError>(
                Some(boot_records(entries, o, boots, boot)[k]),
            ),
    decreases entries.len(),
{
    let before = boot_records(entries.drop_last(), o, boots, boot);
    let last = entries.len() - 1;
    if k < before.len() {
        lemma_shown_records_name_their_boot(entries.drop_last(), o, boots, boot, k);
        let i = choose|i: int|
            0 <= i < entries.drop_last().len() && (#[trigger] entries.drop_last()[i]).session()
                == Some(boot) && outcome(entries.drop_last()[i], o, boots) == Ok::<
                Option<RecordView>,
                FormatError,
            >(Some(before[k]));
        assert(entries[i] == entries.drop_last()[i]);
    } else {
        assert(entries[last] == entries.last());
    }
}

/// An entry that names no boot has no part in the report: the report on the
/// file without that entry is the same.
pub proof fn lemma_entry_without_boot_changes_nothing(
    entries: Seq<EntryView>,
    o: OptionsView,
    boots: Seq<Seq<char>>,
    n: int,
)
    requires
        0 <= n < entries.len(),
        entries[n].session() is None,
    ensures
        outcome(entries[n], o, boots) == Ok::<Option<RecordView>, FormatError>(None),
        first_failure(entries.remove(n), o, boots) == first_failure(entries, o, boots),
        forall|boot: Seq<char>|
            boot_records(entries.remove(n), o, boots, boot) == #[trigger] boot_records(
                entries,
                o,
                boots,
                boot,
            ),
        report_of(entries.remove(n), o, boots) == report_of(entries, o, boots),
    decreases entries.len(),
{
    let shorter = entries.remove(n);
    if n == entries.len() - 1 {
        assert(shorter =~= entries.drop_last());
    } else {
        assert(entries.drop_last()[n] == entries[n]);
        lemma_entry_without_boot_changes_nothing(entries.drop_last(), o, boots, n);
        assert(shorter.drop_last() =~= entries.drop_last().remove(n));
        assert(shorter.last() == entries.last());
    }
    assert forall|boot: Seq<char>|
        boot_records(shorter, o, boots, boot) == #[trigger] boot_records(
            entries,
            o,
            boots,
            boot,
        ) by {
        if n < entries.len() - 1 {
            assert(boot_records(shorter.drop_last(), o, boots, boot) == boot_records(
                entries.drop_last(),
                o,
                boots,
                boot,
            ));
        }
    }
    assert(sections(shorter, o, boots) =~= sections(entries, o, boots));
}

/// The boots of a file are the boot ids that its entries have.
pub proof fn lemma_boot_ids_are_those_of_the_entries(entries: Seq<EntryView>, id: Seq<char>)
    ensures
        lists_text(boot_ids_of(entries), id) <==> exists|i: int|
            0 <= i < entries.len() && (#[trigger] entries[i]).boot_id == Some(id),
    decreases entries.len(),
{
    if entries.len() > 0 {
        let shorter = entries.drop_last();
        let before = boot_ids_of(shorter);
        let all = boot_ids_of(entries);
        lemma_boot_ids_are_those_of_the_entries(shorter, id);
        if lists_text(all, id) {
            let k = choose|k: int| 0 <= k < all.len() && all[k] == id;
            if k < before.len() {
                assert(before[k] == id);
                let i = choose|i: int|
                    0 <= i < shorter.len() && (#[trigger] shorter[i]).boot_id == Some(id);
                assert(entries[i] == shorter[i]);
            } else {
                assert(entries[entries.len() - 1].boot_id == Some(id));
            }
        }
        if exists|i: int| 0 <= i < entries.len() && (#[trigger] entries[i]).boot_id == Some(id) {
            let i = choose|i: int|
                0 <= i < entries.len() && (#[trigger] entries[i]).boot_id == Some(id);
            if i < entries.len() - 1 {
                assert(shorter[i] == entries[i]);
                let k = choose|k: int| 0 <= k < before.len() && before[k] == id;
                assert(all[k] == id);
            } else if !lists_text(before, id) {
                assert(all[before.len() as int] == id);
            } else {
                let k = choose|k: int| 0 <= k < before.len() && before[k] == id;
                assert(all[k] == id);
            }
        }
    }
}

/// What becomes of the entry at place `i` of the file.
pub open spec fn outcome_at(
    entries: Seq<EntryView>,
    o: OptionsView,
    boots: Seq<Seq<char>>,
    i: int,
) -> Result<Option<RecordView>, FormatError> {
    outcome(entries[i], o, boots)
}

/// No entry before place `n` has an error.
pub open spec fn sound_before(
    entries: Seq<EntryView>,
    o: OptionsView,
    boots: Seq<Seq<char>>,
    n: int,
) -> bool {
    forall|j: int| 0 <= j < n ==> (#[trigger] outcome_at(entries, o, boots, j)) is Ok
}

/// The error of a report is that of an entry before which no entry has an
/// error, and a report has no error exactly where no entry has one.
pub proof fn lemma_first_failure_is_the_first(
    entries: Seq<EntryView>,
    o: OptionsView,
    boots: Seq<Seq<char>>,
)
    ensures
        match first_failure(entries, o, boots) {
            Some(error) => exists|i: int|
                0 <= i < entries.len() && #[trigger] outcome_at(entries, o, boots, i) == Err::<
                    Option<RecordView>,
                    FormatError,
                >(error) && sound_before(entries, o, boots, i),
            None => sound_before(entries, o, boots, entries.len() as int),
        },
    decreases entries.len(),
{
    if entries.len() > 0 {
        let shorter = entries.drop_last();
        let last = entries.len() - 1;
        lemma_first_failure_is_the_first(shorter, o, boots);
        assert forall|j: int| 0 <= j < last implies outcome_at(entries, o, boots, j) == outcome_at(
            shorter,
            o,
            boots,
            j,
        ) by {
            assert(entries[j] == shorter[j]);
        }
        match first_failure(shorter, o, boots) {
            Some(error) => {
                let i = choose|i: int|
                    0 <= i < shorter.len() && #[trigger] outcome_at(shorter, o, boots, i) == Err::<
                        Option<RecordView>,
                        FormatError,
                    >(error) && sound_before(shorter, o, boots, i);
                assert(outcome_at(entries, o, boots, i) == outcome_at(shorter, o, boots, i));
                assert forall|j: int| 0 <= j < i implies (#[trigger] outcome_at(
                    entries,
                    o,
                    boots,
                    j,
                )) is Ok by {
                    assert(outcome_at(shorter, o, boots, j) is Ok);
                }
            },
            None => {
                assert forall|j: int| 0 <= j < last implies (#[trigger] outcome_at(
                    entries,
                    o,
                    boots,
                    j,
                )) is Ok by {
                    assert(outcome_at(shorter, o, boots, j) is Ok);
                }
                assert(outcome_at(entries, o, boots, last) == outcome(entries.last(), o, boots));
            },
        }
    }
}

} // verus!
