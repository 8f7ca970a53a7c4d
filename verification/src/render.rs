//! The lines that the viewer writes.
//!
//! A list of boots is written as the name of the file, a heading, and one
//! boot on each line. A report is written section by section: a header with
//! the boot and the number of entries in the file, the names of the columns,
//! and one line for each entry. The first four columns are padded with
//! blanks to a fixed width; a longer text is written in full and pushes the
//! rest of its line to the right.

use crate::format::{FormattedLogEntry, RecordView};
use crate::number::{decimal_text, to_decimal};
use crate::parser::{
    boot_logs, printout_notes, printout_of, BootLog, BootLogView, ParsedLogfile, Printout,
    PrintoutView,
};
use crate::text::{lemma_texts_add, lemma_texts_push, texts};
use vstd::prelude::*;
use vstd::string::{StrSliceExecFns, StringExecFns};

verus! {

/// The width of the sequence column and of the priority column.
pub const NARROW: usize = 5;

/// The width of the time column.
pub const TIME_WIDTH: usize = 20;

/// The width of the unit column.
pub const UNIT_WIDTH: usize = 18;

/// `count` blanks.
pub open spec fn blanks(count: nat) -> Seq<char> {
    Seq::new(count, |i: int| ' ')
}

/// `text`, with blanks behind it where it has fewer than `width`
/// characters.
pub open spec fn padded(text: Seq<char>, width: nat) -> Seq<char> {
    if text.len() >= width {
        text
    } else {
        text + blanks((width - text.len()) as nat)
    }
}

/// The first four columns of a line, each padded to its width and followed
/// by two blanks but for the last.
pub open spec fn columns(first: Seq<char>, time: Seq<char>, level: Seq<char>, unit: Seq<char>)
    -> Seq<char> {
    padded(first, NARROW as nat) + blanks(2) + padded(time, TIME_WIDTH as nat) + blanks(2)
        + padded(level, NARROW as nat) + blanks(2) + padded(unit, UNIT_WIDTH as nat)
}

/// The line that names the columns.
pub open spec fn column_header() -> Seq<char> {
    columns("Seq#"@, "Datetime"@, "LVL"@, "Unit"@) + blanks(2) + "Message"@
}

/// The line of one entry.
pub open spec fn entry_line(r: RecordView) -> Seq<char> {
    columns(r.sequence_number, r.timestamp, r.loglevel, r.unit_name) + blanks(3) + r.message
}

/// The rule above and below the header of a section.
pub open spec fn rule() -> Seq<char> {
    "- - - - - - - - - - - - - - - - - - - - - - - - - - - - - - - - - - - - - - - - - - - - - - -"@
}

/// The line that names the boot of a section and says how many entries the
/// file has.
pub open spec fn boot_line(boot: Seq<char>, total: nat) -> Seq<char> {
    "Boot : ID: "@ + boot + ", Number of parsed entries: "@ + decimal_text(total)
}

/// The lines of the entries, in order.
pub open spec fn entry_lines(entries: Seq<RecordView>) -> Seq<Seq<char>> {
    Seq::new(entries.len(), |i: int| entry_line(entries[i]))
}

/// The lines of one section: the header between two rules, the names of
/// the columns, and the entries.
pub open spec fn section_lines(log: BootLogView, total: nat) -> Seq<Seq<char>> {
    seq![rule(), boot_line(log.boot_id, total), rule(), column_header()] + entry_lines(
        log.entries,
    )
}

/// The lines of the sections, in order.
pub open spec fn report_lines(logs: Seq<BootLogView>, total: nat) -> Seq<Seq<char>>
    decreases logs.len(),
{
    if logs.len() == 0 {
        Seq::empty()
    } else {
        report_lines(logs.drop_last(), total) + section_lines(logs.last(), total)
    }
}

/// The lines of a list of boots: the name of the file in quotes, a heading,
/// and the boots.
pub open spec fn boot_list_lines(filename: Seq<char>, boot_ids: Seq<Seq<char>>) -> Seq<Seq<char>> {
    seq![seq!['\''] + filename + seq!['\''], "Contains following Boot IDs:"@] + boot_ids
}

/// All that is written to the output: a line with one blank, then the list
/// of boots or the report. Where the report failed nothing follows the
/// first line.
pub open spec fn printed(p: PrintoutView) -> Seq<Seq<char>> {
    seq![blanks(1)] + match p {
        PrintoutView::BootList { filename, boot_ids } => boot_list_lines(filename, boot_ids),
        PrintoutView::Failed { error } => Seq::empty(),
        PrintoutView::Report { total_entries, boots } => report_lines(boots, total_entries),
    }
}

/// Writes `text` at the end of `out`, padded to `width`.
fn push_padded(out: &mut String, text: &str, width: usize)
    ensures
        final(out)@ == old(out)@ + padded(text@, width as nat),
{
    let ghost start = out@;
    out.append(text);
    let len = text.unicode_len();
    if len < width {
        let mut k: usize = len;
        proof {
            reveal_strlit(" ");
            assert(start + text@ =~= start + (text@ + blanks(0)));
        }
        while k < width
            invariant
                len <= k <= width,
                len == text@.len(),
                out@ == start + (text@ + blanks((k - len) as nat)),
            decreases width - k,
        {
            proof {
                reveal_strlit(" ");
            }
            out.append(" ");
            k = k + 1;
            assert(out@ =~= start + (text@ + blanks((k - len) as nat)));
        }
    }
}

/// Writes the first four columns of a line at the end of `out`.
fn push_columns(out: &mut String, first: &str, time: &str, level: &str, unit: &str)
    ensures
        final(out)@ == old(out)@ + columns(first@, time@, level@, unit@),
{
    let ghost start = out@;
    proof {
        reveal_strlit("  ");
        assert("  "@ =~= blanks(2));
    }
    push_padded(out, first, NARROW);
    out.append("  ");
    push_padded(out, time, TIME_WIDTH);
    out.append("  ");
    push_padded(out, level, NARROW);
    out.append("  ");
    push_padded(out, unit, UNIT_WIDTH);
    assert(out@ =~= start + columns(first@, time@, level@, unit@));
}

/// The line that names the columns.
pub fn print_column_header() -> (line: String)
    ensures
        line@ == column_header(),
{
    let mut line = String::new();
    push_columns(&mut line, "Seq#", "Datetime", "LVL", "Unit");
    proof {
        reveal_strlit("  ");
        assert("  "@ =~= blanks(2));
    }
    line.append("  ");
    line.append("Message");
    assert(line@ =~= column_header());
    line
}

/// The line of one entry.
pub fn print_entry(log_entry: &FormattedLogEntry) -> (line: String)
    ensures
        line@ == entry_line(log_entry@),
{
    let mut line = String::new();
    push_columns(
        &mut line,
        log_entry.sequence_number.as_str(),
        log_entry.timestamp.as_str(),
        log_entry.loglevel.as_str(),
        log_entry.unit_name.as_str(),
    );
    proof {
        reveal_strlit("   ");
        assert("   "@ =~= blanks(3));
    }
    line.append("   ");
    line.append(log_entry.message.as_str());
    assert(line@ =~= entry_line(log_entry@));
    line
}

/// The three lines that head the section of `boot` in a report on a file of
/// `num` entries.
pub fn print_boot(boot: &String, num: usize) -> (lines: Vec<String>)
    ensures
        texts(lines@) == seq![rule(), boot_line(boot@, num as nat), rule()],
{
    let dashes = "- - - - - - - - - - - - - - - - - - - - - - - - - - - - - - - - - - - - - - - - - - - - - - -";
    let mut line = "Boot : ID: ".to_owned();
    line.append(boot.as_str());
    line.append(", Number of parsed entries: ");
    line.append(to_decimal(num as u64).as_str());
    assert(line@ =~= boot_line(boot@, num as nat));
    let mut lines: Vec<String> = Vec::new();
    lines.push(dashes.to_owned());
    lines.push(line);
    lines.push(dashes.to_owned());
    assert(texts(lines@) =~= seq![rule(), boot_line(boot@, num as nat), rule()]);
    lines
}

/// The lines of a list of boots.
pub fn print_boot_list(filename: &String, boot_ids: &Vec<String>) -> (lines: Vec<String>)
    ensures
        texts(lines@) == boot_list_lines(filename@, texts(boot_ids@)),
{
    proof {
        reveal_strlit("'");
        assert("'"@ =~= seq!['\'']);
    }
    let mut name = "'".to_owned();
    name.append(filename.as_str());
    name.append("'");
    let mut lines: Vec<String> = Vec::new();
    lines.push(name);
    lines.push("Contains following Boot IDs:".to_owned());
    let ghost head = texts(lines@);
    let mut i: usize = 0;
    assert(texts(lines@) =~= head + texts(boot_ids@).take(0));
    while i < boot_ids.len()
        invariant
            i <= boot_ids.len(),
            texts(lines@) == head + texts(boot_ids@).take(i as int),
        decreases boot_ids.len() - i,
    {
        proof {
            lemma_texts_push(lines@, boot_ids@[i as int]);
        }
        lines.push(boot_ids[i].clone());
        i = i + 1;
        assert(texts(lines@) =~= head + texts(boot_ids@).take(i as int));
    }
    assert(texts(boot_ids@).take(i as int) =~= texts(boot_ids@));
    assert(texts(lines@) =~= boot_list_lines(filename@, texts(boot_ids@)));
    lines
}

/// Writes the lines of one section at the end of `lines`.
fn push_section(lines: &mut Vec<String>, log: &BootLog, total: usize)
    ensures
        texts(final(lines)@) == texts(old(lines)@) + section_lines(log@, total as nat),
{
    let ghost start = texts(lines@);
    let mut header = print_boot(&log.boot_id, total);
    proof {
        lemma_texts_add(lines@, header@);
    }
    lines.append(&mut header);
    let names = print_column_header();
    proof {
        lemma_texts_push(lines@, names);
    }
    lines.push(names);
    let ghost top = start + seq![
        rule(),
        boot_line(log.boot_id@, total as nat),
        rule(),
        column_header(),
    ];
    assert(texts(lines@) =~= top);
    let mut i: usize = 0;
    assert(texts(lines@) =~= top + entry_lines(log@.entries).take(0));
    while i < log.entries.len()
        invariant
            i <= log.entries.len(),
            texts(lines@) == top + entry_lines(log@.entries).take(i as int),
        decreases log.entries.len() - i,
    {
        let line = print_entry(&log.entries[i]);
        proof {
            lemma_texts_push(lines@, line);
        }
        lines.push(line);
        i = i + 1;
        assert(texts(lines@) =~= top + entry_lines(log@.entries).take(i as int));
    }
    assert(entry_lines(log@.entries).take(i as int) =~= entry_lines(log@.entries));
    assert(texts(lines@) =~= start + section_lines(log@, total as nat));
}

impl Printout {
    /// All that is written to the output, line by line.
    pub fn lines(&self) -> (lines: Vec<String>)
        ensures
            texts(lines@) == printed(self@),
    {
        proof {
            reveal_strlit(" ");
            assert(" "@ =~= blanks(1));
        }
        let mut lines: Vec<String> = Vec::new();
        lines.push(" ".to_owned());
        let ghost first = texts(lines@);
        assert(first =~= seq![blanks(1)]);
        match self {
            Printout::BootList { filename, boot_ids } => {
                let mut list = print_boot_list(filename, boot_ids);
                let ghost rest = texts(list@);
                proof {
                    lemma_texts_add(lines@, list@);
                }
                lines.append(&mut list);
                assert(texts(lines@) =~= first + rest);
            },
            Printout::Failed { error } => {
                assert(texts(lines@) =~= first + Seq::<Seq<char>>::empty());
            },
            Printout::Report { total_entries, boots } => {
                let mut i: usize = 0;
                assert(boots@.take(0) =~= Seq::<BootLog>::empty());
                assert(texts(lines@) =~= first + Seq::<Seq<char>>::empty());
                while i < boots.len()
                    invariant
                        i <= boots.len(),
                        texts(lines@) == first + report_lines(
                            boot_logs(boots@.take(i as int)),
                            *total_entries as nat,
                        ),
                    decreases boots.len() - i,
                {
                    let ghost done = boot_logs(boots@.take(i as int));
                    let ghost next = boot_logs(boots@.take(i + 1));
                    assert(next.drop_last() =~= done);
                    assert(next.last() == boots@[i as int]@);
                    push_section(&mut lines, &boots[i], *total_entries);
                    i = i + 1;
                    assert(texts(lines@) =~= first + report_lines(next, *total_entries as nat));
                }
                assert(boots@.take(i as int) =~= boots@);
            },
        }
        lines
    }
}

/// What is written and what is noted depend on the name of the file, its
/// entries and the options, and on nothing else: two runs over one file
/// under the same options write the same lines and note the same defects.
pub proof fn lemma_printout_is_repeatable(first: ParsedLogfile, second: ParsedLogfile)
    requires
        first@ == second@,
    ensures
        printout_of(first@) == printout_of(second@),
        printed(printout_of(first@)) == printed(printout_of(second@)),
        printout_notes(first@) == printout_notes(second@),
{
}

} // verus!
