//! Which entries are shown.
//!
//! An entry is shown where it belongs to one of the boots of the report,
//! comes from a unit that is asked for, and is at least as severe as the
//! level asked for. The three tests do not depend on one another; an entry
//! that fails an earlier one is left out without its priority being read.

use crate::entry::{present, present_field, sentinel, EntryView, LogEntry};
use crate::error::{FormatError, Warning};
use crate::number::{parse_u32, parse_unsigned};
use crate::opt::{
    expanded_units, lemma_expanded_units_hold_both_names, service_suffix, CliOptions, OptionsView,
};
use crate::text::{contains_text, lists, lists_text, texts};
use vstd::prelude::*;

verus! {

/// The unit name of the kernel.
pub open spec fn kernel_unit() -> Seq<char> {
    seq!['k', 'e', 'r', 'n', 'e', 'l']
}

/// The priority level of an entry: `None` where the entry has no priority,
/// an error where it has one that is no unsigned number.
pub open spec fn level_of(e: EntryView) -> Result<Option<nat>, FormatError> {
    match present(e.priority) {
        Some(text) => match parse_unsigned(text, 10, 0xffff_ffff) {
            Some(level) => Ok(Some(level)),
            None => Err(FormatError::InvalidPriority),
        },
        None => Ok(None),
    }
}

/// The entry belongs to one of `boots`.
pub open spec fn in_boots(e: EntryView, boots: Seq<Seq<char>>) -> bool {
    match e.session() {
        Some(id) => lists_text(boots, id),
        None => false,
    }
}

/// The entry comes from a unit that is asked for: from the kernel where only
/// the kernel is asked for, and from a unit of the unit filter where there
/// is one.
pub open spec fn from_wanted_unit(e: EntryView, o: OptionsView) -> bool {
    &&& o.kernel_flag ==> e.resolved_unit() == kernel_unit()
    &&& o.unit_filter.len() != 0 ==> lists_text(o.unit_filter, e.resolved_unit())
}

/// A level passes where it is not above `max`; an entry without a level
/// always passes.
pub open spec fn level_passes(level: Option<nat>, max: int) -> bool {
    match level {
        Some(l) => l <= max,
        None => true,
    }
}

/// Whether the entry is shown. The priority is read only where the entry
/// belongs to one of `boots` and comes from a wanted unit, so only there can
/// it be found unreadable.
pub open spec fn accepted(e: EntryView, o: OptionsView, boots: Seq<Seq<char>>) -> Result<
    bool,
    FormatError,
> {
    if !in_boots(e, boots) || !from_wanted_unit(e, o) {
        Ok(false)
    } else {
        match level_of(e) {
            Ok(level) => Ok(level_passes(level, o.log_level)),
            Err(error) => Err(error),
        }
    }
}

/// What is noted of the unit of an entry: that no field names it.
pub open spec fn unit_notes(e: EntryView) -> Seq<Warning> {
    if e.named_unit() is None {
        seq![Warning::NoUnit]
    } else {
        Seq::empty()
    }
}

/// What is noted while the entry is tested: that it names no boot and is
/// left out; for an entry of one of `boots`, that no field names its unit;
/// and for an entry that also comes from a wanted unit, that it has no
/// priority.
pub open spec fn filter_notes(e: EntryView, o: OptionsView, boots: Seq<Seq<char>>) -> Seq<
    Warning,
> {
    if e.session() is None {
        seq![Warning::EntryIgnored]
    } else if !in_boots(e, boots) {
        Seq::empty()
    } else if from_wanted_unit(e, o) && present(e.priority) is None {
        unit_notes(e) + seq![Warning::NoPriority]
    } else {
        unit_notes(e)
    }
}

/// An entry that names no boot is never shown.
pub proof fn lemma_entry_without_boot_is_rejected(
    e: EntryView,
    o: OptionsView,
    boots: Seq<Seq<char>>,
)
    requires
        e.session() is None,
    ensures
        accepted(e, o, boots) == Ok::<bool, FormatError>(false),
{
}

/// An entry without a priority is shown or not whatever the level asked
/// for: the other two tests alone decide.
pub proof fn lemma_entry_without_priority_passes_every_level(
    e: EntryView,
    o: OptionsView,
    boots: Seq<Seq<char>>,
)
    requires
        present(e.priority) is None,
    ensures
        accepted(e, o, boots) == Ok::<bool, FormatError>(
            in_boots(e, boots) && from_wanted_unit(e, o),
        ),
        in_boots(e, boots) && from_wanted_unit(e, o) ==> accepted(e, o, boots) == Ok::<
            bool,
            FormatError,
        >(true),
{
}

/// An entry of priority `level` that passes the other two tests is shown
/// exactly where `level` is not above the level asked for.
pub proof fn lemma_level_decides(e: EntryView, o: OptionsView, boots: Seq<Seq<char>>, level: nat)
    requires
        level_of(e) == Ok::<Option<nat>, FormatError>(Some(level)),
        in_boots(e, boots),
        from_wanted_unit(e, o),
    ensures
        accepted(e, o, boots) == Ok::<bool, FormatError>(level <= o.log_level),
{
}

/// An entry whose unit is one of the names that were given, or the service
/// variant of one of them, passes a unit filter made of those names.
pub proof fn lemma_unit_filter_takes_both_names(
    e: EntryView,
    o: OptionsView,
    units: Seq<Seq<char>>,
    i: int,
)
    requires
        0 <= i < units.len(),
        o.unit_filter == expanded_units(units),
        !o.kernel_flag,
        e.resolved_unit() == units[i] || (!contains_text(units[i], service_suffix())
            && e.resolved_unit() == units[i] + service_suffix()),
    ensures
        from_wanted_unit(e, o),
{
    lemma_expanded_units_hold_both_names(units, i);
}

/// Whether the entry is shown under `options` in a report on `boots`. What
/// the entry lacks is noted in `log`.
pub fn accepts(
    entry: &LogEntry,
    options: &CliOptions,
    boots: &Vec<String>,
    log: &mut Vec<Warning>,
) -> (r: Result<bool, FormatError>)
    ensures
        r == accepted(entry@, options@, texts(boots@)),
        final(log)@ == old(log)@ + filter_notes(entry@, options@, texts(boots@)),
{
    let ghost noted = log@;
    assert(noted + Seq::<Warning>::empty() =~= noted);
    match entry.session() {
        Some(id) => {
            if !lists(boots, id) {
                return Ok(false);
            }
        },
        None => {
            log.push(Warning::EntryIgnored);
            assert(log@ =~= noted + seq![Warning::EntryIgnored]);
            return Ok(false);
        },
    }
    let unit = match entry.named_unit() {
        Some(unit) => unit.clone(),
        None => {
            log.push(Warning::NoUnit);
            sentinel()
        },
    };
    assert(log@ =~= noted + unit_notes(entry@));
    if options.kernel_flag() {
        proof {
            reveal_strlit("kernel");
            assert("kernel"@ =~= kernel_unit());
        }
        if unit != "kernel".to_owned() {
            return Ok(false);
        }
    }
    let unit_filter = options.unit_filter();
    if unit_filter.len() != 0 {
        if !lists(unit_filter, &unit) {
            return Ok(false);
        }
    }
    match present_field(&entry.priority) {
        Some(text) => match parse_u32(text.as_str()) {
            Some(level) => Ok(level <= options.log_level()),
            None => Err(FormatError::InvalidPriority),
        },
        None => {
            log.push(Warning::NoPriority);
            assert(log@ =~= noted + (unit_notes(entry@) + seq![Warning::NoPriority]));
            Ok(true)
        },
    }
}

} // verus!
