//! The viewer's options.
//!
//! `CliMatches` holds what was given on the command line, still as text.
//! `CliOptions::from_matches` reads the numbers, times and dates in it and
//! gives the options that the rest of the viewer works with, or says which
//! value could not be read.

use crate::error::{OptError, Warning};
use crate::number::{parse_u32, parse_unsigned};
use crate::text::{contains, contains_text, lists_text, text_of, texts};
use crate::time::{
    date_midnight, midnight_seconds, read_date, read_time_of_day, seconds_from_midnight,
    time_of_day, to_unsigned_seconds, unsigned_seconds, DATE_PATTERN, DAY, TIME_PATTERN,
};
use vstd::prelude::*;
use vstd::string::StringExecFns;

verus! {

/// What the command line held, as text.
#[derive(Debug)]
pub struct CliMatches {
    /// The journal file to view.
    pub logfile: String,
    /// List the boots of the file and show no entries.
    pub list_boots: bool,
    /// The highest priority level to show, as given.
    pub priority: Option<String>,
    /// The boots to show; none given means all.
    pub boot: Vec<String>,
    /// The units to show; none given means all.
    pub unit: Vec<String>,
    /// Show kernel entries only.
    pub kernel: bool,
    /// The most entries to show for each boot, as given.
    pub number: Option<String>,
    /// Start of the time-of-day window, as given.
    pub time_from: Option<String>,
    /// End of the time-of-day window, as given.
    pub time_to: Option<String>,
    /// Start of the calendar window, as given.
    pub date_from: Option<String>,
    /// End of the calendar window, as given.
    pub date_to: Option<String>,
}

/// `CliMatches` as plain values.
pub struct MatchesView {
    pub logfile: Seq<char>,
    pub list_boots: bool,
    pub priority: Option<Seq<char>>,
    pub boot: Seq<Seq<char>>,
    pub unit: Seq<Seq<char>>,
    pub kernel: bool,
    pub number: Option<Seq<char>>,
    pub time_from: Option<Seq<char>>,
    pub time_to: Option<Seq<char>>,
    pub date_from: Option<Seq<char>>,
    pub date_to: Option<Seq<char>>,
}

impl View for CliMatches {
    type V = MatchesView;

    open spec fn view(&self) -> MatchesView {
        MatchesView {
            logfile: self.logfile@,
            list_boots: self.list_boots,
            priority: text_of(self.priority),
            boot: texts(self.boot@),
            unit: texts(self.unit@),
            kernel: self.kernel,
            number: text_of(self.number),
            time_from: text_of(self.time_from),
            time_to: text_of(self.time_to),
            date_from: text_of(self.date_from),
            date_to: text_of(self.date_to),
        }
    }
}

/// The least severe priority level, debug. Levels run from 0 to this.
pub const MAX_LEVEL: u32 = 7;

/// The viewer's options, read and checked.
#[derive(Debug)]
pub struct CliOptions {
    logfile: String,
    list_boots: bool,
    log_level: u32,
    boot_filter: Vec<String>,
    unit_filter: Vec<String>,
    kernel_flag: bool,
    num_of_entries: u32,
    start_time_filter: u64,
    stop_time_filter: u64,
    start_date_filter: u64,
    stop_date_filter: u64,
}

/// `CliOptions` as plain values.
pub struct OptionsView {
    /// The path of the journal file.
    pub logfile: Seq<char>,
    /// List the boots and show no entries.
    pub list_boots: bool,
    /// The highest priority level to show, 0 to 7.
    pub log_level: int,
    /// The boots to show; empty means all.
    pub boot_filter: Seq<Seq<char>>,
    /// The unit names to show; empty means all.
    pub unit_filter: Seq<Seq<char>>,
    /// Show kernel entries only.
    pub kernel_flag: bool,
    /// The most entries to show for each boot; 0 means all.
    pub num_of_entries: int,
    /// Start of the time-of-day window, in seconds from midnight.
    pub start_time_filter: int,
    /// End of the time-of-day window, in seconds from midnight.
    pub stop_time_filter: int,
    /// Start of the calendar window, in seconds from the epoch.
    pub start_date_filter: int,
    /// End of the calendar window, in seconds from the epoch.
    pub stop_date_filter: int,
}

/// The suffix that names a service unit.
pub open spec fn service_suffix() -> Seq<char> {
    seq!['.', 's', 'e', 'r', 'v', 'i', 'c', 'e']
}

/// The unit filter that the given unit names stand for: each name as it is,
/// followed by the name with `.service` behind it unless `.service` already
/// occurs in it.
pub open spec fn expanded_units(units: Seq<Seq<char>>) -> Seq<Seq<char>>
    decreases units.len(),
{
    if units.len() == 0 {
        Seq::empty()
    } else {
        let before = expanded_units(units.drop_last());
        let name = units.last();
        if contains_text(name, service_suffix()) {
            before.push(name)
        } else {
            before.push(name).push(name + service_suffix())
        }
    }
}

/// The level that a given number stands for: levels above 7 count as 7.
pub open spec fn clamped_level(level: int) -> int {
    if level > MAX_LEVEL {
        MAX_LEVEL as int
    } else {
        level
    }
}

/// The seconds from midnight that the text of a time option stands for; 0
/// where the option is absent.
pub open spec fn time_option(value: Option<Seq<char>>) -> int {
    match value {
        Some(text) => match time_of_day(text, TIME_PATTERN@) {
            Some((hour, minute, second)) => midnight_seconds(hour, minute, second),
            None => 0,
        },
        None => 0,
    }
}

/// The seconds from the epoch that the text of a date option stands for; 0
/// where the option is absent.
pub open spec fn date_option(value: Option<Seq<char>>) -> int {
    match value {
        Some(text) => match date_midnight(text, DATE_PATTERN@) {
            Some(seconds) => unsigned_seconds(seconds),
            None => 0,
        },
        None => 0,
    }
}

/// The number that the text of a numeric option stands for; `default` where
/// the option is absent.
pub open spec fn number_option(value: Option<Seq<char>>, default: int) -> int {
    match value {
        Some(text) => match parse_unsigned(text, 10, 0xffff_ffff) {
            Some(n) => n as int,
            None => default,
        },
        None => default,
    }
}

/// What is noted while the options are read: a priority level above 7.
pub open spec fn option_notes(m: MatchesView) -> Seq<Warning> {
    match m.priority {
        Some(text) => match parse_unsigned(text, 10, 0xffff_ffff) {
            Some(level) => if level > MAX_LEVEL {
                seq![Warning::LevelTooHigh { level: level as u32 }]
            } else {
                Seq::empty()
            },
            None => Seq::empty(),
        },
        None => Seq::empty(),
    }
}

/// The first value of the command line that cannot be read, in the order
/// priority, number, time-from, time-to, date-from, date-to.
pub open spec fn first_unreadable(m: MatchesView) -> Option<OptError> {
    if m.priority is Some && parse_unsigned(m.priority.unwrap(), 10, 0xffff_ffff) is None {
        Some(OptError::InvalidPriority)
    } else if m.number is Some && parse_unsigned(m.number.unwrap(), 10, 0xffff_ffff) is None {
        Some(OptError::InvalidNumber)
    } else if m.time_from is Some && time_of_day(m.time_from.unwrap(), TIME_PATTERN@) is None {
        Some(OptError::InvalidTimeFrom)
    } else if m.time_to is Some && time_of_day(m.time_to.unwrap(), TIME_PATTERN@) is None {
        Some(OptError::InvalidTimeTo)
    } else if m.date_from is Some && date_midnight(m.date_from.unwrap(), DATE_PATTERN@) is None {
        Some(OptError::InvalidDateFrom)
    } else if m.date_to is Some && date_midnight(m.date_to.unwrap(), DATE_PATTERN@) is None {
        Some(OptError::InvalidDateTo)
    } else {
        None
    }
}

/// The options that a command line stands for, where all of it can be read.
pub open spec fn options_of(m: MatchesView) -> OptionsView {
    OptionsView {
        logfile: m.logfile,
        list_boots: m.list_boots,
        log_level: clamped_level(number_option(m.priority, MAX_LEVEL as int)),
        boot_filter: m.boot,
        unit_filter: expanded_units(m.unit),
        kernel_flag: m.kernel,
        num_of_entries: number_option(m.number, 0),
        start_time_filter: time_option(m.time_from),
        stop_time_filter: time_option(m.time_to),
        start_date_filter: date_option(m.date_from),
        stop_date_filter: date_option(m.date_to),
    }
}

/// Every name that was given is in the unit filter, and so is its service
/// variant, unless the name holds `.service` already.
pub proof fn lemma_expanded_units_hold_both_names(units: Seq<Seq<char>>, i: int)
    requires
        0 <= i < units.len(),
    ensures
        lists_text(expanded_units(units), units[i]),
        !contains_text(units[i], service_suffix()) ==> lists_text(
            expanded_units(units),
            units[i] + service_suffix(),
        ),
    decreases units.len(),
{
    let all = expanded_units(units);
    let before = expanded_units(units.drop_last());
    let name = units.last();
    if i == units.len() - 1 {
        if contains_text(name, service_suffix()) {
            assert(all[all.len() - 1] == name);
        } else {
            assert(all[all.len() - 2] == name);
            assert(all[all.len() - 1] == name + service_suffix());
        }
    } else {
        lemma_expanded_units_hold_both_names(units.drop_last(), i);
        assert(units.drop_last()[i] == units[i]);
        let k = choose|k: int| 0 <= k < before.len() && before[k] == units[i];
        assert(all[k] == units[i]);
        if !contains_text(units[i], service_suffix()) {
            let k2 = choose|k2: int|
                0 <= k2 < before.len() && before[k2] == units[i] + service_suffix();
            assert(all[k2] == units[i] + service_suffix());
        }
    }
}

/// The unit filter holds nothing but the names that were given and their
/// service variants.
pub proof fn lemma_expanded_units_hold_nothing_else(units: Seq<Seq<char>>, k: int)
    requires
        0 <= k < expanded_units(units).len(),
    ensures
        exists|i: int|
            0 <= i < units.len() && (expanded_units(units)[k] == #[trigger] units[i] || (
            !contains_text(units[i], service_suffix()) && expanded_units(units)[k] == units[i]
                + service_suffix())),
    decreases units.len(),
{
    let before = expanded_units(units.drop_last());
    let last = units.len() - 1;
    if k < before.len() {
        lemma_expanded_units_hold_nothing_else(units.drop_last(), k);
        let i = choose|i: int|
            0 <= i < units.drop_last().len() && (before[k] == #[trigger] units.drop_last()[i] || (
            !contains_text(units.drop_last()[i], service_suffix()) && before[k]
                == units.drop_last()[i] + service_suffix()));
        assert(units.drop_last()[i] == units[i]);
    } else {
        assert(units[last] == units.last());
    }
}

/// A name that holds `.service` is taken as it is: no second name is added
/// for it.
pub proof fn lemma_service_name_is_not_expanded(name: Seq<char>)
    requires
        contains_text(name, service_suffix()),
    ensures
        expanded_units(seq![name]) == seq![name],
{
    let units = seq![name];
    assert(units.drop_last() =~= Seq::<Seq<char>>::empty());
    assert(expanded_units(units.drop_last()) =~= Seq::<Seq<char>>::empty());
    assert(expanded_units(units) =~= seq![name]);
}

/// A copy of the texts in `list`.
fn copy_texts(list: &Vec<String>) -> (copy: Vec<String>)
    ensures
        texts(copy@) == texts(list@),
{
    let mut copy: Vec<String> = Vec::new();
    let mut i: usize = 0;
    while i < list.len()
        invariant
            i <= list.len(),
            copy.len() == i,
            forall|j: int| 0 <= j < i ==> copy@[j]@ == list@[j]@,
        decreases list.len() - i,
    {
        copy.push(list[i].clone());
        i = i + 1;
    }
    assert(texts(copy@) =~= texts(list@));
    copy
}

/// The unit filter that the given unit names stand for.
pub fn expand_units(units: &Vec<String>) -> (filter: Vec<String>)
    ensures
        texts(filter@) == expanded_units(texts(units@)),
{
    let mut filter: Vec<String> = Vec::new();
    let mut i: usize = 0;
    assert(texts(units@).take(0) =~= Seq::<Seq<char>>::empty());
    while i < units.len()
        invariant
            i <= units.len(),
            texts(filter@) == expanded_units(texts(units@).take(i as int)),
        decreases units.len() - i,
    {
        let ghost before = texts(filter@);
        let ghost given = texts(units@).take(i + 1);
        assert(given.drop_last() =~= texts(units@).take(i as int));
        assert(given.last() == units@[i as int]@);
        proof {
            reveal_strlit(".service");
            assert(".service"@ =~= service_suffix());
        }
        filter.push(units[i].clone());
        if !contains(units[i].as_str(), ".service") {
            let mut service = units[i].clone();
            service.append(".service");
            filter.push(service);
            assert(texts(filter@) =~= before.push(units@[i as int]@).push(
                units@[i as int]@ + service_suffix(),
            ));
        } else {
            assert(texts(filter@) =~= before.push(units@[i as int]@));
        }
        i = i + 1;
    }
    assert(texts(units@).take(i as int) =~= texts(units@));
    filter
}

impl View for CliOptions {
    type V = OptionsView;

    closed spec fn view(&self) -> OptionsView {
        OptionsView {
            logfile: self.logfile@,
            list_boots: self.list_boots,
            log_level: self.log_level as int,
            boot_filter: texts(self.boot_filter@),
            unit_filter: texts(self.unit_filter@),
            kernel_flag: self.kernel_flag,
            num_of_entries: self.num_of_entries as int,
            start_time_filter: self.start_time_filter as int,
            stop_time_filter: self.stop_time_filter as int,
            start_date_filter: self.start_date_filter as int,
            stop_date_filter: self.stop_date_filter as int,
        }
    }
}

impl Clone for CliOptions {
    fn clone(&self) -> (copy: CliOptions)
        ensures
            copy@ == self@,
    {
        proof {
            use_type_invariant(self);
        }
        CliOptions {
            logfile: self.logfile.clone(),
            list_boots: self.list_boots,
            log_level: self.log_level,
            boot_filter: copy_texts(&self.boot_filter),
            unit_filter: copy_texts(&self.unit_filter),
            kernel_flag: self.kernel_flag,
            num_of_entries: self.num_of_entries,
            start_time_filter: self.start_time_filter,
            stop_time_filter: self.stop_time_filter,
            start_date_filter: self.start_date_filter,
            stop_date_filter: self.stop_date_filter,
        }
    }
}

impl Default for CliOptions {
    /// No file, no filter, level 0.
    fn default() -> (options: CliOptions)
        ensures
            options@ == (OptionsView {
                logfile: Seq::empty(),
                list_boots: false,
                log_level: 0,
                boot_filter: Seq::empty(),
                unit_filter: Seq::empty(),
                kernel_flag: false,
                num_of_entries: 0,
                start_time_filter: 0,
                stop_time_filter: 0,
                start_date_filter: 0,
                stop_date_filter: 0,
            }),
    {
        let options = CliOptions {
            logfile: String::new(),
            list_boots: false,
            log_level: 0,
            boot_filter: Vec::new(),
            unit_filter: Vec::new(),
            kernel_flag: false,
            num_of_entries: 0,
            start_time_filter: 0,
            stop_time_filter: 0,
            start_date_filter: 0,
            stop_date_filter: 0,
        };
        assert(texts(options.boot_filter@) =~= Seq::<Seq<char>>::empty());
        assert(texts(options.unit_filter@) =~= Seq::<Seq<char>>::empty());
        options
    }
}

impl CliOptions {
    /// The priority level never exceeds 7, and the time-of-day window lies
    /// within a day.
    #[verifier::type_invariant]
    spec fn in_range(self) -> bool {
        &&& self.log_level <= MAX_LEVEL
        &&& self.start_time_filter < DAY
        &&& self.stop_time_filter < DAY
    }

    /// The path of the journal file.
    pub fn logfile_path(&self) -> (path: &str)
        ensures
            path@ == self@.logfile,
    {
        self.logfile.as_str()
    }

    /// The name of the journal file, as it was given.
    pub fn logfile_name(&self) -> (name: &String)
        ensures
            name@ == self@.logfile,
    {
        &self.logfile
    }

    /// Whether to list the boots and show no entries.
    pub fn list_boots(&self) -> (flag: bool)
        ensures
            flag == self@.list_boots,
    {
        self.list_boots
    }

    /// The highest priority level to show.
    pub fn log_level(&self) -> (level: u32)
        ensures
            level == self@.log_level,
            level <= MAX_LEVEL,
    {
        proof {
            use_type_invariant(self);
        }
        self.log_level
    }

    /// The boots to show; empty means all.
    pub fn boot_filter(&self) -> (filter: &Vec<String>)
        ensures
            texts(filter@) == self@.boot_filter,
    {
        &self.boot_filter
    }

    /// The unit names to show; empty means all.
    pub fn unit_filter(&self) -> (filter: &Vec<String>)
        ensures
            texts(filter@) == self@.unit_filter,
    {
        &self.unit_filter
    }

    /// Whether to show kernel entries only.
    pub fn kernel_flag(&self) -> (flag: bool)
        ensures
            flag == self@.kernel_flag,
    {
        self.kernel_flag
    }

    /// The most entries to show for each boot; 0 means all.
    pub fn num_of_entries(&self) -> (number: u32)
        ensures
            number == self@.num_of_entries,
    {
        self.num_of_entries
    }

    /// Start of the time-of-day window, in seconds from midnight.
    pub fn start_time_filter(&self) -> (seconds: u64)
        ensures
            seconds == self@.start_time_filter,
            seconds < DAY,
    {
        proof {
            use_type_invariant(self);
        }
        self.start_time_filter
    }

    /// End of the time-of-day window, in seconds from midnight.
    pub fn stop_time_filter(&self) -> (seconds: u64)
        ensures
            seconds == self@.stop_time_filter,
            seconds < DAY,
    {
        proof {
            use_type_invariant(self);
        }
        self.stop_time_filter
    }

    /// Start of the calendar window, in seconds from the epoch.
    pub fn start_date_filter(&self) -> (seconds: u64)
        ensures
            seconds == self@.start_date_filter,
    {
        self.start_date_filter
    }

    /// End of the calendar window, in seconds from the epoch.
    pub fn stop_date_filter(&self) -> (seconds: u64)
        ensures
            seconds == self@.stop_date_filter,
    {
        self.stop_date_filter
    }

    /// Reads the options from what the command line held. Fails on the first
    /// value that cannot be read, taking them in the order priority, number,
    /// time-from, time-to, date-from, date-to. A priority level above 7 is
    /// noted in `log` and counts as 7.
    pub fn from_matches(matches: &CliMatches, log: &mut Vec<Warning>) -> (r: Result<
        CliOptions,
        OptError,
    >)
        ensures
            match r {
                Ok(options) => first_unreadable(matches@) is None && options@ == options_of(
                    matches@,
                ),
                Err(e) => first_unreadable(matches@) == Some(e),
            },
            final(log)@ == old(log)@ + option_notes(matches@),
    {
        let ghost noted = log@;
        assert(noted + Seq::<Warning>::empty() =~= noted);
        let log_level: u32 = match &matches.priority {
            Some(text) => match parse_u32(text.as_str()) {
                Some(level) => if level > MAX_LEVEL {
                    log.push(Warning::LevelTooHigh { level });
                    assert(log@ =~= noted + seq![Warning::LevelTooHigh { level }]);
                    MAX_LEVEL
                } else {
                    level
                },
                None => {
                    return Err(OptError::InvalidPriority);
                },
            },
            None => MAX_LEVEL,
        };
        let boot_filter = copy_texts(&matches.boot);
        let unit_filter = expand_units(&matches.unit);
        let num_of_entries: u32 = match &matches.number {
            Some(text) => match parse_u32(text.as_str()) {
                Some(number) => number,
                None => {
                    return Err(OptError::InvalidNumber);
                },
            },
            None => 0,
        };
        let start_time_filter: u64 = match &matches.time_from {
            Some(text) => match read_time_of_day(text.as_str(), TIME_PATTERN) {
                Ok(time) => seconds_from_midnight(time.0, time.1, time.2),
                Err(_) => {
                    return Err(OptError::InvalidTimeFrom);
                },
            },
            None => 0,
        };
        let stop_time_filter: u64 = match &matches.time_to {
            Some(text) => match read_time_of_day(text.as_str(), TIME_PATTERN) {
                Ok(time) => seconds_from_midnight(time.0, time.1, time.2),
                Err(_) => {
                    return Err(OptError::InvalidTimeTo);
                },
            },
            None => 0,
        };
        let start_date_filter: u64 = match &matches.date_from {
            Some(text) => match read_date(text.as_str(), DATE_PATTERN) {
                Ok(seconds) => to_unsigned_seconds(seconds),
                Err(_) => {
                    return Err(OptError::InvalidDateFrom);
                },
            },
            None => 0,
        };
        let stop_date_filter: u64 = match &matches.date_to {
            Some(text) => match read_date(text.as_str(), DATE_PATTERN) {
                Ok(seconds) => to_unsigned_seconds(seconds),
                Err(_) => {
                    return Err(OptError::InvalidDateTo);
                },
            },
            None => 0,
        };
        Ok(
            CliOptions {
                logfile: matches.logfile.clone(),
                list_boots: matches.list_boots,
                log_level,
                boot_filter,
                unit_filter,
                kernel_flag: matches.kernel,
                num_of_entries,
                start_time_filter,
                stop_time_filter,
                start_date_filter,
                stop_date_filter,
            },
        )
    }
}

} // verus!
