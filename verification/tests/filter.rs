use jrnlvw::entry::LogEntry;
use jrnlvw::error::FormatError;
use jrnlvw::filter::accepts;
use jrnlvw::opt::{CliMatches, CliOptions};

fn some(s: &str) -> Option<String> {
    Some(s.to_string())
}

fn strings(list: &[&str]) -> Vec<String> {
    list.iter().map(|s| s.to_string()).collect()
}

fn options_with(priority: Option<&str>, units: &[&str], kernel: bool) -> CliOptions {
    CliOptions::from_matches(
        &CliMatches {
            logfile: String::from("f"),
            list_boots: false,
            priority: priority.map(|p| p.to_string()),
            boot: Vec::new(),
            unit: strings(units),
            kernel,
            number: None,
            time_from: None,
            time_to: None,
            date_from: None,
            date_to: None,
        },
        &mut Vec::new(),
    )
    .unwrap()
}

fn verdict(e: &LogEntry, o: &CliOptions, boots: &Vec<String>) -> Result<bool, FormatError> {
    accepts(e, o, boots, &mut Vec::new())
}

fn entry_of(boot: Option<&str>, unit: Option<&str>, priority: Option<&str>) -> LogEntry {
    LogEntry {
        boot_id: boot.map(|s| s.to_string()),
        unit: unit.map(|s| s.to_string()),
        priority: priority.map(|s| s.to_string()),
        ..LogEntry::default()
    }
}

#[test]
fn priority_three_passes_level_seven_and_three_but_not_two() {
    let boots = strings(&["A"]);
    let e = entry_of(Some("A"), Some("u"), Some("3"));
    assert_eq!(verdict(&e, &options_with(Some("7"), &[], false), &boots), Ok(true));
    assert_eq!(verdict(&e, &options_with(Some("3"), &[], false), &boots), Ok(true));
    assert_eq!(verdict(&e, &options_with(Some("2"), &[], false), &boots), Ok(false));
    assert_eq!(verdict(&e, &options_with(None, &[], false), &boots), Ok(true));
}

#[test]
fn entry_without_priority_passes_every_level() {
    let boots = strings(&["A"]);
    let e = entry_of(Some("A"), Some("u"), None);
    let empty = entry_of(Some("A"), Some("u"), Some(""));
    for level in 0..=7 {
        let o = options_with(Some(&level.to_string()), &[], false);
        assert_eq!(verdict(&e, &o, &boots), Ok(true));
        assert_eq!(verdict(&empty, &o, &boots), Ok(true));
    }
}

#[test]
fn level_filter_is_a_cap() {
    let boots = strings(&["A"]);
    for level in 0..=7u32 {
        let o = options_with(Some(&level.to_string()), &[], false);
        for p in 0..=9u32 {
            let e = entry_of(Some("A"), None, Some(&p.to_string()));
            assert_eq!(verdict(&e, &o, &boots), Ok(p <= level));
        }
    }
}

#[test]
fn unreadable_priority_of_a_shown_entry_is_an_error() {
    let boots = strings(&["A"]);
    let o = options_with(None, &[], false);
    for p in ["high", "-1", "3 ", "4294967296"] {
        let e = entry_of(Some("A"), Some("u"), Some(p));
        assert_eq!(verdict(&e, &o, &boots), Err(FormatError::InvalidPriority));
    }
}

#[test]
fn unreadable_priority_of_a_filtered_entry_is_not_read() {
    let o = options_with(None, &["wanted"], false);
    let other_boot = entry_of(Some("B"), Some("wanted"), Some("high"));
    assert_eq!(verdict(&other_boot, &o, &strings(&["A"])), Ok(false));
    let other_unit = entry_of(Some("A"), Some("other"), Some("high"));
    assert_eq!(verdict(&other_unit, &o, &strings(&["A"])), Ok(false));
    let no_boot = entry_of(None, Some("wanted"), Some("high"));
    assert_eq!(verdict(&no_boot, &o, &strings(&["A"])), Ok(false));
}

#[test]
fn entry_without_boot_is_rejected() {
    let o = options_with(None, &[], false);
    let boots = strings(&["A", "", "N/A"]);
    assert_eq!(verdict(&entry_of(None, Some("u"), Some("3")), &o, &boots), Ok(false));
    assert_eq!(verdict(&entry_of(Some(""), Some("u"), Some("3")), &o, &boots), Ok(false));
}

#[test]
fn entry_of_another_boot_is_rejected() {
    let o = options_with(None, &[], false);
    let e = entry_of(Some("B"), Some("u"), Some("3"));
    assert_eq!(verdict(&e, &o, &strings(&["A"])), Ok(false));
    assert_eq!(verdict(&e, &o, &Vec::new()), Ok(false));
    assert_eq!(verdict(&e, &o, &strings(&["A", "B"])), Ok(true));
}

#[test]
fn unit_filter_takes_the_name_and_its_service() {
    let boots = strings(&["A"]);
    let o = options_with(None, &["foo"], false);
    assert_eq!(verdict(&entry_of(Some("A"), Some("foo"), None), &o, &boots), Ok(true));
    assert_eq!(verdict(&entry_of(Some("A"), Some("foo.service"), None), &o, &boots), Ok(true));
    assert_eq!(verdict(&entry_of(Some("A"), Some("foobar"), None), &o, &boots), Ok(false));
    assert_eq!(verdict(&entry_of(Some("A"), Some("foo.socket"), None), &o, &boots), Ok(false));
    assert_eq!(verdict(&entry_of(Some("A"), None, None), &o, &boots), Ok(false));
}

#[test]
fn unit_filter_of_a_service_name_takes_only_that_name() {
    let boots = strings(&["A"]);
    let o = options_with(None, &["foo.service"], false);
    assert_eq!(verdict(&entry_of(Some("A"), Some("foo.service"), None), &o, &boots), Ok(true));
    assert_eq!(verdict(&entry_of(Some("A"), Some("foo"), None), &o, &boots), Ok(false));
    assert_eq!(
        verdict(&entry_of(Some("A"), Some("foo.service.service"), None), &o, &boots),
        Ok(false)
    );
}

#[test]
fn unit_filter_looks_at_the_resolved_unit() {
    let boots = strings(&["A"]);
    let o = options_with(None, &["sshd"], false);
    let e = LogEntry {
        boot_id: some("A"),
        syslog_identifier: some("sshd"),
        ..LogEntry::default()
    };
    assert_eq!(verdict(&e, &o, &boots), Ok(true));
    let e = LogEntry {
        boot_id: some("A"),
        systemd_unit: some("ssh.service"),
        syslog_identifier: some("sshd"),
        ..LogEntry::default()
    };
    assert_eq!(verdict(&e, &o, &boots), Ok(false));
}

#[test]
fn kernel_flag_takes_kernel_entries_only() {
    let boots = strings(&["A"]);
    let o = options_with(None, &[], true);
    assert_eq!(verdict(&entry_of(Some("A"), Some("kernel"), None), &o, &boots), Ok(true));
    assert_eq!(verdict(&entry_of(Some("A"), Some("Kernel"), None), &o, &boots), Ok(false));
    assert_eq!(verdict(&entry_of(Some("A"), Some("kernel.service"), None), &o, &boots), Ok(false));
    assert_eq!(verdict(&entry_of(Some("A"), None, None), &o, &boots), Ok(false));
}

#[test]
fn kernel_flag_and_unit_filter_must_both_pass() {
    let boots = strings(&["A"]);
    let o = options_with(None, &["sshd"], true);
    assert_eq!(verdict(&entry_of(Some("A"), Some("kernel"), None), &o, &boots), Ok(false));
    assert_eq!(verdict(&entry_of(Some("A"), Some("sshd"), None), &o, &boots), Ok(false));
    let o = options_with(None, &["kernel"], true);
    assert_eq!(verdict(&entry_of(Some("A"), Some("kernel"), None), &o, &boots), Ok(true));
}

#[test]
fn time_and_date_windows_reject_nothing() {
    let o = CliOptions::from_matches(
        &CliMatches {
            logfile: String::from("f"),
            list_boots: false,
            priority: None,
            boot: Vec::new(),
            unit: Vec::new(),
            kernel: false,
            number: None,
            time_from: some("10:00:00"),
            time_to: some("11:00:00"),
            date_from: some("2021:01:01"),
            date_to: some("2021:01:02"),
        },
        &mut Vec::new(),
    )
    .unwrap();
    let e = LogEntry {
        boot_id: some("A"),
        realtime_timestamp: some("1600000000000000"),
        ..LogEntry::default()
    };
    assert_eq!(verdict(&e, &o, &strings(&["A"])), Ok(true));
}
