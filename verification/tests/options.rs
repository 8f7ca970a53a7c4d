use jrnlvw::error::OptError;
use jrnlvw::opt::{expand_units, CliMatches, CliOptions, MAX_LEVEL};

fn bare_matches() -> CliMatches {
    CliMatches {
        logfile: String::from("journal.json"),
        list_boots: false,
        priority: None,
        boot: Vec::new(),
        unit: Vec::new(),
        kernel: false,
        number: None,
        time_from: None,
        time_to: None,
        date_from: None,
        date_to: None,
    }
}

fn read(m: &CliMatches) -> Result<CliOptions, OptError> {
    CliOptions::from_matches(m, &mut Vec::new())
}

fn names(list: &[&str]) -> Vec<String> {
    list.iter().map(|s| s.to_string()).collect()
}

#[test]
fn options_default_when_nothing_is_given() {
    let options = read(&bare_matches()).unwrap();
    assert_eq!(options.logfile_name(), "journal.json");
    assert_eq!(options.logfile_path(), "journal.json");
    assert!(!options.list_boots());
    assert_eq!(options.log_level(), 7);
    assert!(options.boot_filter().is_empty());
    assert!(options.unit_filter().is_empty());
    assert!(!options.kernel_flag());
    assert_eq!(options.num_of_entries(), 0);
    assert_eq!(options.start_time_filter(), 0);
    assert_eq!(options.stop_time_filter(), 0);
    assert_eq!(options.start_date_filter(), 0);
    assert_eq!(options.stop_date_filter(), 0);
}

#[test]
fn options_take_flags_and_boots_as_given() {
    let mut m = bare_matches();
    m.list_boots = true;
    m.kernel = true;
    m.boot = names(&["b2", "b1", "b2"]);
    let options = read(&m).unwrap();
    assert!(options.list_boots());
    assert!(options.kernel_flag());
    assert_eq!(options.boot_filter(), &names(&["b2", "b1", "b2"]));
}

#[test]
fn priority_level_is_read() {
    for level in 0..=7u32 {
        let mut m = bare_matches();
        m.priority = Some(level.to_string());
        assert_eq!(read(&m).unwrap().log_level(), level);
    }
}

#[test]
fn priority_level_above_seven_counts_as_seven() {
    for text in ["8", "9", "100", "4294967295"] {
        let mut m = bare_matches();
        m.priority = Some(text.to_string());
        assert_eq!(read(&m).unwrap().log_level(), MAX_LEVEL);
    }
    assert_eq!(MAX_LEVEL, 7);
}

#[test]
fn unreadable_priority_is_an_error() {
    for text in ["", "debug", "-1", "3.5", "4294967296"] {
        let mut m = bare_matches();
        m.priority = Some(text.to_string());
        assert_eq!(read(&m).err(), Some(OptError::InvalidPriority));
    }
}

#[test]
fn number_of_entries_is_read() {
    let mut m = bare_matches();
    m.number = Some(String::from("25"));
    assert_eq!(read(&m).unwrap().num_of_entries(), 25);
    m.number = Some(String::from("4294967295"));
    assert_eq!(read(&m).unwrap().num_of_entries(), u32::MAX);
}

#[test]
fn unreadable_number_is_an_error() {
    for text in ["", "many", "-3", "4294967296"] {
        let mut m = bare_matches();
        m.number = Some(text.to_string());
        assert_eq!(read(&m).err(), Some(OptError::InvalidNumber));
    }
}

#[test]
fn unit_name_gets_its_service_variant() {
    assert_eq!(expand_units(&names(&["foo"])), names(&["foo", "foo.service"]));
}

#[test]
fn service_name_is_not_expanded_again() {
    assert_eq!(expand_units(&names(&["foo.service"])), names(&["foo.service"]));
    assert_eq!(expand_units(&names(&["foo.service.d"])), names(&["foo.service.d"]));
}

#[test]
fn unit_names_expand_in_order() {
    assert_eq!(expand_units(&Vec::new()), Vec::<String>::new());
    assert_eq!(
        expand_units(&names(&["sshd", "cron.service", "kernel"])),
        names(&["sshd", "sshd.service", "cron.service", "kernel", "kernel.service"])
    );
    assert_eq!(expand_units(&names(&[""])), names(&["", ".service"]));
}

#[test]
fn options_hold_the_expanded_unit_filter() {
    let mut m = bare_matches();
    m.unit = names(&["foo", "bar.service"]);
    let options = read(&m).unwrap();
    assert_eq!(options.unit_filter(), &names(&["foo", "foo.service", "bar.service"]));
}

#[test]
fn time_window_is_counted_from_midnight() {
    let mut m = bare_matches();
    m.time_from = Some(String::from("01:02:03"));
    m.time_to = Some(String::from("23:59:59"));
    let options = read(&m).unwrap();
    assert_eq!(options.start_time_filter(), 3723);
    assert_eq!(options.stop_time_filter(), 86_399);
    m.time_from = Some(String::from("00:00:00"));
    m.time_to = Some(String::from("12:30:00"));
    let options = read(&m).unwrap();
    assert_eq!(options.start_time_filter(), 0);
    assert_eq!(options.stop_time_filter(), 45_000);
}

#[test]
fn unreadable_time_is_an_error() {
    for text in ["", "noon", "24:00:00", "12:60:00", "12:00", "12-00-00"] {
        let mut m = bare_matches();
        m.time_from = Some(text.to_string());
        assert_eq!(read(&m).err(), Some(OptError::InvalidTimeFrom));
        let mut m = bare_matches();
        m.time_to = Some(text.to_string());
        assert_eq!(read(&m).err(), Some(OptError::InvalidTimeTo));
    }
}

#[test]
fn calendar_window_is_counted_from_the_epoch() {
    let mut m = bare_matches();
    m.date_from = Some(String::from("1970:01:01"));
    m.date_to = Some(String::from("1970:01:02"));
    let options = read(&m).unwrap();
    assert_eq!(options.start_date_filter(), 0);
    assert_eq!(options.stop_date_filter(), 86_400);
    m.date_from = Some(String::from("2020:09:13"));
    m.date_to = Some(String::from("2000:01:01"));
    let options = read(&m).unwrap();
    assert_eq!(options.start_date_filter(), 1_599_955_200);
    assert_eq!(options.stop_date_filter(), 946_684_800);
}

#[test]
fn date_before_the_epoch_wraps() {
    let mut m = bare_matches();
    m.date_from = Some(String::from("1969:12:31"));
    let options = read(&m).unwrap();
    assert_eq!(options.start_date_filter(), u64::MAX - 86_399);
    assert_eq!(options.start_date_filter(), (-86_400i64) as u64);
}

#[test]
fn unreadable_date_is_an_error() {
    for text in ["", "today", "2020-09-13", "2020:13:01", "2020:02:30", "2020:09"] {
        let mut m = bare_matches();
        m.date_from = Some(text.to_string());
        assert_eq!(read(&m).err(), Some(OptError::InvalidDateFrom));
        let mut m = bare_matches();
        m.date_to = Some(text.to_string());
        assert_eq!(read(&m).err(), Some(OptError::InvalidDateTo));
    }
}

#[test]
fn first_unreadable_value_is_reported() {
    let mut m = bare_matches();
    m.priority = Some(String::from("x"));
    m.number = Some(String::from("x"));
    m.time_from = Some(String::from("x"));
    m.time_to = Some(String::from("x"));
    m.date_from = Some(String::from("x"));
    m.date_to = Some(String::from("x"));
    assert_eq!(read(&m).err(), Some(OptError::InvalidPriority));
    m.priority = Some(String::from("3"));
    assert_eq!(read(&m).err(), Some(OptError::InvalidNumber));
    m.number = Some(String::from("3"));
    assert_eq!(read(&m).err(), Some(OptError::InvalidTimeFrom));
    m.time_from = Some(String::from("10:00:00"));
    assert_eq!(read(&m).err(), Some(OptError::InvalidTimeTo));
    m.time_to = Some(String::from("11:00:00"));
    assert_eq!(read(&m).err(), Some(OptError::InvalidDateFrom));
    m.date_from = Some(String::from("2020:01:01"));
    assert_eq!(read(&m).err(), Some(OptError::InvalidDateTo));
    m.date_to = Some(String::from("2020:01:02"));
    assert!(read(&m).is_ok());
}

#[test]
fn options_copy_is_equal() {
    let mut m = bare_matches();
    m.priority = Some(String::from("4"));
    m.boot = names(&["b1"]);
    m.unit = names(&["u1"]);
    m.number = Some(String::from("9"));
    m.time_from = Some(String::from("01:00:00"));
    let options = read(&m).unwrap();
    let copy = options.clone();
    assert_eq!(copy.logfile_name(), options.logfile_name());
    assert_eq!(copy.log_level(), 4);
    assert_eq!(copy.boot_filter(), options.boot_filter());
    assert_eq!(copy.unit_filter(), &names(&["u1", "u1.service"]));
    assert_eq!(copy.num_of_entries(), 9);
    assert_eq!(copy.start_time_filter(), 3600);
}

#[test]
fn default_options_are_empty() {
    let options = CliOptions::default();
    assert_eq!(options.logfile_name(), "");
    assert_eq!(options.log_level(), 0);
    assert!(!options.list_boots());
    assert!(!options.kernel_flag());
    assert!(options.boot_filter().is_empty());
    assert!(options.unit_filter().is_empty());
    assert_eq!(options.num_of_entries(), 0);
}

#[test]
fn option_errors_have_their_own_messages() {
    let all = [
        OptError::InvalidPriority,
        OptError::InvalidNumber,
        OptError::InvalidTimeFrom,
        OptError::InvalidTimeTo,
        OptError::InvalidDateFrom,
        OptError::InvalidDateTo,
    ];
    for (i, a) in all.iter().enumerate() {
        assert!(!a.message().is_empty());
        for b in &all[i + 1..] {
            assert_ne!(a.message(), b.message());
        }
    }
}
