use jrnlvw::entry::{first_present_field, present_field, sentinel, LogEntry};

fn text(s: &str) -> Option<String> {
    Some(s.to_string())
}

#[test]
fn blank_entry_has_no_field() {
    let e = LogEntry::default();
    assert!(e.cursor.is_none());
    assert!(e.realtime_timestamp.is_none());
    assert!(e.boot_id.is_none());
    assert!(e.priority.is_none());
    assert!(e.message.is_none());
    assert!(e.unit.is_none());
    assert!(e.systemd_unit.is_none());
    assert!(e.syslog_identifier.is_none());
    assert!(e.pid.is_none());
}

#[test]
fn sentinel_reads_not_available() {
    assert_eq!(sentinel(), "N/A");
}

#[test]
fn empty_field_counts_as_absent() {
    assert_eq!(present_field(&None), None);
    assert_eq!(present_field(&text("")), None);
    assert_eq!(present_field(&text("x")), Some(&String::from("x")));
    assert_eq!(present_field(&text(" ")), Some(&String::from(" ")));
}

#[test]
fn first_present_field_follows_the_order() {
    let a = text("a");
    let b = text("b");
    let empty = text("");
    let none: Option<String> = None;
    assert_eq!(first_present_field(&[&a, &b]), Some(&String::from("a")));
    assert_eq!(first_present_field(&[&none, &b]), Some(&String::from("b")));
    assert_eq!(first_present_field(&[&empty, &none, &b, &a]), Some(&String::from("b")));
    assert_eq!(first_present_field(&[&empty, &none]), None);
    assert_eq!(first_present_field(&[]), None);
}

#[test]
fn unit_comes_from_the_unit_field_first() {
    let e = LogEntry {
        unit: text("explicit.service"),
        systemd_unit: text("internal.service"),
        syslog_identifier: text("ident"),
        ..LogEntry::default()
    };
    assert_eq!(e.resolved_unit(), "explicit.service");
}

#[test]
fn unit_falls_back_to_the_systemd_unit() {
    let e = LogEntry {
        systemd_unit: text("internal.service"),
        syslog_identifier: text("ident"),
        ..LogEntry::default()
    };
    assert_eq!(e.resolved_unit(), "internal.service");
}

#[test]
fn unit_falls_back_to_the_syslog_identifier() {
    let e = LogEntry { syslog_identifier: text("ident"), ..LogEntry::default() };
    assert_eq!(e.resolved_unit(), "ident");
}

#[test]
fn unit_skips_empty_fields() {
    let e = LogEntry {
        unit: text(""),
        systemd_unit: text(""),
        syslog_identifier: text("ident"),
        ..LogEntry::default()
    };
    assert_eq!(e.resolved_unit(), "ident");
    let e = LogEntry { unit: text(""), systemd_unit: text("s"), ..LogEntry::default() };
    assert_eq!(e.resolved_unit(), "s");
}

#[test]
fn unit_is_not_available_when_no_field_names_it() {
    assert_eq!(LogEntry::default().resolved_unit(), "N/A");
    let e = LogEntry {
        unit: text(""),
        systemd_unit: text(""),
        syslog_identifier: text(""),
        ..LogEntry::default()
    };
    assert_eq!(e.resolved_unit(), "N/A");
}

#[test]
fn named_unit_is_none_when_no_field_names_it() {
    assert_eq!(LogEntry::default().named_unit(), None);
    let e = LogEntry { unit: text(""), syslog_identifier: text("ident"), ..LogEntry::default() };
    assert_eq!(e.named_unit(), Some(&String::from("ident")));
}

#[test]
fn session_is_the_boot_id_when_not_empty() {
    let e = LogEntry { boot_id: text("b1"), ..LogEntry::default() };
    assert_eq!(e.session(), Some(&String::from("b1")));
    let e = LogEntry { boot_id: text(""), ..LogEntry::default() };
    assert_eq!(e.session(), None);
    assert_eq!(LogEntry::default().session(), None);
}
