use datier::entry::FileEntry;
use datier::extract::{read_datetime, ExtractionError, FieldValue, RawTimestamp};
use datier::extract::assemble_timestamp;
use datier::logger::Logger;
use datier::naming::{destination_name, format_padded, format_stem};
use datier::sequencer::{plan_destinations, sequence, Outcome};
use datier::sort::sort_entries;
use datier::timestamp::{compare, equals, same_date, CaptureTimestamp};

fn ts(year: u16, month: u8, day: u8, hour: u8, minute: u8, second: u8) -> CaptureTimestamp {
    CaptureTimestamp {
        year,
        month,
        day,
        hour,
        minute,
        second,
        nanosecond: 0,
        offset_minutes: None,
    }
}

fn entry(path: &str, ext: Option<&str>, t: CaptureTimestamp) -> FileEntry {
    FileEntry {
        path: path.to_string(),
        extension: ext.map(|e| e.to_string()),
        timestamp: t,
    }
}

fn chars(s: &str) -> Vec<char> {
    s.chars().collect()
}

#[test]
fn compare_is_antisymmetric() {
    let a = ts(2020, 5, 1, 10, 0, 0);
    let b = ts(2020, 5, 1, 10, 0, 1);
    assert_eq!(compare(&a, &b), -1);
    assert_eq!(compare(&b, &a), 1);
    assert_eq!(compare(&a, &b), -compare(&b, &a));
    assert_eq!(compare(&a, &a), 0);
}

#[test]
fn equal_timestamps_compare_as_zero() {
    let a = ts(2019, 12, 31, 23, 59, 59);
    let b = ts(2019, 12, 31, 23, 59, 59);
    assert!(equals(&a, &b));
    assert_eq!(compare(&a, &b), 0);
}

#[test]
fn offset_is_ignored_for_comparison_and_equality() {
    let mut a = ts(2020, 5, 1, 10, 0, 0);
    let mut b = ts(2020, 5, 1, 10, 0, 0);
    a.offset_minutes = Some(120);
    b.offset_minutes = Some(-300);
    assert!(equals(&a, &b));
    assert_eq!(compare(&a, &b), 0);
    assert!(same_date(&a, &b));
}

#[test]
fn nanosecond_breaks_ties_last() {
    let mut a = ts(2020, 5, 1, 10, 0, 0);
    let mut b = ts(2020, 5, 1, 10, 0, 0);
    a.nanosecond = 1;
    b.nanosecond = 2;
    assert_eq!(compare(&a, &b), -1);
    assert!(!equals(&a, &b));
    assert!(same_date(&a, &b));
}

#[test]
fn same_date_is_coarser_than_equals() {
    let mut a = ts(2020, 5, 1, 10, 0, 0);
    let b = ts(2020, 5, 1, 22, 30, 15);
    assert!(same_date(&a, &b));
    assert!(!equals(&a, &b));
    a.nanosecond = 7;
    assert!(same_date(&a, &a));
}

#[test]
fn sort_orders_by_timestamp() {
    let v = vec![
        entry("c", Some("jpg"), ts(2021, 1, 1, 0, 0, 0)),
        entry("a", Some("jpg"), ts(2019, 6, 15, 12, 0, 0)),
        entry("b", Some("jpg"), ts(2020, 3, 2, 8, 30, 0)),
    ];
    let r = sort_entries(v);
    assert_eq!(r[0].path, "a");
    assert_eq!(r[1].path, "b");
    assert_eq!(r[2].path, "c");
}

#[test]
fn sort_is_stable_for_equal_timestamps() {
    let t = ts(2020, 5, 1, 10, 0, 0);
    let v = vec![
        entry("first", Some("jpg"), t),
        entry("second", Some("jpg"), t),
        entry("third", Some("jpg"), t),
        entry("earlier", Some("jpg"), ts(2020, 4, 30, 9, 0, 0)),
    ];
    let r = sort_entries(v);
    assert_eq!(r[0].path, "earlier");
    assert_eq!(r[1].path, "first");
    assert_eq!(r[2].path, "second");
    assert_eq!(r[3].path, "third");
}

#[test]
fn padded_formatting_matches_expected_widths() {
    assert_eq!(format_padded(0, 4), chars("0000"));
    assert_eq!(format_padded(7, 2), chars("07"));
    assert_eq!(format_padded(12, 2), chars("12"));
    assert_eq!(format_padded(12345, 4), chars("12345"));
    assert_eq!(format_padded(800, 1), chars("800"));
}

#[test]
fn stem_and_destination_have_exact_shape() {
    let t = ts(2020, 5, 1, 10, 0, 0);
    assert_eq!(format_stem(&t, 1), chars("2020_05_01-0001"));
    let d = destination_name(&t, 1, &"jpg".to_string());
    assert_eq!(d, "2020_05_01-0001.jpg");
    let t2 = ts(800, 12, 31, 0, 0, 0);
    let d2 = destination_name(&t2, 123, &"CR2".to_string());
    assert_eq!(d2, "800_12_31-0123.CR2");
}

#[test]
fn plan_counts_within_and_across_dates() {
    let entries = vec![
        entry("a.jpg", Some("jpg"), ts(2020, 5, 1, 10, 0, 0)),
        entry("b.jpg", Some("jpg"), ts(2020, 5, 1, 10, 5, 0)),
        entry("c.jpg", Some("jpg"), ts(2020, 5, 2, 9, 0, 0)),
        entry("d.jpg", Some("jpg"), ts(2020, 5, 2, 9, 30, 0)),
    ];
    let plans = plan_destinations(&entries);
    assert_eq!(plans[0].as_deref(), Some("2020_05_01-0001.jpg"));
    assert_eq!(plans[1].as_deref(), Some("2020_05_01-0002.jpg"));
    assert_eq!(plans[2].as_deref(), Some("2020_05_02-0001.jpg"));
    assert_eq!(plans[3].as_deref(), Some("2020_05_02-0002.jpg"));
}

#[test]
fn counter_resets_to_one_on_each_new_date() {
    let entries = vec![
        entry("a.jpg", Some("jpg"), ts(2020, 5, 1, 10, 0, 0)),
        entry("b.jpg", Some("jpg"), ts(2020, 5, 1, 11, 0, 0)),
        entry("c.jpg", Some("jpg"), ts(2020, 5, 1, 12, 0, 0)),
        entry("d.jpg", Some("jpg"), ts(2020, 6, 7, 8, 0, 0)),
    ];
    let plans = plan_destinations(&entries);
    assert_eq!(plans[3].as_deref(), Some("2020_06_07-0001.jpg"));
}

#[test]
fn duplicate_timestamps_share_a_counter() {
    let t = ts(2020, 5, 1, 10, 0, 0);
    let entries = vec![
        entry("a.jpg", Some("jpg"), t),
        entry("b.jpg", Some("jpg"), t),
        entry("c.jpg", Some("jpg"), ts(2020, 5, 1, 10, 0, 1)),
    ];
    let plans = plan_destinations(&entries);
    assert_eq!(plans[0].as_deref(), Some("2020_05_01-0001.jpg"));
    assert_eq!(plans[1].as_deref(), Some("2020_05_01-0001.jpg"));
    assert_eq!(plans[2].as_deref(), Some("2020_05_01-0002.jpg"));
}

#[test]
fn three_files_two_sharing_a_second() {
    let entries = vec![
        entry("a.jpg", Some("jpg"), ts(2020, 5, 1, 10, 0, 0)),
        entry("b.jpg", Some("jpg"), ts(2020, 5, 1, 10, 0, 0)),
        entry("c.jpg", Some("jpg"), ts(2020, 5, 2, 9, 0, 0)),
    ];
    let disk = vec![false, false, false];
    let outcomes = sequence(&entries, &disk);
    assert_eq!(outcomes.len(), 3);
    match &outcomes[0] {
        Outcome::Rename(rd) => {
            assert_eq!(rd.source, "a.jpg");
            assert_eq!(rd.destination, "2020_05_01-0001.jpg");
        }
        _ => panic!("first entry should be renamed"),
    }
    match &outcomes[1] {
        Outcome::SkipDestinationExists { source, destination } => {
            assert_eq!(source, "b.jpg");
            assert_eq!(destination, "2020_05_01-0001.jpg");
        }
        _ => panic!("second entry should collide with the first"),
    }
    match &outcomes[2] {
        Outcome::Rename(rd) => {
            assert_eq!(rd.source, "c.jpg");
            assert_eq!(rd.destination, "2020_05_02-0001.jpg");
        }
        _ => panic!("third entry should be renamed"),
    }
}

#[test]
fn destination_already_on_disk_is_skipped() {
    let entries = vec![
        entry("a.jpg", Some("jpg"), ts(2020, 5, 1, 10, 0, 0)),
        entry("b.jpg", Some("jpg"), ts(2020, 5, 1, 10, 1, 0)),
    ];
    let disk = vec![true, false];
    let outcomes = sequence(&entries, &disk);
    match &outcomes[0] {
        Outcome::SkipDestinationExists { source, destination } => {
            assert_eq!(source, "a.jpg");
            assert_eq!(destination, "2020_05_01-0001.jpg");
        }
        _ => panic!("occupied destination should be skipped"),
    }
    match &outcomes[1] {
        Outcome::Rename(rd) => assert_eq!(rd.destination, "2020_05_01-0002.jpg"),
        _ => panic!("free destination should be renamed"),
    }
}

#[test]
fn no_extension_never_renames_and_claims_nothing() {
    let entries = vec![
        entry("noext", None, ts(2020, 5, 1, 10, 0, 0)),
        entry("b.jpg", Some("jpg"), ts(2020, 5, 1, 10, 5, 0)),
    ];
    let disk = vec![false, false];
    let outcomes = sequence(&entries, &disk);
    match &outcomes[0] {
        Outcome::SkipNoExtension { source } => assert_eq!(source, "noext"),
        _ => panic!("entry without extension should be skipped"),
    }
    // the skipped entry still advances the timestamp chain: the next entry
    // on the same date gets counter 2
    match &outcomes[1] {
        Outcome::Rename(rd) => assert_eq!(rd.destination, "2020_05_01-0002.jpg"),
        _ => panic!("entry with extension should be renamed"),
    }
    let plans = plan_destinations(&entries);
    assert!(plans[0].is_none());
}

#[test]
fn rerunning_the_sequencer_reproduces_the_outcomes() {
    let entries = vec![
        entry("a.jpg", Some("jpg"), ts(2020, 5, 1, 10, 0, 0)),
        entry("b.jpg", Some("jpg"), ts(2020, 5, 1, 10, 0, 0)),
        entry("c.jpg", Some("jpg"), ts(2020, 5, 2, 9, 0, 0)),
    ];
    let disk = vec![false, false, false];
    let first = sequence(&entries, &disk);
    let second = sequence(&entries, &disk);
    assert_eq!(first.len(), second.len());
    for (x, y) in first.iter().zip(second.iter()) {
        match (x, y) {
            (Outcome::Rename(a), Outcome::Rename(b)) => {
                assert_eq!(a.source, b.source);
                assert_eq!(a.destination, b.destination);
            }
            (
                Outcome::SkipNoExtension { source: a },
                Outcome::SkipNoExtension { source: b },
            ) => assert_eq!(a, b),
            (
                Outcome::SkipDestinationExists { source: a, destination: ad },
                Outcome::SkipDestinationExists { source: b, destination: bd },
            ) => {
                assert_eq!(a, b);
                assert_eq!(ad, bd);
            }
            _ => panic!("the two runs disagree"),
        }
    }
}

fn text_field(values: &[&[u8]]) -> FieldValue {
    FieldValue::Text(values.iter().map(|v| v.to_vec()).collect())
}

#[test]
fn read_datetime_parses_a_plain_field() {
    let primary = text_field(&[b"2020:05:01 10:00:00"]);
    let r = read_datetime(&primary, &FieldValue::Missing);
    let t = r.expect("valid field should parse");
    assert_eq!(t.year, 2020);
    assert_eq!(t.month, 5);
    assert_eq!(t.day, 1);
    assert_eq!(t.hour, 10);
    assert_eq!(t.minute, 0);
    assert_eq!(t.second, 0);
    assert_eq!(t.nanosecond, 0);
}

#[test]
fn unparsable_subsec_is_silently_ignored() {
    let primary = text_field(&[b"2020:05:01 10:00:00"]);
    let subsec = text_field(&[b"not digits"]);
    let r = read_datetime(&primary, &subsec);
    let t = r.expect("primary field alone should suffice");
    assert_eq!(t.nanosecond, 0);
}

#[test]
fn valid_subsec_refines_the_timestamp() {
    let primary = text_field(&[b"2020:05:01 10:00:00"]);
    let subsec = text_field(&[b"123"]);
    let r = read_datetime(&primary, &subsec);
    let t = r.expect("primary field should parse");
    // three digits of a second, extended to nanoseconds
    assert_eq!(t.nanosecond, 123_000_000);
}

#[test]
fn missing_field_is_reported() {
    let r = read_datetime(&FieldValue::Missing, &FieldValue::Missing);
    assert!(matches!(r, Err(ExtractionError::FieldMissing)));
}

#[test]
fn non_text_field_is_reported() {
    let r = read_datetime(&FieldValue::NotText, &FieldValue::Missing);
    assert!(matches!(r, Err(ExtractionError::FieldNotText)));
}

#[test]
fn empty_field_is_reported() {
    let r = read_datetime(&text_field(&[]), &FieldValue::Missing);
    assert!(matches!(r, Err(ExtractionError::FieldEmpty)));
}

#[test]
fn malformed_field_is_a_parse_failure() {
    let r = read_datetime(&text_field(&[b"yesterday morning"]), &FieldValue::Missing);
    match r {
        Err(ExtractionError::ParseFailed(msg)) => assert!(!msg.is_empty()),
        _ => panic!("malformed text should fail to parse"),
    }
}

#[test]
fn blank_field_is_a_parse_failure() {
    let r = read_datetime(&text_field(&[b"    :  :     :  :  "]), &FieldValue::Missing);
    assert!(matches!(r, Err(ExtractionError::ParseFailed(_))));
}

#[test]
fn assemble_prefers_the_refinement() {
    let raw = RawTimestamp {
        year: 2020,
        month: 5,
        day: 1,
        hour: 10,
        minute: 0,
        second: 0,
        nanosecond: Some(4),
        offset_minutes: None,
    };
    let with = assemble_timestamp(&raw, Some(9));
    assert_eq!(with.nanosecond, 9);
    let without = assemble_timestamp(&raw, None);
    assert_eq!(without.nanosecond, 4);
}

#[test]
fn logger_remembers_its_switch() {
    let on = Logger::new(true);
    let off = Logger::new(false);
    assert!(on.print_logs);
    assert!(!off.print_logs);
}
