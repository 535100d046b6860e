use cosmic_caldav::ical::{escape_ical_text, unescape_ical_text, unfold_ical_lines};
use cosmic_caldav::time::{CivilDate, LocalDateTime, Stamp};
use cosmic_caldav::vevent::{
    build_ical_event, parse_ical_date, parse_ical_events, read_ical_date, scan_ical_events, DateParse,
};

fn stamp(y: i32, mo: u32, d: u32, h: u32, mi: u32, s: u32) -> Stamp {
    Stamp { date: CivilDate { year: y, month: mo, day: d }, hour: h, minute: mi, second: s }
}

fn chars(s: &str) -> Vec<char> {
    s.chars().collect()
}

#[test]
fn escape_ical_text_escapes_specials_and_drops_carriage_returns() {
    assert_eq!(escape_ical_text("a,b;c\\d\r\ne"), "a\\,b\\;c\\\\d\\ne");
    assert_eq!(escape_ical_text(""), "");
}

#[test]
fn escaped_text_reads_back_without_carriage_returns() {
    let written = "Lunch, then; a\\walk\r\nafter";
    let read = unescape_ical_text(&escape_ical_text(written));
    assert_eq!(read, "Lunch, then; a\\walk\nafter");
}

#[test]
fn unescape_keeps_unknown_escapes_and_a_trailing_backslash() {
    assert_eq!(unescape_ical_text("a\\xb"), "a\\xb");
    assert_eq!(unescape_ical_text("end\\"), "end\\");
    assert_eq!(unescape_ical_text("\\N"), "\n");
}

#[test]
fn unfold_joins_continuations_and_strips_carriage_returns() {
    let lines = unfold_ical_lines("A\r\n B\r\n\tC\r\nD\r\r\nE");
    assert_eq!(lines, vec!["ABC".to_string(), "D".to_string(), "E".to_string()]);
}

#[test]
fn unfold_drops_a_leading_continuation_and_no_line_starts_with_blank() {
    let lines = unfold_ical_lines(" orphan\nX\n  y\n");
    assert_eq!(lines, vec!["Xy".to_string()]);
    for line in &lines {
        assert!(!line.starts_with(' ') && !line.starts_with('\t'));
    }
    assert!(unfold_ical_lines("").is_empty());
}

#[test]
fn utc_date_time_value_is_read_as_utc() {
    assert_eq!(
        read_ical_date(&chars("DTSTART:20260115T090000Z")),
        DateParse::Value(Some(stamp(2026, 1, 15, 9, 0, 0)))
    );
}

#[test]
fn date_value_is_read_as_midnight() {
    assert_eq!(
        parse_ical_date(&chars("DTSTART;VALUE=DATE:20260115")),
        Some(stamp(2026, 1, 15, 0, 0, 0))
    );
}

#[test]
fn zoned_value_is_converted_to_utc() {
    // Berlin is one hour ahead of UTC in January.
    assert_eq!(
        parse_ical_date(&chars("DTSTART;TZID=Europe/Berlin:20260115T090000")),
        Some(stamp(2026, 1, 15, 8, 0, 0))
    );
    // An unknown zone leaves the wall-clock time as it is.
    assert_eq!(
        parse_ical_date(&chars("DTSTART;TZID=Nowhere/Land:20260115T090000")),
        Some(stamp(2026, 1, 15, 9, 0, 0))
    );
}

#[test]
fn malformed_date_values_give_nothing() {
    assert_eq!(parse_ical_date(&chars("DTSTART:2026")), None);
    assert_eq!(parse_ical_date(&chars("DTSTART:2026011XT090000Z")), None);
}

#[test]
fn value_cut_inside_a_character_is_told_apart() {
    // The fifteenth byte falls inside the two-byte 'é'.
    let line = chars("DTSTART:20260115T09000é0");
    assert_eq!(read_ical_date(&line), DateParse::Aborts);
    let ical = "BEGIN:VEVENT\r\nUID:x\r\nDTSTART:20260115T09000é0\r\nEND:VEVENT\r\n";
    assert!(scan_ical_events(ical, "/e.ics", None).is_none());
}

#[test]
fn events_without_uid_or_summary_are_skipped() {
    let ical = "BEGIN:VEVENT\r\nLOCATION:Room\r\nEND:VEVENT\r\nBEGIN:VEVENT\r\nSUMMARY:Kept\r\nEND:VEVENT\r\n";
    let events = parse_ical_events(ical, "/c/e.ics", None);
    assert_eq!(events.len(), 1);
    assert_eq!(events[0].summary, "Kept");
    assert_eq!(events[0].uid, "");
    assert_eq!(events[0].href, "/c/e.ics");
    assert_eq!(events[0].etag, None);
}

#[test]
fn built_event_text_is_exact() {
    let start = LocalDateTime { local: stamp(2026, 1, 15, 9, 0, 0), utc: stamp(2026, 1, 15, 8, 0, 0) };
    let end = LocalDateTime { local: stamp(2026, 1, 15, 10, 0, 0), utc: stamp(2026, 1, 15, 9, 0, 0) };
    let text = build_ical_event("abc", "Team, sync", &start, &end, "", "", 0);
    assert_eq!(
        text,
        "BEGIN:VCALENDAR\r\nVERSION:2.0\r\nPRODID:-//cosmic-caldav//EN\r\nBEGIN:VEVENT\r\nUID:abc\r\nSUMMARY:Team\\, sync\r\nDTSTART:20260115T090000\r\nDTEND:20260115T100000\r\nEND:VEVENT\r\nEND:VCALENDAR\r\n"
    );
}

#[test]
fn written_event_reads_back() {
    let start = LocalDateTime { local: stamp(2026, 3, 1, 14, 30, 0), utc: stamp(2026, 3, 1, 13, 30, 0) };
    let end = LocalDateTime { local: stamp(2026, 3, 1, 15, 45, 0), utc: stamp(2026, 3, 1, 14, 45, 0) };
    let text = build_ical_event("uid-1", "Planning; part 2", &start, &end, "Room\r\n4", "Bring notes", 0);
    let events = parse_ical_events(&text, "/cal/uid-1.ics", Some("\"e1\""));
    assert_eq!(events.len(), 1);
    let e = &events[0];
    assert_eq!(e.uid, "uid-1");
    assert_eq!(e.summary, "Planning; part 2");
    assert_eq!(e.location.as_deref(), Some("Room\n4"));
    assert_eq!(e.description.as_deref(), Some("Bring notes"));
    assert_eq!(e.start, Some(stamp(2026, 3, 1, 14, 30, 0)));
    assert_eq!(e.end, Some(stamp(2026, 3, 1, 15, 45, 0)));
    assert_eq!(e.href, "/cal/uid-1.ics");
    assert_eq!(e.etag.as_deref(), Some("\"e1\""));
}

#[test]
fn a_reminder_replaces_the_description_read_back() {
    let start = LocalDateTime { local: stamp(2026, 3, 1, 14, 30, 0), utc: stamp(2026, 3, 1, 13, 30, 0) };
    let end = LocalDateTime { local: stamp(2026, 3, 1, 15, 0, 0), utc: stamp(2026, 3, 1, 14, 0, 0) };
    let text = build_ical_event("u2", "Call", &start, &end, "", "Agenda", 15);
    assert!(text.contains("BEGIN:VALARM\r\nTRIGGER:-PT15M\r\nACTION:DISPLAY\r\nDESCRIPTION:Reminder\r\nEND:VALARM\r\n"));
    let events = parse_ical_events(&text, "/cal/u2.ics", None);
    assert_eq!(events.len(), 1);
    assert_eq!(events[0].description.as_deref(), Some("Reminder"));
    assert_eq!(events[0].location, None);
}

#[test]
fn written_event_with_five_digit_year_keeps_its_text_fields() {
    let start = LocalDateTime { local: stamp(12345, 1, 1, 9, 0, 0), utc: stamp(12345, 1, 1, 9, 0, 0) };
    let end = LocalDateTime { local: stamp(12345, 1, 1, 10, 0, 0), utc: stamp(12345, 1, 1, 10, 0, 0) };
    let text = build_ical_event("far", "Later", &start, &end, "Here", "Notes", 0);
    assert!(text.contains("DTSTART:+123450101T090000\r\n"));
    let events = parse_ical_events(&text, "/cal/far.ics", None);
    assert_eq!(events.len(), 1);
    let e = &events[0];
    assert_eq!(e.uid, "far");
    assert_eq!(e.summary, "Later");
    assert_eq!(e.location.as_deref(), Some("Here"));
    assert_eq!(e.description.as_deref(), Some("Notes"));
    assert_eq!(e.href, "/cal/far.ics");
}
