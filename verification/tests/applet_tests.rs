use cosmic_caldav::applet::{
    all_event_times_fit, day_style, panel_label, DayStyle, event_span, event_title, merge_day_marker, month_grid_cells,
    parse_local_datetime, time_range_string, AppletCommand, AppletEvent, CalDavApplet,
    CalendarViewport, DayMarker, DayVisual, EditingEvent, EventFormState, EventSpan, Message,
    SyncState, ACCOUNT_NOT_FOUND, INVALID_DATE, INVALID_TIME, NO_ACCOUNT, NO_CALENDAR,
    TITLE_REQUIRED,
};
use cosmic_caldav::applet::DayMarker::{Blank, End, Middle, Single, Start};
use cosmic_caldav::caldav::{Calendar, CalendarEvent, END_NOT_AFTER_START};
use cosmic_caldav::config::{Account, Config};
use cosmic_caldav::time::{weekday_from_sunday, CivilDate, LocalDateTime, Stamp};

fn date(y: i32, m: u32, d: u32) -> CivilDate {
    CivilDate { year: y, month: m, day: d }
}

fn stamp(y: i32, mo: u32, d: u32, h: u32, mi: u32) -> Stamp {
    Stamp { date: date(y, mo, d), hour: h, minute: mi, second: 0 }
}

fn account(id: &str, user: &str) -> Account {
    Account {
        id: id.to_string(),
        display_name: user.to_string(),
        url: "https://cloud.example.com".to_string(),
        username: user.to_string(),
        password: "pw".to_string(),
    }
}

fn event(uid: &str, start: Option<Stamp>) -> CalendarEvent {
    CalendarEvent {
        uid: uid.to_string(),
        href: format!("/cal/{uid}.ics"),
        etag: Some(format!("\"{uid}\"")),
        summary: format!("Event {uid}"),
        start,
        end: None,
        description: None,
        location: Some("Room".to_string()),
    }
}

fn applet_with(accounts: Vec<Account>) -> (CalDavApplet, AppletCommand) {
    CalDavApplet::new(Config { accounts }, date(2026, 1, 15))
}

#[test]
fn markers_combine_in_any_order_and_grouping() {
    assert_eq!(merge_day_marker(Start, End), Middle);
    assert_eq!(merge_day_marker(End, Start), Middle);
    assert_eq!(merge_day_marker(Single, Start), Start);
    assert_eq!(merge_day_marker(Blank, End), End);
    assert_eq!(merge_day_marker(Middle, Single), Middle);
    let all = [Blank, Single, Start, Middle, End];
    for a in all {
        assert_eq!(merge_day_marker(Blank, a), a);
        assert_eq!(merge_day_marker(a, a), a);
        for b in all {
            if !(a == Single && b == Blank) && !(a == Blank && b == Single) {
                assert_eq!(merge_day_marker(a, b), merge_day_marker(b, a));
            }
            for c in all {
                assert_eq!(
                    merge_day_marker(merge_day_marker(a, b), c),
                    merge_day_marker(a, merge_day_marker(b, c))
                );
            }
        }
    }
    // The one pair that does not commute: a blank arriving on a single day clears it.
    assert_eq!(merge_day_marker(Single, Blank), Blank);
    assert_eq!(merge_day_marker(Blank, Single), Single);
}

#[test]
fn marker_glyphs() {
    let mut v = DayVisual::default();
    assert_eq!(v.marker(), "");
    v.marker = DayMarker::Single;
    assert_eq!(v.marker(), "•");
    v.marker = DayMarker::Start;
    assert_eq!(v.marker(), "╺━");
    v.marker = DayMarker::Middle;
    assert_eq!(v.marker(), "━━");
    v.marker = DayMarker::End;
    assert_eq!(v.marker(), "━╸");
}

#[test]
fn synchronisation_ends_after_as_many_results_as_accounts() {
    let mut s = SyncState::idle();
    s.begin(2);
    assert!(s.loading);
    assert_eq!(s.pending_syncs, 2);
    s.finish_one();
    assert!(s.loading);
    s.finish_one();
    assert_eq!(s, SyncState::idle());
    s.finish_one();
    assert_eq!(s, SyncState::idle());
    s.begin(0);
    assert!(!s.loading);
}

#[test]
fn months_wrap_around_the_year() {
    let mut v = CalendarViewport::new(date(2026, 1, 15));
    v.show_previous_month();
    assert_eq!((v.year, v.month), (2025, 12));
    v.show_next_month();
    assert_eq!((v.year, v.month), (2026, 1));
    assert_eq!(v.selected_date, date(2026, 1, 15));
    v.show_next_month();
    assert_eq!(v.month_name(), "February");
    v.select_day(30);
    assert_eq!(v.selected_date, date(2026, 1, 15));
    v.select_day(28);
    assert_eq!(v.selected_date, date(2026, 2, 28));
    assert_eq!(v.first_of_month(), date(2026, 2, 1));
}

#[test]
fn month_grid_has_whole_weeks() {
    let cells = month_grid_cells(3, 31);
    assert_eq!(cells.len(), 35);
    assert_eq!(cells[2], None);
    assert_eq!(cells[3], Some(1));
    assert_eq!(cells[33], Some(31));
    assert_eq!(cells[34], None);
    assert_eq!(month_grid_cells(0, 28).len(), 28);
}

#[test]
fn fresh_form_defaults() {
    let mut form = EventFormState::new(date(2026, 1, 5));
    assert!(!form.visible);
    assert_eq!(form.start_date, "2026-01-05");
    assert_eq!(form.start_time, "09:00");
    assert_eq!(form.end_time, "10:00");
    assert_eq!(form.reminder, "15");
    assert_eq!(form.save_label(), "Save");
    form.is_submitting = true;
    assert_eq!(form.save_label(), "Saving...");
    form.reminder = "abc".to_string();
    assert_eq!(form.parsed_reminder_minutes(), 15);
    form.reminder = "-5".to_string();
    assert_eq!(form.parsed_reminder_minutes(), -5);
    form.title = "x".to_string();
    form.begin_new_event(date(2026, 2, 1));
    assert!(form.visible);
    assert_eq!(form.title, "");
    assert!(!form.is_submitting);
    assert!(!form.is_editing());
    form.cancel(date(2026, 2, 2));
    assert!(!form.visible);
    assert_eq!(form.end_date, "2026-02-02");
}

#[test]
fn event_titles_and_times() {
    let item = AppletEvent { account_id: "a".to_string(), label: "alice".to_string(), event: event("1", None) };
    assert_eq!(event_title(&item, false), "Event 1 (Room)");
    assert_eq!(event_title(&item, true), "alice: Event 1 (Room)");
    assert_eq!(time_range_string(&stamp(2026, 1, 15, 9, 0), Some(stamp(2026, 1, 15, 10, 30))), "09:00–10:30");
    assert_eq!(
        time_range_string(&stamp(2026, 1, 15, 9, 0), Some(stamp(2026, 1, 16, 8, 0))),
        "Jan 15 09:00 – Jan 16 08:00"
    );
    assert_eq!(time_range_string(&stamp(2026, 1, 15, 9, 5), None), "09:05");
}

#[test]
fn an_end_at_midnight_belongs_to_the_day_before() {
    let span = event_span(&stamp(2026, 1, 15, 20, 0), &stamp(2026, 1, 17, 0, 0));
    assert_eq!(span, EventSpan { start_date: date(2026, 1, 15), end_date: date(2026, 1, 16) });
}

#[test]
fn form_dates_and_times_are_checked() {
    assert_eq!(parse_local_datetime("2026-13-01", "09:00").err(), Some(INVALID_DATE.to_string()));
    assert_eq!(parse_local_datetime(" 2026-01-15 ", "9am").err(), Some(INVALID_TIME.to_string()));
    let ok = parse_local_datetime(" 2026-01-15", "09:30 ").unwrap();
    assert_eq!(ok.local, stamp(2026, 1, 15, 9, 30));
}

#[test]
fn start_up_synchronises_every_account() {
    let (applet, cmd) = applet_with(vec![account("a", "alice"), account("b", "bob")]);
    match cmd {
        AppletCommand::Sync { requests } => {
            assert_eq!(requests.len(), 2);
            assert_eq!(requests[0].account_id, "a");
            assert_eq!(requests[1].account_id, "b");
            assert_eq!(requests[1].client.username(), "bob");
        }
        _ => panic!("expected a synchronisation"),
    }
    assert!(applet.sync.loading);
    assert_eq!(applet.sync.pending_syncs, 2);
    assert_eq!(applet.calendar.selected_date, date(2026, 1, 15));
    let (idle, cmd) = applet_with(vec![]);
    assert!(matches!(cmd, AppletCommand::Nothing));
    assert!(!idle.sync.loading);
}

#[test]
fn events_of_all_accounts_are_sorted_once_all_arrived() {
    let (mut applet, _) = applet_with(vec![account("a", "alice"), account("b", "bob")]);
    let cals = vec![Calendar { href: "/cal/".to_string(), display_name: "Work".to_string(), color: None }];
    let cmd = applet.update(Message::CalendarsLoaded { account_id: "a".to_string(), result: Ok(cals) });
    match cmd {
        AppletCommand::FetchEvents { account_id, account_label, calendar_href, .. } => {
            assert_eq!(account_id, "a");
            assert_eq!(account_label, "alice");
            assert_eq!(calendar_href, "/cal/");
        }
        _ => panic!("expected an event fetch"),
    }
    assert_eq!(applet.calendars.len(), 1);

    applet.update(Message::EventsLoaded {
        account_id: "a".to_string(),
        account_label: "alice".to_string(),
        result: Ok(vec![event("late", Some(stamp(2026, 1, 20, 9, 0))), event("early", Some(stamp(2026, 1, 2, 9, 0)))]),
    });
    assert_eq!(applet.sync.pending_syncs, 1);
    assert_eq!(applet.events[0].event.uid, "late");

    applet.update(Message::EventsLoaded {
        account_id: "b".to_string(),
        account_label: "bob".to_string(),
        result: Ok(vec![event("mid", Some(stamp(2026, 1, 10, 9, 0))), event("undated", None)]),
    });
    assert!(!applet.sync.loading);
    let order: Vec<&str> = applet.events.iter().map(|e| e.event.uid.as_str()).collect();
    assert_eq!(order, vec!["undated", "early", "mid", "late"]);
    assert_eq!(applet.events[2].label, "bob");
}

#[test]
fn a_failed_calendar_listing_ends_that_synchronisation() {
    let (mut applet, _) = applet_with(vec![account("a", "alice")]);
    let cmd = applet.update(Message::CalendarsLoaded { account_id: "a".to_string(), result: Err("down".to_string()) });
    assert!(matches!(cmd, AppletCommand::Nothing));
    assert!(!applet.sync.loading);
    let cmd = applet.update(Message::SyncTick { popup_open: false });
    assert!(matches!(cmd, AppletCommand::Sync { .. }));
    let cmd = applet.update(Message::SyncTick { popup_open: false });
    assert!(matches!(cmd, AppletCommand::Nothing));
}

#[test]
fn saving_the_form_checks_title_times_account_and_calendar() {
    let (mut applet, _) = applet_with(vec![]);
    applet.update(Message::ToggleAddForm);
    assert!(applet.form.visible);
    let cmd = applet.update(Message::SubmitEvent);
    assert!(matches!(cmd, AppletCommand::Nothing));
    assert_eq!(applet.form.error.as_deref(), Some(TITLE_REQUIRED));

    applet.update(Message::FormTitleChanged("Lunch".to_string()));
    applet.update(Message::FormStartDateChanged("2026-01-15".to_string()));
    applet.update(Message::FormStartTimeChanged("bad".to_string()));
    applet.update(Message::SubmitEvent);
    assert_eq!(applet.form.error.as_deref(), Some(INVALID_TIME));

    let noon = LocalDateTime { local: stamp(2026, 1, 15, 12, 0), utc: stamp(2026, 1, 15, 12, 0) };
    let one = LocalDateTime { local: stamp(2026, 1, 15, 13, 0), utc: stamp(2026, 1, 15, 13, 0) };
    applet.submit_parsed(Ok(one), Ok(noon));
    assert_eq!(applet.form.error.as_deref(), Some(END_NOT_AFTER_START));
    applet.submit_parsed(Ok(noon), Ok(one));
    assert_eq!(applet.form.error.as_deref(), Some(NO_ACCOUNT));

    applet.config.accounts.push(account("a", "alice"));
    applet.submit_parsed(Ok(noon), Ok(one));
    assert_eq!(applet.form.error.as_deref(), Some(NO_CALENDAR));

    applet.calendars.push(Calendar { href: "/cal/".to_string(), display_name: "Work".to_string(), color: None });
    applet.update(Message::FormReminderChanged("30".to_string()));
    let cmd = applet.submit_parsed(Ok(noon), Ok(one));
    match cmd {
        AppletCommand::CreateEvent { calendar_href, draft, .. } => {
            assert_eq!(calendar_href, "/cal/");
            assert_eq!(draft.title, "Lunch");
            assert_eq!(draft.start, noon);
            assert_eq!(draft.end, one);
            assert_eq!(draft.reminder, 30);
        }
        _ => panic!("expected the event to be created"),
    }
    assert!(applet.form.is_submitting);
    assert_eq!(applet.form.error, None);
    // While saving, another save does nothing.
    assert!(matches!(applet.update(Message::SubmitEvent), AppletCommand::Nothing));

    let cmd = applet.update(Message::EventCreated(Err("HTTP 500".to_string())));
    assert!(matches!(cmd, AppletCommand::Nothing));
    assert!(!applet.form.is_submitting);
    assert_eq!(applet.form.error.as_deref(), Some("HTTP 500"));

    let cmd = applet.update(Message::EventCreated(Ok(())));
    assert!(matches!(cmd, AppletCommand::Sync { .. }));
    assert!(!applet.form.visible);
    assert_eq!(applet.form.title, "");
    assert!(applet.calendars.is_empty());
}

#[test]
fn editing_and_deleting_need_the_events_account() {
    let (mut applet, _) = applet_with(vec![account("a", "alice")]);
    assert!(matches!(applet.update(Message::DeleteEditingEvent), AppletCommand::Nothing));
    applet.form.editing_event = Some(EditingEvent {
        account_id: "gone".to_string(),
        event_href: "/cal/x.ics".to_string(),
        event_etag: None,
        uid: "x".to_string(),
    });
    applet.update(Message::DeleteEditingEvent);
    assert_eq!(applet.form.error.as_deref(), Some(ACCOUNT_NOT_FOUND));

    applet.form.editing_event = Some(EditingEvent {
        account_id: "a".to_string(),
        event_href: "/cal/x.ics".to_string(),
        event_etag: Some("\"9\"".to_string()),
        uid: "x".to_string(),
    });
    match applet.update(Message::DeleteEditingEvent) {
        AppletCommand::DeleteEvent { event_href, etag, .. } => {
            assert_eq!(event_href, "/cal/x.ics");
            assert_eq!(etag.as_deref(), Some("\"9\""));
        }
        _ => panic!("expected a delete"),
    }
    assert!(applet.form.is_submitting);
}

#[test]
fn choosing_an_event_fills_the_form_and_choosing_a_day_closes_it() {
    let (mut applet, _) = applet_with(vec![account("a", "alice")]);
    applet.update(Message::EventsLoaded {
        account_id: "a".to_string(),
        account_label: "alice".to_string(),
        result: Ok(vec![event("1", None)]),
    });
    applet.update(Message::EditEvent(5));
    assert!(!applet.form.visible);
    applet.update(Message::EditEvent(0));
    assert!(applet.form.visible);
    assert!(applet.form.is_editing());
    assert_eq!(applet.form.title, "Event 1");
    assert_eq!(applet.form.location, "Room");
    assert_eq!(applet.form.description, "");
    assert_eq!(applet.calendar.selected_date, date(2026, 1, 15));
    // The add button does not close a form that edits an event.
    applet.update(Message::ToggleAddForm);
    assert!(applet.form.visible);
    assert!(!applet.form.is_editing());
    applet.update(Message::ToggleAddForm);
    assert!(!applet.form.visible);

    applet.update(Message::EditEvent(0));
    applet.update(Message::SelectDay(20));
    assert!(!applet.form.visible);
    assert!(!applet.form.is_editing());
    assert_eq!(applet.calendar.selected_date, date(2026, 1, 20));
}

#[test]
fn event_times_are_checked_before_they_are_kept() {
    let ok = vec![event("1", Some(stamp(2026, 1, 1, 0, 0)))];
    assert!(all_event_times_fit(&ok));
    // A day inside either end of the supported range is enough.
    let near_end = vec![event("2", Some(stamp(262142, 12, 30, 12, 0)))];
    assert!(all_event_times_fit(&near_end));
    let near_start = vec![event("3", Some(stamp(-262143, 1, 2, 0, 0)))];
    assert!(all_event_times_fit(&near_start));
    // The first and the last supported day are not.
    let last_day = vec![event("4", Some(stamp(262142, 12, 31, 0, 0)))];
    assert!(!all_event_times_fit(&last_day));
    let first_day = vec![event("5", Some(stamp(-262143, 1, 1, 12, 0)))];
    assert!(!all_event_times_fit(&first_day));
    // Nor a start whose effective end (a minute later) falls on the last day.
    let late = vec![event("6", Some(stamp(262142, 12, 30, 23, 59)))];
    assert!(!all_event_times_fit(&late));
}

#[test]
fn popup_texts() {
    let (mut applet, _) = applet_with(vec![account("a", "alice")]);
    assert_eq!(applet.header_title(), "January 2026");
    assert_eq!(applet.form_heading(), "New event — 15 Jan 2026");
    assert_eq!(applet.list_notice(0), Some("Loading events..."));
    applet.update(Message::CalendarsLoaded { account_id: "a".to_string(), result: Err("x".to_string()) });
    assert_eq!(applet.list_notice(0), Some("No events this day"));
    assert_eq!(applet.list_notice(2), None);
    let (idle, _) = applet_with(vec![]);
    assert_eq!(idle.list_notice(0), Some("No accounts configured"));
    assert_eq!(panel_label(&stamp(2026, 1, 15, 9, 5)), "Thu, 15 Jan 09:05");
    assert_eq!(day_style(true, true), DayStyle::Selected);
    assert_eq!(day_style(false, true), DayStyle::Today);
    assert_eq!(day_style(false, false), DayStyle::Plain);
}

#[test]
fn month_grid_starts_on_the_weekday_of_the_first() {
    let (applet, _) = applet_with(vec![]);
    let grid = applet.month_grid();
    assert_eq!(grid.first, date(2026, 1, 1));
    assert_eq!(weekday_from_sunday(&grid.first), 4);
    assert_eq!(grid.cells.len(), 35);
    assert_eq!(grid.cells[3], None);
    assert_eq!(grid.cells[4], Some(1));
    assert_eq!(grid.cells[34], Some(31));
    assert_eq!(grid.visuals.len(), 31);
    assert!(grid.visuals.iter().all(|v| !v.has_events));
}

#[test]
fn the_selected_day_lists_and_marks_its_events() {
    let (mut applet, _) = applet_with(vec![account("a", "alice")]);
    let mut midday = event("noon", Some(stamp(2026, 1, 15, 12, 0)));
    midday.end = Some(stamp(2026, 1, 15, 13, 0));
    applet.update(Message::EventsLoaded {
        account_id: "a".to_string(),
        account_label: "alice".to_string(),
        result: Ok(vec![event("undated", None), midday]),
    });
    // Around noon UTC the local day is the same date in nearly every time zone.
    assert_eq!(applet.selected_day_events(), vec![1]);
    let grid = applet.month_grid();
    assert!(grid.visuals[14].has_events);
    assert_eq!(grid.visuals[14].marker, DayMarker::Single);
    assert!(!grid.visuals[0].has_events);
}
