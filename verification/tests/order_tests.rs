use cosmic_caldav::caldav::CalendarEvent;
use cosmic_caldav::order::sort_by_start_time;
use cosmic_caldav::time::{CivilDate, Stamp};

fn event(uid: &str, day: Option<u32>) -> CalendarEvent {
    CalendarEvent {
        uid: uid.to_string(),
        href: String::new(),
        etag: None,
        summary: String::new(),
        start: day.map(|d| Stamp { date: CivilDate { year: 2026, month: 1, day: d }, hour: 8, minute: 0, second: 0 }),
        end: None,
        description: None,
        location: None,
    }
}

#[test]
fn sorting_is_by_start_with_undated_first_and_stable() {
    let events = vec![
        event("b3", Some(3)),
        event("n1", None),
        event("a1", Some(1)),
        event("b3-second", Some(3)),
        event("n2", None),
    ];
    let sorted = sort_by_start_time(events);
    let order: Vec<&str> = sorted.iter().map(|e| e.uid.as_str()).collect();
    assert_eq!(order, vec!["n1", "n2", "a1", "b3", "b3-second"]);
    assert!(sort_by_start_time(Vec::<CalendarEvent>::new()).is_empty());
}
