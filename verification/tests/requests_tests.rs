use cosmic_caldav::caldav::{
    calendar_home_request, connection_test_outcome, create_event_request, declared_length_too_large,
    delete_event_request, events_query_body, events_request, generate_uid, mutation_outcome,
    new_event_request, update_event_request, BodyBuffer, CalDavClient, BODY_NOT_UTF8, BODY_TOO_LARGE,
    END_NOT_AFTER_START, HTTPS_REQUIRED, MAX_BODY_BYTES,
};
use cosmic_caldav::href::{
    judge_resolved_href, validate_server_href, UrlParts, BASE_INVALID, HOST_CHANGED, HREF_INVALID,
    SCHEME_CHANGED, SCHEME_UNSUPPORTED,
};
use cosmic_caldav::time::{CivilDate, LocalDateTime, Stamp};

fn stamp(y: i32, mo: u32, d: u32, h: u32, mi: u32) -> Stamp {
    Stamp { date: CivilDate { year: y, month: mo, day: d }, hour: h, minute: mi, second: 0 }
}

fn at(h: u32) -> LocalDateTime {
    LocalDateTime { local: stamp(2026, 1, 15, h, 0), utc: stamp(2026, 1, 15, h, 0) }
}

fn client(url: &str, user: &str) -> CalDavClient {
    CalDavClient::new(url.to_string(), user.to_string(), "pw".to_string())
}

#[test]
fn client_trims_trailing_slashes() {
    let c = client("https://cloud.example.com///", "alice");
    assert_eq!(c.base_url(), "https://cloud.example.com");
    assert_eq!(c.username(), "alice");
    assert_eq!(c.password(), "pw");
}

#[test]
fn calendar_home_of_nextcloud_and_dav_urls() {
    assert_eq!(
        client("https://cloud.example.com", "team/alice").caldav_url(),
        "https://cloud.example.com/remote.php/dav/calendars/team%2Falice/"
    );
    assert_eq!(
        client("https://www.google.com/calendar/dav/me@gmail.com/events/", "me@gmail.com").caldav_url(),
        "https://www.google.com/calendar/dav/me@gmail.com/events/"
    );
    assert_eq!(
        client("https://outlook.office365.com/", "me").caldav_url(),
        "https://outlook.office365.com/"
    );
}

#[test]
fn requests_to_plain_http_servers_are_refused() {
    let c = client("http://cloud.example.com", "alice");
    assert_eq!(calendar_home_request(&c), Err(HTTPS_REQUIRED.to_string()));
    assert_eq!(events_request(&c, "/cal/"), Err(HTTPS_REQUIRED.to_string()));
    assert_eq!(delete_event_request(&c, "/cal/e.ics", None).err(), Some(HTTPS_REQUIRED.to_string()));
    let local = client("http://localhost:5232", "alice");
    assert_eq!(
        calendar_home_request(&local),
        Ok("http://localhost:5232/remote.php/dav/calendars/alice/".to_string())
    );
}

#[test]
fn events_request_resolves_the_calendar_href() {
    let c = client("https://cloud.example.com", "alice");
    assert_eq!(
        events_request(&c, "/remote.php/dav/calendars/alice/personal/"),
        Ok("https://cloud.example.com/remote.php/dav/calendars/alice/personal/".to_string())
    );
    assert!(events_request(&c, "https://evil.example.com/cal/").is_err());
}

#[test]
fn create_request_puts_the_event_under_its_uid() {
    let c = client("https://cloud.example.com", "alice");
    let put = create_event_request(&c, "/cal/personal///", "abc", "Meet", &at(9), &at(10), "", "", 0)
        .unwrap();
    assert_eq!(put.url, "https://cloud.example.com/cal/personal/abc.ics");
    assert_eq!(put.if_match, None);
    assert!(put.body.starts_with("BEGIN:VCALENDAR\r\n"));
    assert!(put.body.contains("UID:abc\r\nSUMMARY:Meet\r\n"));
}

#[test]
fn create_request_refuses_an_end_not_after_the_start() {
    let c = client("https://cloud.example.com", "alice");
    let r = create_event_request(&c, "/cal/", "abc", "Meet", &at(10), &at(10), "", "", 0);
    assert_eq!(r.err(), Some(END_NOT_AFTER_START.to_string()));
}

#[test]
fn update_and_delete_requests_carry_the_entity_tag() {
    let c = client("https://cloud.example.com", "alice");
    let put = update_event_request(&c, "/cal/e.ics", Some("\"7\""), "e", "T", &at(9), &at(10), "", "", 0)
        .unwrap();
    assert_eq!(put.url, "https://cloud.example.com/cal/e.ics");
    assert_eq!(put.if_match.as_deref(), Some("\"7\""));
    let del = delete_event_request(&c, "/cal/e.ics", Some("")).unwrap();
    assert_eq!(del.url, "https://cloud.example.com/cal/e.ics");
    assert_eq!(del.if_match, None);
}

#[test]
fn response_statuses_are_judged() {
    assert_eq!(connection_test_outcome(207), Ok(()));
    assert_eq!(connection_test_outcome(200), Ok(()));
    assert_eq!(
        connection_test_outcome(401),
        Err("Authentication failed. Check your username and password.".to_string())
    );
    assert_eq!(connection_test_outcome(500), Err("Server returned HTTP 500".to_string()));
    assert_eq!(mutation_outcome(204), Ok(()));
    assert_eq!(mutation_outcome(412), Err("Server error: HTTP 412".to_string()));
}

#[test]
fn events_query_covers_thirty_days_back_and_a_year_ahead() {
    let body = events_query_body(&CivilDate { year: 2026, month: 1, day: 15 }).unwrap();
    assert!(body.contains("<c:time-range start=\"20251216T000000Z\" end=\"20270115T235959Z\"/>"));
    assert!(events_query_body(&CivilDate { year: 262142, month: 12, day: 1 }).is_none());
}

#[test]
fn response_bodies_are_limited_and_must_be_utf8() {
    assert!(declared_length_too_large(Some(MAX_BODY_BYTES as u64 + 1)));
    assert!(!declared_length_too_large(Some(MAX_BODY_BYTES as u64)));
    assert!(!declared_length_too_large(None));

    let mut body = BodyBuffer::new();
    assert_eq!(body.push_chunk("héllo".as_bytes()), Ok(()));
    assert_eq!(body.into_text(), Ok("héllo".to_string()));

    let mut bad = BodyBuffer::new();
    assert_eq!(bad.push_chunk(&[0xff, 0xfe]), Ok(()));
    assert_eq!(bad.into_text(), Err(BODY_NOT_UTF8.to_string()));

    let mut big = BodyBuffer::new();
    let chunk = vec![b'a'; MAX_BODY_BYTES];
    assert_eq!(big.push_chunk(&chunk), Ok(()));
    assert_eq!(big.push_chunk(b"b"), Err(BODY_TOO_LARGE.to_string()));
}

#[test]
fn uids_are_fresh_lower_hex() {
    let a = generate_uid();
    let b = generate_uid();
    assert_eq!(a.len(), 32);
    assert!(a.chars().all(|c| c.is_ascii_digit() || ('a'..='f').contains(&c)));
    assert_eq!(a.as_bytes()[12], b'4');
    assert!(matches!(a.as_bytes()[16], b'8' | b'9' | b'a' | b'b'));
    assert_ne!(a, b);
}

#[test]
fn new_events_get_a_fresh_uid_in_their_url() {
    let c = client("https://cloud.example.com", "alice");
    let put = new_event_request(&c, "/cal/", "Meet", &at(9), &at(10), "", "", 0).unwrap();
    assert!(put.url.starts_with("https://cloud.example.com/cal/"));
    assert!(put.url.ends_with(".ics"));
    let uid = &put.url["https://cloud.example.com/cal/".len()..put.url.len() - 4];
    assert_eq!(uid.len(), 32);
    assert!(put.body.contains(&format!("UID:{uid}\r\n")));
}

#[test]
fn each_href_refusal_has_its_reason() {
    assert_eq!(validate_server_href("/x", "not a url"), Err(BASE_INVALID.to_string()));
    assert_eq!(validate_server_href("http://[bad", "https://safe.example.com"), Err(HREF_INVALID.to_string()));
    assert_eq!(
        validate_server_href("ftp://safe.example.com/x", "https://safe.example.com"),
        Err(SCHEME_UNSUPPORTED.to_string())
    );
    assert_eq!(
        validate_server_href("http://safe.example.com/x", "https://safe.example.com"),
        Err(SCHEME_CHANGED.to_string())
    );
    assert_eq!(
        validate_server_href("https://other.example.com/x", "https://safe.example.com"),
        Err(HOST_CHANGED.to_string())
    );
    let base = UrlParts {
        scheme: "https".to_string(),
        host: Some("a.example".to_string()),
        port: Some(443),
        text: "https://a.example/".to_string(),
    };
    let same = UrlParts { text: "https://a.example/cal/".to_string(), ..base.clone() };
    assert_eq!(judge_resolved_href(&base, &same), Ok("https://a.example/cal/".to_string()));
    let other_port = UrlParts { port: Some(8443), ..same.clone() };
    assert_eq!(judge_resolved_href(&base, &other_port), Err(HOST_CHANGED.to_string()));
}
