use cosmic_caldav::xml::{parse_calendars, parse_events, parse_events_checked};

const PROPFIND: &str = r##"<?xml version="1.0"?>
<d:multistatus xmlns:d="DAV:" xmlns:a="http://apple.com/ns/ical/">
  <d:response>
    <d:href>/remote.php/dav/calendars/alice/</d:href>
    <d:propstat><d:prop><d:displayname>alice</d:displayname></d:prop></d:propstat>
  </d:response>
  <d:response>
    <d:href>/remote.php/dav/calendars/alice/personal/</d:href>
    <d:propstat><d:prop>
      <d:displayname>Personal &amp; Work</d:displayname>
      <a:calendar-color>#FF0000</a:calendar-color>
    </d:prop></d:propstat>
  </d:response>
  <d:response>
    <d:href>/remote.php/dav/calendars/alice/inbox</d:href>
    <d:propstat><d:prop><d:displayname>Inbox</d:displayname></d:prop></d:propstat>
  </d:response>
  <d:response>
    <d:href>/remote.php/dav/calendars/alice/unnamed/</d:href>
  </d:response>
</d:multistatus>"##;

#[test]
fn calendars_are_collections_with_a_name() {
    let calendars = parse_calendars(PROPFIND).unwrap();
    assert_eq!(calendars.len(), 2);
    assert_eq!(calendars[0].href, "/remote.php/dav/calendars/alice/");
    assert_eq!(calendars[0].display_name, "alice");
    assert_eq!(calendars[0].color, None);
    assert_eq!(calendars[1].href, "/remote.php/dav/calendars/alice/personal/");
    assert_eq!(calendars[1].display_name, "Personal & Work");
    assert_eq!(calendars[1].color.as_deref(), Some("#FF0000"));
}

#[test]
fn malformed_xml_is_reported() {
    let r = parse_calendars("<d:multistatus><d:response></d:multistatus>");
    assert!(r.is_err());
}

const REPORT: &str = r##"<?xml version="1.0"?>
<d:multistatus xmlns:d="DAV:" xmlns:c="urn:ietf:params:xml:ns:caldav">
  <d:response>
    <d:href>/cal/one.ics</d:href>
    <d:propstat><d:prop>
      <d:getetag>"111"</d:getetag>
      <c:calendar-data>BEGIN:VCALENDAR
BEGIN:VEVENT
UID:one
SUMMARY:First
DTSTART:20260115T090000Z
DTEND:20260115T100000Z
END:VEVENT
END:VCALENDAR
</c:calendar-data>
    </d:prop></d:propstat>
  </d:response>
  <d:response>
    <d:href>/cal/two.ics</d:href>
    <d:propstat><d:prop>
      <d:getetag>"222"</d:getetag>
      <c:calendar-data><![CDATA[BEGIN:VCALENDAR
BEGIN:VEVENT
UID:two
SUMMARY:Second
END:VEVENT
END:VCALENDAR
]]></c:calendar-data>
    </d:prop></d:propstat>
  </d:response>
</d:multistatus>"##;

#[test]
fn events_carry_their_href_and_entity_tag() {
    let events = parse_events(REPORT).unwrap();
    assert_eq!(events.len(), 2);
    assert_eq!(events[0].uid, "one");
    assert_eq!(events[0].href, "/cal/one.ics");
    assert_eq!(events[0].etag.as_deref(), Some("\"111\""));
    assert!(events[0].start.is_some());
    assert_eq!(events[1].uid, "two");
    assert_eq!(events[1].summary, "Second");
    assert_eq!(events[1].href, "/cal/two.ics");
    assert_eq!(events[1].etag.as_deref(), Some("\"222\""));
    assert_eq!(events[1].start, None);
}

#[test]
fn a_date_value_cut_inside_a_character_is_reported_as_unreadable() {
    let xml = "<d:multistatus xmlns:d=\"DAV:\" xmlns:c=\"urn:ietf:params:xml:ns:caldav\"><d:response><d:href>/x.ics</d:href><c:calendar-data>BEGIN:VEVENT\nUID:x\nDTSTART:20260115T09000é0\nEND:VEVENT\n</c:calendar-data></d:response></d:multistatus>";
    assert!(parse_events_checked(xml).is_none());
    assert!(parse_events_checked(REPORT).is_some());
}
