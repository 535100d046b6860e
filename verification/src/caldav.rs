//! The CalDAV data model and the rules the client follows before and after
//! talking to a server: which server URLs may be used, where the calendar
//! home lives, and how responses are judged.

use vstd::prelude::*;
use crate::text::{
    after_last_char, after_last_char_exec, before_char, before_char_exec, chars_are, chars_of, contains, ends_with, has_prefix,
    has_substring, has_suffix, replace_char, replace_char_exec, slice_chars, starts_with,
    string_of, push_chars, push_str_chars,
};
use crate::href::{href_check, text_result, validate_server_href};
use crate::text::{decimal, push_decimal};
use crate::time::{
    CivilDate, LocalDateTime, Stamp, add_days, date_valid, days_after, days_before,
    push_two_digits, push_year, stamp_before, stamp_lt, stamp_valid, sub_days, two_digits,
    year_text,
};
use crate::vevent::{build_ical_event, ical_event_text};

verus! {

// ----------------------------------------------------------------------------
// Data model
// ----------------------------------------------------------------------------

/// A calendar collection found on the server.
#[derive(Clone, Debug)]
pub struct Calendar {
    pub href: String,
    /// Shown in the settings application's calendar list.
    pub display_name: String,
    /// The `calendar-color` property, when the server sends one.
    pub color: Option<String>,
}

/// What a calendar is, as text.
pub struct CalendarView {
    pub href: Seq<char>,
    pub display_name: Seq<char>,
    pub color: Option<Seq<char>>,
}

impl View for Calendar {
    type V = CalendarView;

    open spec fn view(&self) -> CalendarView {
        CalendarView {
            href: self.href@,
            display_name: self.display_name@,
            color: self.color.deep_view(),
        }
    }
}

/// One VEVENT of a calendar object resource.
#[derive(Clone, Debug)]
pub struct CalendarEvent {
    /// Stable event UID from the VCALENDAR payload.
    pub uid: String,
    /// Resource href returned by the CalDAV server for this event.
    pub href: String,
    /// Optional entity tag used for safe update/delete requests.
    pub etag: Option<String>,
    pub summary: String,
    /// Start, in UTC.
    pub start: Option<Stamp>,
    /// End, in UTC.
    pub end: Option<Stamp>,
    pub description: Option<String>,
    pub location: Option<String>,
}

/// What an event is, as text and UTC date-times.
pub struct EventView {
    pub uid: Seq<char>,
    pub href: Seq<char>,
    pub etag: Option<Seq<char>>,
    pub summary: Seq<char>,
    pub start: Option<Stamp>,
    pub end: Option<Stamp>,
    pub description: Option<Seq<char>>,
    pub location: Option<Seq<char>>,
}

impl View for CalendarEvent {
    type V = EventView;

    open spec fn view(&self) -> EventView {
        EventView {
            uid: self.uid@,
            href: self.href@,
            etag: self.etag.deep_view(),
            summary: self.summary@,
            start: self.start,
            end: self.end,
            description: self.description.deep_view(),
            location: self.location.deep_view(),
        }
    }
}

impl crate::order::Timed for CalendarEvent {
    open spec fn start_key(&self) -> Option<Stamp> {
        self.start
    }

    fn start_time(&self) -> (r: Option<Stamp>) {
        self.start
    }
}

/// The views of a list of events.
pub open spec fn event_views(v: Seq<CalendarEvent>) -> Seq<EventView> {
    v.map_values(|e: CalendarEvent| e@)
}

/// The views of a list of calendars.
pub open spec fn calendar_views(v: Seq<Calendar>) -> Seq<CalendarView> {
    v.map_values(|c: Calendar| c@)
}

// ----------------------------------------------------------------------------
// HTTPS enforcement
// ----------------------------------------------------------------------------

/// Why a plain-HTTP server URL is refused.
pub const HTTPS_REQUIRED: &'static str =
    "CalDAV URL must use HTTPS to protect your credentials. Please change http:// to https://";

/// The host of a `host[:port]` authority; a bracketed IPv6 literal keeps the
/// colons inside its brackets.
pub open spec fn authority_host(host_port: Seq<char>) -> Seq<char> {
    let inner = before_char(host_port, ']');
    if host_port.len() > 0 && host_port[0] == '[' && inner.len() < host_port.len() {
        inner.push(']') + before_char(host_port.skip(inner.len() + 1 as int), ':')
    } else {
        before_char(host_port, ':')
    }
}

/// A loopback host name.
pub open spec fn is_loopback_host(host: Seq<char>) -> bool {
    host == "localhost"@ || host == "127.0.0.1"@ || host == "[::1]"@
}

/// The `host[:port]` part of an authority: what follows its last `@`, so
/// that a `userinfo@` prefix is not taken for the host.
pub open spec fn authority_host_port(authority: Seq<char>) -> Seq<char> {
    after_last_char(authority, '@')
}

/// A server URL the client may send credentials to: any `https://` URL, or an
/// `http://` URL whose host is a loopback address.
pub open spec fn https_allowed(url: Seq<char>) -> bool {
    ||| starts_with(url, "https://"@)
    ||| starts_with(url, "http://"@) && is_loopback_host(
        authority_host(authority_host_port(before_char(url.skip(7), '/'))),
    )
}

/// The host of a `host[:port]` authority.
fn authority_host_exec(host_port: &[char]) -> (r: Vec<char>)
    ensures
        r@ == authority_host(host_port@),
{
    let inner = before_char_exec(host_port, ']');
    if host_port.len() > 0 && host_port[0] == '[' && inner.len() < host_port.len() {
        let mut r = inner;
        r.push(']');
        let rest = slice_chars(host_port, r.len(), host_port.len());
        assert(rest@ =~= host_port@.skip(r@.len() as int));
        let tail = before_char_exec(rest.as_slice(), ':');
        push_chars(&mut r, tail.as_slice());
        r
    } else {
        before_char_exec(host_port, ':')
    }
}

/// Enforces that the configured CalDAV server URL uses HTTPS;
/// `http://localhost` and loopback addresses are permitted for local
/// development.
pub fn enforce_https(url: &str) -> (r: Result<(), String>)
    ensures
        r is Ok <==> https_allowed(url@),
        r matches Err(e) ==> e@ == HTTPS_REQUIRED@,
{
    let v = chars_of(url);
    if has_prefix(v.as_slice(), "https://") {
        return Ok(());
    }
    if has_prefix(v.as_slice(), "http://") {
        proof {
            reveal_strlit("http://");
        }
        let after_scheme = slice_chars(v.as_slice(), 7, v.len());
        assert(after_scheme@ =~= url@.skip(7));
        let authority = before_char_exec(after_scheme.as_slice(), '/');
        let host_port = after_last_char_exec(authority.as_slice(), '@');
        let host = authority_host_exec(host_port.as_slice());
        if chars_are(host.as_slice(), "localhost") || chars_are(host.as_slice(), "127.0.0.1")
            || chars_are(host.as_slice(), "[::1]") {
            return Ok(());
        }
    }
    Err(HTTPS_REQUIRED.to_owned())
}

// ----------------------------------------------------------------------------
// The client configuration
// ----------------------------------------------------------------------------

/// `s` without its trailing `c`s.
pub open spec fn trim_end_char(s: Seq<char>, c: char) -> Seq<char>
    decreases s.len(),
{
    if s.len() > 0 && s.last() == c {
        trim_end_char(s.drop_last(), c)
    } else {
        s
    }
}

fn trim_end_char_exec(s: &[char], c: char) -> (r: Vec<char>)
    ensures
        r@ == trim_end_char(s@, c),
{
    let mut end = s.len();
    assert(s@.subrange(0, end as int) =~= s@);
    while end > 0 && s[end - 1] == c
        invariant
            end <= s@.len(),
            trim_end_char(s@, c) == trim_end_char(s@.subrange(0, end as int), c),
        decreases end,
    {
        assert(s@.subrange(0, end as int).drop_last() =~= s@.subrange(0, end - 1));
        end -= 1;
    }
    slice_chars(s, 0, end)
}

/// The account a client talks to the server for.
#[derive(Clone)]
pub struct CalDavClient {
    base_url: String,
    username: String,
    password: String,
}

/// Where the calendar home of an account lives: Google, Outlook and URLs that
/// already name a DAV path are used as they are (with one trailing `/`);
/// anything else is taken to be a Nextcloud server, whose calendar home is
/// under `remote.php/dav/calendars/` followed by the user name with each `/`
/// encoded as `%2F`.
pub open spec fn calendar_home(base: Seq<char>, username: Seq<char>) -> Seq<char> {
    if contains(base, "google.com/calendar"@) || contains(base, "outlook.office365.com"@)
        || contains(base, "/remote.php/dav/"@) || contains(base, "/dav/"@) {
        trim_end_char(base, '/') + "/"@
    } else {
        base + "/remote.php/dav/calendars/"@ + replace_char(username, '/', "%2F"@) + "/"@
    }
}

impl CalDavClient {
    /// The configured server URL, without trailing slashes.
    pub closed spec fn base(&self) -> Seq<char> {
        self.base_url@
    }

    /// The account's user name.
    pub closed spec fn user(&self) -> Seq<char> {
        self.username@
    }

    /// The account's password.
    pub closed spec fn secret(&self) -> Seq<char> {
        self.password@
    }

    /// A client for the server at `base_url` (trailing slashes removed).
    pub fn new(base_url: String, username: String, password: String) -> (r: Self)
        ensures
            r.base() == trim_end_char(base_url@, '/'),
            r.user() == username@,
            r.secret() == password@,
    {
        let v = chars_of(base_url.as_str());
        let trimmed = trim_end_char_exec(v.as_slice(), '/');
        CalDavClient { base_url: string_of(trimmed.as_slice()), username, password }
    }

    /// The configured server URL.
    pub fn base_url(&self) -> (r: &str)
        ensures
            r@ == self.base(),
    {
        self.base_url.as_str()
    }

    /// The account's user name.
    pub fn username(&self) -> (r: &str)
        ensures
            r@ == self.user(),
    {
        self.username.as_str()
    }

    /// The account's password.
    pub fn password(&self) -> (r: &str)
        ensures
            r@ == self.secret(),
    {
        self.password.as_str()
    }

    /// The URL of the account's calendar home.
    pub fn caldav_url(&self) -> (r: String)
        ensures
            r@ == calendar_home(self.base(), self.user()),
    {
        let base = chars_of(self.base_url.as_str());
        let dav = has_substring(base.as_slice(), "google.com/calendar")
            || has_substring(base.as_slice(), "outlook.office365.com")
            || has_substring(base.as_slice(), "/remote.php/dav/")
            || has_substring(base.as_slice(), "/dav/");
        let mut out: Vec<char>;
        if dav {
            out = trim_end_char_exec(base.as_slice(), '/');
            out.push('/');
            proof {
                reveal_strlit("/");
            }
        } else {
            out = Vec::new();
            push_chars(&mut out, base.as_slice());
            push_str_chars(&mut out, "/remote.php/dav/calendars/");
            let user = chars_of(self.username.as_str());
            let encoded = replace_char_exec(user.as_slice(), '/', "%2F");
            push_chars(&mut out, encoded.as_slice());
            push_str_chars(&mut out, "/");
        }
        assert(out@ =~= calendar_home(self.base(), self.user()));
        string_of(out.as_slice())
    }
}

// ----------------------------------------------------------------------------
// Requests
// ----------------------------------------------------------------------------

/// Why an event with a non-positive duration is refused.
pub const END_NOT_AFTER_START: &'static str = "End date/time must be after start date/time";

/// The URL a PROPFIND on the calendar home goes to (connection test and
/// calendar listing): refused unless the server URL may carry credentials.
pub fn calendar_home_request(client: &CalDavClient) -> (r: Result<String, String>)
    ensures
        r is Ok <==> https_allowed(client.base()),
        r matches Ok(u) ==> u@ == calendar_home(client.base(), client.user()),
        r matches Err(e) ==> e@ == HTTPS_REQUIRED@,
{
    enforce_https(client.base_url())?;
    Ok(client.caldav_url())
}

/// The URL the calendar-query REPORT for a calendar goes to.
pub fn events_request(client: &CalDavClient, calendar_href: &str) -> (r: Result<String, String>)
    ensures
        !https_allowed(client.base()) ==> (r matches Err(e) && e@ == HTTPS_REQUIRED@),
        https_allowed(client.base()) ==> text_result(r) == href_check(calendar_href@, client.base()),
{
    enforce_https(client.base_url())?;
    validate_server_href(calendar_href, client.base_url())
}

/// A PUT of a calendar object: where it goes, its body, and the entity tag
/// it must still match (for updates).
pub struct PutRequest {
    pub url: String,
    pub body: String,
    pub if_match: Option<String>,
}

/// The entity tag sent as `If-Match`: only a non-empty one.
pub open spec fn if_match_of(etag: Option<Seq<char>>) -> Option<Seq<char>> {
    match etag {
        Some(e) => if e.len() > 0 { Some(e) } else { None },
        None => None,
    }
}

fn if_match_header(etag: Option<&str>) -> (r: Option<String>)
    ensures
        r.deep_view() == if_match_of(crate::vevent::opt_text(etag)),
{
    match etag {
        Some(e) => if !e.is_empty() { Some(e.to_owned()) } else { None },
        None => None,
    }
}

/// Where a new event is stored: its uid with `.ics`, inside the calendar
/// collection (trailing slashes of the collection's URL removed).
pub open spec fn new_event_url(collection: Seq<char>, uid: Seq<char>) -> Seq<char> {
    trim_end_char(collection, '/') + "/"@ + uid + ".ics"@
}

/// What creating an event sends, or why it is refused: plain HTTP to a
/// non-loopback server, an end not after the start, or a calendar href that
/// leaves the server. Checks come in that order.
pub open spec fn create_plan(
    client: CalDavClient,
    calendar_href: Seq<char>,
    uid: Seq<char>,
    body: Seq<char>,
    start: LocalDateTime,
    end: LocalDateTime,
) -> Result<(Seq<char>, Seq<char>), Seq<char>> {
    if !https_allowed(client.base()) {
        Err(HTTPS_REQUIRED@)
    } else if !stamp_lt(start.utc, end.utc) {
        Err(END_NOT_AFTER_START@)
    } else {
        match href_check(calendar_href, client.base()) {
            Err(e) => Err(e),
            Ok(collection) => Ok((new_event_url(collection, uid), body)),
        }
    }
}

/// Prepares the PUT that creates an event with the given uid.
pub fn create_event_request(
    client: &CalDavClient,
    calendar_href: &str,
    uid: &str,
    summary: &str,
    start: &LocalDateTime,
    end: &LocalDateTime,
    location: &str,
    description: &str,
    reminder_mins: i32,
) -> (r: Result<PutRequest, String>)
    requires
        stamp_valid(start.local),
        stamp_valid(end.local),
    ensures
        match r {
            Ok(p) => p.if_match is None && create_plan(
                *client,
                calendar_href@,
                uid@,
                ical_event_text(uid@, summary@, start.local, end.local, location@, description@, reminder_mins),
                *start,
                *end,
            ) == Ok::<(Seq<char>, Seq<char>), Seq<char>>((p.url@, p.body@)),
            Err(e) => create_plan(
                *client,
                calendar_href@,
                uid@,
                ical_event_text(uid@, summary@, start.local, end.local, location@, description@, reminder_mins),
                *start,
                *end,
            ) == Err::<(Seq<char>, Seq<char>), Seq<char>>(e@),
        },
{
    enforce_https(client.base_url())?;
    if !stamp_before(&start.utc, &end.utc) {
        return Err(END_NOT_AFTER_START.to_owned());
    }
    let body = build_ical_event(uid, summary, start, end, location, description, reminder_mins);
    let collection = validate_server_href(calendar_href, client.base_url())?;
    let cv = chars_of(collection.as_str());
    let mut url = trim_end_char_exec(cv.as_slice(), '/');
    url.push('/');
    push_str_chars(&mut url, uid);
    push_str_chars(&mut url, ".ics");
    proof {
        reveal_strlit("/");
    }
    assert(url@ =~= new_event_url(collection@, uid@));
    Ok(PutRequest { url: string_of(url.as_slice()), body, if_match: None })
}

/// Prepares the PUT that creates an event under a fresh UID (see
/// [`generate_uid`]): [`create_event_request`] with that UID.
pub fn new_event_request(
    client: &CalDavClient,
    calendar_href: &str,
    summary: &str,
    start: &LocalDateTime,
    end: &LocalDateTime,
    location: &str,
    description: &str,
    reminder_mins: i32,
) -> (r: Result<PutRequest, String>)
    requires
        stamp_valid(start.local),
        stamp_valid(end.local),
    ensures
        exists|uid: Seq<char>|
            #![trigger ical_event_text(uid, summary@, start.local, end.local, location@, description@, reminder_mins)]
            is_v4_simple_uuid(uid) && match r {
                Ok(p) => p.if_match is None && create_plan(
                    *client,
                    calendar_href@,
                    uid,
                    ical_event_text(uid, summary@, start.local, end.local, location@, description@, reminder_mins),
                    *start,
                    *end,
                ) == Ok::<(Seq<char>, Seq<char>), Seq<char>>((p.url@, p.body@)),
                Err(e) => create_plan(
                    *client,
                    calendar_href@,
                    uid,
                    ical_event_text(uid, summary@, start.local, end.local, location@, description@, reminder_mins),
                    *start,
                    *end,
                ) == Err::<(Seq<char>, Seq<char>), Seq<char>>(e@),
            },
{
    let uid = generate_uid();
    let r = create_event_request(client, calendar_href, uid.as_str(), summary, start, end, location, description, reminder_mins);
    assert(ical_event_text(uid@, summary@, start.local, end.local, location@, description@, reminder_mins)
        == ical_event_text(uid@, summary@, start.local, end.local, location@, description@, reminder_mins));
    r
}

/// What updating an event sends, or why it is refused: plain HTTP to a
/// non-loopback server, an end not after the start, or an event href that
/// leaves the server. Checks come in that order.
pub open spec fn update_plan(
    client: CalDavClient,
    event_href: Seq<char>,
    body: Seq<char>,
    start: LocalDateTime,
    end: LocalDateTime,
) -> Result<(Seq<char>, Seq<char>), Seq<char>> {
    if !https_allowed(client.base()) {
        Err(HTTPS_REQUIRED@)
    } else if !stamp_lt(start.utc, end.utc) {
        Err(END_NOT_AFTER_START@)
    } else {
        match href_check(event_href, client.base()) {
            Err(e) => Err(e),
            Ok(url) => Ok((url, body)),
        }
    }
}

/// Prepares the PUT that replaces an existing event, guarded by its entity
/// tag when it has a non-empty one.
pub fn update_event_request(
    client: &CalDavClient,
    event_href: &str,
    etag: Option<&str>,
    uid: &str,
    summary: &str,
    start: &LocalDateTime,
    end: &LocalDateTime,
    location: &str,
    description: &str,
    reminder_mins: i32,
) -> (r: Result<PutRequest, String>)
    requires
        stamp_valid(start.local),
        stamp_valid(end.local),
    ensures
        match r {
            Ok(p) => p.if_match.deep_view() == if_match_of(crate::vevent::opt_text(etag))
                && update_plan(
                *client,
                event_href@,
                ical_event_text(uid@, summary@, start.local, end.local, location@, description@, reminder_mins),
                *start,
                *end,
            ) == Ok::<(Seq<char>, Seq<char>), Seq<char>>((p.url@, p.body@)),
            Err(e) => update_plan(
                *client,
                event_href@,
                ical_event_text(uid@, summary@, start.local, end.local, location@, description@, reminder_mins),
                *start,
                *end,
            ) == Err::<(Seq<char>, Seq<char>), Seq<char>>(e@),
        },
{
    enforce_https(client.base_url())?;
    if !stamp_before(&start.utc, &end.utc) {
        return Err(END_NOT_AFTER_START.to_owned());
    }
    let url = validate_server_href(event_href, client.base_url())?;
    let body = build_ical_event(uid, summary, start, end, location, description, reminder_mins);
    Ok(PutRequest { url, body, if_match: if_match_header(etag) })
}

/// A DELETE of an event: where it goes and the entity tag it must match.
pub struct DeleteRequest {
    pub url: String,
    pub if_match: Option<String>,
}

/// Prepares the DELETE of an event, guarded by its entity tag when it has a
/// non-empty one.
pub fn delete_event_request(client: &CalDavClient, event_href: &str, etag: Option<&str>) -> (r: Result<DeleteRequest, String>)
    ensures
        !https_allowed(client.base()) ==> (r matches Err(e) && e@ == HTTPS_REQUIRED@),
        https_allowed(client.base()) ==> match r {
            Ok(d) => href_check(event_href@, client.base()) == Ok::<Seq<char>, Seq<char>>(d.url@)
                && d.if_match.deep_view() == if_match_of(crate::vevent::opt_text(etag)),
            Err(e) => href_check(event_href@, client.base()) == Err::<Seq<char>, Seq<char>>(e@),
        },
{
    enforce_https(client.base_url())?;
    let url = validate_server_href(event_href, client.base_url())?;
    Ok(DeleteRequest { url, if_match: if_match_header(etag) })
}

// ----------------------------------------------------------------------------
// Responses
// ----------------------------------------------------------------------------

/// An HTTP status of the 2xx class.
pub open spec fn is_success(status: u16) -> bool {
    200 <= status <= 299
}

/// How the connection test reads the response status: success (or 207
/// Multi-Status) is a working connection, 401 a failed login, anything else
/// is reported with its number.
pub open spec fn connection_verdict(status: u16) -> Result<(), Seq<char>> {
    if is_success(status) || status == 207 {
        Ok(())
    } else if status == 401 {
        Err("Authentication failed. Check your username and password."@)
    } else {
        Err("Server returned HTTP "@ + decimal(status as nat))
    }
}

/// The text view of a unit result.
pub open spec fn unit_result(r: Result<(), String>) -> Result<(), Seq<char>> {
    match r {
        Ok(()) => Ok(()),
        Err(e) => Err(e@),
    }
}

/// Judges the status of the connection test's PROPFIND.
pub fn connection_test_outcome(status: u16) -> (r: Result<(), String>)
    ensures
        unit_result(r) == connection_verdict(status),
{
    if (200 <= status && status <= 299) || status == 207 {
        Ok(())
    } else if status == 401 {
        Err("Authentication failed. Check your username and password.".to_owned())
    } else {
        let mut v: Vec<char> = Vec::new();
        push_str_chars(&mut v, "Server returned HTTP ");
        push_decimal(&mut v, status as u64);
        Err(string_of(v.as_slice()))
    }
}

/// How a PUT or DELETE reads the response status.
pub open spec fn mutation_verdict(status: u16) -> Result<(), Seq<char>> {
    if is_success(status) {
        Ok(())
    } else {
        Err("Server error: HTTP "@ + decimal(status as nat))
    }
}

/// Judges the status of an event PUT or DELETE.
pub fn mutation_outcome(status: u16) -> (r: Result<(), String>)
    ensures
        unit_result(r) == mutation_verdict(status),
{
    if 200 <= status && status <= 299 {
        Ok(())
    } else {
        let mut v: Vec<char> = Vec::new();
        push_str_chars(&mut v, "Server error: HTTP ");
        push_decimal(&mut v, status as u64);
        Err(string_of(v.as_slice()))
    }
}

// ----------------------------------------------------------------------------
// Request bodies
// ----------------------------------------------------------------------------

/// The PROPFIND body of the connection test.
pub const CONNECTION_TEST_BODY: &'static str =
    "<?xml version=\"1.0\"?><d:propfind xmlns:d=\"DAV:\"><d:prop><d:displayname/></d:prop></d:propfind>";

/// The PROPFIND body that lists calendars with their names and colours.
pub const CALENDARS_BODY: &'static str = "<?xml version=\"1.0\"?>
<d:propfind xmlns:d=\"DAV:\" xmlns:cs=\"http://calendarserver.org/ns/\" xmlns:c=\"urn:ietf:params:xml:ns:caldav\" xmlns:a=\"http://apple.com/ns/ical/\">
  <d:prop>
    <d:displayname/>
    <a:calendar-color/>
    <c:supported-calendar-component-set/>
  </d:prop>
</d:propfind>";

/// `%Y%m%d`.
pub open spec fn date_digits(d: CivilDate) -> Seq<char> {
    year_text(d.year as int) + two_digits(d.month as nat) + two_digits(d.day as nat)
}

/// The calendar-query REPORT body asking for the events of a time range: from
/// the start of `first` to the last second of `last`, in UTC.
pub open spec fn calendar_query_text(first: CivilDate, last: CivilDate) -> Seq<char> {
    "<?xml version=\"1.0\"?>
<c:calendar-query xmlns:d=\"DAV:\" xmlns:c=\"urn:ietf:params:xml:ns:caldav\">
  <d:prop>
    <d:getetag/>
    <c:calendar-data/>
  </d:prop>
  <c:filter>
    <c:comp-filter name=\"VCALENDAR\">
      <c:comp-filter name=\"VEVENT\">
        <c:time-range start=\""@ + date_digits(first) + "T000000Z\" end=\""@ + date_digits(last)
        + "T235959Z\"/>
      </c:comp-filter>
    </c:comp-filter>
  </c:filter>
</c:calendar-query>"@
}

fn push_date_digits(out: &mut Vec<char>, d: &CivilDate)
    requires
        date_valid(*d),
    ensures
        final(out)@ == old(out)@ + date_digits(*d),
{
    push_year(out, d.year);
    push_two_digits(out, d.month);
    push_two_digits(out, d.day);
    assert(out@ =~= old(out)@ + date_digits(*d));
}

/// The calendar-query REPORT body for the events from 30 days before to 365
/// days after `today` (a UTC date); `None` when either end leaves the
/// supported range, where chrono's date arithmetic would abort.
pub fn events_query_body(today: &CivilDate) -> (r: Option<String>)
    requires
        date_valid(*today),
    ensures
        match (days_before(*today, 30), days_after(*today, 365)) {
            (Some(first), Some(last)) => r matches Some(b) && b@ == calendar_query_text(first, last),
            _ => r is None,
        },
{
    let first = match sub_days(*today, 30) {
        Some(x) => x,
        None => return None,
    };
    let last = match add_days(*today, 365) {
        Some(x) => x,
        None => return None,
    };
    let mut out: Vec<char> = Vec::new();
    push_str_chars(&mut out, "<?xml version=\"1.0\"?>
<c:calendar-query xmlns:d=\"DAV:\" xmlns:c=\"urn:ietf:params:xml:ns:caldav\">
  <d:prop>
    <d:getetag/>
    <c:calendar-data/>
  </d:prop>
  <c:filter>
    <c:comp-filter name=\"VCALENDAR\">
      <c:comp-filter name=\"VEVENT\">
        <c:time-range start=\"");
    push_date_digits(&mut out, &first);
    push_str_chars(&mut out, "T000000Z\" end=\"");
    push_date_digits(&mut out, &last);
    push_str_chars(&mut out, "T235959Z\"/>
      </c:comp-filter>
    </c:comp-filter>
  </c:filter>
</c:calendar-query>");
    assert(out@ =~= calendar_query_text(first, last));
    Some(string_of(out.as_slice()))
}

// ----------------------------------------------------------------------------
// Response bodies
// ----------------------------------------------------------------------------

/// The largest response body the client reads (10 MiB).
pub const MAX_BODY_BYTES: usize = 10485760;

/// Why an oversized response is refused.
pub const BODY_TOO_LARGE: &'static str = "Server response too large (> 10 MiB)";

/// Why a response that is not UTF-8 is refused.
pub const BODY_NOT_UTF8: &'static str = "Server response is not valid UTF-8.";

/// Whether a declared `Content-Length` already exceeds the limit.
pub fn declared_length_too_large(content_length: Option<u64>) -> (r: bool)
    ensures
        r == (content_length matches Some(n) && n > MAX_BODY_BYTES),
{
    match content_length {
        Some(n) => n > MAX_BODY_BYTES as u64,
        None => false,
    }
}

/// `String::from_utf8`: the text the bytes encode, when they are valid UTF-8.
#[verifier::external_body]
fn utf8_text(bytes: Vec<u8>) -> (r: Option<String>)
    ensures
        r is Some <==> vstd::utf8::valid_utf8(bytes@),
        r matches Some(s) ==> s@ == vstd::utf8::decode_utf8(bytes@),
{
    String::from_utf8(bytes).ok()
}

/// A response body read chunk by chunk, never holding more than the limit.
pub struct BodyBuffer {
    bytes: Vec<u8>,
}

impl BodyBuffer {
    /// The bytes received so far.
    pub closed spec fn received(&self) -> Seq<u8> {
        self.bytes@
    }

    /// An empty body.
    pub fn new() -> (r: Self)
        ensures
            r.received() == Seq::<u8>::empty(),
    {
        BodyBuffer { bytes: Vec::new() }
    }

    /// Adds a chunk; fails once the body exceeds the limit.
    pub fn push_chunk(&mut self, chunk: &[u8]) -> (r: Result<(), String>)
        ensures
            final(self).received() == old(self).received() + chunk@,
            r is Ok <==> final(self).received().len() <= MAX_BODY_BYTES,
            r matches Err(e) ==> e@ == BODY_TOO_LARGE@,
    {
        let mut i: usize = 0;
        while i < chunk.len()
            invariant
                i <= chunk@.len(),
                self.bytes@ == old(self).bytes@ + chunk@.take(i as int),
            decreases chunk@.len() - i,
        {
            self.bytes.push(chunk[i]);
            i += 1;
            assert(self.bytes@ =~= old(self).bytes@ + chunk@.take(i as int));
        }
        assert(chunk@.take(chunk@.len() as int) =~= chunk@);
        if self.bytes.len() > MAX_BODY_BYTES {
            return Err(BODY_TOO_LARGE.to_owned());
        }
        Ok(())
    }

    /// The body as text.
    pub fn into_text(self) -> (r: Result<String, String>)
        ensures
            r is Ok <==> vstd::utf8::valid_utf8(self.received()),
            r matches Ok(s) ==> s@ == vstd::utf8::decode_utf8(self.received()),
            r matches Err(e) ==> e@ == BODY_NOT_UTF8@,
    {
        match utf8_text(self.bytes) {
            Some(s) => Ok(s),
            None => Err(BODY_NOT_UTF8.to_owned()),
        }
    }
}

/// A lower-case hexadecimal digit.
pub open spec fn is_lower_hex(c: char) -> bool {
    ('0' <= c && c <= '9') || ('a' <= c && c <= 'f')
}

/// The simple form of a version 4 UUID: 32 lower-case hexadecimal digits,
/// the thirteenth `4` and the seventeenth one of `8`, `9`, `a`, `b`.
pub open spec fn is_v4_simple_uuid(s: Seq<char>) -> bool {
    &&& s.len() == 32
    &&& forall|i: int| 0 <= i < 32 ==> is_lower_hex(#[trigger] s[i])
    &&& s[12] == '4'
    &&& (s[16] == '8' || s[16] == '9' || s[16] == 'a' || s[16] == 'b')
}

/// A fresh event UID: a random (version 4) UUID in its simple form, 32
/// lower-case hexadecimal digits. `Uuid::new_v4` masks the random bits so
/// that the version digit (the thirteenth) is `4` and the variant digit (the
/// seventeenth) is one of `8`, `9`, `a`, `b`; the other digits are random
/// and nothing more is stated of them.
#[verifier::external_body]
pub fn generate_uid() -> (r: String)
    ensures
        is_v4_simple_uuid(r@),
{
    uuid::Uuid::new_v4().simple().to_string()
}

} // verus!
