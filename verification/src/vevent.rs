//! Reading the VEVENTs of a calendar object, including its DTSTART/DTEND
//! date-time values.

use vstd::prelude::*;
use crate::caldav::{CalendarEvent, EventView, event_views};
use crate::ical::{
    char_rows, escape_ical_text, escaped, unescape_chars, unescaped, unfold_ical_chars,
    unfolded_lines,
};
use crate::text::{
    after_last_char, after_last_char_exec, before_char, before_char_exec, chars_are, chars_of, decimal, has_prefix,
    push_decimal, push_str_chars, slice_chars, starts_with, string_of, trim_ws, trim_ws_exec,
};
use crate::time::{
    CivilDate, LocalDateTime, Stamp, ZoneConversion, compact_date, compact_datetime,
    compact_text, convert_in_zone, midnight, parse_compact_date, parse_compact_datetime,
    push_compact, stamp_valid, zone_conversion,
};

verus! {

// ----------------------------------------------------------------------------
// UTF-8 lengths (date values are measured and cut in bytes)
// ----------------------------------------------------------------------------

/// The number of bytes UTF-8 uses for `c`.
pub open spec fn utf8_width(c: char) -> nat {
    if (c as u32) < 0x80 {
        1
    } else if (c as u32) < 0x800 {
        2
    } else if (c as u32) < 0x10000 {
        3
    } else {
        4
    }
}

/// The UTF-8 length of `s` in bytes.
pub open spec fn utf8_len(s: Seq<char>) -> nat
    decreases s.len(),
{
    if s.len() == 0 {
        0
    } else {
        utf8_width(s[0]) + utf8_len(s.skip(1))
    }
}

/// The number of characters that make up exactly the first `n` bytes of `s`;
/// `None` when byte `n` falls inside a character or beyond the end.
pub open spec fn chars_in_bytes(s: Seq<char>, n: int) -> Option<nat>
    decreases s.len(),
{
    if n == 0 {
        Some(0)
    } else if s.len() == 0 || n < 0 {
        None
    } else if utf8_width(s[0]) > n {
        None
    } else {
        match chars_in_bytes(s.skip(1), n - utf8_width(s[0])) {
            Some(k) => Some(k + 1),
            None => None,
        }
    }
}

/// The UTF-8 width of `c`.
fn utf8_width_exec(c: char) -> (r: usize)
    ensures
        r == utf8_width(c),
{
    if (c as u32) < 0x80 {
        1
    } else if (c as u32) < 0x800 {
        2
    } else if (c as u32) < 0x10000 {
        3
    } else {
        4
    }
}

/// Whether `s` has at least `n` bytes, and how many characters its first `n`
/// bytes are (`None` when byte `n` splits a character).
fn measure_bytes(s: &[char], n: usize) -> (r: (bool, Option<usize>))
    ensures
        r.0 == (utf8_len(s@) >= n),
        r.1 == match chars_in_bytes(s@, n as int) {
            Some(k) => Some(k as usize),
            None => None::<usize>,
        },
{
    let mut i: usize = 0;
    let mut bytes: usize = 0;
    let mut found: Option<usize> = if n == 0 { Some(0) } else { None };
    assert(s@.skip(0) =~= s@);
    while i < s.len() && bytes < n
        invariant
            i <= s@.len(),
            bytes <= n,
            utf8_len(s@) == bytes + utf8_len(s@.skip(i as int)),
            bytes < n ==> chars_in_bytes(s@, n as int) == match chars_in_bytes(s@.skip(i as int), n - bytes) {
                Some(k) => Some((k + i) as nat),
                None => None,
            },
            bytes == n ==> chars_in_bytes(s@, n as int) == Some(i as nat),
            found == if bytes == n { Some(i) } else { None::<usize> },
        decreases s@.len() - i,
    {
        let w = utf8_width_exec(s[i]);
        assert(s@.skip(i as int).skip(1) =~= s@.skip(i + 1));
        if w > n - bytes {
            assert(chars_in_bytes(s@, n as int) == None::<nat>);
            proof {
                lemma_utf8_len_at_least(s@.skip(i as int));
            }
            return (true, None);
        }
        bytes = bytes + w;
        i += 1;
        if bytes == n {
            found = Some(i);
        }
    }
    if bytes < n {
        assert(s@.skip(i as int) =~= Seq::<char>::empty());
        return (false, None);
    }
    proof {
        lemma_utf8_len_at_least(s@.skip(i as int));
    }
    (true, found)
}

proof fn lemma_chars_in_bytes_bound(s: Seq<char>, n: int)
    ensures
        chars_in_bytes(s, n) matches Some(k) ==> k <= s.len(),
    decreases s.len(),
{
    if n != 0 && s.len() > 0 && n >= 0 && utf8_width(s[0]) <= n {
        lemma_chars_in_bytes_bound(s.skip(1), n - utf8_width(s[0]));
    }
}

proof fn lemma_utf8_len_at_least(s: Seq<char>)
    ensures
        s.len() > 0 ==> utf8_len(s) >= utf8_width(s[0]),
{
}

// ----------------------------------------------------------------------------
// DTSTART / DTEND values
// ----------------------------------------------------------------------------

/// What reading a date-time property line gives. The value is cut at its
/// fifteenth byte, as a `str` slice, which aborts the program when that byte
/// falls inside a multi-byte character; such lines are told apart here as
/// `Aborts`.
#[derive(Clone, Copy, Debug, PartialEq, Eq, Structural)]
pub enum DateParse {
    Value(Option<Stamp>),
    Aborts,
}

/// The value of the first `;`-separated parameter of `params` that starts
/// with `TZID=`.
pub open spec fn tzid_param(params: Seq<char>) -> Option<Seq<char>>
    decreases params.len(),
{
    let piece = before_char(params, ';');
    if starts_with(piece, "TZID="@) {
        Some(piece.skip(5))
    } else if piece.len() < params.len() {
        tzid_param(params.skip(piece.len() + 1 as int))
    } else {
        None
    }
}

/// A parsed wall-clock time read in the named zone: the UTC time when the
/// zone knows it, the time itself (as UTC) for an unknown zone, nothing when
/// the time does not occur there.
pub open spec fn in_zone(tz: Option<Seq<char>>, t: Stamp) -> Option<Stamp> {
    match tz {
        Some(name) => match zone_conversion(name, t) {
            ZoneConversion::UnknownZone => Some(t),
            ZoneConversion::NoSuchTime => None,
            ZoneConversion::Utc(u) => Some(u),
        },
        None => Some(t),
    }
}

/// The UTC date-time of a DTSTART/DTEND line: its value is what follows the
/// last `:`, trimmed. A value ending in `Z` of at least 15 bytes is read in
/// its first 15 bytes as a UTC date-time; an 8-byte value is a date at
/// midnight UTC; any other value of at least 15 bytes is read in its first
/// 15 bytes as a wall-clock time in the zone of the line's TZID parameter.
pub open spec fn ical_date(line: Seq<char>) -> DateParse {
    let tzid = tzid_param(before_char(line, ':'));
    let val = trim_ws(after_last_char(line, ':'));
    let bytes = utf8_len(val);
    if val.len() > 0 && val.last() == 'Z' && bytes >= 15 {
        match chars_in_bytes(val, 15) {
            Some(k) => DateParse::Value(compact_datetime(val.take(k as int))),
            None => DateParse::Aborts,
        }
    } else if bytes == 8 {
        DateParse::Value(
            match compact_date(val) {
                Some(d) => Some(midnight(d)),
                None => None,
            },
        )
    } else if bytes >= 15 {
        match chars_in_bytes(val, 15) {
            Some(k) => DateParse::Value(
                match compact_datetime(val.take(k as int)) {
                    Some(t) => in_zone(tzid, t),
                    None => None,
                },
            ),
            None => DateParse::Aborts,
        }
    } else {
        DateParse::Value(None)
    }
}

proof fn lemma_after_last_char_skip(s: Seq<char>, c: char)
    ensures
        exists|k: int| 0 <= k <= s.len() && after_last_char(s, c) == #[trigger] s.skip(k),
    decreases s.len(),
{
    if s.len() == 0 {
        assert(after_last_char(s, c) =~= s.skip(0));
    } else if s.last() == c {
        assert(after_last_char(s, c) =~= s.skip(s.len() as int));
    } else {
        lemma_after_last_char_skip(s.drop_last(), c);
        let k = choose|k: int|
            0 <= k <= s.drop_last().len() && after_last_char(s.drop_last(), c)
                == #[trigger] s.drop_last().skip(k);
        assert(after_last_char(s, c) =~= s.skip(k));
    }
}

/// The TZID parameter of a property's parameter list.
fn tzid_param_exec(params: &[char]) -> (r: Option<Vec<char>>)
    ensures
        match r {
            Some(v) => tzid_param(params@) == Some(v@),
            None => tzid_param(params@) is None,
        },
{
    let mut rest: Vec<char> = slice_chars(params, 0, params.len());
    assert(rest@ =~= params@);
    loop
        invariant
            tzid_param(params@) == tzid_param(rest@),
        decreases rest@.len(),
    {
        let piece = before_char_exec(rest.as_slice(), ';');
        if has_prefix(piece.as_slice(), "TZID=") {
            proof {
                reveal_strlit("TZID=");
            }
            let v = slice_chars(piece.as_slice(), 5, piece.len());
            assert(v@ =~= piece@.skip(5));
            return Some(v);
        }
        if piece.len() < rest.len() {
            let next = slice_chars(rest.as_slice(), piece.len() + 1, rest.len());
            assert(next@ =~= rest@.skip(piece@.len() + 1 as int));
            rest = next;
        } else {
            return None;
        }
    }
}

/// Reads the DTSTART/DTEND value of a content line, telling apart the lines
/// whose value cannot be cut at its fifteenth byte.
pub fn read_ical_date(line: &[char]) -> (r: DateParse)
    ensures
        r == ical_date(line@),
        r matches DateParse::Value(Some(t)) ==> stamp_valid(t),
{
    let head = before_char_exec(line, ':');
    let tzid = tzid_param_exec(head.as_slice());
    let raw = after_last_char_exec(line, ':');
    let val = trim_ws_exec(raw.as_slice());
    let (long, cut) = measure_bytes(val.as_slice(), 15);
    let (at_least_8, cut8) = measure_bytes(val.as_slice(), 8);
    let (over_8, _) = measure_bytes(val.as_slice(), 9);
    let exactly_8 = at_least_8 && !over_8;
    proof {
        lemma_chars_in_bytes_bound(val@, 15);
    }
    if val.len() > 0 && val[val.len() - 1] == 'Z' && long {
        let k = match cut {
            Some(k) => k,
            None => return DateParse::Aborts,
        };
        let prefix = string_of(slice_chars(val.as_slice(), 0, k).as_slice());
        assert(prefix@ =~= val@.take(k as int));
        return DateParse::Value(parse_compact_datetime(prefix.as_str()));
    }
    if exactly_8 {
        let text = string_of(val.as_slice());
        return DateParse::Value(
            match parse_compact_date(text.as_str()) {
                Some(d) => Some(Stamp { date: d, hour: 0, minute: 0, second: 0 }),
                None => None,
            },
        );
    }
    if long {
        let k = match cut {
            Some(k) => k,
            None => return DateParse::Aborts,
        };
        let prefix = string_of(slice_chars(val.as_slice(), 0, k).as_slice());
        assert(prefix@ =~= val@.take(k as int));
        let naive = match parse_compact_datetime(prefix.as_str()) {
            Some(t) => t,
            None => return DateParse::Value(None),
        };
        return DateParse::Value(match tzid {
            Some(name) => {
                let zone = string_of(name.as_slice());
                match convert_in_zone(zone.as_str(), &naive) {
                    ZoneConversion::UnknownZone => Some(naive),
                    ZoneConversion::NoSuchTime => None,
                    ZoneConversion::Utc(u) => Some(u),
                }
            },
            None => Some(naive),
        });
    }
    DateParse::Value(None)
}

/// Reads the DTSTART/DTEND date-time of a content line, as UTC.
pub fn parse_ical_date(line: &[char]) -> (r: Option<Stamp>)
    requires
        ical_date(line@) != DateParse::Aborts,
    ensures
        ical_date(line@) == DateParse::Value(r),
        r matches Some(t) ==> stamp_valid(t),
{
    match read_ical_date(line) {
        DateParse::Value(v) => v,
        DateParse::Aborts => None,
    }
}

// ----------------------------------------------------------------------------
// VEVENT scanning
// ----------------------------------------------------------------------------

/// An event being read: the properties seen so far.
pub struct DraftView {
    pub uid: Seq<char>,
    pub summary: Seq<char>,
    pub dtstart: Option<Stamp>,
    pub dtend: Option<Stamp>,
    pub description: Option<Seq<char>>,
    pub location: Option<Seq<char>>,
}

/// The state of a scan over content lines: the events read so far, the event
/// being read (after a `BEGIN:VEVENT`), and whether a date line aborted.
pub struct IcalScan {
    pub events: Seq<EventView>,
    pub current: Option<DraftView>,
    pub aborted: bool,
}

/// A fresh event after `BEGIN:VEVENT`.
pub open spec fn empty_draft() -> DraftView {
    DraftView {
        uid: Seq::empty(),
        summary: Seq::empty(),
        dtstart: None,
        dtend: None,
        description: None,
        location: None,
    }
}

/// The event a draft gives at `END:VEVENT`: none when it has neither a UID nor
/// a summary.
pub open spec fn finish_draft(d: DraftView, href: Seq<char>, etag: Option<Seq<char>>) -> Option<
    EventView,
> {
    if d.uid.len() == 0 && d.summary.len() == 0 {
        None
    } else {
        Some(
            EventView {
                uid: d.uid,
                href,
                etag,
                summary: d.summary,
                start: d.dtstart,
                end: d.dtend,
                description: d.description,
                location: d.location,
            },
        )
    }
}

/// A property line applied to the event being read.
pub open spec fn draft_step(d: DraftView, line: Seq<char>) -> Option<DraftView> {
    if starts_with(line, "UID:"@) {
        Some(DraftView { uid: line.skip(4), ..d })
    } else if starts_with(line, "SUMMARY:"@) {
        Some(DraftView { summary: unescaped(line.skip(8)), ..d })
    } else if starts_with(line, "DTSTART"@) {
        match ical_date(line) {
            DateParse::Value(v) => Some(DraftView { dtstart: v, ..d }),
            DateParse::Aborts => None,
        }
    } else if starts_with(line, "DTEND"@) {
        match ical_date(line) {
            DateParse::Value(v) => Some(DraftView { dtend: v, ..d }),
            DateParse::Aborts => None,
        }
    } else if starts_with(line, "DESCRIPTION:"@) {
        Some(DraftView { description: Some(unescaped(line.skip(12))), ..d })
    } else if starts_with(line, "LOCATION:"@) {
        Some(DraftView { location: Some(unescaped(line.skip(9))), ..d })
    } else {
        Some(d)
    }
}

/// One content line of the scan.
pub open spec fn scan_step(
    st: IcalScan,
    line: Seq<char>,
    href: Seq<char>,
    etag: Option<Seq<char>>,
) -> IcalScan {
    if st.aborted {
        st
    } else if line == "BEGIN:VEVENT"@ {
        IcalScan { current: Some(empty_draft()), ..st }
    } else if line == "END:VEVENT"@ {
        match st.current {
            Some(d) => match finish_draft(d, href, etag) {
                Some(e) => IcalScan { events: st.events.push(e), current: None, ..st },
                None => IcalScan { current: None, ..st },
            },
            None => st,
        }
    } else {
        match st.current {
            None => st,
            Some(d) => match draft_step(d, line) {
                Some(nd) => IcalScan { current: Some(nd), ..st },
                None => IcalScan { aborted: true, ..st },
            },
        }
    }
}

/// The scan over a sequence of content lines.
pub open spec fn scan_lines(
    lines: Seq<Seq<char>>,
    href: Seq<char>,
    etag: Option<Seq<char>>,
) -> IcalScan
    decreases lines.len(),
{
    if lines.len() == 0 {
        IcalScan { events: Seq::empty(), current: None, aborted: false }
    } else {
        scan_step(scan_lines(lines.drop_last(), href, etag), lines.last(), href, etag)
    }
}

/// The scan over the content lines of an iCalendar text.
pub open spec fn ical_scan(ical: Seq<char>, href: Seq<char>, etag: Option<Seq<char>>) -> IcalScan {
    scan_lines(unfolded_lines(ical), href, etag)
}

/// The text view of an optional string slice.
pub open spec fn opt_text(o: Option<&str>) -> Option<Seq<char>> {
    match o {
        Some(s) => Some(s@),
        None => None,
    }
}

/// An event being read.
struct Draft {
    uid: Vec<char>,
    summary: Vec<char>,
    dtstart: Option<Stamp>,
    dtend: Option<Stamp>,
    description: Option<Vec<char>>,
    location: Option<Vec<char>>,
}

impl Draft {
    spec fn view(&self) -> DraftView {
        DraftView {
            uid: self.uid@,
            summary: self.summary@,
            dtstart: self.dtstart,
            dtend: self.dtend,
            description: match self.description {
                Some(v) => Some(v@),
                None => None,
            },
            location: match self.location {
                Some(v) => Some(v@),
                None => None,
            },
        }
    }
}

fn opt_string(o: &Option<Vec<char>>) -> (r: Option<String>)
    ensures
        r.deep_view() == match *o {
            Some(v) => Some(v@),
            None => None::<Seq<char>>,
        },
{
    match o {
        Some(v) => Some(string_of(v.as_slice())),
        None => None,
    }
}

/// Applies one property line to the draft; `false` (and the draft left
/// unchanged) when the line is a date line that aborts.
fn apply_line(d: &mut Draft, line: &[char]) -> (ok: bool)
    ensures
        ok ==> draft_step(old(d).view(), line@) == Some(final(d).view()),
        !ok <==> draft_step(old(d).view(), line@) is None,
{
    if has_prefix(line, "UID:") {
        proof { reveal_strlit("UID:"); }
        d.uid = slice_chars(line, 4, line.len());
        assert(d.uid@ =~= line@.skip(4));
    } else if has_prefix(line, "SUMMARY:") {
        proof { reveal_strlit("SUMMARY:"); }
        let raw = slice_chars(line, 8, line.len());
        assert(raw@ =~= line@.skip(8));
        d.summary = unescape_chars(raw.as_slice());
    } else if has_prefix(line, "DTSTART") {
        match read_ical_date(line) {
            DateParse::Value(v) => d.dtstart = v,
            DateParse::Aborts => return false,
        }
    } else if has_prefix(line, "DTEND") {
        match read_ical_date(line) {
            DateParse::Value(v) => d.dtend = v,
            DateParse::Aborts => return false,
        }
    } else if has_prefix(line, "DESCRIPTION:") {
        proof { reveal_strlit("DESCRIPTION:"); }
        let raw = slice_chars(line, 12, line.len());
        assert(raw@ =~= line@.skip(12));
        d.description = Some(unescape_chars(raw.as_slice()));
    } else if has_prefix(line, "LOCATION:") {
        proof { reveal_strlit("LOCATION:"); }
        let raw = slice_chars(line, 9, line.len());
        assert(raw@ =~= line@.skip(9));
        d.location = Some(unescape_chars(raw.as_slice()));
    }
    true
}

proof fn lemma_scan_aborted_stays(lines: Seq<Seq<char>>, extra: Seq<Seq<char>>, href: Seq<char>, etag: Option<Seq<char>>)
    requires
        scan_lines(lines, href, etag).aborted,
    ensures
        scan_lines(lines + extra, href, etag) == scan_lines(lines, href, etag),
    decreases extra.len(),
{
    if extra.len() == 0 {
        assert(lines + extra =~= lines);
    } else {
        lemma_scan_aborted_stays(lines, extra.drop_last(), href, etag);
        assert((lines + extra).drop_last() =~= lines + extra.drop_last());
    }
}

/// Whether reading the VEVENTs of `ical` runs into a DTSTART/DTEND value
/// that cannot be cut (see [`DateParse::Aborts`]).
pub open spec fn ical_aborts(ical: Seq<char>, href: Seq<char>, etag: Option<Seq<char>>) -> bool {
    ical_scan(ical, href, etag).aborted
}

/// Reads every VEVENT of an iCalendar text, or `None` when a DTSTART/DTEND
/// line inside an event has a value that cannot be cut (see
/// [`DateParse::Aborts`]).
pub fn scan_ical_events(ical: &str, href: &str, etag: Option<&str>) -> (out: Option<Vec<CalendarEvent>>)
    ensures
        out is None <==> ical_aborts(ical@, href@, opt_text(etag)),
        out matches Some(evs) ==> event_views(evs@) == ical_scan(ical@, href@, opt_text(etag)).events,
{
    let v = chars_of(ical);
    let lines = unfold_ical_chars(v.as_slice());
    let ghost all = char_rows(lines@);
    let ghost h = href@;
    let ghost t = opt_text(etag);
    let mut events: Vec<CalendarEvent> = Vec::new();
    let mut current: Option<Draft> = None;
    let mut i: usize = 0;
    proof {
        assert(all.take(0) =~= Seq::<Seq<char>>::empty());
        assert(event_views(events@) =~= Seq::<EventView>::empty());
    }
    while i < lines.len()
        invariant
            i <= lines@.len(),
            all == char_rows(lines@),
            all == unfolded_lines(ical@),
            h == href@,
            t == opt_text(etag),
            !scan_lines(all.take(i as int), h, t).aborted,
            event_views(events@) == scan_lines(all.take(i as int), h, t).events,
            match current {
                Some(d) => scan_lines(all.take(i as int), h, t).current == Some(d.view()),
                None => scan_lines(all.take(i as int), h, t).current is None,
            },
        decreases lines@.len() - i,
    {
        let line = &lines[i];
        let ghost pre = all.take(i as int);
        proof {
            assert(all.take(i + 1).drop_last() =~= pre);
            assert(all.take(i + 1).last() == line@);
        }
        if chars_are(line.as_slice(), "BEGIN:VEVENT") {
            current = Some(Draft {
                uid: Vec::new(),
                summary: Vec::new(),
                dtstart: None,
                dtend: None,
                description: None,
                location: None,
            });
            proof {
                assert(current.unwrap().view() =~= empty_draft());
            }
        } else if chars_are(line.as_slice(), "END:VEVENT") {
            match current {
                Some(d) => {
                    if d.uid.len() > 0 || d.summary.len() > 0 {
                        let ev = CalendarEvent {
                            uid: string_of(d.uid.as_slice()),
                            href: href.to_owned(),
                            etag: match etag {
                                Some(e) => Some(e.to_owned()),
                                None => None,
                            },
                            summary: string_of(d.summary.as_slice()),
                            start: d.dtstart,
                            end: d.dtend,
                            description: opt_string(&d.description),
                            location: opt_string(&d.location),
                        };
                        events.push(ev);
                        proof {
                            assert(event_views(events@) =~= scan_lines(all.take(i + 1), h, t).events);
                        }
                    }
                    current = None;
                },
                None => {},
            }
        } else {
            match current {
                Some(mut d) => {
                    if !apply_line(&mut d, line.as_slice()) {
                        proof {
                            lemma_scan_aborted_stays(all.take(i + 1), all.skip(i + 1), h, t);
                            assert(all.take(i + 1) + all.skip(i + 1) =~= all);
                        }
                        return None;
                    }
                    current = Some(d);
                },
                None => {},
            }
        }
        i += 1;
    }
    proof {
        assert(all.take(i as int) =~= all);
    }
    Some(events)
}

/// Reads every VEVENT of an iCalendar text. Each event gets the resource
/// `href` and `etag` it came from; an event with neither UID nor summary is
/// skipped.
pub fn parse_ical_events(ical: &str, href: &str, etag: Option<&str>) -> (out: Vec<CalendarEvent>)
    requires
        !ical_aborts(ical@, href@, opt_text(etag)),
    ensures
        event_views(out@) == ical_scan(ical@, href@, opt_text(etag)).events,
{
    scan_ical_events(ical, href, etag).unwrap()
}

// ----------------------------------------------------------------------------
// Writing an event
// ----------------------------------------------------------------------------

/// Lines, each ended by CR LF.
pub open spec fn crlf_lines(ls: Seq<Seq<char>>) -> Seq<char>
    decreases ls.len(),
{
    if ls.len() == 0 {
        Seq::empty()
    } else {
        crlf_lines(ls.drop_last()) + ls.last() + seq!['\r', '\n']
    }
}

/// The VALARM of an event: a display reminder `reminder` minutes before the
/// start, present only for a positive number of minutes.
pub open spec fn alarm_lines(reminder: i32) -> Seq<Seq<char>> {
    if reminder > 0 {
        seq![
            "BEGIN:VALARM"@,
            "TRIGGER:-PT"@ + decimal(reminder as nat) + "M"@,
            "ACTION:DISPLAY"@,
            "DESCRIPTION:Reminder"@,
            "END:VALARM"@,
        ]
    } else {
        Seq::empty()
    }
}

/// A TEXT property line, present only for a non-empty value.
pub open spec fn optional_line(name: Seq<char>, value: Seq<char>) -> Seq<Seq<char>> {
    if value.len() > 0 {
        seq![name + escaped(value)]
    } else {
        Seq::empty()
    }
}

/// The content lines of the calendar object written for one event; start
/// and end are written as wall-clock times.
pub open spec fn event_lines(
    uid: Seq<char>,
    summary: Seq<char>,
    start: Stamp,
    end: Stamp,
    location: Seq<char>,
    description: Seq<char>,
    reminder: i32,
) -> Seq<Seq<char>> {
    seq![
        "BEGIN:VCALENDAR"@,
        "VERSION:2.0"@,
        "PRODID:-//cosmic-caldav//EN"@,
        "BEGIN:VEVENT"@,
        "UID:"@ + uid,
        "SUMMARY:"@ + escaped(summary),
    ] + optional_line("LOCATION:"@, location) + optional_line("DESCRIPTION:"@, description) + seq![
        "DTSTART:"@ + compact_text(start),
        "DTEND:"@ + compact_text(end),
    ] + alarm_lines(reminder) + seq!["END:VEVENT"@, "END:VCALENDAR"@]
}

/// The calendar object written for one event.
pub open spec fn ical_event_text(
    uid: Seq<char>,
    summary: Seq<char>,
    start: Stamp,
    end: Stamp,
    location: Seq<char>,
    description: Seq<char>,
    reminder: i32,
) -> Seq<char> {
    crlf_lines(event_lines(uid, summary, start, end, location, description, reminder))
}

/// Ends the line being written.
fn end_line(out: &mut Vec<char>, lines: Ghost<Seq<Seq<char>>>, line: Ghost<Seq<char>>)
    requires
        old(out)@ == crlf_lines(lines@) + line@,
    ensures
        final(out)@ == crlf_lines(lines@.push(line@)),
{
    out.push('\r');
    out.push('\n');
    assert(lines@.push(line@).drop_last() =~= lines@);
    assert(final(out)@ =~= crlf_lines(lines@.push(line@)));
}

/// Writes a whole line.
fn write_line(out: &mut Vec<char>, lines: Ghost<Seq<Seq<char>>>, line: &str)
    requires
        old(out)@ == crlf_lines(lines@),
    ensures
        final(out)@ == crlf_lines(lines@.push(line@)),
{
    push_str_chars(out, line);
    end_line(out, lines, Ghost(line@));
}

/// Writes a line made of a property name and a value.
fn write_property(out: &mut Vec<char>, lines: Ghost<Seq<Seq<char>>>, name: &str, value: &str)
    requires
        old(out)@ == crlf_lines(lines@),
    ensures
        final(out)@ == crlf_lines(lines@.push(name@ + value@)),
{
    push_str_chars(out, name);
    push_str_chars(out, value);
    assert(out@ =~= crlf_lines(lines@) + (name@ + value@));
    end_line(out, lines, Ghost(name@ + value@));
}

/// Writes a TEXT property, escaped, when its value is not empty.
fn write_optional(out: &mut Vec<char>, lines: Ghost<Seq<Seq<char>>>, name: &str, value: &str)
    requires
        old(out)@ == crlf_lines(lines@),
    ensures
        final(out)@ == crlf_lines(lines@ + optional_line(name@, value@)),
{
    if !value.is_empty() {
        let e = escape_ical_text(value);
        write_property(out, lines, name, e.as_str());
        assert(lines@.push(name@ + e@) =~= lines@ + optional_line(name@, value@));
    } else {
        assert(lines@ =~= lines@ + optional_line(name@, value@));
    }
}

/// Writes the calendar object (VCALENDAR with one VEVENT) for an event.
pub fn build_ical_event(
    uid: &str,
    summary: &str,
    start: &LocalDateTime,
    end: &LocalDateTime,
    location: &str,
    description: &str,
    reminder_mins: i32,
) -> (r: String)
    requires
        stamp_valid(start.local),
        stamp_valid(end.local),
    ensures
        r@ == ical_event_text(
            uid@,
            summary@,
            start.local,
            end.local,
            location@,
            description@,
            reminder_mins,
        ),
{
    let mut out: Vec<char> = Vec::new();
    let ghost mut ls: Seq<Seq<char>> = Seq::empty();
    assert(out@ =~= crlf_lines(ls));
    write_line(&mut out, Ghost(ls), "BEGIN:VCALENDAR");
    proof { ls = ls.push("BEGIN:VCALENDAR"@); }
    write_line(&mut out, Ghost(ls), "VERSION:2.0");
    proof { ls = ls.push("VERSION:2.0"@); }
    write_line(&mut out, Ghost(ls), "PRODID:-//cosmic-caldav//EN");
    proof { ls = ls.push("PRODID:-//cosmic-caldav//EN"@); }
    write_line(&mut out, Ghost(ls), "BEGIN:VEVENT");
    proof { ls = ls.push("BEGIN:VEVENT"@); }
    write_property(&mut out, Ghost(ls), "UID:", uid);
    proof { ls = ls.push("UID:"@ + uid@); }
    let s = escape_ical_text(summary);
    write_property(&mut out, Ghost(ls), "SUMMARY:", s.as_str());
    proof { ls = ls.push("SUMMARY:"@ + escaped(summary@)); }
    write_optional(&mut out, Ghost(ls), "LOCATION:", location);
    proof { ls = ls + optional_line("LOCATION:"@, location@); }
    write_optional(&mut out, Ghost(ls), "DESCRIPTION:", description);
    proof { ls = ls + optional_line("DESCRIPTION:"@, description@); }
    push_str_chars(&mut out, "DTSTART:");
    push_compact(&mut out, &start.local);
    assert(out@ =~= crlf_lines(ls) + ("DTSTART:"@ + compact_text(start.local)));
    end_line(&mut out, Ghost(ls), Ghost("DTSTART:"@ + compact_text(start.local)));
    proof { ls = ls.push("DTSTART:"@ + compact_text(start.local)); }
    push_str_chars(&mut out, "DTEND:");
    push_compact(&mut out, &end.local);
    assert(out@ =~= crlf_lines(ls) + ("DTEND:"@ + compact_text(end.local)));
    end_line(&mut out, Ghost(ls), Ghost("DTEND:"@ + compact_text(end.local)));
    proof { ls = ls.push("DTEND:"@ + compact_text(end.local)); }
    let ghost before_alarm = ls;
    if reminder_mins > 0 {
        write_line(&mut out, Ghost(ls), "BEGIN:VALARM");
        proof { ls = ls.push("BEGIN:VALARM"@); }
        push_str_chars(&mut out, "TRIGGER:-PT");
        push_decimal(&mut out, reminder_mins as u64);
        push_str_chars(&mut out, "M");
        let ghost trigger = "TRIGGER:-PT"@ + decimal(reminder_mins as nat) + "M"@;
        assert(out@ =~= crlf_lines(ls) + trigger);
        end_line(&mut out, Ghost(ls), Ghost(trigger));
        proof { ls = ls.push(trigger); }
        write_line(&mut out, Ghost(ls), "ACTION:DISPLAY");
        proof { ls = ls.push("ACTION:DISPLAY"@); }
        write_line(&mut out, Ghost(ls), "DESCRIPTION:Reminder");
        proof { ls = ls.push("DESCRIPTION:Reminder"@); }
        write_line(&mut out, Ghost(ls), "END:VALARM");
        proof { ls = ls.push("END:VALARM"@); }
    }
    assert(ls =~= before_alarm + alarm_lines(reminder_mins));
    write_line(&mut out, Ghost(ls), "END:VEVENT");
    proof { ls = ls.push("END:VEVENT"@); }
    write_line(&mut out, Ghost(ls), "END:VCALENDAR");
    proof { ls = ls.push("END:VCALENDAR"@); }
    assert(ls =~= event_lines(
        uid@,
        summary@,
        start.local,
        end.local,
        location@,
        description@,
        reminder_mins,
    ));
    string_of(out.as_slice())
}

} // verus!
