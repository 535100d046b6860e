//! Reading WebDAV multistatus responses: the calendars of a PROPFIND and the
//! events of a calendar-query REPORT.
//!
//! quick-xml turns the response into a stream of tokens; everything done with
//! those tokens is verified here.

use quick_xml::events::Event;
use vstd::prelude::*;
use crate::caldav::{
    Calendar, CalendarEvent, CalendarView, EventView, calendar_views, event_views,
};
use crate::text::{chars_are, chars_of, ends_with, has_suffix, push_str_chars, string_of};
use crate::vevent::{ical_aborts, ical_scan, opt_text, parse_ical_events, scan_ical_events};

verus! {

/// One item of the XML token stream, as quick-xml reports it with text
/// trimming on.
#[derive(Clone, Debug)]
pub enum XmlToken {
    /// An opening tag, by its local name (without namespace prefix).
    Start(String),
    /// A closing tag, by its local name.
    End(String),
    /// Character data, with entities resolved; `None` when resolving failed.
    Text(Option<String>),
    /// A CDATA section.
    CData(String),
    /// The reader failed, with its message; the token stream ends here.
    Error(String),
    /// The end of the document; the token stream ends here.
    Eof,
    /// Anything else (empty elements, comments, declarations, ...).
    Other,
}

/// What a token is, as text.
pub enum XmlTokenView {
    Start(Seq<char>),
    End(Seq<char>),
    Text(Option<Seq<char>>),
    CData(Seq<char>),
    Error(Seq<char>),
    Eof,
    Other,
}

impl View for XmlToken {
    type V = XmlTokenView;

    open spec fn view(&self) -> XmlTokenView {
        match self {
            XmlToken::Start(n) => XmlTokenView::Start(n@),
            XmlToken::End(n) => XmlTokenView::End(n@),
            XmlToken::Text(t) => XmlTokenView::Text(t.deep_view()),
            XmlToken::CData(t) => XmlTokenView::CData(t@),
            XmlToken::Error(m) => XmlTokenView::Error(m@),
            XmlToken::Eof => XmlTokenView::Eof,
            XmlToken::Other => XmlTokenView::Other,
        }
    }
}

/// The views of a token list.
pub open spec fn token_views(v: Seq<XmlToken>) -> Seq<XmlTokenView> {
    v.map_values(|t: XmlToken| t@)
}

/// quick-xml's pull parser.
#[verifier::external_type_specification]
#[verifier::external_body]
#[verifier::reject_recursive_types(R)]
pub struct ExXmlReader<R>(quick_xml::Reader<R>);

/// The token stream quick-xml produces for a document with text trimming on,
/// up to and including its end or its first error.
pub uninterp spec fn xml_token_stream(xml: Seq<char>) -> Seq<XmlTokenView>;

/// The tokens a reader gives next, up to and including the next
/// end-of-document or error token. What a reader gives after that token is
/// left unsaid.
pub uninterp spec fn tokens_ahead(reader: quick_xml::Reader<&[u8]>) -> Seq<XmlTokenView>;

/// A token after which the reader gives nothing more.
pub open spec fn final_token(t: XmlTokenView) -> bool {
    t is Eof || t is Error
}

/// A token stream that ends with its only end-of-document or error token.
pub open spec fn well_ended(s: Seq<XmlTokenView>) -> bool {
    &&& s.len() > 0
    &&& final_token(s.last())
    &&& forall|i: int| 0 <= i < s.len() - 1 ==> !final_token(#[trigger] s[i])
}

/// `Reader::from_str` with `trim_text(true)` set: a reader over the whole
/// document, which gives the document's token stream. That stream ends with
/// one end-of-document or error token (quick-xml reports the end of its
/// input, or stops at an error) and is otherwise named, not stated.
#[verifier::external_body]
fn trimming_reader(xml: &str) -> (r: quick_xml::Reader<&[u8]>)
    ensures
        tokens_ahead(r) == xml_token_stream(xml@),
        well_ended(tokens_ahead(r)),
{
    let mut reader = quick_xml::Reader::from_str(xml);
    reader.config_mut().trim_text(true);
    reader
}

/// `Reader::read_event`, converted: tags by their local name, text with its
/// entities resolved (`None` when that fails), CDATA as lossy UTF-8, an error
/// by its message. It gives the next token of the reader's stream; unless
/// that token is an end or an error, the reader is then left before the
/// rest of the stream. (After an end or an error quick-xml may go on giving
/// tokens, an end again or, after some errors, more of the document; nothing
/// is said of them.)
#[verifier::external_body]
fn next_token(reader: &mut quick_xml::Reader<&[u8]>) -> (t: XmlToken)
    requires
        tokens_ahead(*old(reader)).len() > 0,
    ensures
        t@ == tokens_ahead(*old(reader))[0],
        !final_token(t@) ==> tokens_ahead(*final(reader)) == tokens_ahead(*old(reader)).skip(1),
{
    match reader.read_event() {
        Ok(Event::Start(e)) => XmlToken::Start(String::from_utf8_lossy(e.local_name().as_ref()).into_owned()),
        Ok(Event::End(e)) => XmlToken::End(String::from_utf8_lossy(e.local_name().as_ref()).into_owned()),
        Ok(Event::Text(e)) => XmlToken::Text(e.unescape().ok().map(|t| t.into_owned())),
        Ok(Event::CData(e)) => XmlToken::CData(String::from_utf8_lossy(&e).into_owned()),
        Ok(Event::Eof) => XmlToken::Eof,
        Ok(_) => XmlToken::Other,
        Err(e) => XmlToken::Error(e.to_string()),
    }
}

/// The token stream of a document, read to its end or first error.
pub fn xml_tokens(xml: &str) -> (r: Vec<XmlToken>)
    ensures
        token_views(r@) == xml_token_stream(xml@),
{
    let mut reader = trimming_reader(xml);
    let ghost all = xml_token_stream(xml@);
    let mut out: Vec<XmlToken> = Vec::new();
    assert(token_views(out@) + tokens_ahead(reader) =~= all);
    loop
        invariant
            well_ended(all),
            all == xml_token_stream(xml@),
            token_views(out@) + tokens_ahead(reader) == all,
            tokens_ahead(reader).len() > 0,
        decreases tokens_ahead(reader).len(),
    {
        let ghost before = out@;
        let ghost ahead = tokens_ahead(reader);
        let t = next_token(&mut reader);
        let stop = match &t {
            XmlToken::Eof => true,
            XmlToken::Error(_) => true,
            _ => false,
        };
        out.push(t);
        proof {
            assert(token_views(out@) =~= token_views(before).push(t@));
            assert(ahead =~= seq![ahead[0]] + ahead.skip(1));
            assert(all[before.len() as int] == t@);
        }
        if stop {
            assert(before.len() == all.len() - 1);
            assert(token_views(out@) =~= all);
            return out;
        }
        assert(before.len() < all.len() - 1);
        assert(token_views(out@) + tokens_ahead(reader) =~= all);
    }
}

/// The text of a text token (empty when unescaping failed).
pub open spec fn text_of(t: Option<Seq<char>>) -> Seq<char> {
    match t {
        Some(s) => s,
        None => Seq::empty(),
    }
}

/// How a reader error is reported.
pub open spec fn xml_error_message(m: Seq<char>) -> Seq<char> {
    "XML parse error: "@ + m
}

fn error_message(m: &String) -> (r: String)
    ensures
        r@ == xml_error_message(m@),
{
    let mut v: Vec<char> = Vec::new();
    push_str_chars(&mut v, "XML parse error: ");
    push_str_chars(&mut v, m.as_str());
    string_of(v.as_slice())
}

// ----------------------------------------------------------------------------
// Calendars (PROPFIND, Depth 1)
// ----------------------------------------------------------------------------

/// The state of the scan over a PROPFIND response.
pub struct CalendarScan {
    pub calendars: Seq<CalendarView>,
    pub href: Seq<char>,
    pub name: Seq<char>,
    pub color: Option<Seq<char>>,
    pub in_response: bool,
    pub in_href: bool,
    pub in_displayname: bool,
    pub in_color: bool,
    pub error: Option<Seq<char>>,
}

/// Before the first token.
pub open spec fn calendar_scan_start() -> CalendarScan {
    CalendarScan {
        calendars: Seq::empty(),
        href: Seq::empty(),
        name: Seq::empty(),
        color: None,
        in_response: false,
        in_href: false,
        in_displayname: false,
        in_color: false,
        error: None,
    }
}

/// One token of a PROPFIND response. A `response` element collects its
/// `href`, `displayname` and `calendar-color`; at its end it becomes a
/// calendar when the href ends in `/` and the display name is not empty. The
/// text right after an opening `href` (inside a response), `displayname` or
/// `calendar-color` is taken for it, and a closing tag of any of them stops
/// waiting for its text.
pub open spec fn calendar_step(st: CalendarScan, tok: XmlTokenView) -> CalendarScan {
    if st.error is Some {
        st
    } else {
        match tok {
            XmlTokenView::Start(n) => if n == "response"@ {
                CalendarScan {
                    in_response: true,
                    href: Seq::empty(),
                    name: Seq::empty(),
                    color: None,
                    ..st
                }
            } else if n == "href"@ && st.in_response {
                CalendarScan { in_href: true, ..st }
            } else if n == "displayname"@ {
                CalendarScan { in_displayname: true, ..st }
            } else if n == "calendar-color"@ {
                CalendarScan { in_color: true, ..st }
            } else {
                st
            },
            XmlTokenView::Text(t) => if st.in_href {
                CalendarScan { href: text_of(t), in_href: false, ..st }
            } else if st.in_displayname {
                CalendarScan { name: text_of(t), in_displayname: false, ..st }
            } else if st.in_color {
                CalendarScan { color: Some(text_of(t)), in_color: false, ..st }
            } else {
                st
            },
            XmlTokenView::End(n) => if n == "response"@ && st.in_response {
                CalendarScan {
                    calendars: if ends_with(st.href, "/"@) && st.name.len() > 0 {
                        st.calendars.push(
                            CalendarView { href: st.href, display_name: st.name, color: st.color },
                        )
                    } else {
                        st.calendars
                    },
                    in_response: false,
                    ..st
                }
            } else if n == "href"@ {
                CalendarScan { in_href: false, ..st }
            } else if n == "displayname"@ {
                CalendarScan { in_displayname: false, ..st }
            } else if n == "calendar-color"@ {
                CalendarScan { in_color: false, ..st }
            } else {
                st
            },
            XmlTokenView::Error(m) => CalendarScan { error: Some(xml_error_message(m)), ..st },
            _ => st,
        }
    }
}

/// The scan over a token sequence.
pub open spec fn calendar_scan(toks: Seq<XmlTokenView>) -> CalendarScan
    decreases toks.len(),
{
    if toks.len() == 0 {
        calendar_scan_start()
    } else {
        calendar_step(calendar_scan(toks.drop_last()), toks.last())
    }
}

/// The calendars of a PROPFIND response's tokens, or the reader's error.
pub open spec fn calendars_result(toks: Seq<XmlTokenView>) -> Result<Seq<CalendarView>, Seq<char>> {
    let st = calendar_scan(toks);
    match st.error {
        Some(e) => Err(e),
        None => Ok(st.calendars),
    }
}

/// The calendars of a PROPFIND response, given its tokens.
pub fn calendars_from_tokens(toks: &[XmlToken]) -> (r: Result<Vec<Calendar>, String>)
    ensures
        match r {
            Ok(cals) => calendars_result(token_views(toks@)) == Ok::<Seq<CalendarView>, Seq<char>>(
                calendar_views(cals@),
            ),
            Err(e) => calendars_result(token_views(toks@)) == Err::<Seq<CalendarView>, Seq<char>>(
                e@,
            ),
        },
{
    let ghost all = token_views(toks@);
    let mut calendars: Vec<Calendar> = Vec::new();
    let mut href: String = String::new();
    let mut name: String = String::new();
    let mut color: Option<String> = None;
    let mut in_response = false;
    let mut in_href = false;
    let mut in_displayname = false;
    let mut in_color = false;
    let mut i: usize = 0;
    proof {
        assert(all.take(0) =~= Seq::<XmlTokenView>::empty());
        assert(calendar_views(calendars@) =~= Seq::<CalendarView>::empty());
    }
    while i < toks.len()
        invariant
            i <= toks@.len(),
            all == token_views(toks@),
            ({
                let st = calendar_scan(all.take(i as int));
                &&& st.error is None
                &&& st.calendars == calendar_views(calendars@)
                &&& st.href == href@
                &&& st.name == name@
                &&& st.color == color.deep_view()
                &&& st.in_response == in_response
                &&& st.in_href == in_href
                &&& st.in_displayname == in_displayname
                &&& st.in_color == in_color
            }),
        decreases toks@.len() - i,
    {
        proof {
            assert(all.take(i + 1).drop_last() =~= all.take(i as int));
            assert(all.take(i + 1).last() == toks@[i as int]@);
        }
        match &toks[i] {
            XmlToken::Start(n) => {
                let nv = chars_of(n.as_str());
                if chars_are(nv.as_slice(), "response") {
                    in_response = true;
                    href = String::new();
                    name = String::new();
                    color = None;
                } else if chars_are(nv.as_slice(), "href") && in_response {
                    in_href = true;
                } else if chars_are(nv.as_slice(), "displayname") {
                    in_displayname = true;
                } else if chars_are(nv.as_slice(), "calendar-color") {
                    in_color = true;
                }
            },
            XmlToken::Text(t) => {
                let text = match t {
                    Some(s) => s.clone(),
                    None => String::new(),
                };
                if in_href {
                    href = text;
                    in_href = false;
                } else if in_displayname {
                    name = text;
                    in_displayname = false;
                } else if in_color {
                    color = Some(text);
                    in_color = false;
                }
            },
            XmlToken::End(n) => {
                let nv = chars_of(n.as_str());
                if chars_are(nv.as_slice(), "response") && in_response {
                    let hv = chars_of(href.as_str());
                    if has_suffix(hv.as_slice(), "/") && !name.as_str().is_empty() {
                        calendars.push(
                            Calendar {
                                href: href.clone(),
                                display_name: name.clone(),
                                color: color.clone(),
                            },
                        );
                    }
                    in_response = false;
                    proof {
                        assert(calendar_views(calendars@) =~= calendar_scan(all.take(i + 1)).calendars);
                    }
                } else if chars_are(nv.as_slice(), "href") {
                    in_href = false;
                } else if chars_are(nv.as_slice(), "displayname") {
                    in_displayname = false;
                } else if chars_are(nv.as_slice(), "calendar-color") {
                    in_color = false;
                }
            },
            XmlToken::Error(m) => {
                let e = error_message(m);
                proof {
                    lemma_calendar_error_stays(all.take(i + 1), all.skip(i + 1));
                    assert(all.take(i + 1) + all.skip(i + 1) =~= all);
                    assert(all.take(toks@.len() as int) =~= all);
                }
                return Err(e);
            },
            _ => {},
        }
        i += 1;
    }
    proof {
        assert(all.take(i as int) =~= all);
    }
    Ok(calendars)
}

proof fn lemma_calendar_error_stays(toks: Seq<XmlTokenView>, extra: Seq<XmlTokenView>)
    requires
        calendar_scan(toks).error is Some,
    ensures
        calendar_scan(toks + extra) == calendar_scan(toks),
    decreases extra.len(),
{
    if extra.len() == 0 {
        assert(toks + extra =~= toks);
    } else {
        lemma_calendar_error_stays(toks, extra.drop_last());
        assert((toks + extra).drop_last() =~= toks + extra.drop_last());
    }
}

/// A scan with `base` before the calendars it has read.
pub open spec fn after_calendars(base: Seq<CalendarView>, st: CalendarScan) -> CalendarScan {
    CalendarScan { calendars: base + st.calendars, ..st }
}

proof fn lemma_calendar_step_prefix(base: Seq<CalendarView>, st: CalendarScan, tok: XmlTokenView)
    ensures
        calendar_step(after_calendars(base, st), tok) == after_calendars(base, calendar_step(st, tok)),
{
    match tok {
        XmlTokenView::End(n) => {
            if st.error is None && n == "response"@ && st.in_response && ends_with(st.href, "/"@)
                && st.name.len() > 0 {
                let c = CalendarView { href: st.href, display_name: st.name, color: st.color };
                assert((base + st.calendars).push(c) =~= base + st.calendars.push(c));
            }
        },
        _ => {},
    }
}

/// What one response contributes does not depend on the responses before
/// it: after any tokens that end without an error and with no href, display
/// name or color awaiting its text, the tokens of a new response (and
/// whatever follows them) give the calendars read so far followed by exactly
/// the calendars, colors included, that those tokens give on their own, or
/// the error they give on their own.
pub proof fn lemma_responses_independent(pre: Seq<XmlTokenView>, toks: Seq<XmlTokenView>)
    requires
        toks.len() > 0,
        toks[0] == XmlTokenView::Start("response"@),
        calendar_scan(pre).error is None,
        !calendar_scan(pre).in_href,
        !calendar_scan(pre).in_displayname,
        !calendar_scan(pre).in_color,
    ensures
        calendar_scan(pre + toks) == after_calendars(calendar_scan(pre).calendars, calendar_scan(toks)),
        calendars_result(pre + toks) == match calendars_result(toks) {
            Ok(c) => Ok::<Seq<CalendarView>, Seq<char>>(calendar_scan(pre).calendars + c),
            Err(e) => Err::<Seq<CalendarView>, Seq<char>>(e),
        },
    decreases toks.len(),
{
    let base = calendar_scan(pre).calendars;
    if toks.len() == 1 {
        assert((pre + toks).drop_last() =~= pre);
        assert(toks.drop_last() =~= Seq::<XmlTokenView>::empty());
        assert(Seq::<CalendarView>::empty() + base =~= base);
        assert(base + Seq::<CalendarView>::empty() =~= base);
    } else {
        let init = toks.drop_last();
        assert(init[0] == toks[0]);
        lemma_responses_independent(pre, init);
        assert((pre + toks).drop_last() =~= pre + init);
        lemma_calendar_step_prefix(base, calendar_scan(init), toks.last());
    }
}

/// Reads the calendars of a PROPFIND (Depth 1) response.
pub fn parse_calendars(xml: &str) -> (r: Result<Vec<Calendar>, String>)
    ensures
        match r {
            Ok(cals) => calendars_result(xml_token_stream(xml@)) == Ok::<
                Seq<CalendarView>,
                Seq<char>,
            >(calendar_views(cals@)),
            Err(e) => calendars_result(xml_token_stream(xml@)) == Err::<
                Seq<CalendarView>,
                Seq<char>,
            >(e@),
        },
{
    let toks = xml_tokens(xml);
    calendars_from_tokens(toks.as_slice())
}

// ----------------------------------------------------------------------------
// Events (calendar-query REPORT)
// ----------------------------------------------------------------------------

/// The state of the scan over a REPORT response.
pub struct EventScan {
    pub events: Seq<EventView>,
    pub href: Seq<char>,
    pub etag: Option<Seq<char>>,
    pub data: Seq<char>,
    pub in_response: bool,
    pub in_href: bool,
    pub in_getetag: bool,
    pub in_data: bool,
    pub error: Option<Seq<char>>,
    pub aborted: bool,
}

/// Before the first token.
pub open spec fn event_scan_start() -> EventScan {
    EventScan {
        events: Seq::empty(),
        href: Seq::empty(),
        etag: None,
        data: Seq::empty(),
        in_response: false,
        in_href: false,
        in_getetag: false,
        in_data: false,
        error: None,
        aborted: false,
    }
}

/// One token of a REPORT response. Inside a `response`, the text after an
/// opening `href` is the resource href, the text after `getetag` its entity
/// tag, and all text and CDATA inside `calendar-data` its iCalendar data. At
/// the end of the response the VEVENTs of non-empty data are added, each with
/// the response's href and entity tag.
pub open spec fn event_step(st: EventScan, tok: XmlTokenView) -> EventScan {
    if st.error is Some || st.aborted {
        st
    } else {
        match tok {
            XmlTokenView::Start(n) => if n == "response"@ {
                EventScan {
                    in_response: true,
                    href: Seq::empty(),
                    etag: None,
                    data: Seq::empty(),
                    ..st
                }
            } else if n == "href"@ && st.in_response {
                EventScan { in_href: true, ..st }
            } else if n == "getetag"@ && st.in_response {
                EventScan { in_getetag: true, ..st }
            } else if n == "calendar-data"@ && st.in_response {
                EventScan { in_data: true, data: Seq::empty(), ..st }
            } else {
                st
            },
            XmlTokenView::Text(t) => if st.in_href {
                EventScan { href: text_of(t), in_href: false, ..st }
            } else if st.in_getetag {
                EventScan { etag: Some(text_of(t)), in_getetag: false, ..st }
            } else if st.in_data {
                EventScan { data: st.data + text_of(t), ..st }
            } else {
                st
            },
            XmlTokenView::CData(c) => if st.in_data {
                EventScan { data: st.data + c, ..st }
            } else {
                st
            },
            XmlTokenView::End(n) => if n == "response"@ && st.in_response {
                let closed = EventScan {
                    in_response: false,
                    in_href: false,
                    in_getetag: false,
                    in_data: false,
                    ..st
                };
                if st.data.len() == 0 {
                    closed
                } else if ical_aborts(st.data, st.href, st.etag) {
                    EventScan { aborted: true, ..closed }
                } else {
                    EventScan {
                        events: st.events + ical_scan(st.data, st.href, st.etag).events,
                        ..closed
                    }
                }
            } else if n == "href"@ {
                EventScan { in_href: false, ..st }
            } else if n == "getetag"@ {
                EventScan { in_getetag: false, ..st }
            } else if n == "calendar-data"@ {
                EventScan { in_data: false, ..st }
            } else {
                st
            },
            XmlTokenView::Error(m) => EventScan { error: Some(xml_error_message(m)), ..st },
            XmlTokenView::Eof => st,
            XmlTokenView::Other => st,
        }
    }
}

/// The scan over a token sequence.
pub open spec fn event_scan(toks: Seq<XmlTokenView>) -> EventScan
    decreases toks.len(),
{
    if toks.len() == 0 {
        event_scan_start()
    } else {
        event_step(event_scan(toks.drop_last()), toks.last())
    }
}

/// Reading the events of a REPORT response's tokens runs into a date value
/// that cannot be cut at its fifteenth byte (see
/// [`crate::vevent::DateParse::Aborts`]).
pub open spec fn events_abort(toks: Seq<XmlTokenView>) -> bool {
    event_scan(toks).aborted
}

/// The events of a REPORT response's tokens, or the reader's error.
pub open spec fn events_result(toks: Seq<XmlTokenView>) -> Result<Seq<EventView>, Seq<char>> {
    let st = event_scan(toks);
    match st.error {
        Some(e) => Err(e),
        None => Ok(st.events),
    }
}

/// Whether a result matches the events of a token stream.
pub open spec fn events_match(r: Result<Vec<CalendarEvent>, String>, toks: Seq<XmlTokenView>) -> bool {
    match r {
        Ok(evs) => events_result(toks) == Ok::<Seq<EventView>, Seq<char>>(event_views(evs@)),
        Err(e) => events_result(toks) == Err::<Seq<EventView>, Seq<char>>(e@),
    }
}

proof fn lemma_event_stop_stays(toks: Seq<XmlTokenView>, extra: Seq<XmlTokenView>)
    requires
        event_scan(toks).error is Some || event_scan(toks).aborted,
    ensures
        event_scan(toks + extra) == event_scan(toks),
    decreases extra.len(),
{
    if extra.len() == 0 {
        assert(toks + extra =~= toks);
    } else {
        lemma_event_stop_stays(toks, extra.drop_last());
        assert((toks + extra).drop_last() =~= toks + extra.drop_last());
    }
}

/// The events of a REPORT response, given its tokens; `None` when a
/// DTSTART/DTEND value cannot be cut (see [`crate::vevent::DateParse`]).
pub fn scan_event_tokens(toks: &[XmlToken]) -> (r: Option<Result<Vec<CalendarEvent>, String>>)
    ensures
        r is None <==> events_abort(token_views(toks@)),
        r matches Some(res) ==> events_match(res, token_views(toks@)),
{
    let ghost all = token_views(toks@);
    let mut events: Vec<CalendarEvent> = Vec::new();
    let mut href: String = String::new();
    let mut etag: Option<String> = None;
    let mut data: String = String::new();
    let mut in_response = false;
    let mut in_href = false;
    let mut in_getetag = false;
    let mut in_data = false;
    let mut i: usize = 0;
    proof {
        assert(all.take(0) =~= Seq::<XmlTokenView>::empty());
        assert(event_views(events@) =~= Seq::<EventView>::empty());
    }
    while i < toks.len()
        invariant
            i <= toks@.len(),
            all == token_views(toks@),
            ({
                let st = event_scan(all.take(i as int));
                &&& st.error is None
                &&& !st.aborted
                &&& st.events == event_views(events@)
                &&& st.href == href@
                &&& st.etag == etag.deep_view()
                &&& st.data == data@
                &&& st.in_response == in_response
                &&& st.in_href == in_href
                &&& st.in_getetag == in_getetag
                &&& st.in_data == in_data
            }),
        decreases toks@.len() - i,
    {
        proof {
            assert(all.take(i + 1).drop_last() =~= all.take(i as int));
            assert(all.take(i + 1).last() == toks@[i as int]@);
        }
        match &toks[i] {
            XmlToken::Start(n) => {
                let nv = chars_of(n.as_str());
                if chars_are(nv.as_slice(), "response") {
                    in_response = true;
                    href = String::new();
                    etag = None;
                    data = String::new();
                } else if chars_are(nv.as_slice(), "href") && in_response {
                    in_href = true;
                } else if chars_are(nv.as_slice(), "getetag") && in_response {
                    in_getetag = true;
                } else if chars_are(nv.as_slice(), "calendar-data") && in_response {
                    in_data = true;
                    data = String::new();
                }
            },
            XmlToken::Text(t) => {
                let text = match t {
                    Some(s) => s.clone(),
                    None => String::new(),
                };
                if in_href {
                    href = text;
                    in_href = false;
                } else if in_getetag {
                    etag = Some(text);
                    in_getetag = false;
                } else if in_data {
                    data.append(text.as_str());
                }
            },
            XmlToken::CData(c) => {
                if in_data {
                    data.append(c.as_str());
                }
            },
            XmlToken::End(n) => {
                let nv = chars_of(n.as_str());
                if chars_are(nv.as_slice(), "response") && in_response {
                    if !data.as_str().is_empty() {
                        let tag: Option<&str> = match &etag {
                            Some(e) => Some(e.as_str()),
                            None => None,
                        };
                        proof {
                            assert(opt_text(tag) == etag.deep_view());
                        }
                        match scan_ical_events(data.as_str(), href.as_str(), tag) {
                            None => {
                                proof {
                                    lemma_event_stop_stays(all.take(i + 1), all.skip(i + 1));
                                    assert(all.take(i + 1) + all.skip(i + 1) =~= all);
                                }
                                return None;
                            },
                            Some(_) => {
                                let mut found = parse_ical_events(data.as_str(), href.as_str(), tag);
                                let ghost before = events@;
                                let ghost added = found@;
                                events.append(&mut found);
                                assert(event_views(events@) =~= event_views(before) + event_views(added));
                            },
                        }
                    }
                    in_response = false;
                    in_href = false;
                    in_getetag = false;
                    in_data = false;
                } else if chars_are(nv.as_slice(), "href") {
                    in_href = false;
                } else if chars_are(nv.as_slice(), "getetag") {
                    in_getetag = false;
                } else if chars_are(nv.as_slice(), "calendar-data") {
                    in_data = false;
                }
            },
            XmlToken::Error(m) => {
                let e = error_message(m);
                proof {
                    lemma_event_stop_stays(all.take(i + 1), all.skip(i + 1));
                    assert(all.take(i + 1) + all.skip(i + 1) =~= all);
                }
                return Some(Err(e));
            },
            XmlToken::Eof => {},
            XmlToken::Other => {},
        }
        i += 1;
    }
    proof {
        assert(all.take(i as int) =~= all);
    }
    Some(Ok(events))
}

/// Reads the events of a calendar-query REPORT response: the VEVENTs of every
/// response's calendar data, each with that response's href and entity tag.
pub fn parse_events(xml: &str) -> (r: Result<Vec<CalendarEvent>, String>)
    requires
        !events_abort(xml_token_stream(xml@)),
    ensures
        events_match(r, xml_token_stream(xml@)),
{
    let toks = xml_tokens(xml);
    scan_event_tokens(toks.as_slice()).unwrap()
}

/// [`parse_events`] for any response: `None` exactly when reading it would
/// run into a DTSTART/DTEND value that cannot be cut at its fifteenth byte.
pub fn parse_events_checked(xml: &str) -> (r: Option<Result<Vec<CalendarEvent>, String>>)
    ensures
        r is None <==> events_abort(xml_token_stream(xml@)),
        r matches Some(res) ==> events_match(res, xml_token_stream(xml@)),
{
    let toks = xml_tokens(xml);
    match scan_event_tokens(toks.as_slice()) {
        None => None,
        Some(_) => Some(parse_events(xml)),
    }
}

} // verus!
