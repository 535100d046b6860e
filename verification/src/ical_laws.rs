//! What reading an event back gives of the calendar object written for it.

use vstd::prelude::*;
use crate::caldav::EventView;
use crate::ical::{
    escaped, is_continuation, lemma_escaped_has_no_line_break, lemma_text_escape_round_trip,
    split_newlines, strip_one_cr, text_lines, trim_end_cr, unescaped, unfold, unfolded_lines,
    without_cr,
};
use crate::text::{
    after_last_char, all_digits, before_char, decimal, digit_char, is_digit, is_white_space,
    starts_with, trim_end_ws, trim_start_ws, trim_ws,
};
use crate::time::{
    Stamp, compact_date, compact_datetime, compact_text, midnight, padded, stamp_valid, two_digits,
    year_text,
};
use crate::vevent::{
    DateParse, DraftView, IcalScan, alarm_lines, chars_in_bytes, crlf_lines, draft_step,
    empty_draft, event_lines, finish_draft, ical_date, ical_event_text, ical_scan, in_zone,
    optional_line, scan_lines, scan_step, tzid_param, utf8_len, utf8_width,
};

verus! {

// ----------------------------------------------------------------------------
// Lines
// ----------------------------------------------------------------------------

/// A line holds neither a line feed nor a carriage return.
pub open spec fn single_line(l: Seq<char>) -> bool {
    forall|i: int| 0 <= i < l.len() ==> l[i] != '\n' && l[i] != '\r'
}

/// A content line as it is written: a single line that does not begin with
/// a space or a tab.
pub open spec fn plain_line(l: Seq<char>) -> bool {
    single_line(l) && !is_continuation(l)
}

/// Each line with a carriage return after it.
pub open spec fn with_cr(ls: Seq<Seq<char>>) -> Seq<Seq<char>> {
    Seq::new(ls.len(), |i: int| ls[i].push('\r'))
}

proof fn lemma_split_len(s: Seq<char>)
    ensures
        split_newlines(s).len() >= 1,
    decreases s.len(),
{
    if s.len() > 0 {
        lemma_split_len(s.drop_last());
    }
}

proof fn lemma_split_append(s: Seq<char>, t: Seq<char>)
    requires
        forall|i: int| 0 <= i < t.len() ==> t[i] != '\n',
    ensures
        split_newlines(s + t) == split_newlines(s).update(
            split_newlines(s).len() - 1,
            split_newlines(s).last() + t,
        ),
    decreases t.len(),
{
    lemma_split_len(s);
    let p = split_newlines(s);
    if t.len() == 0 {
        assert(s + t =~= s);
        assert(p.update(p.len() - 1, p.last() + t) =~= p);
    } else {
        let u = t.drop_last();
        lemma_split_append(s, u);
        assert((s + t).drop_last() =~= s + u);
        assert((s + t).last() == t[t.len() - 1]);
        assert((p.last() + u).push(t[t.len() - 1]) =~= p.last() + t);
        assert(split_newlines(s + t) =~= p.update(p.len() - 1, p.last() + t));
    }
}

proof fn lemma_split_crlf(ls: Seq<Seq<char>>)
    requires
        forall|k: int| 0 <= k < ls.len() ==> single_line(#[trigger] ls[k]),
    ensures
        split_newlines(crlf_lines(ls)) == with_cr(ls).push(Seq::<char>::empty()),
    decreases ls.len(),
{
    if ls.len() == 0 {
        assert(with_cr(ls).push(Seq::<char>::empty()) =~= seq![Seq::<char>::empty()]);
    } else {
        let t = ls.drop_last();
        let l = ls.last();
        assert forall|k: int| 0 <= k < t.len() implies single_line(#[trigger] t[k]) by {
            assert(t[k] == ls[k]);
        }
        lemma_split_crlf(t);
        let j = crlf_lines(t);
        let lr = l.push('\r');
        let x = j + lr;
        assert(crlf_lines(ls) =~= x.push('\n'));
        assert(x.push('\n').drop_last() =~= x);
        assert(single_line(ls[ls.len() - 1]));
        assert forall|i: int| 0 <= i < lr.len() implies lr[i] != '\n' by {
            if i < l.len() {
                assert(lr[i] == l[i]);
            }
        }
        lemma_split_append(j, lr);
        let p = split_newlines(j);
        assert(p.last() =~= Seq::<char>::empty());
        assert(p.last() + lr =~= lr);
        assert(split_newlines(x) =~= with_cr(t).push(lr));
        assert(with_cr(t).push(lr) =~= with_cr(ls));
    }
}

proof fn lemma_text_lines_crlf(ls: Seq<Seq<char>>)
    requires
        forall|k: int| 0 <= k < ls.len() ==> single_line(#[trigger] ls[k]),
    ensures
        text_lines(crlf_lines(ls)) == ls,
{
    lemma_split_crlf(ls);
    let segs = split_newlines(crlf_lines(ls));
    assert(segs.len() == ls.len() + 1);
    assert(segs[segs.len() - 1].len() == 0);
    assert forall|i: int| 0 <= i < ls.len() implies strip_one_cr(#[trigger] segs[i]) == ls[i] by {
        assert(segs[i] == ls[i].push('\r'));
        assert(ls[i].push('\r').drop_last() =~= ls[i]);
    }
    assert(text_lines(crlf_lines(ls)) =~= ls);
}

proof fn lemma_unfold_plain(ls: Seq<Seq<char>>)
    requires
        forall|k: int| 0 <= k < ls.len() ==> plain_line(#[trigger] ls[k]),
    ensures
        unfold(ls) == ls,
    decreases ls.len(),
{
    if ls.len() > 0 {
        let t = ls.drop_last();
        assert forall|k: int| 0 <= k < t.len() implies plain_line(#[trigger] t[k]) by {
            assert(t[k] == ls[k]);
        }
        lemma_unfold_plain(t);
        let l = ls.last();
        assert(plain_line(ls[ls.len() - 1]));
        if l.len() > 0 {
            assert(l[l.len() - 1] != '\r');
        }
        assert(trim_end_cr(l) == l);
        assert(t.push(l) =~= ls);
    }
}

/// Lines written one after the other, each ended by CR LF, are read back as
/// the same content lines, when none holds a line break or begins with a
/// space or a tab.
pub proof fn lemma_crlf_lines_read_back(ls: Seq<Seq<char>>)
    requires
        forall|k: int| 0 <= k < ls.len() ==> plain_line(#[trigger] ls[k]),
    ensures
        unfolded_lines(crlf_lines(ls)) == ls,
{
    lemma_text_lines_crlf(ls);
    lemma_unfold_plain(ls);
}

// ----------------------------------------------------------------------------
// Characters of written values
// ----------------------------------------------------------------------------

/// A character of a written date-time: a digit, the `T` between date and
/// time, or the sign of a year outside 0–9999.
pub open spec fn compact_char(c: char) -> bool {
    is_digit(c) || c == 'T' || c == '+' || c == '-'
}

proof fn lemma_decimal_digits(n: nat)
    ensures
        all_digits(decimal(n)),
        decimal(n).len() >= 1,
        n < 10 ==> decimal(n).len() == 1,
        n < 100 ==> decimal(n).len() <= 2,
        n < 1000 ==> decimal(n).len() <= 3,
        n < 10000 ==> decimal(n).len() <= 4,
    decreases n,
{
    if n >= 10 {
        lemma_decimal_digits(n / 10);
        let d = decimal(n);
        assert forall|i: int| 0 <= i < d.len() implies is_digit(#[trigger] d[i]) by {
            if i < d.len() - 1 {
                assert(d[i] == decimal(n / 10)[i]);
            }
        }
    }
}

proof fn lemma_padded_digits(n: nat, w: nat)
    ensures
        all_digits(padded(n, w)),
        padded(n, w).len() == if decimal(n).len() >= w { decimal(n).len() } else { w },
    decreases w,
{
    lemma_decimal_digits(n);
    if decimal(n).len() < w {
        lemma_padded_digits(n, (w - 1) as nat);
        let p = padded(n, w);
        assert forall|i: int| 0 <= i < p.len() implies is_digit(#[trigger] p[i]) by {
            if i > 0 {
                assert(p[i] == padded(n, (w - 1) as nat)[i - 1]);
            }
        }
    }
}

/// The written form of a date-time: at least fifteen characters (exactly
/// fifteen for a four-digit year), all digits but one `T` and, for a year
/// outside 0–9999, a leading sign; it ends with a digit.
proof fn lemma_compact_text_form(t: Stamp)
    requires
        stamp_valid(t),
    ensures
        compact_text(t).len() >= 15,
        0 <= t.date.year <= 9999 ==> compact_text(t).len() == 15,
        forall|i: int| 0 <= i < compact_text(t).len() ==> compact_char(#[trigger] compact_text(t)[i]),
        is_digit(compact_text(t).last()),
{
    let yy = t.date.year as int;
    let y = year_text(yy);
    if 0 <= yy <= 9999 {
        lemma_padded_digits(yy as nat, 4);
        lemma_decimal_digits(yy as nat);
        assert(y == padded(yy as nat, 4));
        assert(y.len() == 4);
        assert forall|i: int| 0 <= i < y.len() implies compact_char(#[trigger] y[i]) by {}
    } else {
        let n: nat = if yy < 0 { (-yy) as nat } else { yy as nat };
        let sign = if yy < 0 { '-' } else { '+' };
        lemma_padded_digits(n, 4);
        let p = padded(n, 4);
        assert(y =~= seq![sign] + p);
        assert forall|i: int| 0 <= i < y.len() implies compact_char(#[trigger] y[i]) by {
            if i > 0 {
                assert(y[i] == p[i - 1]);
            }
        }
    }
    let l = y.len() as int;
    let ct = compact_text(t);
    let mo = two_digits(t.date.month as nat);
    let dd = two_digits(t.date.day as nat);
    let hh = two_digits(t.hour as nat);
    let mi = two_digits(t.minute as nat);
    let ss = two_digits(t.second as nat);
    assert(ct =~= y + mo + dd + seq!['T'] + hh + mi + ss);
    assert forall|i: int| 0 <= i < ct.len() implies compact_char(#[trigger] ct[i]) by {
        if i < l {
            assert(ct[i] == y[i]);
        } else if i < l + 2 {
            assert(ct[i] == mo[i - l]);
        } else if i < l + 4 {
            assert(ct[i] == dd[i - l - 2]);
        } else if i == l + 4 {
            assert(ct[i] == 'T');
        } else if i < l + 7 {
            assert(ct[i] == hh[i - l - 5]);
        } else if i < l + 9 {
            assert(ct[i] == mi[i - l - 7]);
        } else {
            assert(ct[i] == ss[i - l - 9]);
        }
    }
    assert(ct.last() == ss[1]);
}

proof fn lemma_ascii_bytes(s: Seq<char>, n: int)
    requires
        forall|i: int| 0 <= i < s.len() ==> (#[trigger] s[i] as u32) < 0x80,
        0 <= n <= s.len(),
    ensures
        utf8_len(s) == s.len(),
        chars_in_bytes(s, n) == Some(n as nat),
    decreases s.len(),
{
    if s.len() > 0 {
        let r = s.skip(1);
        assert forall|i: int| 0 <= i < r.len() implies (#[trigger] r[i] as u32) < 0x80 by {
            assert(r[i] == s[i + 1]);
        }
        assert((s[0] as u32) < 0x80);
        assert(utf8_width(s[0]) == 1);
        if n > 0 {
            lemma_ascii_bytes(r, n - 1);
        } else {
            lemma_ascii_bytes(r, 0);
        }
    }
}

proof fn lemma_before_char_absent(s: Seq<char>, c: char)
    requires
        forall|i: int| 0 <= i < s.len() ==> s[i] != c,
    ensures
        before_char(s, c) == s,
    decreases s.len(),
{
    if s.len() > 0 {
        let r = s.skip(1);
        assert forall|i: int| 0 <= i < r.len() implies r[i] != c by {
            assert(r[i] == s[i + 1]);
        }
        lemma_before_char_absent(r, c);
        assert(seq![s[0]] + r =~= s);
    }
}

proof fn lemma_before_char_split(a: Seq<char>, c: char, b: Seq<char>)
    requires
        forall|i: int| 0 <= i < a.len() ==> a[i] != c,
    ensures
        before_char(a + seq![c] + b, c) == a,
    decreases a.len(),
{
    let s = a + seq![c] + b;
    if a.len() == 0 {
        assert(s[0] == c);
    } else {
        let r = a.skip(1);
        assert forall|i: int| 0 <= i < r.len() implies r[i] != c by {
            assert(r[i] == a[i + 1]);
        }
        lemma_before_char_split(r, c, b);
        assert(s.skip(1) =~= r + seq![c] + b);
        assert(s[0] == a[0]);
        assert(seq![a[0]] + r =~= a);
    }
}

proof fn lemma_after_last_char_split(a: Seq<char>, c: char, b: Seq<char>)
    requires
        forall|i: int| 0 <= i < b.len() ==> b[i] != c,
    ensures
        after_last_char(a + seq![c] + b, c) == b,
    decreases b.len(),
{
    let s = a + seq![c] + b;
    if b.len() == 0 {
        assert(s.last() == c);
    } else {
        let r = b.drop_last();
        lemma_after_last_char_split(a, c, r);
        assert(s.drop_last() =~= a + seq![c] + r);
        assert(s.last() == b[b.len() - 1]);
        assert(r.push(b[b.len() - 1]) =~= b);
    }
}

proof fn lemma_unescaped_plain(s: Seq<char>)
    requires
        forall|i: int| 0 <= i < s.len() ==> s[i] != '\\',
    ensures
        unescaped(s) == s,
    decreases s.len(),
{
    if s.len() > 0 {
        let r = s.skip(1);
        assert forall|i: int| 0 <= i < r.len() implies r[i] != '\\' by {
            assert(r[i] == s[i + 1]);
        }
        lemma_unescaped_plain(r);
        assert(seq![s[0]] + r =~= s);
    }
}

// ----------------------------------------------------------------------------
// Date-time lines
// ----------------------------------------------------------------------------

/// A DTSTART or DTEND line written with a date-time is read as the first
/// fifteen characters of that text (all of it for a four-digit year) parsed
/// as a date-time, with no time zone applied.
proof fn lemma_date_line(head: Seq<char>, t: Stamp)
    requires
        stamp_valid(t),
        forall|i: int| 0 <= i < head.len() ==> head[i] != ':' && head[i] != ';',
        head.len() > 0,
        head[0] != 'T',
    ensures
        ical_date(head + seq![':'] + compact_text(t)) == DateParse::Value(
            compact_datetime(compact_text(t).take(15)),
        ),
{
    reveal_strlit("TZID=");
    let ct = compact_text(t);
    let line = head + seq![':'] + ct;
    lemma_compact_text_form(t);
    assert forall|i: int| 0 <= i < ct.len() implies ct[i] != ':' && (#[trigger] ct[i] as u32) < 0x80 by {
        assert(compact_char(ct[i]));
    }
    lemma_before_char_split(head, ':', ct);
    lemma_after_last_char_split(head, ':', ct);
    lemma_before_char_absent(head, ';');
    assert(!starts_with(head, "TZID="@)) by {
        if starts_with(head, "TZID="@) {
            assert(head.take(5)[0] == head[0]);
        }
    }
    assert(tzid_param(head) is None);
    assert(compact_char(ct[0]));
    assert(compact_char(ct.last()));
    assert(!is_white_space(ct[0]));
    assert(!is_white_space(ct.last()));
    assert(trim_start_ws(ct) == ct);
    assert(trim_end_ws(ct) == ct);
    assert(trim_ws(ct) == ct);
    lemma_ascii_bytes(ct, 15);
    assert(ct.last() != 'Z');
    match compact_datetime(ct.take(15)) {
        Some(x) => assert(in_zone(None, x) == Some(x)),
        None => {},
    }
}

// ----------------------------------------------------------------------------
// Property lines
// ----------------------------------------------------------------------------

proof fn lemma_prefix_parts(p: Seq<char>, rest: Seq<char>)
    ensures
        starts_with(p + rest, p),
        (p + rest).skip(p.len() as int) == rest,
{
    assert((p + rest).take(p.len() as int) =~= p);
    assert((p + rest).skip(p.len() as int) =~= rest);
}

proof fn lemma_not_prefix(s: Seq<char>, p: Seq<char>, i: int)
    requires
        0 <= i < p.len(),
        i < s.len(),
        s[i] != p[i],
    ensures
        !starts_with(s, p),
{
    if starts_with(s, p) {
        assert(s.take(p.len() as int)[i] == s[i]);
    }
}

/// A line that neither opens nor closes an event.
pub open spec fn inner_line(l: Seq<char>) -> bool {
    l != "BEGIN:VEVENT"@ && l != "END:VEVENT"@
}

proof fn lemma_inner_line(l: Seq<char>, i: int)
    requires
        0 <= i < l.len(),
        i < 10,
        l[i] != "BEGIN:VEVENT"@[i],
        l[i] != "END:VEVENT"@[i],
    ensures
        inner_line(l),
{
    reveal_strlit("BEGIN:VEVENT");
    reveal_strlit("END:VEVENT");
}

/// A line that starts with none of the property names the reader looks at.
proof fn lemma_other_line(d: DraftView, l: Seq<char>)
    requires
        l.len() > 0,
        l[0] != 'U' && l[0] != 'S' && l[0] != 'D' && l[0] != 'L',
    ensures
        draft_step(d, l) == Some(d),
{
    reveal_strlit("UID:");
    reveal_strlit("SUMMARY:");
    reveal_strlit("DTSTART");
    reveal_strlit("DTEND");
    reveal_strlit("DESCRIPTION:");
    reveal_strlit("LOCATION:");
    lemma_not_prefix(l, "UID:"@, 0);
    lemma_not_prefix(l, "SUMMARY:"@, 0);
    lemma_not_prefix(l, "DTSTART"@, 0);
    lemma_not_prefix(l, "DTEND"@, 0);
    lemma_not_prefix(l, "DESCRIPTION:"@, 0);
    lemma_not_prefix(l, "LOCATION:"@, 0);
}

proof fn lemma_uid_line(d: DraftView, u: Seq<char>)
    ensures
        draft_step(d, "UID:"@ + u) == Some(DraftView { uid: u, ..d }),
{
    reveal_strlit("UID:");
    lemma_prefix_parts("UID:"@, u);
}

proof fn lemma_summary_line(d: DraftView, e: Seq<char>)
    ensures
        draft_step(d, "SUMMARY:"@ + e) == Some(DraftView { summary: unescaped(e), ..d }),
{
    reveal_strlit("UID:");
    reveal_strlit("SUMMARY:");
    lemma_not_prefix("SUMMARY:"@ + e, "UID:"@, 0);
    lemma_prefix_parts("SUMMARY:"@, e);
}

proof fn lemma_location_line(d: DraftView, e: Seq<char>)
    ensures
        draft_step(d, "LOCATION:"@ + e) == Some(DraftView { location: Some(unescaped(e)), ..d }),
{
    reveal_strlit("UID:");
    reveal_strlit("SUMMARY:");
    reveal_strlit("DTSTART");
    reveal_strlit("DTEND");
    reveal_strlit("DESCRIPTION:");
    reveal_strlit("LOCATION:");
    let l = "LOCATION:"@ + e;
    lemma_not_prefix(l, "UID:"@, 0);
    lemma_not_prefix(l, "SUMMARY:"@, 0);
    lemma_not_prefix(l, "DTSTART"@, 0);
    lemma_not_prefix(l, "DTEND"@, 0);
    lemma_not_prefix(l, "DESCRIPTION:"@, 0);
    lemma_prefix_parts("LOCATION:"@, e);
}

proof fn lemma_description_line(d: DraftView, e: Seq<char>)
    ensures
        draft_step(d, "DESCRIPTION:"@ + e) == Some(DraftView { description: Some(unescaped(e)), ..d }),
{
    reveal_strlit("UID:");
    reveal_strlit("SUMMARY:");
    reveal_strlit("DTSTART");
    reveal_strlit("DTEND");
    reveal_strlit("DESCRIPTION:");
    let l = "DESCRIPTION:"@ + e;
    lemma_not_prefix(l, "UID:"@, 0);
    lemma_not_prefix(l, "SUMMARY:"@, 0);
    lemma_not_prefix(l, "DTSTART"@, 1);
    lemma_not_prefix(l, "DTEND"@, 1);
    lemma_prefix_parts("DESCRIPTION:"@, e);
}

proof fn lemma_dtstart_line(d: DraftView, t: Stamp)
    requires
        stamp_valid(t),
    ensures
        draft_step(d, "DTSTART:"@ + compact_text(t)) == Some(
            DraftView { dtstart: compact_datetime(compact_text(t).take(15)), ..d },
        ),
{
    reveal_strlit("UID:");
    reveal_strlit("SUMMARY:");
    reveal_strlit("DTSTART");
    reveal_strlit("DTSTART:");
    let l = "DTSTART:"@ + compact_text(t);
    lemma_not_prefix(l, "UID:"@, 0);
    lemma_not_prefix(l, "SUMMARY:"@, 0);
    assert("DTSTART:"@ =~= "DTSTART"@ + seq![':']);
    lemma_prefix_parts("DTSTART"@, seq![':'] + compact_text(t));
    assert(l =~= "DTSTART"@ + (seq![':'] + compact_text(t)));
    assert(l =~= "DTSTART"@ + seq![':'] + compact_text(t));
    lemma_date_line("DTSTART"@, t);
}

proof fn lemma_dtend_line(d: DraftView, t: Stamp)
    requires
        stamp_valid(t),
    ensures
        draft_step(d, "DTEND:"@ + compact_text(t)) == Some(
            DraftView { dtend: compact_datetime(compact_text(t).take(15)), ..d },
        ),
{
    reveal_strlit("UID:");
    reveal_strlit("SUMMARY:");
    reveal_strlit("DTSTART");
    reveal_strlit("DTEND");
    reveal_strlit("DTEND:");
    let l = "DTEND:"@ + compact_text(t);
    lemma_not_prefix(l, "UID:"@, 0);
    lemma_not_prefix(l, "SUMMARY:"@, 0);
    lemma_not_prefix(l, "DTSTART"@, 2);
    assert("DTEND:"@ =~= "DTEND"@ + seq![':']);
    lemma_prefix_parts("DTEND"@, seq![':'] + compact_text(t));
    assert(l =~= "DTEND"@ + (seq![':'] + compact_text(t)));
    assert(l =~= "DTEND"@ + seq![':'] + compact_text(t));
    lemma_date_line("DTEND"@, t);
}

// ----------------------------------------------------------------------------
// Scanning
// ----------------------------------------------------------------------------

proof fn lemma_scan_push(ls: Seq<Seq<char>>, l: Seq<char>, h: Seq<char>, t: Option<Seq<char>>)
    ensures
        scan_lines(ls.push(l), h, t) == scan_step(scan_lines(ls, h, t), l, h, t),
{
    assert(ls.push(l).drop_last() =~= ls);
}

/// A line inside an event applied by the scan.
proof fn lemma_scan_inner(
    ls: Seq<Seq<char>>,
    l: Seq<char>,
    h: Seq<char>,
    t: Option<Seq<char>>,
    d: DraftView,
    nd: DraftView,
)
    requires
        !scan_lines(ls, h, t).aborted,
        scan_lines(ls, h, t).current == Some(d),
        inner_line(l),
        draft_step(d, l) == Some(nd),
    ensures
        scan_lines(ls.push(l), h, t) == (IcalScan { current: Some(nd), ..scan_lines(ls, h, t) }),
{
    lemma_scan_push(ls, l, h, t);
}

/// A line outside any event that neither opens nor closes one leaves the
/// scan as it is.
proof fn lemma_scan_outside(ls: Seq<Seq<char>>, l: Seq<char>, h: Seq<char>, t: Option<Seq<char>>)
    requires
        scan_lines(ls, h, t).current is None,
        inner_line(l),
    ensures
        scan_lines(ls.push(l), h, t) == scan_lines(ls, h, t),
{
    lemma_scan_push(ls, l, h, t);
}

/// The event read back from the calendar object written for it.
pub open spec fn written_event(
    uid: Seq<char>,
    summary: Seq<char>,
    start: Stamp,
    end: Stamp,
    location: Seq<char>,
    description: Seq<char>,
    reminder: i32,
    href: Seq<char>,
    etag: Option<Seq<char>>,
) -> EventView {
    EventView {
        uid,
        href,
        etag,
        summary: without_cr(summary),
        start: compact_datetime(compact_text(start).take(15)),
        end: compact_datetime(compact_text(end).take(15)),
        description: if reminder > 0 {
            Some("Reminder"@)
        } else if description.len() > 0 {
            Some(without_cr(description))
        } else {
            None
        },
        location: if location.len() > 0 {
            Some(without_cr(location))
        } else {
            None
        },
    }
}

proof fn lemma_escaped_line(name: Seq<char>, v: Seq<char>)
    requires
        single_line(name),
        name.len() > 0,
        name[0] != ' ' && name[0] != '\t',
    ensures
        plain_line(name + escaped(v)),
{
    lemma_escaped_has_no_line_break(v);
    let l = name + escaped(v);
    assert forall|i: int| 0 <= i < l.len() implies l[i] != '\n' && l[i] != '\r' by {
        if i >= name.len() {
            assert(l[i] == escaped(v)[i - name.len()]);
        } else {
            assert(l[i] == name[i]);
        }
    }
    assert(l[0] == name[0]);
}

proof fn lemma_joined_plain(a: Seq<char>, b: Seq<char>)
    requires
        single_line(a),
        single_line(b),
        a.len() > 0,
        a[0] != ' ' && a[0] != '\t',
    ensures
        plain_line(a + b),
{
    let l = a + b;
    assert forall|i: int| 0 <= i < l.len() implies l[i] != '\n' && l[i] != '\r' by {
        if i >= a.len() {
            assert(l[i] == b[i - a.len()]);
        } else {
            assert(l[i] == a[i]);
        }
    }
    assert(l[0] == a[0]);
}

proof fn lemma_event_lines_plain(
    uid: Seq<char>,
    summary: Seq<char>,
    start: Stamp,
    end: Stamp,
    location: Seq<char>,
    description: Seq<char>,
    reminder: i32,
)
    requires
        single_line(uid),
        stamp_valid(start),
        stamp_valid(end),
    ensures
        forall|k: int|
            0 <= k < event_lines(uid, summary, start, end, location, description, reminder).len()
                ==> plain_line(
                #[trigger] event_lines(uid, summary, start, end, location, description, reminder)[k],
            ),
{
    reveal_strlit("BEGIN:VCALENDAR");
    reveal_strlit("VERSION:2.0");
    reveal_strlit("PRODID:-//cosmic-caldav//EN");
    reveal_strlit("BEGIN:VEVENT");
    reveal_strlit("UID:");
    reveal_strlit("SUMMARY:");
    reveal_strlit("LOCATION:");
    reveal_strlit("DESCRIPTION:");
    reveal_strlit("DTSTART:");
    reveal_strlit("DTEND:");
    reveal_strlit("BEGIN:VALARM");
    reveal_strlit("TRIGGER:-PT");
    reveal_strlit("M");
    reveal_strlit("ACTION:DISPLAY");
    reveal_strlit("DESCRIPTION:Reminder");
    reveal_strlit("END:VALARM");
    reveal_strlit("END:VEVENT");
    reveal_strlit("END:VCALENDAR");
    let ls = event_lines(uid, summary, start, end, location, description, reminder);
    lemma_joined_plain("UID:"@, uid);
    lemma_escaped_line("SUMMARY:"@, summary);
    lemma_escaped_line("LOCATION:"@, location);
    lemma_escaped_line("DESCRIPTION:"@, description);
    lemma_compact_text_form(start);
    lemma_compact_text_form(end);
    assert(single_line(compact_text(start))) by {
        assert forall|i: int| 0 <= i < compact_text(start).len() implies compact_text(start)[i] != '\n'
            && compact_text(start)[i] != '\r' by {
            assert(compact_char(compact_text(start)[i]));
        }
    }
    assert(single_line(compact_text(end))) by {
        assert forall|i: int| 0 <= i < compact_text(end).len() implies compact_text(end)[i] != '\n'
            && compact_text(end)[i] != '\r' by {
            assert(compact_char(compact_text(end)[i]));
        }
    }
    lemma_joined_plain("DTSTART:"@, compact_text(start));
    lemma_joined_plain("DTEND:"@, compact_text(end));
    lemma_decimal_digits(reminder as nat);
    let dec = decimal(reminder as nat);
    assert(single_line(dec)) by {
        assert forall|i: int| 0 <= i < dec.len() implies dec[i] != '\n' && dec[i] != '\r' by {
            assert(is_digit(dec[i]));
        }
    }
    lemma_joined_plain("TRIGGER:-PT"@, dec);
    lemma_joined_plain("TRIGGER:-PT"@ + dec, "M"@);
    let head = seq![
        "BEGIN:VCALENDAR"@,
        "VERSION:2.0"@,
        "PRODID:-//cosmic-caldav//EN"@,
        "BEGIN:VEVENT"@,
        "UID:"@ + uid,
        "SUMMARY:"@ + escaped(summary),
    ];
    let loc = optional_line("LOCATION:"@, location);
    let desc = optional_line("DESCRIPTION:"@, description);
    let times = seq!["DTSTART:"@ + compact_text(start), "DTEND:"@ + compact_text(end)];
    let alarm = alarm_lines(reminder);
    let tail = seq!["END:VEVENT"@, "END:VCALENDAR"@];
    assert forall|k: int| 0 <= k < ls.len() implies plain_line(#[trigger] ls[k]) by {
        let a = head.len() as int;
        let b = a + loc.len();
        let c = b + desc.len();
        let e = c + 2;
        let f = e + alarm.len();
        assert(ls == head + loc + desc + times + alarm + tail);
        if k < a {
            assert(ls[k] == head[k]);
        } else if k < b {
            assert(ls[k] == loc[k - a]);
        } else if k < c {
            assert(ls[k] == desc[k - b]);
        } else if k < e {
            assert(ls[k] == times[k - c]);
        } else if k < f {
            assert(ls[k] == alarm[k - e]);
        } else {
            assert(ls[k] == tail[k - f]);
        }
    }
}

/// The scan is inside its first event, which reads as `d` so far.
pub open spec fn reading(ls: Seq<Seq<char>>, h: Seq<char>, t: Option<Seq<char>>, d: DraftView) -> bool {
    scan_lines(ls, h, t) == (IcalScan { events: Seq::empty(), current: Some(d), aborted: false })
}

proof fn lemma_scan_head(uid: Seq<char>, summary: Seq<char>, h: Seq<char>, t: Option<Seq<char>>)
    ensures
        reading(
            seq![
                "BEGIN:VCALENDAR"@,
                "VERSION:2.0"@,
                "PRODID:-//cosmic-caldav//EN"@,
                "BEGIN:VEVENT"@,
                "UID:"@ + uid,
                "SUMMARY:"@ + escaped(summary),
            ],
            h,
            t,
            DraftView { uid: uid, summary: without_cr(summary), ..empty_draft() },
        ),
{
    reveal_strlit("BEGIN:VCALENDAR");
    reveal_strlit("VERSION:2.0");
    reveal_strlit("PRODID:-//cosmic-caldav//EN");
    reveal_strlit("BEGIN:VEVENT");
    reveal_strlit("END:VEVENT");
    reveal_strlit("UID:");
    reveal_strlit("SUMMARY:");
    lemma_text_escape_round_trip(summary);
    let mut ls: Seq<Seq<char>> = Seq::empty();
    let l = "BEGIN:VCALENDAR"@;
    lemma_inner_line(l, 7);
    lemma_scan_outside(ls, l, h, t);
    ls = ls.push(l);
    let l = "VERSION:2.0"@;
    lemma_inner_line(l, 0);
    lemma_scan_outside(ls, l, h, t);
    ls = ls.push(l);
    let l = "PRODID:-//cosmic-caldav//EN"@;
    lemma_inner_line(l, 0);
    lemma_scan_outside(ls, l, h, t);
    ls = ls.push(l);
    let l = "BEGIN:VEVENT"@;
    lemma_scan_push(ls, l, h, t);
    ls = ls.push(l);
    let d0 = empty_draft();
    assert(reading(ls, h, t, d0));
    let l = "UID:"@ + uid;
    lemma_inner_line(l, 0);
    lemma_uid_line(d0, uid);
    let d1 = DraftView { uid: uid, ..d0 };
    lemma_scan_inner(ls, l, h, t, d0, d1);
    ls = ls.push(l);
    let l = "SUMMARY:"@ + escaped(summary);
    lemma_inner_line(l, 0);
    lemma_summary_line(d1, escaped(summary));
    let d2 = DraftView { summary: without_cr(summary), ..d1 };
    lemma_scan_inner(ls, l, h, t, d1, d2);
    ls = ls.push(l);
    assert(ls =~= seq![
        "BEGIN:VCALENDAR"@,
        "VERSION:2.0"@,
        "PRODID:-//cosmic-caldav//EN"@,
        "BEGIN:VEVENT"@,
        "UID:"@ + uid,
        "SUMMARY:"@ + escaped(summary),
    ]);
}

proof fn lemma_scan_location(ls: Seq<Seq<char>>, h: Seq<char>, t: Option<Seq<char>>, d: DraftView, location: Seq<char>)
    requires
        reading(ls, h, t, d),
    ensures
        reading(
            ls + optional_line("LOCATION:"@, location),
            h,
            t,
            if location.len() > 0 { DraftView { location: Some(without_cr(location)), ..d } } else { d },
        ),
{
    reveal_strlit("LOCATION:");
    reveal_strlit("BEGIN:VEVENT");
    reveal_strlit("END:VEVENT");
    lemma_text_escape_round_trip(location);
    if location.len() > 0 {
        let l = "LOCATION:"@ + escaped(location);
        lemma_inner_line(l, 0);
        lemma_location_line(d, escaped(location));
        lemma_scan_inner(ls, l, h, t, d, DraftView { location: Some(without_cr(location)), ..d });
        assert(ls.push(l) =~= ls + optional_line("LOCATION:"@, location));
    } else {
        assert(ls =~= ls + optional_line("LOCATION:"@, location));
    }
}

proof fn lemma_scan_description(
    ls: Seq<Seq<char>>,
    h: Seq<char>,
    t: Option<Seq<char>>,
    d: DraftView,
    description: Seq<char>,
)
    requires
        reading(ls, h, t, d),
    ensures
        reading(
            ls + optional_line("DESCRIPTION:"@, description),
            h,
            t,
            if description.len() > 0 {
                DraftView { description: Some(without_cr(description)), ..d }
            } else {
                d
            },
        ),
{
    reveal_strlit("DESCRIPTION:");
    reveal_strlit("BEGIN:VEVENT");
    reveal_strlit("END:VEVENT");
    lemma_text_escape_round_trip(description);
    if description.len() > 0 {
        let l = "DESCRIPTION:"@ + escaped(description);
        lemma_inner_line(l, 0);
        lemma_description_line(d, escaped(description));
        lemma_scan_inner(ls, l, h, t, d, DraftView { description: Some(without_cr(description)), ..d });
        assert(ls.push(l) =~= ls + optional_line("DESCRIPTION:"@, description));
    } else {
        assert(ls =~= ls + optional_line("DESCRIPTION:"@, description));
    }
}

proof fn lemma_scan_times(
    ls: Seq<Seq<char>>,
    h: Seq<char>,
    t: Option<Seq<char>>,
    d: DraftView,
    start: Stamp,
    end: Stamp,
)
    requires
        reading(ls, h, t, d),
        stamp_valid(start),
        stamp_valid(end),
    ensures
        reading(
            ls + seq!["DTSTART:"@ + compact_text(start), "DTEND:"@ + compact_text(end)],
            h,
            t,
            DraftView {
                dtstart: compact_datetime(compact_text(start).take(15)),
                dtend: compact_datetime(compact_text(end).take(15)),
                ..d
            },
        ),
{
    reveal_strlit("DTSTART:");
    reveal_strlit("DTEND:");
    reveal_strlit("BEGIN:VEVENT");
    reveal_strlit("END:VEVENT");
    let l1 = "DTSTART:"@ + compact_text(start);
    lemma_inner_line(l1, 0);
    lemma_dtstart_line(d, start);
    let d1 = DraftView { dtstart: compact_datetime(compact_text(start).take(15)), ..d };
    lemma_scan_inner(ls, l1, h, t, d, d1);
    let l2 = "DTEND:"@ + compact_text(end);
    lemma_inner_line(l2, 0);
    lemma_dtend_line(d1, end);
    let d2 = DraftView { dtend: compact_datetime(compact_text(end).take(15)), ..d1 };
    lemma_scan_inner(ls.push(l1), l2, h, t, d1, d2);
    assert(ls.push(l1).push(l2) =~= ls + seq![l1, l2]);
}

proof fn lemma_scan_alarm(ls: Seq<Seq<char>>, h: Seq<char>, t: Option<Seq<char>>, d: DraftView, reminder: i32)
    requires
        reading(ls, h, t, d),
    ensures
        reading(
            ls + alarm_lines(reminder),
            h,
            t,
            if reminder > 0 { DraftView { description: Some("Reminder"@), ..d } } else { d },
        ),
{
    reveal_strlit("BEGIN:VALARM");
    reveal_strlit("TRIGGER:-PT");
    reveal_strlit("ACTION:DISPLAY");
    reveal_strlit("DESCRIPTION:Reminder");
    reveal_strlit("DESCRIPTION:");
    reveal_strlit("Reminder");
    reveal_strlit("END:VALARM");
    reveal_strlit("BEGIN:VEVENT");
    reveal_strlit("END:VEVENT");
    if reminder > 0 {
        let mut cur = ls;
        let l = "BEGIN:VALARM"@;
        lemma_inner_line(l, 7);
        lemma_other_line(d, l);
        lemma_scan_inner(cur, l, h, t, d, d);
        cur = cur.push(l);
        let l = "TRIGGER:-PT"@ + decimal(reminder as nat) + "M"@;
        assert(l[0] == 'T');
        lemma_inner_line(l, 0);
        lemma_other_line(d, l);
        lemma_scan_inner(cur, l, h, t, d, d);
        cur = cur.push(l);
        let l = "ACTION:DISPLAY"@;
        lemma_inner_line(l, 0);
        lemma_other_line(d, l);
        lemma_scan_inner(cur, l, h, t, d, d);
        cur = cur.push(l);
        let l = "DESCRIPTION:Reminder"@;
        let d7 = DraftView { description: Some("Reminder"@), ..d };
        lemma_inner_line(l, 0);
        assert(l =~= "DESCRIPTION:"@ + "Reminder"@);
        lemma_description_line(d, "Reminder"@);
        lemma_unescaped_plain("Reminder"@);
        lemma_scan_inner(cur, l, h, t, d, d7);
        cur = cur.push(l);
        let l = "END:VALARM"@;
        lemma_inner_line(l, 5);
        lemma_other_line(d7, l);
        lemma_scan_inner(cur, l, h, t, d7, d7);
        cur = cur.push(l);
        assert(cur =~= ls + alarm_lines(reminder));
    } else {
        assert(ls =~= ls + alarm_lines(reminder));
    }
}

proof fn lemma_scan_tail(ls: Seq<Seq<char>>, h: Seq<char>, t: Option<Seq<char>>, d: DraftView, e: EventView)
    requires
        reading(ls, h, t, d),
        finish_draft(d, h, t) == Some(e),
    ensures
        scan_lines(ls + seq!["END:VEVENT"@, "END:VCALENDAR"@], h, t) == (IcalScan {
            events: seq![e],
            current: None,
            aborted: false,
        }),
{
    reveal_strlit("END:VEVENT");
    reveal_strlit("BEGIN:VEVENT");
    reveal_strlit("END:VCALENDAR");
    let l1 = "END:VEVENT"@;
    lemma_scan_push(ls, l1, h, t);
    assert(Seq::<EventView>::empty().push(e) =~= seq![e]);
    let l2 = "END:VCALENDAR"@;
    lemma_inner_line(l2, 5);
    lemma_scan_outside(ls.push(l1), l2, h, t);
    assert(ls.push(l1).push(l2) =~= ls + seq![l1, l2]);
}

/// Reading back the calendar object written for an event gives exactly one
/// event: the written UID, summary and location (without carriage returns),
/// the start and end as the first fifteen characters of their written text
/// read back (all of it for a four-digit year), and the resource's href and
/// etag. Its description is the written one, except that with a reminder
/// the alarm's `DESCRIPTION:Reminder` line, which comes later, replaces it.
/// This holds for a non-empty UID without line breaks.
pub proof fn lemma_written_event_reads_back(
    uid: Seq<char>,
    summary: Seq<char>,
    start: Stamp,
    end: Stamp,
    location: Seq<char>,
    description: Seq<char>,
    reminder: i32,
    href: Seq<char>,
    etag: Option<Seq<char>>,
)
    requires
        uid.len() > 0,
        single_line(uid),
        stamp_valid(start),
        stamp_valid(end),
    ensures
        ical_scan(ical_event_text(uid, summary, start, end, location, description, reminder), href, etag)
            == (IcalScan {
            events: seq![
                written_event(uid, summary, start, end, location, description, reminder, href, etag),
            ],
            current: None,
            aborted: false,
        }),
{
    let h = href;
    let t = etag;
    let all = event_lines(uid, summary, start, end, location, description, reminder);
    lemma_event_lines_plain(uid, summary, start, end, location, description, reminder);
    lemma_crlf_lines_read_back(all);
    let head = seq![
        "BEGIN:VCALENDAR"@,
        "VERSION:2.0"@,
        "PRODID:-//cosmic-caldav//EN"@,
        "BEGIN:VEVENT"@,
        "UID:"@ + uid,
        "SUMMARY:"@ + escaped(summary),
    ];
    let loc = optional_line("LOCATION:"@, location);
    let desc = optional_line("DESCRIPTION:"@, description);
    let times = seq!["DTSTART:"@ + compact_text(start), "DTEND:"@ + compact_text(end)];
    let alarm = alarm_lines(reminder);
    let tail = seq!["END:VEVENT"@, "END:VCALENDAR"@];
    let d2 = DraftView { uid: uid, summary: without_cr(summary), ..empty_draft() };
    lemma_scan_head(uid, summary, h, t);
    let d3 = if location.len() > 0 { DraftView { location: Some(without_cr(location)), ..d2 } } else { d2 };
    lemma_scan_location(head, h, t, d2, location);
    let d4 = if description.len() > 0 {
        DraftView { description: Some(without_cr(description)), ..d3 }
    } else {
        d3
    };
    lemma_scan_description(head + loc, h, t, d3, description);
    let d6 = DraftView {
        dtstart: compact_datetime(compact_text(start).take(15)),
        dtend: compact_datetime(compact_text(end).take(15)),
        ..d4
    };
    lemma_scan_times(head + loc + desc, h, t, d4, start, end);
    let d7 = if reminder > 0 { DraftView { description: Some("Reminder"@), ..d6 } } else { d6 };
    lemma_scan_alarm(head + loc + desc + times, h, t, d6, reminder);
    let e = written_event(uid, summary, start, end, location, description, reminder, href, etag);
    assert(finish_draft(d7, h, t) == Some(e));
    lemma_scan_tail(head + loc + desc + times + alarm, h, t, d7, e);
    assert(all == head + loc + desc + times + alarm + tail);
}

// ----------------------------------------------------------------------------
// Date-time lines with parameters
// ----------------------------------------------------------------------------

/// A line `head:value` whose value is a written date-time reads as the first
/// fifteen characters of that value, in the zone of the head's TZID
/// parameter when it has one.
proof fn lemma_value_line(head: Seq<char>, t: Stamp)
    requires
        stamp_valid(t),
        forall|i: int| 0 <= i < head.len() ==> head[i] != ':',
    ensures
        ical_date(head + seq![':'] + compact_text(t)) == DateParse::Value(
            match compact_datetime(compact_text(t).take(15)) {
                Some(x) => in_zone(tzid_param(head), x),
                None => None,
            },
        ),
{
    let ct = compact_text(t);
    lemma_compact_text_form(t);
    assert forall|i: int| 0 <= i < ct.len() implies ct[i] != ':' && (#[trigger] ct[i] as u32) < 0x80 by {
        assert(compact_char(ct[i]));
    }
    lemma_before_char_split(head, ':', ct);
    lemma_after_last_char_split(head, ':', ct);
    assert(compact_char(ct[0]));
    assert(compact_char(ct.last()));
    assert(!is_white_space(ct[0]));
    assert(!is_white_space(ct.last()));
    assert(trim_start_ws(ct) == ct);
    assert(trim_end_ws(ct) == ct);
    assert(trim_ws(ct) == ct);
    lemma_ascii_bytes(ct, 15);
    assert(ct.last() != 'Z');
}

/// The TZID parameter of `name;TZID=zone`, for a property name without `;`
/// and a zone without `;`, is the zone.
proof fn lemma_tzid_head(name: Seq<char>, z: Seq<char>)
    requires
        name.len() > 0,
        name[0] != 'T',
        forall|i: int| 0 <= i < name.len() ==> name[i] != ';',
        forall|i: int| 0 <= i < z.len() ==> z[i] != ';',
    ensures
        tzid_param(name + ";TZID="@ + z) == Some(z),
{
    reveal_strlit("TZID=");
    reveal_strlit(";TZID=");
    let head = name + ";TZID="@ + z;
    let rest = "TZID="@ + z;
    assert(head =~= name + seq![';'] + rest);
    lemma_before_char_split(name, ';', rest);
    lemma_not_prefix(name, "TZID="@, 0);
    assert(head.skip(name.len() + 1 as int) =~= rest);
    assert forall|i: int| 0 <= i < rest.len() implies rest[i] != ';' by {
        if i >= 5 {
            assert(rest[i] == z[i - 5]);
        }
    }
    lemma_before_char_absent(rest, ';');
    lemma_prefix_parts("TZID="@, z);
    assert(tzid_param(rest) == Some(z));
}

/// A DTSTART or DTEND line, whatever its parameters, sets the event's start
/// or end to the date the line reads as ([`ical_date`]), and stops the whole
/// reading where that value cannot be cut.
pub proof fn lemma_date_lines_set_times(d: DraftView, line: Seq<char>)
    ensures
        starts_with(line, "DTSTART"@) ==> draft_step(d, line) == match ical_date(line) {
            DateParse::Value(v) => Some(DraftView { dtstart: v, ..d }),
            DateParse::Aborts => None::<DraftView>,
        },
        starts_with(line, "DTEND"@) ==> draft_step(d, line) == match ical_date(line) {
            DateParse::Value(v) => Some(DraftView { dtend: v, ..d }),
            DateParse::Aborts => None::<DraftView>,
        },
{
    reveal_strlit("UID:");
    reveal_strlit("SUMMARY:");
    reveal_strlit("DTSTART");
    reveal_strlit("DTEND");
    if starts_with(line, "DTSTART"@) {
        assert(line[0] == "DTSTART"@[0]);
        lemma_not_prefix(line, "UID:"@, 0);
        lemma_not_prefix(line, "SUMMARY:"@, 0);
    }
    if starts_with(line, "DTEND"@) {
        assert(line[0] == "DTEND"@[0]);
        assert(line[2] == "DTEND"@[2]);
        lemma_not_prefix(line, "UID:"@, 0);
        lemma_not_prefix(line, "SUMMARY:"@, 0);
        lemma_not_prefix(line, "DTSTART"@, 2);
    }
}

/// A start or end written as a wall-clock time with a TZID parameter is
/// read as that time in that zone: the event's start (or end) becomes the
/// UTC time the zone gives for it (the time itself for a zone the database
/// does not know, none for a time the zone skips).
pub proof fn lemma_zoned_times_read(d: DraftView, zone: Seq<char>, t: Stamp)
    requires
        stamp_valid(t),
        forall|i: int| 0 <= i < zone.len() ==> zone[i] != ':' && zone[i] != ';',
    ensures
        draft_step(d, "DTSTART;TZID="@ + zone + ":"@ + compact_text(t)) == Some(
            DraftView {
                dtstart: match compact_datetime(compact_text(t).take(15)) {
                    Some(x) => in_zone(Some(zone), x),
                    None => None,
                },
                ..d
            },
        ),
        draft_step(d, "DTEND;TZID="@ + zone + ":"@ + compact_text(t)) == Some(
            DraftView {
                dtend: match compact_datetime(compact_text(t).take(15)) {
                    Some(x) => in_zone(Some(zone), x),
                    None => None,
                },
                ..d
            },
        ),
{
    reveal_strlit("DTSTART");
    reveal_strlit("DTEND");
    reveal_strlit(";TZID=");
    reveal_strlit(":");
    reveal_strlit("DTSTART;TZID=");
    reveal_strlit("DTEND;TZID=");
    let hs = "DTSTART"@ + ";TZID="@ + zone;
    let he = "DTEND"@ + ";TZID="@ + zone;
    assert("DTSTART;TZID="@ + zone =~= hs);
    assert("DTEND;TZID="@ + zone =~= he);
    lemma_tzid_head("DTSTART"@, zone);
    lemma_tzid_head("DTEND"@, zone);
    assert forall|i: int| 0 <= i < hs.len() implies hs[i] != ':' by {
        if i >= 13 {
            assert(hs[i] == zone[i - 13]);
        }
    }
    assert forall|i: int| 0 <= i < he.len() implies he[i] != ':' by {
        if i >= 11 {
            assert(he[i] == zone[i - 11]);
        }
    }
    lemma_value_line(hs, t);
    lemma_value_line(he, t);
    let ls = "DTSTART;TZID="@ + zone + ":"@ + compact_text(t);
    let le = "DTEND;TZID="@ + zone + ":"@ + compact_text(t);
    assert(ls =~= hs + seq![':'] + compact_text(t));
    assert(le =~= he + seq![':'] + compact_text(t));
    lemma_prefix_parts("DTSTART"@, ls.skip(7));
    assert(ls =~= "DTSTART"@ + ls.skip(7));
    lemma_prefix_parts("DTEND"@, le.skip(5));
    assert(le =~= "DTEND"@ + le.skip(5));
    lemma_date_lines_set_times(d, ls);
    lemma_date_lines_set_times(d, le);
}

/// A start or end written as a date alone (`VALUE=DATE`, eight digits) is
/// read as midnight UTC of that date.
pub proof fn lemma_all_day_times_read(d: DraftView, v: Seq<char>)
    requires
        v.len() == 8,
        forall|i: int| 0 <= i < 8 ==> is_digit(#[trigger] v[i]),
    ensures
        draft_step(d, "DTSTART;VALUE=DATE:"@ + v) == Some(
            DraftView {
                dtstart: match compact_date(v) {
                    Some(x) => Some(midnight(x)),
                    None => None,
                },
                ..d
            },
        ),
        draft_step(d, "DTEND;VALUE=DATE:"@ + v) == Some(
            DraftView {
                dtend: match compact_date(v) {
                    Some(x) => Some(midnight(x)),
                    None => None,
                },
                ..d
            },
        ),
{
    reveal_strlit("DTSTART");
    reveal_strlit("DTEND");
    reveal_strlit("DTSTART;VALUE=DATE");
    reveal_strlit("DTEND;VALUE=DATE");
    reveal_strlit("DTSTART;VALUE=DATE:");
    reveal_strlit("DTEND;VALUE=DATE:");
    let hs = "DTSTART;VALUE=DATE"@;
    let he = "DTEND;VALUE=DATE"@;
    assert("DTSTART;VALUE=DATE:"@ + v =~= hs + seq![':'] + v);
    assert("DTEND;VALUE=DATE:"@ + v =~= he + seq![':'] + v);
    assert forall|i: int| 0 <= i < v.len() implies v[i] != ':' && (#[trigger] v[i] as u32) < 0x80 by {
        assert(is_digit(v[i]));
    }
    lemma_before_char_split(hs, ':', v);
    lemma_after_last_char_split(hs, ':', v);
    lemma_before_char_split(he, ':', v);
    lemma_after_last_char_split(he, ':', v);
    assert(is_digit(v[0]));
    assert(is_digit(v[7]));
    assert(v.last() == v[7]);
    assert(!is_white_space(v[0]));
    assert(!is_white_space(v.last()));
    assert(trim_start_ws(v) == v);
    assert(trim_end_ws(v) == v);
    assert(trim_ws(v) == v);
    lemma_ascii_bytes(v, 8);
    let ls = "DTSTART;VALUE=DATE:"@ + v;
    let le = "DTEND;VALUE=DATE:"@ + v;
    lemma_prefix_parts("DTSTART"@, ls.skip(7));
    assert(ls =~= "DTSTART"@ + ls.skip(7));
    lemma_prefix_parts("DTEND"@, le.skip(5));
    assert(le =~= "DTEND"@ + le.skip(5));
    lemma_date_lines_set_times(d, ls);
    lemma_date_lines_set_times(d, le);
}

} // verus!
