//! iCalendar (RFC 5545) text handling: escaping of TEXT values and
//! unfolding of content lines.

use vstd::prelude::*;
use crate::text::{chars_of, push_chars, slice_chars, string_of};

verus! {

// ----------------------------------------------------------------------------
// TEXT escaping
// ----------------------------------------------------------------------------

/// How one character of a TEXT value is written: backslash, semicolon and
/// comma get a backslash in front, a line feed becomes `\n`, and a carriage
/// return is dropped.
pub open spec fn escape_unit(c: char) -> Seq<char> {
    if c == '\\' {
        seq!['\\', '\\']
    } else if c == ';' {
        seq!['\\', ';']
    } else if c == ',' {
        seq!['\\', ',']
    } else if c == '\n' {
        seq!['\\', 'n']
    } else if c == '\r' {
        Seq::empty()
    } else {
        seq![c]
    }
}

/// A TEXT value with every character escaped.
pub open spec fn escaped(s: Seq<char>) -> Seq<char>
    decreases s.len(),
{
    if s.len() == 0 {
        Seq::empty()
    } else {
        escape_unit(s[0]) + escaped(s.skip(1))
    }
}

/// An escaped TEXT value read back: `\n` and `\N` give a line feed, `\,` `\;`
/// and `\\` give the character after the backslash, a backslash before any
/// other character is kept together with that character, and a backslash at
/// the very end is kept.
pub open spec fn unescaped(s: Seq<char>) -> Seq<char>
    decreases s.len(),
{
    if s.len() == 0 {
        Seq::empty()
    } else if s[0] != '\\' {
        seq![s[0]] + unescaped(s.skip(1))
    } else if s.len() == 1 {
        seq!['\\']
    } else if s[1] == 'n' || s[1] == 'N' {
        seq!['\n'] + unescaped(s.skip(2))
    } else if s[1] == ',' || s[1] == ';' || s[1] == '\\' {
        seq![s[1]] + unescaped(s.skip(2))
    } else {
        seq!['\\', s[1]] + unescaped(s.skip(2))
    }
}

/// `s` without its carriage returns.
pub open spec fn without_cr(s: Seq<char>) -> Seq<char>
    decreases s.len(),
{
    if s.len() == 0 {
        Seq::empty()
    } else {
        (if s[0] == '\r' { Seq::empty() } else { seq![s[0]] }) + without_cr(s.skip(1))
    }
}

/// Escapes a TEXT value for an iCalendar property.
pub fn escape_ical_text(s: &str) -> (out: String)
    ensures
        out@ == escaped(s@),
{
    let v = chars_of(s);
    let mut out: Vec<char> = Vec::new();
    let mut i: usize = 0;
    assert(v@.skip(0) =~= v@);
    while i < v.len()
        invariant
            i <= v@.len(),
            v@ == s@,
            escaped(s@) == out@ + escaped(v@.skip(i as int)),
        decreases v@.len() - i,
    {
        proof {
            assert(v@.skip(i as int).skip(1) =~= v@.skip(i + 1));
        }
        let c = v[i];
        if c == '\\' {
            out.push('\\');
            out.push('\\');
        } else if c == ';' {
            out.push('\\');
            out.push(';');
        } else if c == ',' {
            out.push('\\');
            out.push(',');
        } else if c == '\n' {
            out.push('\\');
            out.push('n');
        } else if c != '\r' {
            out.push(c);
        }
        i += 1;
        assert(escaped(s@) =~= out@ + escaped(v@.skip(i as int)));
    }
    assert(escaped(v@.skip(i as int)) =~= Seq::<char>::empty());
    assert(out@ =~= escaped(s@));
    string_of(out.as_slice())
}

/// Reads back an escaped TEXT value in a single pass, so that an escaped
/// backslash followed by `n` stays a backslash and an `n`.
pub fn unescape_ical_text(text: &str) -> (out: String)
    ensures
        out@ == unescaped(text@),
{
    let v = chars_of(text);
    let out = unescape_chars(v.as_slice());
    string_of(out.as_slice())
}

/// `unescape_ical_text` over characters.
pub fn unescape_chars(v: &[char]) -> (out: Vec<char>)
    ensures
        out@ == unescaped(v@),
{
    let mut out: Vec<char> = Vec::new();
    let mut i: usize = 0;
    assert(v@.skip(0) =~= v@);
    while i < v.len()
        invariant
            i <= v@.len(),
            unescaped(v@) == out@ + unescaped(v@.skip(i as int)),
        decreases v@.len() - i,
    {
        let ghost rest = v@.skip(i as int);
        let c = v[i];
        if c != '\\' {
            out.push(c);
            i += 1;
            assert(rest.skip(1) =~= v@.skip(i as int));
        } else if i + 1 == v.len() {
            out.push('\\');
            i += 1;
            assert(v@.skip(i as int) =~= Seq::<char>::empty());
        } else {
            let d = v[i + 1];
            if d == 'n' || d == 'N' {
                out.push('\n');
            } else if d == ',' || d == ';' || d == '\\' {
                out.push(d);
            } else {
                out.push('\\');
                out.push(d);
            }
            i += 2;
            assert(rest.skip(2) =~= v@.skip(i as int));
        }
        assert(unescaped(v@) =~= out@ + unescaped(v@.skip(i as int)));
    }
    assert(unescaped(v@.skip(i as int)) =~= Seq::<char>::empty());
    assert(out@ =~= unescaped(v@));
    out
}

/// Reading back one escaped character gives the character (nothing for a
/// carriage return), whatever follows it.
proof fn lemma_unescape_unit(c: char, t: Seq<char>)
    ensures
        unescaped(escape_unit(c) + t) == (if c == '\r' { Seq::empty() } else { seq![c] })
            + unescaped(t),
{
    let u = escape_unit(c) + t;
    if c == '\r' {
        assert(u =~= t);
    } else if c == '\\' || c == ';' || c == ',' || c == '\n' {
        assert(u.skip(2) =~= t);
    } else {
        assert(u.skip(1) =~= t);
    }
}

/// Escaping a TEXT value and reading it back gives the value again, without
/// its carriage returns.
pub proof fn lemma_text_escape_round_trip(s: Seq<char>)
    ensures
        unescaped(escaped(s)) == without_cr(s),
    decreases s.len(),
{
    if s.len() > 0 {
        lemma_text_escape_round_trip(s.skip(1));
        lemma_unescape_unit(s[0], escaped(s.skip(1)));
    }
}

/// An escaped TEXT value holds no line break, so it stays on its content line.
pub proof fn lemma_escaped_has_no_line_break(s: Seq<char>)
    ensures
        forall|i: int|
            0 <= i < escaped(s).len() ==> #[trigger] escaped(s)[i] != '\n' && escaped(s)[i]
                != '\r',
    decreases s.len(),
{
    if s.len() > 0 {
        lemma_escaped_has_no_line_break(s.skip(1));
        let e = escaped(s);
        let u = escape_unit(s[0]);
        assert forall|i: int| 0 <= i < e.len() implies #[trigger] e[i] != '\n' && e[i] != '\r' by {
            if i >= u.len() {
                assert(e[i] == escaped(s.skip(1))[i - u.len()]);
            }
        }
    }
}

// ----------------------------------------------------------------------------
// Content lines
// ----------------------------------------------------------------------------

/// `s` cut at every line feed (the line feeds themselves are dropped); there is
/// always at least one piece, the last one unterminated.
pub open spec fn split_newlines(s: Seq<char>) -> Seq<Seq<char>>
    decreases s.len(),
{
    if s.len() == 0 {
        seq![Seq::empty()]
    } else if s.last() == '\n' {
        split_newlines(s.drop_last()).push(Seq::empty())
    } else {
        let p = split_newlines(s.drop_last());
        p.update(p.len() - 1, p.last().push(s.last()))
    }
}

/// A terminated line without the carriage return of a `\r\n` ending.
pub open spec fn strip_one_cr(l: Seq<char>) -> Seq<char> {
    if l.len() > 0 && l.last() == '\r' {
        l.drop_last()
    } else {
        l
    }
}

/// The lines `str::lines` yields: lines end at `\n` or `\r\n`, the final line
/// ending is optional, and an empty text has no lines.
pub open spec fn text_lines(s: Seq<char>) -> Seq<Seq<char>> {
    let segs = split_newlines(s);
    let n = segs.len() as int;
    let count = if segs[n - 1].len() == 0 { n - 1 } else { n };
    Seq::new(count as nat, |i: int| if i < n - 1 { strip_one_cr(segs[i]) } else { segs[i] })
}

/// A continuation line: it begins with a space or a tab.
pub open spec fn is_continuation(l: Seq<char>) -> bool {
    l.len() > 0 && (l[0] == ' ' || l[0] == '\t')
}

/// `l` without its leading spaces and tabs.
pub open spec fn trim_fold_space(l: Seq<char>) -> Seq<char>
    decreases l.len(),
{
    if l.len() > 0 && (l[0] == ' ' || l[0] == '\t') {
        trim_fold_space(l.skip(1))
    } else {
        l
    }
}

/// `l` without its trailing carriage returns.
pub open spec fn trim_end_cr(l: Seq<char>) -> Seq<char>
    decreases l.len(),
{
    if l.len() > 0 && l.last() == '\r' {
        trim_end_cr(l.drop_last())
    } else {
        l
    }
}

/// One line of unfolding: a continuation line is joined, without its leading
/// white space, to the line before it (and dropped when there is none); any
/// other line starts a new logical line, without trailing carriage returns.
pub open spec fn unfold_step(acc: Seq<Seq<char>>, line: Seq<char>) -> Seq<Seq<char>> {
    if is_continuation(line) {
        if acc.len() == 0 {
            acc
        } else {
            acc.update(acc.len() - 1, acc.last() + trim_fold_space(line))
        }
    } else {
        acc.push(trim_end_cr(line))
    }
}

/// Unfolding of a whole sequence of physical lines.
pub open spec fn unfold(lines: Seq<Seq<char>>) -> Seq<Seq<char>>
    decreases lines.len(),
{
    if lines.len() == 0 {
        Seq::empty()
    } else {
        unfold_step(unfold(lines.drop_last()), lines.last())
    }
}

proof fn lemma_trim_end_cr_prefix(l: Seq<char>)
    ensures
        trim_end_cr(l).len() <= l.len(),
        forall|i: int| 0 <= i < trim_end_cr(l).len() ==> #[trigger] trim_end_cr(l)[i] == l[i],
    decreases l.len(),
{
    if l.len() > 0 && l.last() == '\r' {
        lemma_trim_end_cr_prefix(l.drop_last());
    }
}

proof fn lemma_trim_fold_space_start(l: Seq<char>)
    ensures
        !is_continuation(trim_fold_space(l)),
    decreases l.len(),
{
    if l.len() > 0 && (l[0] == ' ' || l[0] == '\t') {
        lemma_trim_fold_space_start(l.skip(1));
    }
}

/// No logical line of an unfolded text begins with a space or a tab: every
/// continuation line has been joined to the line before it (or dropped).
pub proof fn lemma_unfolded_lines_start_plain(lines: Seq<Seq<char>>)
    ensures
        forall|i: int| 0 <= i < unfold(lines).len() ==> !is_continuation(#[trigger] unfold(lines)[i]),
    decreases lines.len(),
{
    if lines.len() > 0 {
        let acc = unfold(lines.drop_last());
        let line = lines.last();
        lemma_unfolded_lines_start_plain(lines.drop_last());
        let r = unfold(lines);
        if is_continuation(line) {
            if acc.len() > 0 {
                let joined = acc.last() + trim_fold_space(line);
                lemma_trim_fold_space_start(line);
                assert(!is_continuation(acc[acc.len() - 1]));
                if acc.last().len() == 0 {
                    assert(joined =~= trim_fold_space(line));
                } else {
                    assert(joined[0] == acc.last()[0]);
                }
                assert forall|i: int| 0 <= i < r.len() implies !is_continuation(#[trigger] r[i]) by {
                    if i < acc.len() - 1 {
                        assert(r[i] == acc[i]);
                    }
                }
            }
        } else {
            lemma_trim_end_cr_prefix(line);
            assert forall|i: int| 0 <= i < r.len() implies !is_continuation(#[trigger] r[i]) by {
                if i < acc.len() {
                    assert(r[i] == acc[i]);
                } else {
                    assert(r[i] == trim_end_cr(line));
                    if trim_end_cr(line).len() > 0 {
                        assert(trim_end_cr(line)[0] == line[0]);
                    }
                }
            }
        }
    }
}

/// The logical content lines of an iCalendar text.
pub open spec fn unfolded_lines(ical: Seq<char>) -> Seq<Seq<char>> {
    unfold(text_lines(ical))
}

/// The character views of a vector of character vectors.
pub open spec fn char_rows(v: Seq<Vec<char>>) -> Seq<Seq<char>> {
    v.map_values(|x: Vec<char>| x@)
}

/// The character views of a vector of strings.
pub open spec fn string_rows(v: Seq<String>) -> Seq<Seq<char>> {
    v.map_values(|x: String| x@)
}

proof fn lemma_split_nonempty(s: Seq<char>)
    ensures
        split_newlines(s).len() >= 1,
    decreases s.len(),
{
    if s.len() > 0 {
        lemma_split_nonempty(s.drop_last());
    }
}

/// `l` without leading spaces and tabs.
fn trim_fold_space_exec(l: &[char]) -> (out: Vec<char>)
    ensures
        out@ == trim_fold_space(l@),
{
    let mut i: usize = 0;
    assert(l@.skip(0) =~= l@);
    while i < l.len() && (l[i] == ' ' || l[i] == '\t')
        invariant
            i <= l@.len(),
            trim_fold_space(l@) == trim_fold_space(l@.skip(i as int)),
        decreases l@.len() - i,
    {
        assert(l@.skip(i as int).skip(1) =~= l@.skip(i + 1));
        i += 1;
    }
    assert(l@.skip(i as int) =~= l@.subrange(i as int, l@.len() as int));
    slice_chars(l, i, l.len())
}

/// `l` without trailing carriage returns.
fn trim_end_cr_exec(l: &[char]) -> (out: Vec<char>)
    ensures
        out@ == trim_end_cr(l@),
{
    let mut end = l.len();
    assert(l@.subrange(0, end as int) =~= l@);
    while end > 0 && l[end - 1] == '\r'
        invariant
            end <= l@.len(),
            trim_end_cr(l@) == trim_end_cr(l@.subrange(0, end as int)),
        decreases end,
    {
        assert(l@.subrange(0, end as int).drop_last() =~= l@.subrange(0, end - 1));
        end -= 1;
    }
    slice_chars(l, 0, end)
}

/// Applies one unfolding step to `acc`.
fn unfold_push(acc: &mut Vec<Vec<char>>, line: &[char])
    ensures
        char_rows(final(acc)@) == unfold_step(char_rows(old(acc)@), line@),
{
    let cont = line.len() > 0 && (line[0] == ' ' || line[0] == '\t');
    if cont {
        if acc.len() > 0 {
            let mut last = acc.pop().unwrap();
            let tail = trim_fold_space_exec(line);
            push_chars(&mut last, tail.as_slice());
            acc.push(last);
            assert(char_rows(acc@) =~= unfold_step(char_rows(old(acc)@), line@));
        } else {
            assert(char_rows(acc@) =~= unfold_step(char_rows(old(acc)@), line@));
        }
    } else {
        let t = trim_end_cr_exec(line);
        acc.push(t);
        assert(char_rows(acc@) =~= unfold_step(char_rows(old(acc)@), line@));
    }
}

/// The pieces that end in a line feed, without that line feed and one `\r`.
spec fn terminated(segs: Seq<Seq<char>>) -> Seq<Seq<char>> {
    Seq::new((segs.len() - 1) as nat, |j: int| strip_one_cr(segs[j]))
}

proof fn lemma_unfold_push(lines: Seq<Seq<char>>, l: Seq<char>)
    ensures
        unfold(lines.push(l)) == unfold_step(unfold(lines), l),
{
    assert(lines.push(l).drop_last() =~= lines);
}

/// The logical content lines of an iCalendar text, as characters.
pub fn unfold_ical_chars(ical: &[char]) -> (out: Vec<Vec<char>>)
    ensures
        char_rows(out@) == unfolded_lines(ical@),
{
    let mut out: Vec<Vec<char>> = Vec::new();
    let mut cur: Vec<char> = Vec::new();
    let mut i: usize = 0;
    proof {
        assert(ical@.take(0) =~= Seq::<char>::empty());
        assert(terminated(split_newlines(Seq::<char>::empty())) =~= Seq::<Seq<char>>::empty());
        assert(char_rows(out@) =~= Seq::<Seq<char>>::empty());
    }
    while i < ical.len()
        invariant
            i <= ical@.len(),
            split_newlines(ical@.take(i as int)).len() >= 1,
            cur@ == split_newlines(ical@.take(i as int)).last(),
            char_rows(out@) == unfold(terminated(split_newlines(ical@.take(i as int)))),
        decreases ical@.len() - i,
    {
        let ghost pre = ical@.take(i as int);
        let ghost segs = split_newlines(pre);
        let c = ical[i];
        proof {
            assert(ical@.take(i + 1).drop_last() =~= pre);
            assert(ical@.take(i + 1).last() == c);
        }
        if c == '\n' {
            let mut line = cur.clone();
            if line.len() > 0 && line[line.len() - 1] == '\r' {
                line.pop();
            }
            unfold_push(&mut out, line.as_slice());
            cur = Vec::new();
            proof {
                let nsegs = split_newlines(ical@.take(i + 1));
                assert(nsegs == segs.push(Seq::empty()));
                assert(terminated(nsegs) =~= terminated(segs).push(strip_one_cr(segs.last())));
                lemma_unfold_push(terminated(segs), strip_one_cr(segs.last()));
            }
        } else {
            cur.push(c);
            proof {
                let nsegs = split_newlines(ical@.take(i + 1));
                assert(nsegs == segs.update(segs.len() - 1, segs.last().push(c)));
                assert(terminated(nsegs) =~= terminated(segs));
            }
        }
        i += 1;
    }
    proof {
        assert(ical@.take(i as int) =~= ical@);
        let segs = split_newlines(ical@);
        let n = segs.len() as int;
        if segs[n - 1].len() == 0 {
            assert(text_lines(ical@) =~= terminated(segs));
        } else {
            assert(text_lines(ical@) =~= terminated(segs).push(segs.last()));
            lemma_unfold_push(terminated(segs), segs.last());
        }
    }
    if cur.len() > 0 {
        unfold_push(&mut out, cur.as_slice());
    }
    out
}

/// Splits an iCalendar text into logical content lines, joining folded
/// continuation lines (those starting with a space or a tab) to the line
/// before them.
pub fn unfold_ical_lines(ical: &str) -> (out: Vec<String>)
    ensures
        string_rows(out@) == unfolded_lines(ical@),
{
    let v = chars_of(ical);
    let rows = unfold_ical_chars(v.as_slice());
    let mut out: Vec<String> = Vec::new();
    let mut i: usize = 0;
    while i < rows.len()
        invariant
            i <= rows@.len(),
            out@.len() == i,
            forall|j: int| 0 <= j < i ==> #[trigger] out@[j]@ == rows@[j]@,
        decreases rows@.len() - i,
    {
        out.push(string_of(rows[i].as_slice()));
        i += 1;
    }
    assert(string_rows(out@) =~= char_rows(rows@));
    out
}

} // verus!
