//! Reading back what `render_single_event_ics` writes: the lines of the
//! document, and what the event scanner makes of each of them.
use vstd::prelude::*;
use crate::text::{
    ascii_lower, ascii_lower_char, ascii_upper, ascii_upper_char, crlf_to_lf, eq_ignore_case, first_char, is_ws,
    lemma_first_char_unique, lemma_split_char_nonempty, lines_of, split_char, split_once, starts_with, trim,
};
use crate::ical::{
    apply_event_property, attendee_lines, escape_char, escape_text, event_ics, event_scan, event_scan_start,
    event_scan_step, event_time, event_times, finish_event, ical_events, lemma_escape_push_front,
    lemma_unescape_escape, mail_address_of, no_event_fields, opt_text_line, opt_view, property_is_date,
    property_tzid_of, raw_line, strings_view, text_line, unescape_text, unfold, unfolded_lines, written_end,
    EventFields, EventScan,
};
use crate::model::CalendarEvent;
use crate::time::{basic_utc_text, format_secs, four_digit_year, naive_datetime_secs, rfc3339_secs};

verus! {

/// The lines, each ended by CR LF.
pub open spec fn crlf_joined(ls: Seq<Seq<char>>) -> Seq<char>
    decreases ls.len(),
{
    if ls.len() == 0 {
        Seq::empty()
    } else {
        crlf_joined(ls.drop_last()) + ls.last() + seq!['\r', '\n']
    }
}

/// The lines, each ended by LF.
pub open spec fn lf_joined(ls: Seq<Seq<char>>) -> Seq<char>
    decreases ls.len(),
{
    if ls.len() == 0 {
        Seq::empty()
    } else {
        lf_joined(ls.drop_last()) + ls.last() + seq!['\n']
    }
}

/// A line that holds no line break and does not start with a space or a
/// tab, so that it is neither split nor folded onto the line before it.
pub open spec fn plain_line(l: Seq<char>) -> bool {
    &&& forall|i: int| 0 <= i < l.len() ==> #[trigger] l[i] != '\r' && l[i] != '\n'
    &&& l.len() > 0 ==> l[0] != ' ' && l[0] != '\t'
}

pub open spec fn plain_lines(ls: Seq<Seq<char>>) -> bool {
    forall|k: int| 0 <= k < ls.len() ==> plain_line(#[trigger] ls[k])
}

pub(crate) proof fn lemma_crlf_concat(a: Seq<char>, b: Seq<char>)
    requires
        a.len() == 0 || a.last() != '\r',
    ensures
        crlf_to_lf(a + b) == crlf_to_lf(a) + crlf_to_lf(b),
    decreases a.len(),
{
    let ab = a + b;
    if a.len() == 0 {
        assert(ab =~= b);
        assert(crlf_to_lf(a) =~= Seq::<char>::empty());
        assert(crlf_to_lf(a) + crlf_to_lf(b) =~= crlf_to_lf(b));
    } else if a[0] == '\r' {
        assert(a.len() > 1);
        assert(ab[0] == '\r' && ab[1] == a[1]);
        if a[1] == '\n' {
            lemma_crlf_concat(a.skip(2), b);
            assert(ab.skip(2) =~= a.skip(2) + b);
        } else {
            lemma_crlf_concat(a.skip(1), b);
            assert(ab.skip(1) =~= a.skip(1) + b);
        }
        assert(seq!['\n'] + (crlf_to_lf(a.skip(if a[1] == '\n' { 2int } else { 1int })) + crlf_to_lf(b))
            =~= (seq!['\n'] + crlf_to_lf(a.skip(if a[1] == '\n' { 2int } else { 1int }))) + crlf_to_lf(b));
    } else {
        lemma_crlf_concat(a.skip(1), b);
        assert(ab.skip(1) =~= a.skip(1) + b);
        assert(seq![a[0]] + (crlf_to_lf(a.skip(1)) + crlf_to_lf(b)) =~= (seq![a[0]] + crlf_to_lf(a.skip(1))) + crlf_to_lf(b));
    }
}

pub(crate) proof fn lemma_crlf_line(l: Seq<char>)
    requires
        forall|i: int| 0 <= i < l.len() ==> #[trigger] l[i] != '\r',
    ensures
        crlf_to_lf(l + seq!['\r', '\n']) == l + seq!['\n'],
    decreases l.len(),
{
    let s = l + seq!['\r', '\n'];
    if l.len() == 0 {
        assert(s =~= seq!['\r', '\n']);
        assert(s[0] == '\r' && s[1] == '\n');
        assert(s.skip(2) =~= Seq::<char>::empty());
        assert(crlf_to_lf(Seq::<char>::empty()) =~= Seq::<char>::empty());
        assert(l + seq!['\n'] =~= seq!['\n'] + Seq::<char>::empty());
    } else {
        assert(s[0] == l[0]);
        assert forall|i: int| 0 <= i < l.skip(1).len() implies #[trigger] l.skip(1)[i] != '\r' by {
            assert(l.skip(1)[i] == l[i + 1]);
        }
        lemma_crlf_line(l.skip(1));
        assert(s.skip(1) =~= l.skip(1) + seq!['\r', '\n']);
        assert(l + seq!['\n'] =~= seq![l[0]] + (l.skip(1) + seq!['\n']));
    }
}

pub(crate) proof fn lemma_crlf_joined(ls: Seq<Seq<char>>)
    requires
        plain_lines(ls),
    ensures
        crlf_to_lf(crlf_joined(ls)) == lf_joined(ls),
    decreases ls.len(),
{
    if ls.len() == 0 {
        assert(crlf_to_lf(Seq::<char>::empty()) =~= Seq::<char>::empty());
    } else {
        let pre = ls.drop_last();
        let l = ls.last();
        assert(plain_lines(pre)) by {
            assert forall|k: int| 0 <= k < pre.len() implies plain_line(#[trigger] pre[k]) by {
                assert(pre[k] == ls[k]);
            }
        }
        assert(plain_line(ls[ls.len() - 1]));
        lemma_crlf_joined(pre);
        let a = crlf_joined(pre);
        if pre.len() > 0 {
            assert(a.last() == '\n');
        }
        lemma_crlf_concat(a, l + seq!['\r', '\n']);
        assert(crlf_joined(ls) =~= a + (l + seq!['\r', '\n']));
        lemma_crlf_line(l);
        assert(lf_joined(ls) =~= lf_joined(pre) + (l + seq!['\n']));
    }
}

pub(crate) proof fn lemma_split_append(s: Seq<char>, t: Seq<char>, c: char)
    requires
        forall|i: int| 0 <= i < t.len() ==> #[trigger] t[i] != c,
    ensures
        split_char(s + t, c) == split_char(s, c).update(split_char(s, c).len() - 1, split_char(s, c).last() + t),
    decreases t.len(),
{
    lemma_split_char_nonempty(s, c);
    let p = split_char(s, c);
    if t.len() == 0 {
        assert(s + t =~= s);
        assert(p.last() + t =~= p.last());
        assert(p.update(p.len() - 1, p.last()) =~= p);
    } else {
        let t0 = t.drop_last();
        lemma_split_append(s, t0, c);
        assert((s + t).drop_last() =~= s + t0);
        assert((s + t).last() == t.last());
        assert(t0 + seq![t.last()] =~= t);
        let q = p.update(p.len() - 1, p.last() + t0);
        assert(q.last().push(t.last()) =~= p.last() + t);
        assert(q.update(q.len() - 1, q.last().push(t.last())) =~= p.update(p.len() - 1, p.last() + t));
    }
}

pub(crate) proof fn lemma_split_lf_joined(ls: Seq<Seq<char>>)
    requires
        plain_lines(ls),
    ensures
        split_char(lf_joined(ls), '\n') == ls.push(Seq::<char>::empty()),
    decreases ls.len(),
{
    if ls.len() == 0 {
        assert(ls.push(Seq::<char>::empty()) =~= seq![Seq::<char>::empty()]);
    } else {
        let pre = ls.drop_last();
        let l = ls.last();
        assert(plain_lines(pre)) by {
            assert forall|k: int| 0 <= k < pre.len() implies plain_line(#[trigger] pre[k]) by {
                assert(pre[k] == ls[k]);
            }
        }
        assert(plain_line(ls[ls.len() - 1]));
        lemma_split_lf_joined(pre);
        let j = lf_joined(pre);
        lemma_split_append(j, l, '\n');
        let p = split_char(j, '\n');
        assert(p.last() + l =~= l);
        assert(p.update(p.len() - 1, l) =~= ls);
        assert(lf_joined(ls) =~= (j + l).push('\n'));
        assert((j + l).push('\n').drop_last() =~= j + l);
    }
}

pub(crate) proof fn lemma_unfold_plain(ls: Seq<Seq<char>>)
    requires
        plain_lines(ls),
    ensures
        unfold(ls) == ls,
    decreases ls.len(),
{
    if ls.len() > 0 {
        let pre = ls.drop_last();
        assert(plain_lines(pre)) by {
            assert forall|k: int| 0 <= k < pre.len() implies plain_line(#[trigger] pre[k]) by {
                assert(pre[k] == ls[k]);
            }
        }
        assert(plain_line(ls[ls.len() - 1]));
        lemma_unfold_plain(pre);
        assert(pre.push(ls.last()) =~= ls);
    }
}

/// Plain lines joined by CR LF read back as the same lines.
pub proof fn lemma_unfolded_crlf_joined(ls: Seq<Seq<char>>)
    requires
        ls.len() > 0,
        plain_lines(ls),
    ensures
        unfolded_lines(crlf_joined(ls)) == ls,
{
    lemma_crlf_joined(ls);
    lemma_split_lf_joined(ls);
    let j = lf_joined(ls);
    assert(j == lf_joined(ls.drop_last()) + ls.last() + seq!['\n']);
    assert(j.len() > 0 && j.last() == '\n');
    assert(lines_of(j) =~= ls);
    lemma_unfold_plain(ls);
}

/// The scan of `ls` continued from the state `st`.
pub open spec fn scan_from(st: EventScan, ls: Seq<Seq<char>>) -> EventScan
    decreases ls.len(),
{
    if ls.len() == 0 {
        st
    } else {
        event_scan_step(scan_from(st, ls.drop_last()), ls.last())
    }
}

pub(crate) proof fn lemma_scan_is_scan_from(ls: Seq<Seq<char>>)
    ensures
        event_scan(ls) == scan_from(event_scan_start(), ls),
    decreases ls.len(),
{
    if ls.len() > 0 {
        lemma_scan_is_scan_from(ls.drop_last());
    }
}

pub(crate) proof fn lemma_scan_from_concat(st: EventScan, a: Seq<Seq<char>>, b: Seq<Seq<char>>)
    ensures
        scan_from(st, a + b) == scan_from(scan_from(st, a), b),
    decreases b.len(),
{
    if b.len() == 0 {
        assert(a + b =~= a);
    } else {
        lemma_scan_from_concat(st, a, b.drop_last());
        assert((a + b).drop_last() =~= a + b.drop_last());
        assert((a + b).last() == b.last());
    }
}

pub(crate) proof fn lemma_scan_from_one(st: EventScan, l: Seq<char>)
    ensures
        scan_from(st, seq![l]) == event_scan_step(st, l),
{
    assert(seq![l].drop_last() =~= Seq::<Seq<char>>::empty());
    assert(scan_from(st, Seq::<Seq<char>>::empty()) == st);
}

/// Text with no whitespace at either end (or none at all) is its own trim.
pub(crate) proof fn lemma_trim_same(s: Seq<char>)
    requires
        s.len() == 0 || (!is_ws(s[0]) && !is_ws(s.last())),
    ensures
        trim(s) == s,
{
}

pub(crate) proof fn lemma_char_differs(s: Seq<char>, p: Seq<char>, k: int)
    requires
        0 <= k < p.len(),
        k < s.len(),
        s[k] != p[k],
    ensures
        !starts_with(s, p),
{
    if starts_with(s, p) {
        assert(s.subrange(0, p.len() as int)[k] == s[k]);
    }
}

/// A property name: upper-case letters and hyphens, starting with a letter
/// other than `B` and `E`, so its line is neither `BEGIN:` nor `END:VEVENT`.
pub open spec fn property_name(n: Seq<char>) -> bool {
    &&& n.len() > 0
    &&& forall|i: int| 0 <= i < n.len() ==> ('A' <= #[trigger] n[i] && n[i] <= 'Z') || n[i] == '-'
    &&& n[0] != 'B' && n[0] != 'E' && n[0] != '-'
}

/// A property value with no line break and no whitespace at either end.
pub open spec fn property_value(v: Seq<char>) -> bool {
    &&& forall|i: int| 0 <= i < v.len() ==> #[trigger] v[i] != '\r' && v[i] != '\n'
    &&& v.len() > 0 ==> !is_ws(v[0]) && !is_ws(v.last())
}

pub(crate) proof fn lemma_upper_name(n: Seq<char>)
    requires
        property_name(n),
    ensures
        ascii_upper(n) == n,
{
    assert forall|i: int| 0 <= i < n.len() implies ascii_upper(n)[i] == n[i] by {
        assert(ascii_upper_char(n[i]) == n[i]);
    }
    assert(ascii_upper(n) =~= n);
}

pub(crate) proof fn lemma_property_line_plain(n: Seq<char>, v: Seq<char>)
    requires
        property_name(n),
        property_value(v),
    ensures
        plain_line(n + seq![':'] + v),
{
    let l = n + seq![':'] + v;
    assert forall|i: int| 0 <= i < l.len() implies #[trigger] l[i] != '\r' && l[i] != '\n' by {
        if i < n.len() {
            assert(l[i] == n[i]);
        } else if i > n.len() {
            assert(l[i] == v[i - n.len() - 1]);
        }
    }
    assert(l[0] == n[0]);
}

/// A `NAME:VALUE` line changes the current event by that property, and
/// nothing outside an event.
pub(crate) proof fn lemma_property_step(st: EventScan, n: Seq<char>, v: Seq<char>)
    requires
        property_name(n),
        property_value(v),
    ensures
        event_scan_step(st, n + seq![':'] + v) == if st.in_event {
            EventScan { current: apply_event_property(st.current, n, v), ..st }
        } else {
            st
        },
{
    reveal_strlit("BEGIN:VEVENT");
    reveal_strlit("END:VEVENT");
    let l = n + seq![':'] + v;
    assert(l[0] == n[0]);
    assert(!is_ws(n[0]));
    if v.len() > 0 {
        assert(l.last() == v.last());
    } else {
        assert(l.last() == ':');
    }
    lemma_trim_same(l);
    assert(ascii_lower(l)[0] == ascii_lower_char(n[0]));
    assert(ascii_lower("BEGIN:VEVENT"@)[0] == 'b');
    assert(ascii_lower("END:VEVENT"@)[0] == 'e');
    assert(ascii_lower(l) != ascii_lower("BEGIN:VEVENT"@));
    assert(ascii_lower(l) != ascii_lower("END:VEVENT"@));
    assert(!eq_ignore_case(l, "BEGIN:VEVENT"@));
    assert(!eq_ignore_case(l, "END:VEVENT"@));
    let k = n.len() as int;
    assert(first_char(l, ':', k)) by {
        assert forall|j: int| 0 <= j < k implies l[j] != ':' by {
            assert(l[j] == n[j]);
        }
    }
    assert(l.contains(':')) by {
        assert(l[k] == ':');
    }
    let i = choose|i: int| first_char(l, ':', i);
    lemma_first_char_unique(l, ':', i, k);
    assert(l.take(k) =~= n);
    assert(l.skip(k + 1) =~= v);
    assert(split_once(l, ':') == Some((n, v)));
    lemma_trim_same(n);
    lemma_trim_same(v);
}

pub(crate) proof fn lemma_split_without(s: Seq<char>, c: char)
    requires
        forall|i: int| 0 <= i < s.len() ==> #[trigger] s[i] != c,
    ensures
        split_char(s, c) == seq![s],
    decreases s.len(),
{
    if s.len() == 0 {
        assert(s =~= Seq::<char>::empty());
        assert(seq![s] =~= seq![Seq::<char>::empty()]);
    } else {
        lemma_split_without(s.drop_last(), c);
        assert(s.last() == s[s.len() - 1]);
        assert(s.drop_last().push(s.last()) =~= s);
        assert(seq![s.drop_last()].update(0, s.drop_last().push(s.last())) =~= seq![s]);
    }
}

/// The property names the writer uses.
pub(crate) proof fn lemma_names()
    ensures
        property_name("UID"@),
        property_name("DTSTAMP"@),
        property_name("DTSTART"@),
        property_name("DTEND"@),
        property_name("SUMMARY"@),
        property_name("DESCRIPTION"@),
        property_name("LOCATION"@),
        property_name("RRULE"@),
        property_name("ORGANIZER"@),
        property_name("ATTENDEE"@),
{
    reveal_strlit("UID");
    reveal_strlit("DTSTAMP");
    reveal_strlit("DTSTART");
    reveal_strlit("DTEND");
    reveal_strlit("SUMMARY");
    reveal_strlit("DESCRIPTION");
    reveal_strlit("LOCATION");
    reveal_strlit("RRULE");
    reveal_strlit("ORGANIZER");
    reveal_strlit("ATTENDEE");
}

pub(crate) proof fn lemma_whole_prefix(s: Seq<char>)
    ensures
        starts_with(s, s),
{
    assert(s.subrange(0, s.len() as int) =~= s);
}

/// What each written property does to the fields read so far.
pub(crate) proof fn lemma_apply_names(d: EventFields, v: Seq<char>)
    ensures
        v.len() > 0 ==> apply_event_property(d, "UID"@, v) == (EventFields { uid: Some(v), ..d }),
        apply_event_property(d, "SUMMARY"@, v) == (EventFields { title: Some(unescape_text(v)), ..d }),
        apply_event_property(d, "DESCRIPTION"@, v) == (EventFields { description: Some(unescape_text(v)), ..d }),
        apply_event_property(d, "LOCATION"@, v) == (EventFields { location: Some(unescape_text(v)), ..d }),
        apply_event_property(d, "DTSTART"@, v) == (EventFields {
            starts_at: event_time("DTSTART"@, v),
            all_day: v.len() == 8 && crate::text::all_ascii_digits(v),
            ..d
        }),
        apply_event_property(d, "DTEND"@, v) == (EventFields { ends_at: event_time("DTEND"@, v), ..d }),
        apply_event_property(d, "RRULE"@, v) == (EventFields { recurrence_rule: Some(v), ..d }),
        apply_event_property(d, "ATTENDEE"@, v) == (match mail_address_of(v) {
            Some(a) => EventFields { attendees: d.attendees.push(a), ..d },
            None => d,
        }),
        apply_event_property(d, "ORGANIZER"@, v) == (EventFields {
            organizer: match mail_address_of(v) {
                Some(a) => Some(a),
                None => if v.len() == 0 { None } else { Some(unescape_text(v)) },
            },
            ..d
        }),
        apply_event_property(d, "DTSTAMP"@, v) == (EventFields { updated_at: apply_event_property(d, "DTSTAMP"@, v).updated_at, ..d }),
{
    reveal_strlit("UID");
    reveal_strlit("DTSTAMP");
    reveal_strlit("DTSTART");
    reveal_strlit("DTEND");
    reveal_strlit("SUMMARY");
    reveal_strlit("DESCRIPTION");
    reveal_strlit("LOCATION");
    reveal_strlit("RRULE");
    reveal_strlit("ORGANIZER");
    reveal_strlit("ATTENDEE");
    reveal_strlit("LAST-MODIFIED");
    lemma_names();
    let uid = "UID"@;
    let sum = "SUMMARY"@;
    let des = "DESCRIPTION"@;
    let loc = "LOCATION"@;
    let dts = "DTSTART"@;
    let dte = "DTEND"@;
    let rr = "RRULE"@;
    let att = "ATTENDEE"@;
    let org = "ORGANIZER"@;
    let lm = "LAST-MODIFIED"@;
    let stamp = "DTSTAMP"@;
    lemma_upper_name(uid);
    lemma_upper_name(sum);
    lemma_upper_name(des);
    lemma_upper_name(loc);
    lemma_upper_name(dts);
    lemma_upper_name(dte);
    lemma_upper_name(rr);
    lemma_upper_name(att);
    lemma_upper_name(org);
    lemma_upper_name(stamp);
    lemma_whole_prefix(uid);
    lemma_whole_prefix(sum);
    lemma_whole_prefix(des);
    lemma_whole_prefix(loc);
    lemma_whole_prefix(dts);
    lemma_whole_prefix(dte);
    lemma_whole_prefix(rr);
    lemma_whole_prefix(att);
    lemma_whole_prefix(org);
    lemma_whole_prefix(stamp);
    // SUMMARY
    lemma_char_differs(sum, uid, 0);
    // DESCRIPTION
    lemma_char_differs(des, uid, 0);
    lemma_char_differs(des, sum, 0);
    // LOCATION
    lemma_char_differs(loc, uid, 0);
    lemma_char_differs(loc, sum, 0);
    lemma_char_differs(loc, des, 0);
    // DTSTART
    lemma_char_differs(dts, uid, 0);
    lemma_char_differs(dts, sum, 0);
    lemma_char_differs(dts, des, 1);
    lemma_char_differs(dts, loc, 0);
    // DTEND
    lemma_char_differs(dte, uid, 0);
    lemma_char_differs(dte, sum, 0);
    lemma_char_differs(dte, des, 1);
    lemma_char_differs(dte, loc, 0);
    lemma_char_differs(dte, dts, 2);
    // RRULE
    lemma_char_differs(rr, uid, 0);
    lemma_char_differs(rr, sum, 0);
    lemma_char_differs(rr, des, 0);
    lemma_char_differs(rr, loc, 0);
    lemma_char_differs(rr, dts, 0);
    lemma_char_differs(rr, dte, 0);
    // ATTENDEE
    lemma_char_differs(att, uid, 0);
    lemma_char_differs(att, sum, 0);
    lemma_char_differs(att, des, 0);
    lemma_char_differs(att, loc, 0);
    lemma_char_differs(att, dts, 0);
    lemma_char_differs(att, dte, 0);
    lemma_char_differs(att, rr, 0);
    // ORGANIZER
    lemma_char_differs(org, uid, 0);
    lemma_char_differs(org, sum, 0);
    lemma_char_differs(org, des, 0);
    lemma_char_differs(org, loc, 0);
    lemma_char_differs(org, dts, 0);
    lemma_char_differs(org, dte, 0);
    lemma_char_differs(org, rr, 0);
    lemma_char_differs(org, att, 0);
    // DTSTAMP
    lemma_char_differs(stamp, uid, 0);
    lemma_char_differs(stamp, sum, 0);
    lemma_char_differs(stamp, des, 1);
    lemma_char_differs(stamp, loc, 0);
    lemma_char_differs(stamp, dts, 5);
    lemma_char_differs(stamp, dte, 2);
    lemma_char_differs(stamp, rr, 0);
    lemma_char_differs(stamp, att, 0);
    lemma_char_differs(stamp, org, 0);
    lemma_char_differs(stamp, lm, 0);
    // the date parameters of DTSTART
    lemma_split_without(dts, ';');
    assert(split_char(dts, ';').skip(1) =~= Seq::<Seq<char>>::empty());
    assert(!property_is_date(dts));
    assert(property_tzid_of(dts).is_none());
}

/// Text that a property line can carry after escaping: no carriage return,
/// and no whitespace at either end.
pub open spec fn line_text(v: Seq<char>) -> bool {
    &&& forall|i: int| 0 <= i < v.len() ==> #[trigger] v[i] != '\r'
    &&& v.len() > 0 ==> !is_ws(v[0]) && !is_ws(v.last())
}

/// Text that iCalendar escaping leaves as it is.
pub open spec fn escape_free(v: Seq<char>) -> bool {
    forall|i: int| 0 <= i < v.len() ==> #[trigger] v[i] != '\\' && v[i] != '\n' && v[i] != ';' && v[i] != ','
}

pub(crate) proof fn lemma_escape_no_breaks(v: Seq<char>)
    requires
        forall|i: int| 0 <= i < v.len() ==> #[trigger] v[i] != '\r',
    ensures
        forall|i: int| 0 <= i < escape_text(v).len() ==> #[trigger] escape_text(v)[i] != '\r' && escape_text(v)[i] != '\n',
    decreases v.len(),
{
    if v.len() > 0 {
        let p = v.drop_last();
        assert forall|i: int| 0 <= i < p.len() implies #[trigger] p[i] != '\r' by {
            assert(p[i] == v[i]);
        }
        lemma_escape_no_breaks(p);
        let e = escape_text(v);
        let a = escape_text(p);
        let c = escape_char(v.last());
        assert(v.last() == v[v.len() - 1]);
        assert forall|i: int| 0 <= i < e.len() implies #[trigger] e[i] != '\r' && e[i] != '\n' by {
            if i < a.len() {
                assert(e[i] == a[i]);
            } else {
                assert(e[i] == c[i - a.len()]);
            }
        }
    }
}

pub(crate) proof fn lemma_escape_value(v: Seq<char>)
    requires
        line_text(v),
    ensures
        property_value(escape_text(v)),
{
    lemma_escape_no_breaks(v);
    if v.len() > 0 {
        let e = escape_text(v);
        lemma_escape_push_front(v[0], v.skip(1));
        assert(seq![v[0]] + v.skip(1) =~= v);
        assert(e[0] == escape_char(v[0])[0]);
        assert(e.last() == escape_char(v.last()).last());
    }
}

pub(crate) proof fn lemma_escape_free_same(v: Seq<char>)
    requires
        escape_free(v),
    ensures
        escape_text(v) == v,
    decreases v.len(),
{
    if v.len() > 0 {
        let p = v.drop_last();
        assert forall|i: int| 0 <= i < p.len() implies #[trigger] p[i] != '\\' && p[i] != '\n' && p[i] != ';' && p[i] != ',' by {
            assert(p[i] == v[i]);
        }
        lemma_escape_free_same(p);
        assert(v.last() == v[v.len() - 1]);
        assert(p + seq![v.last()] =~= v);
    }
}

/// A `mailto:` address reads back as the address.
pub(crate) proof fn lemma_mailto(v: Seq<char>)
    requires
        line_text(v),
    ensures
        property_value("mailto:"@ + escape_text(v)),
        mail_address_of("mailto:"@ + escape_text(v)) == Some(v),
{
    reveal_strlit("mailto:");
    let m = "mailto:"@;
    let e = escape_text(v);
    let x = m + e;
    lemma_escape_value(v);
    assert forall|i: int| 0 <= i < x.len() implies #[trigger] x[i] != '\r' && x[i] != '\n' by {
        if i >= 7 {
            assert(x[i] == e[i - 7]);
        }
    }
    if e.len() > 0 {
        assert(x.last() == e.last());
    }
    assert(crate::text::ascii_lower(x).subrange(0, 7) =~= m) by {
        assert forall|i: int| 0 <= i < 7 implies crate::text::ascii_lower(x)[i] == m[i] by {
            assert(x[i] == m[i]);
        }
    }
    assert(x.skip(7) =~= e);
    lemma_unescape_escape(v);
}

/// The line `NAME:VALUE`.
pub open spec fn prop(n: Seq<char>, v: Seq<char>) -> Seq<char> {
    n + seq![':'] + v
}

pub open spec fn text_prop_lines(n: Seq<char>, o: Option<Seq<char>>) -> Seq<Seq<char>> {
    match o {
        Some(v) => seq![prop(n, escape_text(v))],
        None => Seq::empty(),
    }
}

pub open spec fn raw_prop_lines(n: Seq<char>, o: Option<Seq<char>>) -> Seq<Seq<char>> {
    match o {
        Some(v) => seq![prop(n, v)],
        None => Seq::empty(),
    }
}

pub open spec fn mailto_prop_lines(n: Seq<char>, o: Option<Seq<char>>) -> Seq<Seq<char>> {
    match o {
        Some(v) => seq![prop(n, "mailto:"@ + escape_text(v))],
        None => Seq::empty(),
    }
}

pub open spec fn attendee_props(atts: Seq<Seq<char>>) -> Seq<Seq<char>>
    decreases atts.len(),
{
    if atts.len() == 0 {
        Seq::empty()
    } else {
        attendee_props(atts.drop_last()).push(prop("ATTENDEE"@, "mailto:"@ + escape_text(atts.last())))
    }
}

/// The lines of the document written for a timed event.
pub open spec fn event_doc_lines(e: CalendarEvent, uid: Seq<char>, stamp: Seq<char>) -> Seq<Seq<char>> {
    let f = "%Y%m%dT%H%M%SZ"@;
    seq!["BEGIN:VCALENDAR"@, "VERSION:2.0"@, "PRODID:-//Cove Mail//EN"@]
        + seq!["BEGIN:VEVENT"@]
        + seq![prop("UID"@, escape_text(uid))]
        + seq![prop("DTSTAMP"@, stamp)]
        + seq![prop("DTSTART"@, format_secs(e.starts_at, f)), prop("DTEND"@, format_secs(written_end(e), f))]
        + seq![prop("SUMMARY"@, escape_text(e.title@))]
        + text_prop_lines("DESCRIPTION"@, opt_view(e.description))
        + text_prop_lines("LOCATION"@, opt_view(e.location))
        + raw_prop_lines("RRULE"@, opt_view(e.recurrence_rule))
        + mailto_prop_lines("ORGANIZER"@, opt_view(e.organizer))
        + attendee_props(strings_view(e.attendees@))
        + seq!["END:VEVENT"@, "END:VCALENDAR"@]
}

pub(crate) proof fn lemma_crlf_joined_concat(a: Seq<Seq<char>>, b: Seq<Seq<char>>)
    ensures
        crlf_joined(a + b) == crlf_joined(a) + crlf_joined(b),
    decreases b.len(),
{
    if b.len() == 0 {
        assert(a + b =~= a);
        assert(crlf_joined(a) + crlf_joined(b) =~= crlf_joined(a));
    } else {
        lemma_crlf_joined_concat(a, b.drop_last());
        assert((a + b).drop_last() =~= a + b.drop_last());
        assert((a + b).last() == b.last());
        assert(crlf_joined(a) + crlf_joined(b) =~= crlf_joined(a) + crlf_joined(b.drop_last()) + b.last() + seq!['\r', '\n']);
    }
}

pub(crate) proof fn lemma_crlf_joined_one(l: Seq<char>)
    ensures
        crlf_joined(seq![l]) == l + seq!['\r', '\n'],
{
    assert(seq![l].drop_last() =~= Seq::<Seq<char>>::empty());
    assert(crlf_joined(Seq::<Seq<char>>::empty()) + l + seq!['\r', '\n'] =~= l + seq!['\r', '\n']);
}

pub(crate) proof fn lemma_crlf_joined_two(l: Seq<char>, m: Seq<char>)
    ensures
        crlf_joined(seq![l, m]) == l + seq!['\r', '\n'] + m + seq!['\r', '\n'],
{
    lemma_crlf_joined_one(l);
    lemma_crlf_joined_one(m);
    lemma_crlf_joined_concat(seq![l], seq![m]);
    assert(seq![l] + seq![m] =~= seq![l, m]);
}

pub(crate) proof fn lemma_attendee_lines(atts: Seq<Seq<char>>)
    ensures
        attendee_lines(atts) == crlf_joined(attendee_props(atts)),
    decreases atts.len(),
{
    reveal_strlit("ATTENDEE:mailto:");
    reveal_strlit("ATTENDEE");
    reveal_strlit("mailto:");
    reveal_strlit("\r\n");
    if atts.len() == 0 {
        assert(crlf_joined(Seq::<Seq<char>>::empty()) =~= Seq::<char>::empty());
    } else {
        lemma_attendee_lines(atts.drop_last());
        let l = prop("ATTENDEE"@, "mailto:"@ + escape_text(atts.last()));
        let ps = attendee_props(atts.drop_last());
        assert(ps.push(l).drop_last() =~= ps);
        assert(text_line("ATTENDEE:mailto:"@, atts.last()) =~= l + seq!['\r', '\n']);
        assert(attendee_lines(atts) =~= crlf_joined(ps) + l + seq!['\r', '\n']);
    }
}

pub(crate) proof fn lemma_doc_frame()
    ensures
        crlf_joined(seq!["BEGIN:VCALENDAR"@, "VERSION:2.0"@, "PRODID:-//Cove Mail//EN"@])
            == "BEGIN:VCALENDAR\r\nVERSION:2.0\r\nPRODID:-//Cove Mail//EN\r\n"@,
        crlf_joined(seq!["BEGIN:VEVENT"@]) == "BEGIN:VEVENT\r\n"@,
        crlf_joined(seq!["END:VEVENT"@, "END:VCALENDAR"@]) == "END:VEVENT\r\nEND:VCALENDAR\r\n"@,
{
    reveal_strlit("BEGIN:VCALENDAR\r\nVERSION:2.0\r\nPRODID:-//Cove Mail//EN\r\n");
    reveal_strlit("BEGIN:VCALENDAR");
    reveal_strlit("VERSION:2.0");
    reveal_strlit("PRODID:-//Cove Mail//EN");
    reveal_strlit("BEGIN:VEVENT\r\n");
    reveal_strlit("BEGIN:VEVENT");
    reveal_strlit("END:VEVENT\r\nEND:VCALENDAR\r\n");
    reveal_strlit("END:VEVENT");
    reveal_strlit("END:VCALENDAR");
    lemma_crlf_joined_two("BEGIN:VCALENDAR"@, "VERSION:2.0"@);
    lemma_crlf_joined_one("PRODID:-//Cove Mail//EN"@);
    lemma_crlf_joined_concat(seq!["BEGIN:VCALENDAR"@, "VERSION:2.0"@], seq!["PRODID:-//Cove Mail//EN"@]);
    assert(seq!["BEGIN:VCALENDAR"@, "VERSION:2.0"@] + seq!["PRODID:-//Cove Mail//EN"@]
        =~= seq!["BEGIN:VCALENDAR"@, "VERSION:2.0"@, "PRODID:-//Cove Mail//EN"@]);
    assert(crlf_joined(seq!["BEGIN:VCALENDAR"@, "VERSION:2.0"@, "PRODID:-//Cove Mail//EN"@])
        =~= "BEGIN:VCALENDAR\r\nVERSION:2.0\r\nPRODID:-//Cove Mail//EN\r\n"@);
    lemma_crlf_joined_one("BEGIN:VEVENT"@);
    assert(crlf_joined(seq!["BEGIN:VEVENT"@]) =~= "BEGIN:VEVENT\r\n"@);
    lemma_crlf_joined_two("END:VEVENT"@, "END:VCALENDAR"@);
    assert(crlf_joined(seq!["END:VEVENT"@, "END:VCALENDAR"@]) =~= "END:VEVENT\r\nEND:VCALENDAR\r\n"@);
}

pub(crate) proof fn lemma_doc_text_line(name: Seq<char>, n: Seq<char>, v: Seq<char>)
    requires
        name == n + seq![':'],
    ensures
        crlf_joined(seq![prop(n, escape_text(v))]) == text_line(name, v),
{
    reveal_strlit("\r\n");
    lemma_crlf_joined_one(prop(n, escape_text(v)));
    assert(crlf_joined(seq![prop(n, escape_text(v))]) =~= text_line(name, v));
}

pub(crate) proof fn lemma_doc_names()
    ensures
        "UID:"@ == "UID"@ + seq![':'],
        "DTSTAMP:"@ == "DTSTAMP"@ + seq![':'],
        "DTSTART:"@ == "DTSTART"@ + seq![':'],
        "DTEND:"@ == "DTEND"@ + seq![':'],
        "SUMMARY:"@ == "SUMMARY"@ + seq![':'],
        "DESCRIPTION:"@ == "DESCRIPTION"@ + seq![':'],
        "LOCATION:"@ == "LOCATION"@ + seq![':'],
        "RRULE:"@ == "RRULE"@ + seq![':'],
        "ORGANIZER:mailto:"@ == "ORGANIZER"@ + seq![':'] + "mailto:"@,
        "\r\n"@ == seq!['\r', '\n'],
{
    reveal_strlit("UID:");
    reveal_strlit("UID");
    reveal_strlit("DTSTAMP:");
    reveal_strlit("DTSTAMP");
    reveal_strlit("DTSTART:");
    reveal_strlit("DTSTART");
    reveal_strlit("DTEND:");
    reveal_strlit("DTEND");
    reveal_strlit("SUMMARY:");
    reveal_strlit("SUMMARY");
    reveal_strlit("DESCRIPTION:");
    reveal_strlit("DESCRIPTION");
    reveal_strlit("LOCATION:");
    reveal_strlit("LOCATION");
    reveal_strlit("RRULE:");
    reveal_strlit("RRULE");
    reveal_strlit("ORGANIZER:mailto:");
    reveal_strlit("ORGANIZER");
    reveal_strlit("mailto:");
    reveal_strlit("\r\n");
    assert("UID:"@ =~= "UID"@ + seq![':']);
    assert("DTSTAMP:"@ =~= "DTSTAMP"@ + seq![':']);
    assert("DTSTART:"@ =~= "DTSTART"@ + seq![':']);
    assert("DTEND:"@ =~= "DTEND"@ + seq![':']);
    assert("SUMMARY:"@ =~= "SUMMARY"@ + seq![':']);
    assert("DESCRIPTION:"@ =~= "DESCRIPTION"@ + seq![':']);
    assert("LOCATION:"@ =~= "LOCATION"@ + seq![':']);
    assert("RRULE:"@ =~= "RRULE"@ + seq![':']);
    assert("ORGANIZER:mailto:"@ =~= "ORGANIZER"@ + seq![':'] + "mailto:"@);
    assert("\r\n"@ =~= seq!['\r', '\n']);
}

pub(crate) proof fn lemma_doc_pieces(e: CalendarEvent, uid: Seq<char>, stamp: Seq<char>)
    requires
        !e.all_day,
    ensures
        crlf_joined(seq![prop("UID"@, escape_text(uid))]) == text_line("UID:"@, uid),
        crlf_joined(seq![prop("DTSTAMP"@, stamp)]) == "DTSTAMP:"@ + stamp + "\r\n"@,
        crlf_joined(seq![prop("DTSTART"@, format_secs(e.starts_at, "%Y%m%dT%H%M%SZ"@)),
            prop("DTEND"@, format_secs(written_end(e), "%Y%m%dT%H%M%SZ"@))]) == event_times(e),
        crlf_joined(seq![prop("SUMMARY"@, escape_text(e.title@))]) == text_line("SUMMARY:"@, e.title@),
        crlf_joined(text_prop_lines("DESCRIPTION"@, opt_view(e.description))) == opt_text_line("DESCRIPTION:"@, opt_view(e.description)),
        crlf_joined(text_prop_lines("LOCATION"@, opt_view(e.location))) == opt_text_line("LOCATION:"@, opt_view(e.location)),
        crlf_joined(raw_prop_lines("RRULE"@, opt_view(e.recurrence_rule))) == raw_line("RRULE:"@, opt_view(e.recurrence_rule)),
        crlf_joined(mailto_prop_lines("ORGANIZER"@, opt_view(e.organizer))) == opt_text_line("ORGANIZER:mailto:"@, opt_view(e.organizer)),
        crlf_joined(attendee_props(strings_view(e.attendees@))) == attendee_lines(strings_view(e.attendees@)),
{
    let f = "%Y%m%dT%H%M%SZ"@;
    lemma_doc_names();
    lemma_doc_text_line("UID:"@, "UID"@, uid);
    lemma_crlf_joined_one(prop("DTSTAMP"@, stamp));
    assert(crlf_joined(seq![prop("DTSTAMP"@, stamp)]) =~= "DTSTAMP:"@ + stamp + "\r\n"@);
    lemma_crlf_joined_two(prop("DTSTART"@, format_secs(e.starts_at, f)), prop("DTEND"@, format_secs(written_end(e), f)));
    assert(crlf_joined(seq![prop("DTSTART"@, format_secs(e.starts_at, f)), prop("DTEND"@, format_secs(written_end(e), f))])
        =~= event_times(e));
    lemma_doc_text_line("SUMMARY:"@, "SUMMARY"@, e.title@);
    match opt_view(e.description) {
        Some(v) => lemma_doc_text_line("DESCRIPTION:"@, "DESCRIPTION"@, v),
        None => {},
    }
    match opt_view(e.location) {
        Some(v) => lemma_doc_text_line("LOCATION:"@, "LOCATION"@, v),
        None => {},
    }
    match opt_view(e.recurrence_rule) {
        Some(v) => {
            lemma_crlf_joined_one(prop("RRULE"@, v));
            assert(crlf_joined(seq![prop("RRULE"@, v)]) =~= raw_line("RRULE:"@, Some(v)));
        },
        None => {},
    }
    match opt_view(e.organizer) {
        Some(v) => {
            lemma_crlf_joined_one(prop("ORGANIZER"@, "mailto:"@ + escape_text(v)));
            assert(crlf_joined(seq![prop("ORGANIZER"@, "mailto:"@ + escape_text(v))]) =~= text_line("ORGANIZER:mailto:"@, v));
        },
        None => {},
    }
    lemma_attendee_lines(strings_view(e.attendees@));
}

#[verifier::rlimit(40)]
pub(crate) proof fn lemma_event_doc(e: CalendarEvent, uid: Seq<char>, stamp: Seq<char>)
    requires
        !e.all_day,
    ensures
        event_ics(e, uid, stamp) == crlf_joined(event_doc_lines(e, uid, stamp)),
{
    let f = "%Y%m%dT%H%M%SZ"@;
    let l0 = seq!["BEGIN:VCALENDAR"@, "VERSION:2.0"@, "PRODID:-//Cove Mail//EN"@];
    let l1 = seq!["BEGIN:VEVENT"@];
    let l2 = seq![prop("UID"@, escape_text(uid))];
    let l3 = seq![prop("DTSTAMP"@, stamp)];
    let l4 = seq![prop("DTSTART"@, format_secs(e.starts_at, f)), prop("DTEND"@, format_secs(written_end(e), f))];
    let l5 = seq![prop("SUMMARY"@, escape_text(e.title@))];
    let l6 = text_prop_lines("DESCRIPTION"@, opt_view(e.description));
    let l7 = text_prop_lines("LOCATION"@, opt_view(e.location));
    let l8 = raw_prop_lines("RRULE"@, opt_view(e.recurrence_rule));
    let l9 = mailto_prop_lines("ORGANIZER"@, opt_view(e.organizer));
    let l10 = attendee_props(strings_view(e.attendees@));
    let l11 = seq!["END:VEVENT"@, "END:VCALENDAR"@];
    lemma_doc_frame();
    lemma_doc_pieces(e, uid, stamp);
    lemma_crlf_joined_concat(l0, l1);
    lemma_crlf_joined_concat(l0 + l1, l2);
    lemma_crlf_joined_concat(l0 + l1 + l2, l3);
    lemma_crlf_joined_concat(l0 + l1 + l2 + l3, l4);
    lemma_crlf_joined_concat(l0 + l1 + l2 + l3 + l4, l5);
    lemma_crlf_joined_concat(l0 + l1 + l2 + l3 + l4 + l5, l6);
    lemma_crlf_joined_concat(l0 + l1 + l2 + l3 + l4 + l5 + l6, l7);
    lemma_crlf_joined_concat(l0 + l1 + l2 + l3 + l4 + l5 + l6 + l7, l8);
    lemma_crlf_joined_concat(l0 + l1 + l2 + l3 + l4 + l5 + l6 + l7 + l8, l9);
    lemma_crlf_joined_concat(l0 + l1 + l2 + l3 + l4 + l5 + l6 + l7 + l8 + l9, l10);
    lemma_crlf_joined_concat(l0 + l1 + l2 + l3 + l4 + l5 + l6 + l7 + l8 + l9 + l10, l11);
    assert(event_doc_lines(e, uid, stamp) == l0 + l1 + l2 + l3 + l4 + l5 + l6 + l7 + l8 + l9 + l10 + l11);
    let d = "DTSTAMP:"@ + stamp + "\r\n"@;
    assert(crlf_joined(l0) + crlf_joined(l1) + crlf_joined(l2) + "DTSTAMP:"@ + stamp + "\r\n"@
        =~= crlf_joined(l0) + crlf_joined(l1) + crlf_joined(l2) + d);
}

/// A line outside an event that is neither `BEGIN:VEVENT` nor `END:VEVENT`
/// (its length is neither) leaves the scan as it is.
pub open spec fn outside_line(l: Seq<char>) -> bool {
    &&& l.len() > 0 && !is_ws(l[0]) && !is_ws(l.last())
    &&& l.len() != 12 && l.len() != 10
}

pub(crate) proof fn lemma_skip_lines(st: EventScan, ls: Seq<Seq<char>>)
    requires
        !st.in_event,
        forall|k: int| 0 <= k < ls.len() ==> outside_line(#[trigger] ls[k]),
    ensures
        scan_from(st, ls) == st,
    decreases ls.len(),
{
    reveal_strlit("BEGIN:VEVENT");
    reveal_strlit("END:VEVENT");
    if ls.len() > 0 {
        let pre = ls.drop_last();
        assert forall|k: int| 0 <= k < pre.len() implies outside_line(#[trigger] pre[k]) by {
            assert(pre[k] == ls[k]);
        }
        lemma_skip_lines(st, pre);
        let l = ls.last();
        assert(outside_line(ls[ls.len() - 1]));
        lemma_trim_same(l);
        assert(ascii_lower(l).len() == l.len());
        assert(ascii_lower(l) != ascii_lower("BEGIN:VEVENT"@));
        assert(ascii_lower(l) != ascii_lower("END:VEVENT"@));
    }
}

pub(crate) proof fn lemma_begin_end_steps(st: EventScan)
    ensures
        event_scan_step(st, "BEGIN:VEVENT"@) == (EventScan { in_event: true, current: no_event_fields(), events: st.events }),
        event_scan_step(st, "END:VEVENT"@) == (EventScan {
            in_event: false,
            current: no_event_fields(),
            events: match finish_event(st.current) {
                Some(e) => st.events.push(e),
                None => st.events,
            },
        }),
{
    reveal_strlit("BEGIN:VEVENT");
    reveal_strlit("END:VEVENT");
    lemma_trim_same("BEGIN:VEVENT"@);
    lemma_trim_same("END:VEVENT"@);
    assert(ascii_lower("END:VEVENT"@).len() == 10);
    assert(ascii_lower("BEGIN:VEVENT"@).len() == 12);
}

pub(crate) proof fn lemma_text_prop_scan(st: EventScan, n: Seq<char>, o: Option<Seq<char>>)
    requires
        st.in_event,
        property_name(n),
        o matches Some(v) ==> line_text(v),
    ensures
        scan_from(st, text_prop_lines(n, o)) == (match o {
            Some(v) => EventScan { current: apply_event_property(st.current, n, escape_text(v)), ..st },
            None => st,
        }),
{
    match o {
        Some(v) => {
            lemma_escape_value(v);
            lemma_scan_from_one(st, prop(n, escape_text(v)));
            lemma_property_step(st, n, escape_text(v));
        },
        None => {},
    }
}

pub(crate) proof fn lemma_raw_prop_scan(st: EventScan, n: Seq<char>, o: Option<Seq<char>>)
    requires
        st.in_event,
        property_name(n),
        o matches Some(v) ==> property_value(v),
    ensures
        scan_from(st, raw_prop_lines(n, o)) == (match o {
            Some(v) => EventScan { current: apply_event_property(st.current, n, v), ..st },
            None => st,
        }),
{
    match o {
        Some(v) => {
            lemma_scan_from_one(st, prop(n, v));
            lemma_property_step(st, n, v);
        },
        None => {},
    }
}

pub(crate) proof fn lemma_mailto_prop_scan(st: EventScan, n: Seq<char>, o: Option<Seq<char>>)
    requires
        st.in_event,
        property_name(n),
        o matches Some(v) ==> line_text(v),
    ensures
        scan_from(st, mailto_prop_lines(n, o)) == (match o {
            Some(v) => EventScan { current: apply_event_property(st.current, n, "mailto:"@ + escape_text(v)), ..st },
            None => st,
        }),
{
    match o {
        Some(v) => {
            lemma_mailto(v);
            lemma_scan_from_one(st, prop(n, "mailto:"@ + escape_text(v)));
            lemma_property_step(st, n, "mailto:"@ + escape_text(v));
        },
        None => {},
    }
}

pub(crate) proof fn lemma_attendee_scan(st: EventScan, atts: Seq<Seq<char>>)
    requires
        st.in_event,
        forall|k: int| 0 <= k < atts.len() ==> line_text(#[trigger] atts[k]),
    ensures
        scan_from(st, attendee_props(atts)) == (EventScan {
            current: EventFields { attendees: st.current.attendees + atts, ..st.current },
            ..st
        }),
    decreases atts.len(),
{
    if atts.len() == 0 {
        assert(st.current.attendees + atts =~= st.current.attendees);
        assert(scan_from(st, Seq::<Seq<char>>::empty()) == st);
    } else {
        let pre = atts.drop_last();
        let a = atts.last();
        assert forall|k: int| 0 <= k < pre.len() implies line_text(#[trigger] pre[k]) by {
            assert(pre[k] == atts[k]);
        }
        lemma_attendee_scan(st, pre);
        assert(line_text(atts[atts.len() - 1]));
        let ps = attendee_props(pre);
        let l = prop("ATTENDEE"@, "mailto:"@ + escape_text(a));
        assert(ps.push(l).drop_last() =~= ps);
        let st1 = scan_from(st, ps);
        lemma_names();
        lemma_mailto(a);
        lemma_property_step(st1, "ATTENDEE"@, "mailto:"@ + escape_text(a));
        lemma_apply_names(st1.current, "mailto:"@ + escape_text(a));
        assert(st.current.attendees + pre.push(a) =~= (st.current.attendees + pre).push(a));
        assert(pre.push(a) =~= atts);
    }
}

/// The basic-format text of `t`, as chrono writes and reads it back.
pub open spec fn reads_back(text: Seq<char>, t: i64) -> bool {
    &&& basic_utc_text(text)
    &&& rfc3339_secs(text) is None
    &&& naive_datetime_secs(text, "%Y%m%dT%H%M%SZ"@) == Some(t)
}

pub(crate) proof fn lemma_time_value(n: Seq<char>, text: Seq<char>, t: i64)
    requires
        reads_back(text, t),
    ensures
        property_value(text),
        event_time(n, text) == Some(t),
        !(text.len() == 8 && crate::text::all_ascii_digits(text)),
{
    assert forall|i: int| 0 <= i < text.len() implies #[trigger] text[i] != '\r' && text[i] != '\n' by {
        if i != 8 && i != 15 {
            assert('0' <= text[i] && text[i] <= '9');
        }
    }
    assert(text[0] != ' ' && '0' <= text[0]);
    assert(text.last() == text[15]);
}

pub(crate) proof fn lemma_stamp_value(stamp: Seq<char>)
    requires
        crate::time::no_ws(stamp),
    ensures
        property_value(stamp),
{
    assert forall|i: int| 0 <= i < stamp.len() implies #[trigger] stamp[i] != '\r' && stamp[i] != '\n' by {
        assert(!is_ws(stamp[i]));
    }
    if stamp.len() > 0 {
        assert(!is_ws(stamp[0]));
        assert(!is_ws(stamp[stamp.len() - 1]));
    }
}

/// What the scanner reads from the lines written for a timed event.
#[verifier::rlimit(60)]
pub(crate) proof fn lemma_event_doc_scan(e: CalendarEvent, uid: Seq<char>, stamp: Seq<char>)
    requires
        !e.all_day,
        e.starts_at < e.ends_at,
        uid.len() > 0,
        property_value(uid),
        escape_free(uid),
        crate::time::no_ws(stamp),
        reads_back(format_secs(e.starts_at, "%Y%m%dT%H%M%SZ"@), e.starts_at),
        reads_back(format_secs(e.ends_at, "%Y%m%dT%H%M%SZ"@), e.ends_at),
        line_text(e.title@),
        opt_view(e.description) matches Some(v) ==> line_text(v),
        opt_view(e.location) matches Some(v) ==> line_text(v),
        opt_view(e.organizer) matches Some(v) ==> line_text(v),
        opt_view(e.recurrence_rule) matches Some(v) ==> property_value(v),
        forall|k: int| 0 <= k < e.attendees@.len() ==> line_text(#[trigger] e.attendees@[k]@),
    ensures
        ({
            let evs = event_scan(event_doc_lines(e, uid, stamp)).events;
            &&& evs.len() == 1
            &&& evs[0].uid == Some(uid)
            &&& evs[0].title == Some(e.title@)
            &&& evs[0].description == opt_view(e.description)
            &&& evs[0].location == opt_view(e.location)
            &&& evs[0].starts_at == Some(e.starts_at)
            &&& evs[0].ends_at == Some(e.ends_at)
            &&& !evs[0].all_day
            &&& evs[0].recurrence_rule == opt_view(e.recurrence_rule)
            &&& evs[0].attendees == strings_view(e.attendees@)
            &&& evs[0].organizer == opt_view(e.organizer)
        }),
{
    reveal_strlit("BEGIN:VCALENDAR");
    reveal_strlit("VERSION:2.0");
    reveal_strlit("PRODID:-//Cove Mail//EN");
    reveal_strlit("END:VCALENDAR");
    let f = "%Y%m%dT%H%M%SZ"@;
    assert(written_end(e) == e.ends_at);
    let fs = format_secs(e.starts_at, f);
    let fe = format_secs(e.ends_at, f);
    let l0 = seq!["BEGIN:VCALENDAR"@, "VERSION:2.0"@, "PRODID:-//Cove Mail//EN"@];
    let l1 = seq!["BEGIN:VEVENT"@];
    let l2 = seq![prop("UID"@, escape_text(uid))];
    let l3 = seq![prop("DTSTAMP"@, stamp)];
    let l4 = seq![prop("DTSTART"@, fs), prop("DTEND"@, fe)];
    let l5 = seq![prop("SUMMARY"@, escape_text(e.title@))];
    let l6 = text_prop_lines("DESCRIPTION"@, opt_view(e.description));
    let l7 = text_prop_lines("LOCATION"@, opt_view(e.location));
    let l8 = raw_prop_lines("RRULE"@, opt_view(e.recurrence_rule));
    let l9 = mailto_prop_lines("ORGANIZER"@, opt_view(e.organizer));
    let l10 = attendee_props(strings_view(e.attendees@));
    let l11 = seq!["END:VEVENT"@, "END:VCALENDAR"@];
    assert(event_doc_lines(e, uid, stamp) == l0 + l1 + l2 + l3 + l4 + l5 + l6 + l7 + l8 + l9 + l10 + l11);
    lemma_names();
    lemma_scan_is_scan_from(event_doc_lines(e, uid, stamp));
    // the calendar's own lines
    let s0 = event_scan_start();
    assert forall|k: int| 0 <= k < l0.len() implies outside_line(#[trigger] l0[k]) by {}
    lemma_skip_lines(s0, l0);
    // the event opens
    lemma_scan_from_concat(s0, l0, l1);
    lemma_scan_from_one(s0, "BEGIN:VEVENT"@);
    lemma_begin_end_steps(s0);
    let s1 = scan_from(s0, l0 + l1);
    assert(s1 == EventScan { in_event: true, current: no_event_fields(), events: Seq::empty() });
    // UID
    lemma_escape_free_same(uid);
    lemma_scan_from_concat(s0, l0 + l1, l2);
    lemma_scan_from_one(s1, prop("UID"@, uid));
    lemma_property_step(s1, "UID"@, uid);
    lemma_apply_names(s1.current, uid);
    let s2 = scan_from(s0, l0 + l1 + l2);
    assert(s2.in_event && s2.events.len() == 0 && s2.current.uid == Some(uid));
    // DTSTAMP
    lemma_stamp_value(stamp);
    lemma_scan_from_concat(s0, l0 + l1 + l2, l3);
    lemma_scan_from_one(s2, prop("DTSTAMP"@, stamp));
    lemma_property_step(s2, "DTSTAMP"@, stamp);
    lemma_apply_names(s2.current, stamp);
    let s3 = scan_from(s0, l0 + l1 + l2 + l3);
    assert(s3.in_event && s3.events.len() == 0 && s3.current.uid == Some(uid));
    assert(s3.current.title.is_none() && s3.current.description.is_none() && s3.current.location.is_none());
    assert(s3.current.recurrence_rule.is_none() && s3.current.organizer.is_none() && s3.current.attendees.len() == 0);
    // DTSTART and DTEND
    lemma_time_value("DTSTART"@, fs, e.starts_at);
    lemma_time_value("DTEND"@, fe, e.ends_at);
    lemma_scan_from_concat(s0, l0 + l1 + l2 + l3, l4);
    assert(l4.drop_last() =~= seq![prop("DTSTART"@, fs)]);
    lemma_scan_from_one(s3, prop("DTSTART"@, fs));
    lemma_property_step(s3, "DTSTART"@, fs);
    lemma_apply_names(s3.current, fs);
    let s3b = event_scan_step(s3, prop("DTSTART"@, fs));
    lemma_property_step(s3b, "DTEND"@, fe);
    lemma_apply_names(s3b.current, fe);
    let s4 = scan_from(s0, l0 + l1 + l2 + l3 + l4);
    assert(s4 == event_scan_step(s3b, prop("DTEND"@, fe)));
    assert(s4.in_event && s4.events.len() == 0);
    assert(s4.current.starts_at == Some(e.starts_at) && s4.current.ends_at == Some(e.ends_at) && !s4.current.all_day);
    // SUMMARY
    lemma_escape_value(e.title@);
    lemma_unescape_escape(e.title@);
    lemma_scan_from_concat(s0, l0 + l1 + l2 + l3 + l4, l5);
    lemma_scan_from_one(s4, prop("SUMMARY"@, escape_text(e.title@)));
    lemma_property_step(s4, "SUMMARY"@, escape_text(e.title@));
    lemma_apply_names(s4.current, escape_text(e.title@));
    let s5 = scan_from(s0, l0 + l1 + l2 + l3 + l4 + l5);
    assert(s5.in_event && s5.events.len() == 0 && s5.current.title == Some(e.title@));
    assert(s5.current.uid == Some(uid) && s5.current.starts_at == Some(e.starts_at));
    // the optional lines
    lemma_event_doc_scan_rest(e, s5, l6, l7, l8, l9, l10);
    let s10 = scan_from(s5, l6 + l7 + l8 + l9 + l10);
    lemma_scan_from_concat(s5, l6, l7);
    lemma_scan_from_concat(s5, l6 + l7, l8);
    lemma_scan_from_concat(s5, l6 + l7 + l8, l9);
    lemma_scan_from_concat(s5, l6 + l7 + l8 + l9, l10);
    lemma_scan_from_concat(s0, l0 + l1 + l2 + l3 + l4 + l5, l6);
    lemma_scan_from_concat(s0, l0 + l1 + l2 + l3 + l4 + l5 + l6, l7);
    lemma_scan_from_concat(s0, l0 + l1 + l2 + l3 + l4 + l5 + l6 + l7, l8);
    lemma_scan_from_concat(s0, l0 + l1 + l2 + l3 + l4 + l5 + l6 + l7 + l8, l9);
    lemma_scan_from_concat(s0, l0 + l1 + l2 + l3 + l4 + l5 + l6 + l7 + l8 + l9, l10);
    assert(scan_from(s0, l0 + l1 + l2 + l3 + l4 + l5 + l6 + l7 + l8 + l9 + l10) == s10);
    // the event closes, then the calendar
    lemma_scan_from_concat(s0, l0 + l1 + l2 + l3 + l4 + l5 + l6 + l7 + l8 + l9 + l10, l11);
    assert(l11.drop_last() =~= seq!["END:VEVENT"@]);
    lemma_scan_from_one(s10, "END:VEVENT"@);
    lemma_begin_end_steps(s10);
    let s11 = event_scan_step(s10, "END:VEVENT"@);
    assert(outside_line("END:VCALENDAR"@));
    assert forall|k: int| 0 <= k < seq!["END:VCALENDAR"@].len() implies outside_line(#[trigger] seq!["END:VCALENDAR"@][k]) by {}
    lemma_skip_lines(s11, seq!["END:VCALENDAR"@]);
    lemma_scan_from_one(s11, "END:VCALENDAR"@);
}

pub(crate) proof fn lemma_event_doc_scan_rest(
    e: CalendarEvent,
    s5: EventScan,
    l6: Seq<Seq<char>>,
    l7: Seq<Seq<char>>,
    l8: Seq<Seq<char>>,
    l9: Seq<Seq<char>>,
    l10: Seq<Seq<char>>,
)
    requires
        s5.in_event,
        s5.current.description.is_none() && s5.current.location.is_none(),
        s5.current.recurrence_rule.is_none() && s5.current.organizer.is_none() && s5.current.attendees.len() == 0,
        l6 == text_prop_lines("DESCRIPTION"@, opt_view(e.description)),
        l7 == text_prop_lines("LOCATION"@, opt_view(e.location)),
        l8 == raw_prop_lines("RRULE"@, opt_view(e.recurrence_rule)),
        l9 == mailto_prop_lines("ORGANIZER"@, opt_view(e.organizer)),
        l10 == attendee_props(strings_view(e.attendees@)),
        opt_view(e.description) matches Some(v) ==> line_text(v),
        opt_view(e.location) matches Some(v) ==> line_text(v),
        opt_view(e.organizer) matches Some(v) ==> line_text(v),
        opt_view(e.recurrence_rule) matches Some(v) ==> property_value(v),
        forall|k: int| 0 <= k < e.attendees@.len() ==> line_text(#[trigger] e.attendees@[k]@),
    ensures
        ({
            let s = scan_from(s5, l6 + l7 + l8 + l9 + l10);
            &&& s.in_event
            &&& s.events == s5.events
            &&& s.current == (EventFields {
                description: opt_view(e.description),
                location: opt_view(e.location),
                recurrence_rule: opt_view(e.recurrence_rule),
                organizer: opt_view(e.organizer),
                attendees: strings_view(e.attendees@),
                ..s5.current
            })
        }),
{
    lemma_names();
    lemma_text_prop_scan(s5, "DESCRIPTION"@, opt_view(e.description));
    match opt_view(e.description) {
        Some(v) => {
            lemma_apply_names(s5.current, escape_text(v));
            lemma_unescape_escape(v);
        },
        None => {},
    }
    let s6 = scan_from(s5, l6);
    lemma_text_prop_scan(s6, "LOCATION"@, opt_view(e.location));
    match opt_view(e.location) {
        Some(v) => {
            lemma_apply_names(s6.current, escape_text(v));
            lemma_unescape_escape(v);
        },
        None => {},
    }
    let s7 = scan_from(s6, l7);
    lemma_raw_prop_scan(s7, "RRULE"@, opt_view(e.recurrence_rule));
    match opt_view(e.recurrence_rule) {
        Some(v) => {
            lemma_apply_names(s7.current, v);
        },
        None => {},
    }
    let s8 = scan_from(s7, l8);
    lemma_mailto_prop_scan(s8, "ORGANIZER"@, opt_view(e.organizer));
    match opt_view(e.organizer) {
        Some(v) => {
            lemma_apply_names(s8.current, "mailto:"@ + escape_text(v));
            lemma_mailto(v);
        },
        None => {},
    }
    let s9 = scan_from(s8, l9);
    let atts = strings_view(e.attendees@);
    assert forall|k: int| 0 <= k < atts.len() implies line_text(#[trigger] atts[k]) by {
        assert(atts[k] == e.attendees@[k]@);
    }
    lemma_attendee_scan(s9, atts);
    assert(s9.current.attendees + atts =~= atts);
    lemma_scan_from_concat(s5, l6, l7);
    lemma_scan_from_concat(s5, l6 + l7, l8);
    lemma_scan_from_concat(s5, l6 + l7 + l8, l9);
    lemma_scan_from_concat(s5, l6 + l7 + l8 + l9, l10);
}

pub(crate) proof fn lemma_attendee_props_plain(atts: Seq<Seq<char>>)
    requires
        forall|k: int| 0 <= k < atts.len() ==> line_text(#[trigger] atts[k]),
    ensures
        plain_lines(attendee_props(atts)),
    decreases atts.len(),
{
    if atts.len() > 0 {
        let pre = atts.drop_last();
        assert forall|k: int| 0 <= k < pre.len() implies line_text(#[trigger] pre[k]) by {
            assert(pre[k] == atts[k]);
        }
        lemma_attendee_props_plain(pre);
        assert(line_text(atts[atts.len() - 1]));
        lemma_names();
        lemma_mailto(atts.last());
        lemma_property_line_plain("ATTENDEE"@, "mailto:"@ + escape_text(atts.last()));
        let ps = attendee_props(pre);
        let l = prop("ATTENDEE"@, "mailto:"@ + escape_text(atts.last()));
        assert forall|k: int| 0 <= k < ps.push(l).len() implies plain_line(#[trigger] ps.push(l)[k]) by {
            if k < ps.len() {
                assert(ps.push(l)[k] == ps[k]);
            }
        }
    }
}

pub(crate) proof fn lemma_plain_concat(a: Seq<Seq<char>>, b: Seq<Seq<char>>)
    requires
        plain_lines(a),
        plain_lines(b),
    ensures
        plain_lines(a + b),
{
    assert forall|k: int| 0 <= k < (a + b).len() implies plain_line(#[trigger] (a + b)[k]) by {
        if k < a.len() {
            assert((a + b)[k] == a[k]);
        } else {
            assert((a + b)[k] == b[k - a.len()]);
        }
    }
}

pub(crate) proof fn lemma_literal_lines_plain()
    ensures
        plain_lines(seq!["BEGIN:VCALENDAR"@, "VERSION:2.0"@, "PRODID:-//Cove Mail//EN"@]),
        plain_lines(seq!["BEGIN:VEVENT"@]),
        plain_lines(seq!["END:VEVENT"@, "END:VCALENDAR"@]),
{
    reveal_strlit("BEGIN:VCALENDAR");
    reveal_strlit("VERSION:2.0");
    reveal_strlit("PRODID:-//Cove Mail//EN");
    reveal_strlit("BEGIN:VEVENT");
    reveal_strlit("END:VEVENT");
    reveal_strlit("END:VCALENDAR");
    let a = seq!["BEGIN:VCALENDAR"@, "VERSION:2.0"@, "PRODID:-//Cove Mail//EN"@];
    assert forall|k: int| 0 <= k < a.len() implies plain_line(#[trigger] a[k]) by {}
    let b = seq!["BEGIN:VEVENT"@];
    assert forall|k: int| 0 <= k < b.len() implies plain_line(#[trigger] b[k]) by {}
    let c = seq!["END:VEVENT"@, "END:VCALENDAR"@];
    assert forall|k: int| 0 <= k < c.len() implies plain_line(#[trigger] c[k]) by {}
}

pub(crate) proof fn lemma_one_plain(n: Seq<char>, v: Seq<char>)
    requires
        property_name(n),
        property_value(v),
    ensures
        plain_lines(seq![prop(n, v)]),
{
    lemma_property_line_plain(n, v);
    assert forall|k: int| 0 <= k < seq![prop(n, v)].len() implies plain_line(#[trigger] seq![prop(n, v)][k]) by {}
}

#[verifier::rlimit(40)]
pub(crate) proof fn lemma_event_doc_plain(e: CalendarEvent, uid: Seq<char>, stamp: Seq<char>)
    requires
        property_value(uid),
        escape_free(uid),
        crate::time::no_ws(stamp),
        reads_back(format_secs(e.starts_at, "%Y%m%dT%H%M%SZ"@), e.starts_at),
        reads_back(format_secs(written_end(e), "%Y%m%dT%H%M%SZ"@), written_end(e)),
        line_text(e.title@),
        opt_view(e.description) matches Some(v) ==> line_text(v),
        opt_view(e.location) matches Some(v) ==> line_text(v),
        opt_view(e.organizer) matches Some(v) ==> line_text(v),
        opt_view(e.recurrence_rule) matches Some(v) ==> property_value(v),
        forall|k: int| 0 <= k < e.attendees@.len() ==> line_text(#[trigger] e.attendees@[k]@),
    ensures
        plain_lines(event_doc_lines(e, uid, stamp)),
{
    let f = "%Y%m%dT%H%M%SZ"@;
    let fs = format_secs(e.starts_at, f);
    let fe = format_secs(written_end(e), f);
    lemma_names();
    lemma_literal_lines_plain();
    lemma_escape_free_same(uid);
    lemma_one_plain("UID"@, escape_text(uid));
    lemma_stamp_value(stamp);
    lemma_one_plain("DTSTAMP"@, stamp);
    lemma_time_value("DTSTART"@, fs, e.starts_at);
    lemma_time_value("DTEND"@, fe, written_end(e));
    lemma_one_plain("DTSTART"@, fs);
    lemma_one_plain("DTEND"@, fe);
    lemma_plain_concat(seq![prop("DTSTART"@, fs)], seq![prop("DTEND"@, fe)]);
    assert(seq![prop("DTSTART"@, fs)] + seq![prop("DTEND"@, fe)] =~= seq![prop("DTSTART"@, fs), prop("DTEND"@, fe)]);
    lemma_escape_value(e.title@);
    lemma_one_plain("SUMMARY"@, escape_text(e.title@));
    match opt_view(e.description) {
        Some(v) => { lemma_escape_value(v); lemma_one_plain("DESCRIPTION"@, escape_text(v)); },
        None => {},
    }
    match opt_view(e.location) {
        Some(v) => { lemma_escape_value(v); lemma_one_plain("LOCATION"@, escape_text(v)); },
        None => {},
    }
    match opt_view(e.recurrence_rule) {
        Some(v) => { lemma_one_plain("RRULE"@, v); },
        None => {},
    }
    match opt_view(e.organizer) {
        Some(v) => { lemma_mailto(v); lemma_one_plain("ORGANIZER"@, "mailto:"@ + escape_text(v)); },
        None => {},
    }
    let atts = strings_view(e.attendees@);
    assert forall|k: int| 0 <= k < atts.len() implies line_text(#[trigger] atts[k]) by {
        assert(atts[k] == e.attendees@[k]@);
    }
    lemma_attendee_props_plain(atts);
    let l0 = seq!["BEGIN:VCALENDAR"@, "VERSION:2.0"@, "PRODID:-//Cove Mail//EN"@];
    let l1 = seq!["BEGIN:VEVENT"@];
    let l2 = seq![prop("UID"@, escape_text(uid))];
    let l3 = seq![prop("DTSTAMP"@, stamp)];
    let l4 = seq![prop("DTSTART"@, fs), prop("DTEND"@, fe)];
    let l5 = seq![prop("SUMMARY"@, escape_text(e.title@))];
    let l6 = text_prop_lines("DESCRIPTION"@, opt_view(e.description));
    let l7 = text_prop_lines("LOCATION"@, opt_view(e.location));
    let l8 = raw_prop_lines("RRULE"@, opt_view(e.recurrence_rule));
    let l9 = mailto_prop_lines("ORGANIZER"@, opt_view(e.organizer));
    let l10 = attendee_props(atts);
    let l11 = seq!["END:VEVENT"@, "END:VCALENDAR"@];
    assert(plain_lines(l6) && plain_lines(l7) && plain_lines(l8) && plain_lines(l9));
    lemma_plain_concat(l0, l1);
    lemma_plain_concat(l0 + l1, l2);
    lemma_plain_concat(l0 + l1 + l2, l3);
    lemma_plain_concat(l0 + l1 + l2 + l3, l4);
    lemma_plain_concat(l0 + l1 + l2 + l3 + l4, l5);
    lemma_plain_concat(l0 + l1 + l2 + l3 + l4 + l5, l6);
    lemma_plain_concat(l0 + l1 + l2 + l3 + l4 + l5 + l6, l7);
    lemma_plain_concat(l0 + l1 + l2 + l3 + l4 + l5 + l6 + l7, l8);
    lemma_plain_concat(l0 + l1 + l2 + l3 + l4 + l5 + l6 + l7 + l8, l9);
    lemma_plain_concat(l0 + l1 + l2 + l3 + l4 + l5 + l6 + l7 + l8 + l9, l10);
    lemma_plain_concat(l0 + l1 + l2 + l3 + l4 + l5 + l6 + l7 + l8 + l9 + l10, l11);
    assert(event_doc_lines(e, uid, stamp) == l0 + l1 + l2 + l3 + l4 + l5 + l6 + l7 + l8 + l9 + l10 + l11);
}

/// A timed event that its iCalendar document carries unchanged: the end
/// after the start, both in years 0 to 9999; a remote id (the `UID`) that
/// needs no escaping and has no whitespace at either end; texts without
/// carriage returns or whitespace at either end, and a recurrence rule
/// without line breaks or whitespace at either end.
pub open spec fn event_round_trips(e: CalendarEvent) -> bool {
    &&& !e.all_day
    &&& e.starts_at < e.ends_at
    &&& four_digit_year(e.starts_at) && four_digit_year(e.ends_at)
    &&& e.remote_id@.len() > 0 && property_value(e.remote_id@) && escape_free(e.remote_id@)
    &&& line_text(e.title@)
    &&& (opt_view(e.description) matches Some(v) ==> line_text(v))
    &&& (opt_view(e.location) matches Some(v) ==> line_text(v))
    &&& (opt_view(e.organizer) matches Some(v) ==> line_text(v))
    &&& (opt_view(e.recurrence_rule) matches Some(v) ==> property_value(v))
    &&& forall|k: int| 0 <= k < e.attendees@.len() ==> line_text(#[trigger] e.attendees@[k]@)
}

/// Reading the document written for such an event gives one event with its
/// remote id, title, texts, start, end, rule, organizer and attendees.
pub(crate) proof fn lemma_event_round_trip(e: CalendarEvent, uid: Seq<char>, stamp: Seq<char>)
    requires
        event_round_trips(e),
        uid == e.remote_id@,
        crate::time::no_ws(stamp),
        reads_back(format_secs(e.starts_at, "%Y%m%dT%H%M%SZ"@), e.starts_at),
        reads_back(format_secs(written_end(e), "%Y%m%dT%H%M%SZ"@), written_end(e)),
    ensures
        ({
            let evs = ical_events(event_ics(e, uid, stamp));
            &&& evs.len() == 1
            &&& evs[0].uid == Some(e.remote_id@)
            &&& evs[0].title == Some(e.title@)
            &&& evs[0].description == opt_view(e.description)
            &&& evs[0].location == opt_view(e.location)
            &&& evs[0].starts_at == Some(e.starts_at)
            &&& evs[0].ends_at == Some(e.ends_at)
            &&& !evs[0].all_day
            &&& evs[0].recurrence_rule == opt_view(e.recurrence_rule)
            &&& evs[0].attendees == strings_view(e.attendees@)
            &&& evs[0].organizer == opt_view(e.organizer)
        }),
{
    assert(written_end(e) == e.ends_at);
    lemma_event_doc(e, uid, stamp);
    lemma_event_doc_plain(e, uid, stamp);
    let ls = event_doc_lines(e, uid, stamp);
    assert(ls.len() > 0);
    lemma_unfolded_crlf_joined(ls);
    lemma_event_doc_scan(e, uid, stamp);
}

}
