//! iCalendar (RFC 5545) reading and writing for events and to-dos.
use vstd::prelude::*;
use crate::model::{CalendarAlarm, CalendarEvent, RsvpStatus};
use crate::ids::{new_id, uuid_to_string};
use crate::markup::{unescape_xml_entities, xml_unescape};
use crate::pattern::{all_captures, captures_all, groups_view, matches_view};
use crate::time::{
    now_utc, format_now, format_secs, format_time, formattable,
    chrono_time, naive_date_secs, naive_datetime_secs, parse_naive_date, parse_naive_datetime,
    parse_rfc3339, rfc3339_secs, zone_local, zone_local_secs, LocalInstant,
};
use crate::text::{
    string_from_chars, push_str, trim, trimmed, upper, ascii_upper, all_ascii_digits, is_all_ascii_digits,
    ascii_lower, chars_of, crlf_to_lf, eq_ignore_ascii_case, eq_ignore_case, extend, find_char,
    has_prefix, lemma_split_char_nonempty, lines, lines_of, lower, normalize_newlines, slice_range,
    split_char, split_on, split_once, split_once_char, starts_with, to_vec, trim_char, trim_matches_char,
    trim_start, trim_start_index,
};

verus! {

// ------------------------------------------------------------------ unfolding

/// Joins continuation lines (those starting with a space or a tab) onto the
/// line before them, after the leading whitespace of the continuation.
pub open spec fn unfold(ls: Seq<Seq<char>>) -> Seq<Seq<char>>
    decreases ls.len(),
{
    if ls.len() == 0 {
        ls
    } else {
        let pre = unfold(ls.drop_last());
        let l = ls.last();
        if pre.len() > 0 && l.len() > 0 && (l[0] == ' ' || l[0] == '\t') {
            pre.update(pre.len() - 1, pre.last() + trim_start(l))
        } else {
            pre.push(l)
        }
    }
}

/// The logical lines of an iCalendar payload.
pub open spec fn unfolded_lines(payload: Seq<char>) -> Seq<Seq<char>> {
    unfold(lines_of(crlf_to_lf(payload)))
}

pub open spec fn views(v: Seq<Vec<char>>) -> Seq<Seq<char>> {
    v.map_values(|p: Vec<char>| p@)
}

/// Splits a payload into logical lines, undoing line folding.
pub fn unfold_ical_lines(payload: &[char]) -> (r: Vec<Vec<char>>)
    ensures
        views(r@) == unfolded_lines(payload@),
{
    let normalized = normalize_newlines(payload);
    let raw = lines(normalized.as_slice());
    let ghost ls = views(raw@);
    let mut out: Vec<Vec<char>> = Vec::new();
    assert(ls.take(0) =~= Seq::<Seq<char>>::empty());
    for i in 0..raw.len()
        invariant
            ls == views(raw@),
            ls == lines_of(crlf_to_lf(payload@)),
            views(out@) == unfold(ls.take(i as int)),
    {
        let line = &raw[i];
        assert(ls.take(i + 1).drop_last() =~= ls.take(i as int));
        assert(ls.take(i + 1).last() == line@);
        let ghost pre = views(out@);
        if out.len() > 0 && line.len() > 0 && (line[0] == ' ' || line[0] == '\t') {
            let mut last = out.pop().unwrap();
            let start = trim_start_index(line.as_slice());
            let tail = slice_range(line.as_slice(), start, line.len());
            assert(tail@ =~= line@.skip(start as int));
            extend(&mut last, tail.as_slice());
            out.push(last);
            assert(views(out@) =~= pre.update(pre.len() - 1, pre.last() + trim_start(line@)));
        } else {
            let copy = to_vec(line.as_slice());
            out.push(copy);
            assert(views(out@) =~= pre.push(line@));
        }
    }
    assert(ls.take(raw.len() as int) =~= ls);
    out
}

// ------------------------------------------------------------------ text escaping

/// Reverses iCalendar text escaping: `\n` or `\N` is a newline, a backslash
/// before any other character stands for that character, and a trailing lone
/// backslash is dropped.
pub open spec fn unescape_text(s: Seq<char>) -> Seq<char>
    decreases s.len(),
{
    if s.len() == 0 {
        s
    } else if s[0] != '\\' {
        seq![s[0]] + unescape_text(s.skip(1))
    } else if s.len() == 1 {
        Seq::empty()
    } else if s[1] == 'n' || s[1] == 'N' {
        seq!['\n'] + unescape_text(s.skip(2))
    } else {
        seq![s[1]] + unescape_text(s.skip(2))
    }
}

pub fn unescape_ical_text(s: &[char]) -> (r: Vec<char>)
    ensures r@ == unescape_text(s@),
{
    let mut r: Vec<char> = Vec::new();
    let mut i: usize = 0;
    assert(s@.skip(0) =~= s@);
    while i < s.len()
        invariant
            i <= s.len(),
            unescape_text(s@) == r@ + unescape_text(s@.skip(i as int)),
        decreases s.len() - i,
    {
        let ghost rest = s@.skip(i as int);
        let ghost r0 = r@;
        if s[i] != '\\' {
            r.push(s[i]);
            assert(rest.skip(1) =~= s@.skip(i + 1));
            i = i + 1;
        } else if i + 1 == s.len() {
            i = i + 1;
            assert(s@.skip(i as int) =~= Seq::<char>::empty());
        } else {
            let next = s[i + 1];
            if next == 'n' || next == 'N' {
                r.push('\n');
            } else {
                r.push(next);
            }
            assert(rest.skip(2) =~= s@.skip(i + 2));
            i = i + 2;
        }
        assert(r@ + unescape_text(s@.skip(i as int)) =~= r0 + (r@.skip(r0.len() as int) + unescape_text(s@.skip(i as int))));
    }
    assert(s@.skip(i as int) =~= Seq::<char>::empty());
    assert(r@ + Seq::<char>::empty() =~= r@);
    r
}

/// The escape of one character in iCalendar text.
pub open spec fn escape_char(c: char) -> Seq<char> {
    if c == '\\' {
        seq!['\\', '\\']
    } else if c == '\n' {
        seq!['\\', 'n']
    } else if c == ';' {
        seq!['\\', ';']
    } else if c == ',' {
        seq!['\\', ',']
    } else {
        seq![c]
    }
}

/// iCalendar text escaping of backslash, newline, semicolon and comma.
pub open spec fn escape_text(s: Seq<char>) -> Seq<char>
    decreases s.len(),
{
    if s.len() == 0 {
        s
    } else {
        escape_text(s.drop_last()) + escape_char(s.last())
    }
}

pub fn escape_ical_text(s: &[char]) -> (r: Vec<char>)
    ensures r@ == escape_text(s@),
{
    let mut r: Vec<char> = Vec::new();
    assert(s@.take(0) =~= Seq::<char>::empty());
    for i in 0..s.len()
        invariant
            r@ == escape_text(s@.take(i as int)),
    {
        let c = s[i];
        let ghost r0 = r@;
        if c == '\\' {
            r.push('\\');
            r.push('\\');
        } else if c == '\n' {
            r.push('\\');
            r.push('n');
        } else if c == ';' {
            r.push('\\');
            r.push(';');
        } else if c == ',' {
            r.push('\\');
            r.push(',');
        } else {
            r.push(c);
        }
        assert(s@.take(i + 1).drop_last() =~= s@.take(i as int));
        assert(r@ =~= r0 + escape_char(c));
    }
    assert(s@.take(s.len() as int) =~= s@);
    r
}

/// The escaping used when exporting a calendar; the same character mapping.
pub fn escape_ical(s: &[char]) -> (r: Vec<char>)
    ensures r@ == escape_text(s@),
{
    escape_ical_text(s)
}

pub(crate) proof fn lemma_escape_push_front(c: char, s: Seq<char>)
    ensures
        escape_text(seq![c] + s) == escape_char(c) + escape_text(s),
    decreases s.len(),
{
    if s.len() == 0 {
        assert(seq![c] + s =~= seq![c]);
        assert(seq![c].drop_last() =~= Seq::<char>::empty());
        assert(escape_char(c) + escape_text(s) =~= escape_char(c));
        assert(escape_text(Seq::<char>::empty()) =~= Seq::<char>::empty());
        assert(seq![c].last() == c);
        assert(escape_text(seq![c]) =~= Seq::<char>::empty() + escape_char(c));
    } else {
        lemma_escape_push_front(c, s.drop_last());
        assert((seq![c] + s).drop_last() =~= seq![c] + s.drop_last());
        assert((seq![c] + s).last() == s.last());
        assert(escape_char(c) + escape_text(s) =~= (escape_char(c) + escape_text(s.drop_last())) + escape_char(s.last()));
    }
}

proof fn lemma_unescape_prefix(e: Seq<char>, rest: Seq<char>, c: char)
    requires
        e == escape_char(c),
    ensures
        unescape_text(e + rest) == seq![c] + unescape_text(rest),
{
    let s = e + rest;
    if e.len() == 1 {
        assert(s[0] == c);
        assert(s.skip(1) =~= rest);
    } else {
        assert(s[0] == '\\');
        assert(s.skip(2) =~= rest);
    }
}

/// Reading escaped iCalendar text gives back the original text.
pub proof fn lemma_unescape_escape(s: Seq<char>)
    ensures
        unescape_text(escape_text(s)) == s,
    decreases s.len(),
{
    if s.len() > 0 {
        let c = s[0];
        let t = s.skip(1);
        assert(s =~= seq![c] + t);
        lemma_escape_push_front(c, t);
        lemma_unescape_prefix(escape_char(c), escape_text(t), c);
        lemma_unescape_escape(t);
    }
}

// ------------------------------------------------------------------ property parameters

/// The value of the first `TZID=` parameter among `parts`.
pub open spec fn tzid_in(parts: Seq<Seq<char>>) -> Option<Seq<char>>
    decreases parts.len(),
{
    if parts.len() == 0 {
        None
    } else {
        match split_once(parts[0], '=') {
            Some(kv) => if eq_ignore_case(kv.0, "TZID"@) {
                Some(trim_char(kv.1, '"'))
            } else {
                tzid_in(parts.drop_first())
            },
            None => tzid_in(parts.drop_first()),
        }
    }
}

/// The `TZID` parameter of a property name such as `DTSTART;TZID=Europe/Paris`.
pub open spec fn property_tzid_of(property: Seq<char>) -> Option<Seq<char>> {
    tzid_in(split_char(property, ';').skip(1))
}

/// Whether a `VALUE=DATE` parameter occurs among `parts`.
pub open spec fn value_date_in(parts: Seq<Seq<char>>) -> bool
    decreases parts.len(),
{
    if parts.len() == 0 {
        false
    } else {
        match split_once(parts[0], '=') {
            Some(kv) => (eq_ignore_case(kv.0, "VALUE"@) && eq_ignore_case(kv.1, "DATE"@))
                || value_date_in(parts.drop_first()),
            None => value_date_in(parts.drop_first()),
        }
    }
}

pub open spec fn property_is_date(property: Seq<char>) -> bool {
    value_date_in(split_char(property, ';').skip(1))
}

pub fn property_tzid(property: &[char]) -> (r: Option<Vec<char>>)
    ensures
        match r {
            Some(z) => property_tzid_of(property@) == Some(z@),
            None => property_tzid_of(property@).is_none(),
        },
{
    let parts = split_on(property, ';');
    let ghost ps = views(parts@);
    assert(ps =~= split_char(property@, ';'));
    proof { lemma_split_char_nonempty(property@, ';'); }
    let key = chars_of("TZID");
    let mut i: usize = 1;
    assert(property_tzid_of(property@) == tzid_in(ps.skip(1)));
    assert(ps.skip(1).skip(0) =~= ps.skip(1));
    while i < parts.len()
        invariant
            1 <= i <= parts.len(),
            ps == views(parts@),
            key@ == "TZID"@,
            tzid_in(ps.skip(1)) == tzid_in(ps.skip(i as int)),
            property_tzid_of(property@) == tzid_in(ps.skip(1)),
        decreases parts.len() - i,
    {
        assert(ps.skip(i as int)[0] == parts[i as int]@);
        assert(ps.skip(i as int).drop_first() =~= ps.skip(i + 1));
        match split_once_char(parts[i].as_slice(), '=') {
            Some((k, v)) => {
                if eq_ignore_ascii_case(k.as_slice(), key.as_slice()) {
                    let z = trim_matches_char(v.as_slice(), '"');
                    assert(split_once(ps.skip(i as int)[0], '=') == Some((k@, v@)));
                    assert(tzid_in(ps.skip(i as int)) == Some(z@));
                    return Some(z);
                }
            },
            None => {},
        }
        i = i + 1;
    }
    assert(ps.skip(i as int) =~= Seq::<Seq<char>>::empty());
    None
}

pub fn property_has_value_date(property: &[char]) -> (r: bool)
    ensures r == property_is_date(property@),
{
    let parts = split_on(property, ';');
    let ghost ps = views(parts@);
    assert(ps =~= split_char(property@, ';'));
    proof { lemma_split_char_nonempty(property@, ';'); }
    let key = chars_of("VALUE");
    let date = chars_of("DATE");
    let mut i: usize = 1;
    assert(property_is_date(property@) == value_date_in(ps.skip(1)));
    assert(ps.skip(1).skip(0) =~= ps.skip(1));
    while i < parts.len()
        invariant
            1 <= i <= parts.len(),
            ps == views(parts@),
            key@ == "VALUE"@,
            date@ == "DATE"@,
            value_date_in(ps.skip(1)) == value_date_in(ps.skip(i as int)),
            property_is_date(property@) == value_date_in(ps.skip(1)),
        decreases parts.len() - i,
    {
        assert(ps.skip(i as int)[0] == parts[i as int]@);
        assert(ps.skip(i as int).drop_first() =~= ps.skip(i + 1));
        match split_once_char(parts[i].as_slice(), '=') {
            Some((k, v)) => {
                if eq_ignore_ascii_case(k.as_slice(), key.as_slice())
                    && eq_ignore_ascii_case(v.as_slice(), date.as_slice()) {
                    assert(split_once(ps.skip(i as int)[0], '=') == Some((k@, v@)));
                    assert(value_date_in(ps.skip(i as int)));
                    return true;
                }
            },
            None => {},
        }
        i = i + 1;
    }
    assert(ps.skip(i as int) =~= Seq::<Seq<char>>::empty());
    false
}

/// A calendar user address: the text after a `mailto:` prefix, or any text
/// holding an `@`, unescaped.
pub open spec fn mail_address_of(value: Seq<char>) -> Option<Seq<char>> {
    if starts_with(ascii_lower(value), "mailto:"@) {
        Some(unescape_text(value.skip(7)))
    } else if value.contains('@') {
        Some(unescape_text(value))
    } else {
        None
    }
}

pub fn parse_ical_mail_address(value: &[char]) -> (r: Option<Vec<char>>)
    ensures
        match r {
            Some(a) => mail_address_of(value@) == Some(a@),
            None => mail_address_of(value@).is_none(),
        },
{
    let lowered = lower(value);
    let prefix = chars_of("mailto:");
    if has_prefix(lowered.as_slice(), prefix.as_slice()) {
        proof { reveal_strlit("mailto:"); }
        assert(prefix@.len() == 7);
        let rest = slice_range(value, 7, value.len());
        assert(rest@ =~= value@.skip(7));
        return Some(unescape_ical_text(rest.as_slice()));
    }
    match find_char(value, '@') {
        Some(_) => Some(unescape_ical_text(value)),
        None => None,
    }
}

}

verus! {

// ------------------------------------------------------------------ date-times

/// An RFC 3339 instant, or a UTC basic-format date-time (`20240102T030405Z`).
pub open spec fn ical_like_time(v: Seq<char>) -> Option<i64> {
    match rfc3339_secs(v) {
        Some(t) => Some(t),
        None => naive_datetime_secs(v, "%Y%m%dT%H%M%SZ"@),
    }
}

/// A wall-clock time read in the zone named by the property's `TZID`; kept as
/// UTC when there is no such parameter or the zone is unknown, the earlier
/// instant when the time is ambiguous, and as UTC when it falls in a gap.
pub open spec fn zoned_time(property: Seq<char>, naive: i64) -> i64 {
    match property_tzid_of(property) {
        Some(zone) => match zone_local_secs(zone, naive) {
            Some(LocalInstant::Single(t)) => t,
            Some(LocalInstant::Ambiguous(first, _)) => first,
            _ => naive,
        },
        None => naive,
    }
}

/// The instant of an event date-time property value.
pub open spec fn event_time(property: Seq<char>, value: Seq<char>) -> Option<i64> {
    match ical_like_time(value) {
        Some(t) => Some(t),
        None => match naive_date_secs(value, "%Y%m%d"@) {
            Some(t) => Some(t),
            None => match naive_datetime_secs(value, "%Y%m%dT%H%M%S"@) {
                Some(n) => Some(zoned_time(property, n)),
                None => match naive_datetime_secs(value, "%Y%m%dT%H%M"@) {
                    Some(n) => Some(zoned_time(property, n)),
                    None => None,
                },
            },
        },
    }
}

/// The instant of a to-do date-time property value.
pub open spec fn todo_time(property: Seq<char>, value: Seq<char>) -> Option<i64> {
    match ical_like_time(value) {
        Some(t) => Some(t),
        None => match naive_date_secs(value, "%Y%m%d"@) {
            Some(t) => Some(t),
            None => match naive_datetime_secs(value, "%Y%m%dT%H%M%S"@) {
                Some(n) => Some(zoned_time(property, n)),
                None => None,
            },
        },
    }
}

fn zoned(property: &[char], naive: i64) -> (r: i64)
    requires
        chrono_time(naive),
    ensures
        r == zoned_time(property@, naive),
        chrono_time(r),
{
    match property_tzid(property) {
        Some(zone) => {
            let zone = string_from_chars(zone.as_slice());
            match zone_local(zone.as_str(), naive) {
                Some(LocalInstant::Single(t)) => t,
                Some(LocalInstant::Ambiguous(first, _)) => first,
                _ => naive,
            }
        },
        None => naive,
    }
}

fn ical_like(value: &str) -> (r: Option<i64>)
    ensures
        r == ical_like_time(value@),
        r matches Some(t) ==> chrono_time(t),
{
    match parse_rfc3339(value) {
        Some(t) => Some(t),
        None => parse_naive_datetime(value, "%Y%m%dT%H%M%SZ"),
    }
}

pub fn parse_event_datetime(property: &[char], value: &[char]) -> (r: Option<i64>)
    ensures
        r == event_time(property@, value@),
        r matches Some(t) ==> chrono_time(t),
{
    let text = string_from_chars(value);
    let v = text.as_str();
    if let Some(t) = ical_like(v) {
        return Some(t);
    }
    if let Some(t) = parse_naive_date(v, "%Y%m%d") {
        return Some(t);
    }
    if let Some(n) = parse_naive_datetime(v, "%Y%m%dT%H%M%S") {
        return Some(zoned(property, n));
    }
    match parse_naive_datetime(v, "%Y%m%dT%H%M") {
        Some(n) => Some(zoned(property, n)),
        None => None,
    }
}

pub fn parse_todo_datetime(property: &[char], value: &[char]) -> (r: Option<i64>)
    ensures
        r == todo_time(property@, value@),
        r matches Some(t) ==> chrono_time(t),
{
    let text = string_from_chars(value);
    let v = text.as_str();
    if let Some(t) = ical_like(v) {
        return Some(t);
    }
    if let Some(t) = parse_naive_date(v, "%Y%m%d") {
        return Some(t);
    }
    match parse_naive_datetime(v, "%Y%m%dT%H%M%S") {
        Some(n) => Some(zoned(property, n)),
        None => None,
    }
}

}

verus! {

// ------------------------------------------------------------------ events

pub open spec fn opt_view(o: Option<String>) -> Option<Seq<char>> {
    match o {
        Some(s) => Some(s@),
        None => None,
    }
}

pub open spec fn strings_view(v: Seq<String>) -> Seq<Seq<char>> {
    v.map_values(|s: String| s@)
}

/// The fields read so far from one `VEVENT` component.
pub struct EventFields {
    pub uid: Option<Seq<char>>,
    pub title: Option<Seq<char>>,
    pub description: Option<Seq<char>>,
    pub location: Option<Seq<char>>,
    pub timezone: Option<Seq<char>>,
    pub starts_at: Option<i64>,
    pub ends_at: Option<i64>,
    pub all_day: bool,
    pub recurrence_rule: Option<Seq<char>>,
    pub attendees: Seq<Seq<char>>,
    pub organizer: Option<Seq<char>>,
    pub updated_at: Option<i64>,
}

pub open spec fn no_event_fields() -> EventFields {
    EventFields {
        uid: None,
        title: None,
        description: None,
        location: None,
        timezone: None,
        starts_at: None,
        ends_at: None,
        all_day: false,
        recurrence_rule: None,
        attendees: Seq::empty(),
        organizer: None,
        updated_at: None,
    }
}

/// How one `NAME;PARAMS:VALUE` line changes the fields of the current event.
pub open spec fn apply_event_property(d: EventFields, property: Seq<char>, value: Seq<char>) -> EventFields {
    let up = ascii_upper(property);
    if starts_with(up, "UID"@) {
        if value.len() > 0 { EventFields { uid: Some(value), ..d } } else { d }
    } else if starts_with(up, "SUMMARY"@) {
        EventFields { title: Some(unescape_text(value)), ..d }
    } else if starts_with(up, "DESCRIPTION"@) {
        EventFields { description: Some(unescape_text(value)), ..d }
    } else if starts_with(up, "LOCATION"@) {
        EventFields { location: Some(unescape_text(value)), ..d }
    } else if starts_with(up, "DTSTART"@) {
        EventFields {
            starts_at: event_time(property, value),
            all_day: property_is_date(property) || (value.len() == 8 && all_ascii_digits(value)),
            timezone: match property_tzid_of(property) {
                Some(z) => Some(z),
                None => d.timezone,
            },
            ..d
        }
    } else if starts_with(up, "DTEND"@) {
        EventFields { ends_at: event_time(property, value), ..d }
    } else if starts_with(up, "RRULE"@) {
        EventFields { recurrence_rule: Some(value), ..d }
    } else if starts_with(up, "ATTENDEE"@) {
        match mail_address_of(value) {
            Some(a) => EventFields { attendees: d.attendees.push(a), ..d },
            None => d,
        }
    } else if starts_with(up, "ORGANIZER"@) {
        EventFields {
            organizer: match mail_address_of(value) {
                Some(a) => Some(a),
                None => if value.len() == 0 { None } else { Some(unescape_text(value)) },
            },
            ..d
        }
    } else if starts_with(up, "LAST-MODIFIED"@) || starts_with(up, "DTSTAMP"@) {
        match event_time(property, value) {
            Some(t) => EventFields { updated_at: Some(t), ..d },
            None => d,
        }
    } else {
        d
    }
}

/// The event closed by `END:VEVENT`, if it has a start. A missing end is one
/// day after an all-day start and one hour after any other start; an end that
/// is not after the start becomes one hour after it.
pub open spec fn finish_event(d: EventFields) -> Option<EventFields> {
    match d.starts_at {
        None => None,
        Some(s) => {
            let e = match d.ends_at {
                Some(e) => e as int,
                None => if d.all_day { s + 86400 } else { s + 3600 },
            };
            Some(EventFields { ends_at: Some((if e <= s { s + 3600 } else { e }) as i64), ..d })
        },
    }
}

pub struct EventScan {
    pub in_event: bool,
    pub current: EventFields,
    pub events: Seq<EventFields>,
}

pub open spec fn event_scan_start() -> EventScan {
    EventScan { in_event: false, current: no_event_fields(), events: Seq::empty() }
}

pub open spec fn event_scan_step(st: EventScan, line: Seq<char>) -> EventScan {
    let t = trim(line);
    if eq_ignore_case(t, "BEGIN:VEVENT"@) {
        EventScan { in_event: true, current: no_event_fields(), events: st.events }
    } else if eq_ignore_case(t, "END:VEVENT"@) {
        EventScan {
            in_event: false,
            current: no_event_fields(),
            events: match finish_event(st.current) {
                Some(e) => st.events.push(e),
                None => st.events,
            },
        }
    } else if !st.in_event {
        st
    } else {
        match split_once(t, ':') {
            Some(pv) => EventScan { current: apply_event_property(st.current, trim(pv.0), trim(pv.1)), ..st },
            None => st,
        }
    }
}

pub open spec fn event_scan(lines: Seq<Seq<char>>) -> EventScan
    decreases lines.len(),
{
    if lines.len() == 0 {
        event_scan_start()
    } else {
        event_scan_step(event_scan(lines.drop_last()), lines.last())
    }
}

/// The events of an iCalendar payload, in order.
pub open spec fn ical_events(payload: Seq<char>) -> Seq<EventFields> {
    event_scan(unfolded_lines(payload)).events
}

/// One event read from an iCalendar payload.
pub struct IcalEvent {
    pub uid: Option<String>,
    pub title: Option<String>,
    pub description: Option<String>,
    pub location: Option<String>,
    pub timezone: Option<String>,
    pub starts_at: i64,
    pub ends_at: i64,
    pub all_day: bool,
    pub recurrence_rule: Option<String>,
    pub attendees: Vec<String>,
    pub organizer: Option<String>,
    pub updated_at: Option<i64>,
}

impl IcalEvent {
    pub open spec fn fields(&self) -> EventFields {
        EventFields {
            uid: opt_view(self.uid),
            title: opt_view(self.title),
            description: opt_view(self.description),
            location: opt_view(self.location),
            timezone: opt_view(self.timezone),
            starts_at: Some(self.starts_at),
            ends_at: Some(self.ends_at),
            all_day: self.all_day,
            recurrence_rule: opt_view(self.recurrence_rule),
            attendees: strings_view(self.attendees@),
            organizer: opt_view(self.organizer),
            updated_at: self.updated_at,
        }
    }
}

struct EventDraft {
    uid: Option<String>,
    title: Option<String>,
    description: Option<String>,
    location: Option<String>,
    timezone: Option<String>,
    starts_at: Option<i64>,
    ends_at: Option<i64>,
    all_day: bool,
    recurrence_rule: Option<String>,
    attendees: Vec<String>,
    organizer: Option<String>,
    updated_at: Option<i64>,
}

impl EventDraft {
    spec fn fields(&self) -> EventFields {
        EventFields {
            uid: opt_view(self.uid),
            title: opt_view(self.title),
            description: opt_view(self.description),
            location: opt_view(self.location),
            timezone: opt_view(self.timezone),
            starts_at: self.starts_at,
            ends_at: self.ends_at,
            all_day: self.all_day,
            recurrence_rule: opt_view(self.recurrence_rule),
            attendees: strings_view(self.attendees@),
            organizer: opt_view(self.organizer),
            updated_at: self.updated_at,
        }
    }

    spec fn bounded(&self) -> bool {
        &&& (self.starts_at matches Some(t) ==> chrono_time(t))
        &&& (self.ends_at matches Some(t) ==> chrono_time(t))
    }

    fn empty() -> (r: Self)
        ensures
            r.fields() == no_event_fields(),
            r.bounded(),
    {
        let r = EventDraft {
            uid: None,
            title: None,
            description: None,
            location: None,
            timezone: None,
            starts_at: None,
            ends_at: None,
            all_day: false,
            recurrence_rule: None,
            attendees: Vec::new(),
            organizer: None,
            updated_at: None,
        };
        assert(strings_view(r.attendees@) =~= Seq::<Seq<char>>::empty());
        r
    }
}

fn text_of(v: &[char]) -> (r: String)
    ensures
        r@ == v@,
{
    string_from_chars(v)
}

fn apply_event_line(d: &mut EventDraft, property: &[char], value: &[char])
    requires
        old(d).bounded(),
    ensures
        final(d).fields() == apply_event_property(old(d).fields(), property@, value@),
        final(d).bounded(),
{
    let up = upper(property);
    let up = up.as_slice();
    if has_prefix(up, chars_of("UID").as_slice()) {
        if value.len() > 0 {
            d.uid = Some(text_of(value));
        }
    } else if has_prefix(up, chars_of("SUMMARY").as_slice()) {
        d.title = Some(text_of(unescape_ical_text(value).as_slice()));
    } else if has_prefix(up, chars_of("DESCRIPTION").as_slice()) {
        d.description = Some(text_of(unescape_ical_text(value).as_slice()));
    } else if has_prefix(up, chars_of("LOCATION").as_slice()) {
        d.location = Some(text_of(unescape_ical_text(value).as_slice()));
    } else if has_prefix(up, chars_of("DTSTART").as_slice()) {
        d.starts_at = parse_event_datetime(property, value);
        d.all_day = property_has_value_date(property)
            || (value.len() == 8 && is_all_ascii_digits(value));
        match property_tzid(property) {
            Some(z) => {
                d.timezone = Some(text_of(z.as_slice()));
            },
            None => {},
        }
    } else if has_prefix(up, chars_of("DTEND").as_slice()) {
        d.ends_at = parse_event_datetime(property, value);
    } else if has_prefix(up, chars_of("RRULE").as_slice()) {
        d.recurrence_rule = Some(text_of(value));
    } else if has_prefix(up, chars_of("ATTENDEE").as_slice()) {
        match parse_ical_mail_address(value) {
            Some(a) => {
                let ghost before = strings_view(d.attendees@);
                d.attendees.push(text_of(a.as_slice()));
                assert(strings_view(d.attendees@) =~= before.push(a@));
            },
            None => {},
        }
    } else if has_prefix(up, chars_of("ORGANIZER").as_slice()) {
        d.organizer = match parse_ical_mail_address(value) {
            Some(a) => Some(text_of(a.as_slice())),
            None => if value.len() == 0 {
                None
            } else {
                Some(text_of(unescape_ical_text(value).as_slice()))
            },
        };
    } else if has_prefix(up, chars_of("LAST-MODIFIED").as_slice())
        || has_prefix(up, chars_of("DTSTAMP").as_slice()) {
        match parse_event_datetime(property, value) {
            Some(t) => {
                d.updated_at = Some(t);
            },
            None => {},
        }
    }
}

fn finish_draft(d: EventDraft) -> (r: Option<IcalEvent>)
    requires
        d.bounded(),
    ensures
        match r {
            Some(e) => finish_event(d.fields()) == Some(e.fields()) && chrono_time(e.starts_at) && e.starts_at < e.ends_at,
            None => finish_event(d.fields()).is_none(),
        },
{
    match d.starts_at {
        None => None,
        Some(s) => {
            let e = match d.ends_at {
                Some(e) => e,
                None => if d.all_day { s + 86400 } else { s + 3600 },
            };
            let ends = if e <= s { s + 3600 } else { e };
            let r = IcalEvent {
                uid: d.uid,
                title: d.title,
                description: d.description,
                location: d.location,
                timezone: d.timezone,
                starts_at: s,
                ends_at: ends,
                all_day: d.all_day,
                recurrence_rule: d.recurrence_rule,
                attendees: d.attendees,
                organizer: d.organizer,
                updated_at: d.updated_at,
            };
            Some(r)
        },
    }
}

/// Reads every `VEVENT` of an iCalendar payload.
pub fn parse_ical_event_fields(payload: &str) -> (r: Vec<IcalEvent>)
    ensures
        r@.map_values(|e: IcalEvent| e.fields()) == ical_events(payload@),
        forall|i: int| 0 <= i < r@.len() ==> chrono_time(#[trigger] r@[i].starts_at) && r@[i].starts_at < r@[i].ends_at,
{
    let chars = chars_of(payload);
    let lines = unfold_ical_lines(chars.as_slice());
    let ghost ls = views(lines@);
    let begin = chars_of("BEGIN:VEVENT");
    let end = chars_of("END:VEVENT");
    let mut in_event = false;
    let mut draft = EventDraft::empty();
    let mut out: Vec<IcalEvent> = Vec::new();
    assert(ls.take(0) =~= Seq::<Seq<char>>::empty());
    assert(out@.map_values(|e: IcalEvent| e.fields()) =~= Seq::<EventFields>::empty());
    for i in 0..lines.len()
        invariant
            ls == views(lines@),
            ls == unfolded_lines(payload@),
            begin@ == "BEGIN:VEVENT"@,
            end@ == "END:VEVENT"@,
            draft.bounded(),
            forall|k: int| 0 <= k < out@.len() ==> chrono_time(#[trigger] out@[k].starts_at) && out@[k].starts_at < out@[k].ends_at,
            event_scan(ls.take(i as int)) == (EventScan {
                in_event,
                current: draft.fields(),
                events: out@.map_values(|e: IcalEvent| e.fields()),
            }),
    {
        assert(ls.take(i + 1).drop_last() =~= ls.take(i as int));
        assert(ls.take(i + 1).last() == lines[i as int]@);
        let t = trimmed(lines[i].as_slice());
        if eq_ignore_ascii_case(t.as_slice(), begin.as_slice()) {
            in_event = true;
            draft = EventDraft::empty();
        } else if eq_ignore_ascii_case(t.as_slice(), end.as_slice()) {
            in_event = false;
            let mut finished = EventDraft::empty();
            std::mem::swap(&mut finished, &mut draft);
            let ghost before = out@.map_values(|e: IcalEvent| e.fields());
            match finish_draft(finished) {
                Some(e) => {
                    out.push(e);
                    assert(out@.map_values(|e: IcalEvent| e.fields()) =~= before.push(e.fields()));
                },
                None => {},
            }
        } else if in_event {
            match split_once_char(t.as_slice(), ':') {
                Some((p, v)) => {
                    let p = trimmed(p.as_slice());
                    let v = trimmed(v.as_slice());
                    apply_event_line(&mut draft, p.as_slice(), v.as_slice());
                },
                None => {},
            }
        }
    }
    assert(ls.take(lines.len() as int) =~= ls);
    out
}

}

verus! {

/// The reminder every imported event carries: ten minutes before, "Upcoming event".
pub open spec fn upcoming_alarm(alarms: Seq<CalendarAlarm>) -> bool {
    &&& alarms.len() == 1
    &&& alarms[0].minutes_before == 10
    &&& opt_view(alarms[0].message) == Some("Upcoming event"@)
}

/// `e` is the calendar event built from the fields `f` read from a payload:
/// the remote id is the `UID` when there is one, the title defaults to
/// "Untitled event", and the update time is `LAST-MODIFIED`/`DTSTAMP` when present.
pub open spec fn event_matches(e: CalendarEvent, f: EventFields, account_id: u128, calendar_id: Seq<char>) -> bool {
    &&& e.account_id == account_id
    &&& e.calendar_id@ == calendar_id
    &&& (f.uid matches Some(u) ==> e.remote_id@ == u)
    &&& e.title@ == (match f.title {
        Some(t) => t,
        None => "Untitled event"@,
    })
    &&& opt_view(e.description) == f.description
    &&& opt_view(e.location) == f.location
    &&& opt_view(e.timezone) == f.timezone
    &&& f.starts_at == Some(e.starts_at)
    &&& f.ends_at == Some(e.ends_at)
    &&& e.all_day == f.all_day
    &&& opt_view(e.recurrence_rule) == f.recurrence_rule
    &&& strings_view(e.attendees@) == f.attendees
    &&& opt_view(e.organizer) == f.organizer
    &&& (f.updated_at matches Some(t) ==> e.updated_at == t)
    &&& upcoming_alarm(e.alarms@)
    &&& e.rsvp_status == RsvpStatus::NeedsAction
}

fn upcoming_alarms() -> (r: Vec<CalendarAlarm>)
    ensures
        upcoming_alarm(r@),
{
    let mut r: Vec<CalendarAlarm> = Vec::new();
    r.push(CalendarAlarm { minutes_before: 10, message: Some("Upcoming event".to_owned()) });
    r
}

fn calendar_event_from(f: IcalEvent, account_id: u128, calendar_id: &str) -> (e: CalendarEvent)
    ensures
        event_matches(e, f.fields(), account_id, calendar_id@),
{
    let remote_id = match f.uid {
        Some(u) => u,
        None => uuid_to_string(new_id()),
    };
    let title = match f.title {
        Some(t) => t,
        None => "Untitled event".to_owned(),
    };
    let updated_at = match f.updated_at {
        Some(t) => t,
        None => now_utc(),
    };
    CalendarEvent {
        id: new_id(),
        account_id,
        calendar_id: calendar_id.to_owned(),
        remote_id,
        title,
        description: f.description,
        location: f.location,
        timezone: f.timezone,
        starts_at: f.starts_at,
        ends_at: f.ends_at,
        all_day: f.all_day,
        recurrence_rule: f.recurrence_rule,
        attendees: f.attendees,
        organizer: f.organizer,
        alarms: upcoming_alarms(),
        rsvp_status: RsvpStatus::NeedsAction,
        updated_at,
    }
}

/// Appends the events of an iCalendar payload, as events of an account's
/// calendar, to `out`; each gets a fresh id.
pub fn append_ical_events(out: &mut Vec<CalendarEvent>, account_id: u128, calendar_id: &str, ics_payload: &str)
    ensures
        final(out).len() == old(out).len() + ical_events(ics_payload@).len(),
        forall|i: int| 0 <= i < old(out).len() ==> final(out)@[i] == old(out)@[i],
        forall|i: int| 0 <= i < ical_events(ics_payload@).len() ==> event_matches(
            #[trigger] final(out)@[old(out).len() + i], ical_events(ics_payload@)[i], account_id, calendar_id@),
        forall|i: int| old(out).len() <= i < final(out).len() ==> chrono_time(#[trigger] final(out)@[i].starts_at)
            && final(out)@[i].starts_at < final(out)@[i].ends_at,
{
    let mut fields = parse_ical_event_fields(ics_payload);
    let ghost all = fields@.map_values(|e: IcalEvent| e.fields());
    let ghost start = out@;
    let n = fields.len();
    let mut rev: Vec<IcalEvent> = Vec::new();
    while fields.len() > 0
        invariant
            fields.len() + rev.len() == n,
            all.len() == n,
            forall|i: int| 0 <= i < fields.len() ==> (#[trigger] fields@[i]).fields() == all[i],
            forall|i: int| 0 <= i < rev.len() ==> (#[trigger] rev@[i]).fields() == all[n - 1 - i],
            forall|i: int| 0 <= i < fields.len() ==> chrono_time(#[trigger] fields@[i].starts_at) && fields@[i].starts_at < fields@[i].ends_at,
            forall|i: int| 0 <= i < rev.len() ==> chrono_time(#[trigger] rev@[i].starts_at) && rev@[i].starts_at < rev@[i].ends_at,
        decreases fields.len(),
    {
        let e = fields.pop().unwrap();
        rev.push(e);
    }
    while rev.len() > 0
        invariant
            out.len() == start.len() + n - rev.len(),
            rev.len() <= n,
            all.len() == n,
            forall|i: int| 0 <= i < rev.len() ==> (#[trigger] rev@[i]).fields() == all[n - 1 - i],
            forall|i: int| 0 <= i < start.len() ==> out@[i] == start[i],
            forall|i: int| 0 <= i < n - rev.len() ==> event_matches(#[trigger] out@[start.len() + i], all[i], account_id, calendar_id@),
            forall|i: int| 0 <= i < rev.len() ==> chrono_time(#[trigger] rev@[i].starts_at) && rev@[i].starts_at < rev@[i].ends_at,
            forall|i: int| start.len() <= i < out.len() ==> chrono_time(#[trigger] out@[i].starts_at) && out@[i].starts_at < out@[i].ends_at,
        decreases rev.len(),
    {
        let f = rev.pop().unwrap();
        let e = calendar_event_from(f, account_id, calendar_id);
        out.push(e);
    }
}

/// Reads the events of an iCalendar payload into calendar events of an
/// account's calendar; each gets a fresh id.
pub fn parse_ical_events(account_id: u128, calendar_id: &str, ics_payload: &str) -> (r: Vec<CalendarEvent>)
    ensures
        r.len() == ical_events(ics_payload@).len(),
        forall|i: int| 0 <= i < r.len() ==> event_matches(#[trigger] r@[i], ical_events(ics_payload@)[i], account_id, calendar_id@),
        forall|i: int| 0 <= i < r.len() ==> chrono_time(#[trigger] r@[i].starts_at) && r@[i].starts_at < r@[i].ends_at,
{
    let mut out: Vec<CalendarEvent> = Vec::new();
    append_ical_events(&mut out, account_id, calendar_id, ics_payload);
    assert forall|i: int| 0 <= i < out.len() implies event_matches(#[trigger] out@[i], ical_events(ics_payload@)[i], account_id, calendar_id@) by {
        assert(out@[0 + i] == out@[i]);
    }
    out
}

pub open spec fn capture_group(groups: Seq<Option<Seq<char>>>, k: int) -> Option<Seq<char>> {
    if 0 <= k < groups.len() { groups[k] } else { None }
}

pub open spec fn caldav_data_pattern() -> Seq<char> {
    "(?is)<(?:[a-z0-9_]+:)?calendar-data[^>]*>(.*?)</(?:[a-z0-9_]+:)?calendar-data>"@
}

/// The calendar-data payloads of a CalDAV multistatus body, entity-decoded.
pub open spec fn calendar_data_blocks(matches: Seq<Seq<Option<Seq<char>>>>) -> Seq<Seq<char>>
    decreases matches.len(),
{
    if matches.len() == 0 {
        Seq::empty()
    } else {
        let pre = calendar_data_blocks(matches.drop_last());
        match capture_group(matches.last(), 1) {
            Some(raw) => pre.push(xml_unescape(raw)),
            None => pre,
        }
    }
}

pub open spec fn caldav_blocks(body: Seq<char>) -> Seq<Seq<char>> {
    match all_captures(caldav_data_pattern(), body) {
        Some(m) => calendar_data_blocks(m),
        None => Seq::empty(),
    }
}

/// Extracts the `calendar-data` elements of a CalDAV `REPORT` response, decoding
/// XML entities in each.
pub fn caldav_calendar_data(body: &str) -> (r: Vec<String>)
    ensures
        strings_view(r@) == caldav_blocks(body@),
{
    let mut out: Vec<String> = Vec::new();
    let found = captures_all(
        "(?is)<(?:[a-z0-9_]+:)?calendar-data[^>]*>(.*?)</(?:[a-z0-9_]+:)?calendar-data>",
        body,
    );
    let m = match found {
        Some(m) => m,
        None => {
            assert(strings_view(out@) =~= Seq::<Seq<char>>::empty());
            return out;
        },
    };
    let ghost mv = matches_view(m@);
    assert(mv.take(0) =~= Seq::<Seq<Option<Seq<char>>>>::empty());
    assert(strings_view(out@) =~= Seq::<Seq<char>>::empty());
    for i in 0..m.len()
        invariant
            mv == matches_view(m@),
            strings_view(out@) == calendar_data_blocks(mv.take(i as int)),
    {
        assert(mv.take(i + 1).drop_last() =~= mv.take(i as int));
        assert(mv.take(i + 1).last() == groups_view(m@[i as int]@));
        let groups = &m[i];
        let ghost before = strings_view(out@);
        if groups.len() > 1 {
            match &groups[1] {
                Some(raw) => {
                    let raw_chars = chars_of(raw.as_str());
                    let data = unescape_xml_entities(raw_chars.as_slice());
                    out.push(string_from_chars(data.as_slice()));
                    assert(strings_view(out@) =~= before.push(data@));
                },
                None => {},
            }
        }
    }
    assert(mv.take(m.len() as int) =~= mv);
    out
}

/// The events of every calendar-data block, in order.
pub open spec fn events_of_blocks(blocks: Seq<Seq<char>>) -> Seq<EventFields>
    decreases blocks.len(),
{
    if blocks.len() == 0 {
        Seq::empty()
    } else {
        events_of_blocks(blocks.drop_last()) + ical_events(blocks.last())
    }
}

/// Reads the events of a CalDAV `REPORT` response.
pub fn parse_caldav_calendar_data(account_id: u128, calendar_id: &str, payload: &str) -> (r: Vec<CalendarEvent>)
    ensures
        r.len() == events_of_blocks(caldav_blocks(payload@)).len(),
        forall|i: int| 0 <= i < r.len() ==> event_matches(#[trigger] r@[i], events_of_blocks(caldav_blocks(payload@))[i], account_id, calendar_id@),
{
    let blocks = caldav_calendar_data(payload);
    let ghost bs = strings_view(blocks@);
    let mut out: Vec<CalendarEvent> = Vec::new();
    assert(bs.take(0) =~= Seq::<Seq<char>>::empty());
    for i in 0..blocks.len()
        invariant
            bs == strings_view(blocks@),
            bs == caldav_blocks(payload@),
            out.len() == events_of_blocks(bs.take(i as int)).len(),
            forall|k: int| 0 <= k < out.len() ==> event_matches(#[trigger] out@[k], events_of_blocks(bs.take(i as int))[k], account_id, calendar_id@),
    {
        assert(bs.take(i + 1).drop_last() =~= bs.take(i as int));
        assert(bs.take(i + 1).last() == blocks@[i as int]@);
        let ghost pre = events_of_blocks(bs.take(i as int));
        let ghost added = ical_events(blocks@[i as int]@);
        append_ical_events(&mut out, account_id, calendar_id, blocks[i].as_str());
        assert forall|k: int| 0 <= k < out.len() implies event_matches(#[trigger] out@[k], events_of_blocks(bs.take(i + 1))[k], account_id, calendar_id@) by {
            assert(events_of_blocks(bs.take(i + 1)) == pre + added);
            if k >= pre.len() {
                assert(out@[pre.len() + (k - pre.len())] == out@[k]);
            }
        }
    }
    assert(bs.take(blocks.len() as int) =~= bs);
    out
}

}

verus! {

// ------------------------------------------------------------------ writing

pub open spec fn text_line(name: Seq<char>, value: Seq<char>) -> Seq<char> {
    name + escape_text(value) + "\r\n"@
}

pub open spec fn opt_text_line(name: Seq<char>, value: Option<Seq<char>>) -> Seq<char> {
    match value {
        Some(v) => text_line(name, v),
        None => Seq::empty(),
    }
}

pub open spec fn raw_line(name: Seq<char>, value: Option<Seq<char>>) -> Seq<char> {
    match value {
        Some(v) => name + v + "\r\n"@,
        None => Seq::empty(),
    }
}

pub open spec fn attendee_lines(attendees: Seq<Seq<char>>) -> Seq<char>
    decreases attendees.len(),
{
    if attendees.len() == 0 {
        Seq::empty()
    } else {
        attendee_lines(attendees.drop_last()) + text_line("ATTENDEE:mailto:"@, attendees.last())
    }
}

/// The end written for an event: one day (all-day) or one hour (timed) after
/// the start when the stored end is not after the start.
pub open spec fn written_end(e: CalendarEvent) -> i64 {
    if e.ends_at <= e.starts_at {
        if e.all_day { (e.starts_at + 86400) as i64 } else { (e.starts_at + 3600) as i64 }
    } else {
        e.ends_at
    }
}

pub open spec fn event_times(e: CalendarEvent) -> Seq<char> {
    if e.all_day {
        "DTSTART;VALUE=DATE:"@ + format_secs(e.starts_at, "%Y%m%d"@) + "\r\n"@
            + "DTEND;VALUE=DATE:"@ + format_secs(written_end(e), "%Y%m%d"@) + "\r\n"@
    } else {
        "DTSTART:"@ + format_secs(e.starts_at, "%Y%m%dT%H%M%SZ"@) + "\r\n"@
            + "DTEND:"@ + format_secs(written_end(e), "%Y%m%dT%H%M%SZ"@) + "\r\n"@
    }
}

/// The iCalendar document for a single event with the given `UID` and `DTSTAMP` text.
pub open spec fn event_ics(e: CalendarEvent, uid: Seq<char>, stamp: Seq<char>) -> Seq<char> {
    "BEGIN:VCALENDAR\r\nVERSION:2.0\r\nPRODID:-//Cove Mail//EN\r\n"@ + "BEGIN:VEVENT\r\n"@
        + text_line("UID:"@, uid)
        + "DTSTAMP:"@ + stamp + "\r\n"@
        + event_times(e)
        + text_line("SUMMARY:"@, e.title@)
        + opt_text_line("DESCRIPTION:"@, opt_view(e.description))
        + opt_text_line("LOCATION:"@, opt_view(e.location))
        + raw_line("RRULE:"@, opt_view(e.recurrence_rule))
        + opt_text_line("ORGANIZER:mailto:"@, opt_view(e.organizer))
        + attendee_lines(strings_view(e.attendees@))
        + "END:VEVENT\r\nEND:VCALENDAR\r\n"@
}

/// The instants an event's document needs can be formatted.
pub open spec fn renderable(e: CalendarEvent) -> bool {
    formattable(e.starts_at) && formattable(e.ends_at) && formattable((e.starts_at + 86400) as i64)
        && e.starts_at + 86400 <= i64::MAX
}

pub(crate) fn push_text_line(out: &mut Vec<char>, name: &str, value: &[char])
    ensures
        final(out)@ == old(out)@ + text_line(name@, value@),
{
    push_str(out, name);
    let esc = escape_ical_text(value);
    extend(out, esc.as_slice());
    push_str(out, "\r\n");
    assert(final(out)@ =~= old(out)@ + text_line(name@, value@));
}

pub(crate) fn push_opt_text_line(out: &mut Vec<char>, name: &str, value: &Option<String>)
    ensures
        final(out)@ == old(out)@ + opt_text_line(name@, opt_view(*value)),
{
    match value {
        Some(v) => {
            let c = chars_of(v.as_str());
            push_text_line(out, name, c.as_slice());
        },
        None => {
            assert(old(out)@ + Seq::<char>::empty() =~= old(out)@);
        },
    }
}

fn push_time_line(out: &mut Vec<char>, name: &str, t: i64, fmt: &str)
    requires
        formattable(t),
        crate::time::known_format(fmt@),
    ensures
        final(out)@ == old(out)@ + name@ + format_secs(t, fmt@) + "\r\n"@,
        fmt@ == "%Y%m%dT%H%M%SZ"@ && crate::time::four_digit_year(t) ==> crate::ical_round_trip::reads_back(format_secs(t, fmt@), t),
{
    push_str(out, name);
    let f = format_time(t, fmt);
    push_str(out, f.as_str());
    push_str(out, "\r\n");
    assert(final(out)@ =~= old(out)@ + name@ + format_secs(t, fmt@) + "\r\n"@);
}

/// The iCalendar document for one event, with the given `UID` and `DTSTAMP` texts.
pub fn render_event_ics_with(event: &CalendarEvent, uid: &str, stamp: &str) -> (r: String)
    requires
        renderable(*event),
    ensures
        r@ == event_ics(*event, uid@, stamp@),
        !event.all_day && crate::time::four_digit_year(event.starts_at) ==> crate::ical_round_trip::reads_back(
            format_secs(event.starts_at, "%Y%m%dT%H%M%SZ"@),
            event.starts_at,
        ),
        !event.all_day && crate::time::four_digit_year(written_end(*event)) ==> crate::ical_round_trip::reads_back(
            format_secs(written_end(*event), "%Y%m%dT%H%M%SZ"@),
            written_end(*event),
        ),
{
    let mut out: Vec<char> = Vec::new();
    push_str(&mut out, "BEGIN:VCALENDAR\r\nVERSION:2.0\r\nPRODID:-//Cove Mail//EN\r\n");
    push_str(&mut out, "BEGIN:VEVENT\r\n");
    let uid_chars = chars_of(uid);
    push_text_line(&mut out, "UID:", uid_chars.as_slice());
    push_str(&mut out, "DTSTAMP:");
    push_str(&mut out, stamp);
    push_str(&mut out, "\r\n");
    let ghost head = out@;
    let end = if event.ends_at <= event.starts_at {
        if event.all_day { event.starts_at + 86400 } else { event.starts_at + 3600 }
    } else {
        event.ends_at
    };
    assert(end == written_end(*event));
    if event.all_day {
        push_time_line(&mut out, "DTSTART;VALUE=DATE:", event.starts_at, "%Y%m%d");
        push_time_line(&mut out, "DTEND;VALUE=DATE:", end, "%Y%m%d");
    } else {
        push_time_line(&mut out, "DTSTART:", event.starts_at, "%Y%m%dT%H%M%SZ");
        push_time_line(&mut out, "DTEND:", end, "%Y%m%dT%H%M%SZ");
    }
    assert(out@ =~= head + event_times(*event));
    let title = chars_of(event.title.as_str());
    push_text_line(&mut out, "SUMMARY:", title.as_slice());
    push_opt_text_line(&mut out, "DESCRIPTION:", &event.description);
    push_opt_text_line(&mut out, "LOCATION:", &event.location);
    let ghost before_rrule = out@;
    match &event.recurrence_rule {
        Some(rule) => {
            push_str(&mut out, "RRULE:");
            push_str(&mut out, rule.as_str());
            push_str(&mut out, "\r\n");
        },
        None => {},
    }
    assert(out@ =~= before_rrule + raw_line("RRULE:"@, opt_view(event.recurrence_rule)));
    push_opt_text_line(&mut out, "ORGANIZER:mailto:", &event.organizer);
    let ghost before_attendees = out@;
    let ghost atts = strings_view(event.attendees@);
    assert(atts.take(0) =~= Seq::<Seq<char>>::empty());
    assert(out@ =~= before_attendees + attendee_lines(atts.take(0)));
    for i in 0..event.attendees.len()
        invariant
            atts == strings_view(event.attendees@),
            out@ == before_attendees + attendee_lines(atts.take(i as int)),
    {
        assert(atts.take(i + 1).drop_last() =~= atts.take(i as int));
        assert(atts.take(i + 1).last() == event.attendees@[i as int]@);
        let a = chars_of(event.attendees[i].as_str());
        push_text_line(&mut out, "ATTENDEE:mailto:", a.as_slice());
        assert(out@ =~= before_attendees + attendee_lines(atts.take(i + 1)));
    }
    assert(atts.take(event.attendees.len() as int) =~= atts);
    push_str(&mut out, "END:VEVENT\r\nEND:VCALENDAR\r\n");
    assert(out@ =~= event_ics(*event, uid@, stamp@));
    string_from_chars(out.as_slice())
}

/// The iCalendar document for one event: its `UID` is the remote id, or a
/// fresh UUID when the remote id is blank, and `DTSTAMP` is the current time.
/// Reading it back gives the event again, where its texts survive the format.
pub fn render_single_event_ics(event: &CalendarEvent) -> (r: String)
    requires
        renderable(*event),
    ensures
        exists|uid: Seq<char>, stamp: Seq<char>| {
            &&& (trim(event.remote_id@).len() > 0 ==> uid == event.remote_id@)
            &&& r@ == event_ics(*event, uid, stamp)
        },
        crate::ical_round_trip::event_round_trips(*event) ==> ({
            let evs = ical_events(r@);
            &&& evs.len() == 1
            &&& evs[0].uid == Some(event.remote_id@)
            &&& evs[0].title == Some(event.title@)
            &&& evs[0].description == opt_view(event.description)
            &&& evs[0].location == opt_view(event.location)
            &&& evs[0].starts_at == Some(event.starts_at)
            &&& evs[0].ends_at == Some(event.ends_at)
            &&& !evs[0].all_day
            &&& evs[0].recurrence_rule == opt_view(event.recurrence_rule)
            &&& evs[0].attendees == strings_view(event.attendees@)
            &&& evs[0].organizer == opt_view(event.organizer)
        }),
{
    let remote = chars_of(event.remote_id.as_str());
    let t = trimmed(remote.as_slice());
    let uid = if t.len() == 0 {
        uuid_to_string(new_id())
    } else {
        event.remote_id.clone()
    };
    let stamp = format_now("%Y%m%dT%H%M%SZ");
    let r = render_event_ics_with(event, uid.as_str(), stamp.as_str());
    proof {
        if crate::ical_round_trip::event_round_trips(*event) {
            assert(trim(event.remote_id@) == event.remote_id@);
            assert(written_end(*event) == event.ends_at);
            crate::ical_round_trip::lemma_event_round_trip(*event, uid@, stamp@);
        }
    }
    r
}

}

verus! {

pub open spec fn opt_time_line(name: Seq<char>, t: Option<i64>, fmt: Seq<char>) -> Seq<char> {
    match t {
        Some(t) => name + format_secs(t, fmt) + "\r\n"@,
        None => Seq::empty(),
    }
}

/// One `VEVENT` block of a calendar export; the `UID` is written as stored.
pub open spec fn export_block(e: CalendarEvent, stamp: Seq<char>) -> Seq<char> {
    "BEGIN:VEVENT\r\n"@
        + "UID:"@ + e.remote_id@ + "\r\n"@
        + "DTSTAMP:"@ + stamp + "\r\n"@
        + "DTSTART:"@ + format_secs(e.starts_at, "%Y%m%dT%H%M%SZ"@) + "\r\n"@
        + "DTEND:"@ + format_secs(e.ends_at, "%Y%m%dT%H%M%SZ"@) + "\r\n"@
        + text_line("SUMMARY:"@, e.title@)
        + opt_text_line("DESCRIPTION:"@, opt_view(e.description))
        + opt_text_line("LOCATION:"@, opt_view(e.location))
        + raw_line("RRULE:"@, opt_view(e.recurrence_rule))
        + "END:VEVENT\r\n"@
}

pub open spec fn export_blocks(events: Seq<CalendarEvent>, stamps: Seq<Seq<char>>) -> Seq<char>
    decreases events.len(),
{
    if events.len() == 0 {
        Seq::empty()
    } else {
        export_blocks(events.drop_last(), stamps) + export_block(events.last(), stamps[events.len() - 1])
    }
}

/// A calendar export of `events`, the i-th stamped with `stamps[i]`.
pub open spec fn calendar_export(events: Seq<CalendarEvent>, stamps: Seq<Seq<char>>) -> Seq<char> {
    "BEGIN:VCALENDAR\r\nVERSION:2.0\r\nPRODID:-//Cove Mail//EN\r\n"@
        + export_blocks(events, stamps)
        + "END:VCALENDAR\r\n"@
}

pub open spec fn exportable(events: Seq<CalendarEvent>) -> bool {
    forall|i: int| 0 <= i < events.len() ==> exportable_event(#[trigger] events[i])
}

pub open spec fn exportable_event(e: CalendarEvent) -> bool {
    formattable(e.starts_at) && formattable(e.ends_at)
}

#[verifier::rlimit(40)]
fn push_export_block(out: &mut Vec<char>, e: &CalendarEvent, stamp: &str)
    requires
        formattable(e.starts_at),
        formattable(e.ends_at),
    ensures
        final(out)@ == old(out)@ + export_block(*e, stamp@),
{
    let ghost start = out@;
    push_str(out, "BEGIN:VEVENT\r\n");
    push_str(out, "UID:");
    push_str(out, e.remote_id.as_str());
    push_str(out, "\r\n");
    push_str(out, "DTSTAMP:");
    push_str(out, stamp);
    push_str(out, "\r\n");
    push_time_line(out, "DTSTART:", e.starts_at, "%Y%m%dT%H%M%SZ");
    push_time_line(out, "DTEND:", e.ends_at, "%Y%m%dT%H%M%SZ");
    let title = chars_of(e.title.as_str());
    push_text_line(out, "SUMMARY:", title.as_slice());
    push_opt_text_line(out, "DESCRIPTION:", &e.description);
    push_opt_text_line(out, "LOCATION:", &e.location);
    let ghost before_rrule = out@;
    match &e.recurrence_rule {
        Some(rule) => {
            push_str(out, "RRULE:");
            push_str(out, rule.as_str());
            push_str(out, "\r\n");
        },
        None => {},
    }
    assert(out@ =~= before_rrule + raw_line("RRULE:"@, opt_view(e.recurrence_rule)));
    push_str(out, "END:VEVENT\r\n");
    assert(out@ =~= start + export_block(*e, stamp@));
}

/// A calendar export of `events`, the i-th stamped with `stamps[i]`.
pub fn export_ics_with(events: &[CalendarEvent], stamps: &[String]) -> (r: String)
    requires
        stamps.len() == events.len(),
        exportable(events@),
    ensures
        r@ == calendar_export(events@, strings_view(stamps@)),
{
    let ghost sv = strings_view(stamps@);
    let mut out: Vec<char> = Vec::new();
    push_str(&mut out, "BEGIN:VCALENDAR\r\nVERSION:2.0\r\nPRODID:-//Cove Mail//EN\r\n");
    let ghost head = out@;
    assert(events@.take(0) =~= Seq::<CalendarEvent>::empty());
    assert(out@ =~= head + export_blocks(events@.take(0), sv));
    for i in 0..events.len()
        invariant
            stamps.len() == events.len(),
            exportable(events@),
            sv == strings_view(stamps@),
            out@ == head + export_blocks(events@.take(i as int), sv),
    {
        assert(events@.take(i + 1).drop_last() =~= events@.take(i as int));
        assert(events@.take(i + 1).last() == events@[i as int]);
        assert(exportable_event(events@[i as int]));
        push_export_block(&mut out, &events[i], stamps[i].as_str());
        assert(sv[i as int] == stamps@[i as int]@);
        assert(out@ =~= head + export_blocks(events@.take(i + 1), sv));
    }
    assert(events@.take(events.len() as int) =~= events@);
    push_str(&mut out, "END:VCALENDAR\r\n");
    assert(out@ =~= calendar_export(events@, sv));
    string_from_chars(out.as_slice())
}

/// A calendar export of `events`, each stamped with the time it was written.
pub fn export_ics(events: &[CalendarEvent]) -> (r: String)
    requires
        exportable(events@),
    ensures
        exists|stamps: Seq<Seq<char>>| stamps.len() == events.len() && r@ == calendar_export(events@, stamps),
{
    let mut stamps: Vec<String> = Vec::new();
    for i in 0..events.len()
        invariant
            stamps.len() == i,
    {
        stamps.push(format_now("%Y%m%dT%H%M%SZ"));
    }
    let r = export_ics_with(events, stamps.as_slice());
    assert(strings_view(stamps@).len() == events.len());
    r
}

}
