//! Calendar import and conflict detection, and the date forms that the
//! calendar providers send.
use vstd::prelude::*;
use crate::ids::{new_id, uuid_text, uuid_to_string};
use crate::model::{CalendarAlarm, CalendarEvent, RsvpStatus};
use crate::text::{
    all_ascii_digits, chars_of, eq_ignore_ascii_case, eq_ignore_case, extend, is_all_ascii_digits,
    string_from_chars, utf8_len, utf8_length,
};
use crate::time::{
    chrono_time, naive_date_secs, naive_datetime_secs, now_utc, parse_naive_date,
    parse_naive_datetime, parse_rfc3339, rfc3339_secs, zone_local, zone_local_secs, LocalInstant,
};

verus! {

/// The errors of the calendar features; errors of outside libraries are
/// kept as their message.
#[derive(Debug, Clone, PartialEq, Eq)]
pub enum CalendarError {
    Storage(String),
    Http(String),
    Parse(String),
    Data(String),
    Unimplemented(String),
}

/// A calendar error as kind and message.
pub enum CalendarErrorView {
    Storage(Seq<char>),
    Http(Seq<char>),
    Parse(Seq<char>),
    Data(Seq<char>),
    Unimplemented(Seq<char>),
}

impl View for CalendarError {
    type V = CalendarErrorView;

    open spec fn view(&self) -> CalendarErrorView {
        match self {
            CalendarError::Storage(m) => CalendarErrorView::Storage(m@),
            CalendarError::Http(m) => CalendarErrorView::Http(m@),
            CalendarError::Parse(m) => CalendarErrorView::Parse(m@),
            CalendarError::Data(m) => CalendarErrorView::Data(m@),
            CalendarError::Unimplemented(m) => CalendarErrorView::Unimplemented(m@),
        }
    }
}

/// Where a calendar account's events are synced from.
#[derive(Debug, Clone)]
pub struct CalendarSettings {
    pub endpoint: String,
    pub access_token: Option<String>,
    pub calendar_id: String,
}

// ------------------------------------------------------------------ dates

/// A `DTSTART` value of eight digits names a whole day.
pub open spec fn all_day_value(raw: Seq<char>) -> bool {
    utf8_len(raw) == 8 && all_ascii_digits(raw)
}

pub fn is_all_day(raw: &str) -> (r: bool)
    ensures
        r == all_day_value(raw@),
{
    let c = chars_of(raw);
    utf8_length(c.as_slice()) == 8 && is_all_ascii_digits(c.as_slice())
}

/// An imported date: RFC 3339, else `YYYYMMDDTHHMMSSZ`, else `YYYYMMDD` at
/// midnight UTC; otherwise the message of the parse error.
pub open spec fn ics_datetime(raw: Seq<char>) -> Result<i64, Seq<char>> {
    match rfc3339_secs(raw) {
        Some(t) => Ok(t),
        None => match naive_datetime_secs(raw, "%Y%m%dT%H%M%SZ"@) {
            Some(t) => Ok(t),
            None => match naive_date_secs(raw, "%Y%m%d"@) {
                Some(t) => Ok(t),
                None => Err("unsupported datetime format in ICS: "@ + raw),
            },
        },
    }
}

pub fn parse_ical_datetime(raw: &str) -> (r: Result<i64, CalendarError>)
    ensures
        match ics_datetime(raw@) {
            Ok(t) => r == Ok::<i64, CalendarError>(t),
            Err(m) => r matches Err(CalendarError::Parse(e)) && e@ == m,
        },
{
    if let Some(t) = parse_rfc3339(raw) {
        return Ok(t);
    }
    if let Some(t) = parse_naive_datetime(raw, "%Y%m%dT%H%M%SZ") {
        return Ok(t);
    }
    if let Some(t) = parse_naive_date(raw, "%Y%m%d") {
        return Ok(t);
    }
    let mut m = chars_of("unsupported datetime format in ICS: ");
    let c = chars_of(raw);
    extend(&mut m, c.as_slice());
    Err(CalendarError::Parse(string_from_chars(m.as_slice())))
}

/// RFC 3339, else `YYYYMMDDTHHMMSSZ`.
pub open spec fn ical_like(raw: Seq<char>) -> Option<i64> {
    match rfc3339_secs(raw) {
        Some(t) => Some(t),
        None => naive_datetime_secs(raw, "%Y%m%dT%H%M%SZ"@),
    }
}

pub fn parse_ical_like(raw: &str) -> (r: Option<i64>)
    ensures
        r == ical_like(raw@),
{
    match parse_rfc3339(raw) {
        Some(t) => Some(t),
        None => parse_naive_datetime(raw, "%Y%m%dT%H%M%SZ"),
    }
}

/// A Google Calendar time: its `dateTime` in RFC 3339 when present, else
/// its `date` (`YYYY-MM-DD`) at midnight UTC.
pub open spec fn google_time(date_time: Option<Seq<char>>, date: Option<Seq<char>>) -> Option<i64> {
    match date_time {
        Some(t) => rfc3339_secs(t),
        None => match date {
            Some(d) => naive_date_secs(d, "%Y-%m-%d"@),
            None => None,
        },
    }
}

pub fn parse_google_datetime(date_time: &Option<String>, date: &Option<String>) -> (r: Option<i64>)
    ensures
        r == google_time(crate::mail::opt_text(*date_time), crate::mail::opt_text(*date)),
{
    match date_time {
        Some(t) => parse_rfc3339(t.as_str()),
        None => match date {
            Some(d) => parse_naive_date(d.as_str(), "%Y-%m-%d"),
            None => None,
        },
    }
}

/// A Microsoft Graph time: RFC 3339 when it reads so; else a wall-clock
/// time with or without fractional seconds, placed in its named zone (the
/// earlier of two readings, UTC for a skipped time), or read as UTC when the
/// zone is missing or unknown.
pub open spec fn graph_time(date_time: Option<Seq<char>>, zone: Option<Seq<char>>) -> Option<i64> {
    match date_time {
        None => None,
        Some(raw) => match rfc3339_secs(raw) {
            Some(t) => Some(t),
            None => {
                let naive = match naive_datetime_secs(raw, "%Y-%m-%dT%H:%M:%S%.f"@) {
                    Some(n) => Some(n),
                    None => naive_datetime_secs(raw, "%Y-%m-%dT%H:%M:%S"@),
                };
                match naive {
                    None => None,
                    Some(n) => match zone {
                        Some(z) => match zone_local_secs(z, n) {
                            Some(LocalInstant::Single(t)) => Some(t),
                            Some(LocalInstant::Ambiguous(a, _)) => Some(a),
                            Some(LocalInstant::Missing) => Some(n),
                            None => Some(n),
                        },
                        None => Some(n),
                    },
                }
            },
        },
    }
}

pub fn parse_graph_datetime(date_time: &Option<String>, time_zone: &Option<String>) -> (r: Option<i64>)
    ensures
        r == graph_time(crate::mail::opt_text(*date_time), crate::mail::opt_text(*time_zone)),
{
    let raw = match date_time {
        Some(raw) => raw.as_str(),
        None => return None,
    };
    if let Some(t) = parse_rfc3339(raw) {
        return Some(t);
    }
    let naive = match parse_naive_datetime(raw, "%Y-%m-%dT%H:%M:%S%.f") {
        Some(n) => n,
        None => match parse_naive_datetime(raw, "%Y-%m-%dT%H:%M:%S") {
            Some(n) => n,
            None => return None,
        },
    };
    match time_zone {
        Some(z) => match zone_local(z.as_str(), naive) {
            Some(LocalInstant::Single(t)) => Some(t),
            Some(LocalInstant::Ambiguous(a, _)) => Some(a),
            Some(LocalInstant::Missing) => Some(naive),
            None => Some(naive),
        },
        None => Some(naive),
    }
}

// ------------------------------------------------------------------ import

/// What the `ical` crate's `IcalParser` reads from a document: per
/// calendar, its events as lists of property names and values, or the
/// message of the error that stopped it.
pub uninterp spec fn ical_calendars(payload: Seq<char>) -> Seq<Result<Seq<Seq<(Seq<char>, Option<Seq<char>>)>>, Seq<char>>>;

pub open spec fn props_view(p: Seq<(String, Option<String>)>) -> Seq<(Seq<char>, Option<Seq<char>>)> {
    p.map_values(|e: (String, Option<String>)| (e.0@, crate::mail::opt_text(e.1)))
}

pub open spec fn events_view(e: Seq<Vec<(String, Option<String>)>>) -> Seq<Seq<(Seq<char>, Option<Seq<char>>)>> {
    e.map_values(|p: Vec<(String, Option<String>)>| props_view(p@))
}

pub open spec fn calendars_view(c: Seq<Result<Vec<Vec<(String, Option<String>)>>, String>>) -> Seq<Result<Seq<Seq<(Seq<char>, Option<Seq<char>>)>>, Seq<char>>> {
    c.map_values(|r: Result<Vec<Vec<(String, Option<String>)>>, String>| match r {
        Ok(es) => Ok(events_view(es@)),
        Err(m) => Err(m@),
    })
}

/// Runs `IcalParser` over the document and lists, per calendar, the name
/// and value of each property of each event, or the parse error's message.
#[verifier::external_body]
fn read_ical_calendars(payload: &str) -> (r: Vec<Result<Vec<Vec<(String, Option<String>)>>, String>>)
    ensures
        calendars_view(r@) == ical_calendars(payload@),
{
    let reader = std::io::Cursor::new(payload.as_bytes());
    ical::IcalParser::new(reader)
        .map(|calendar| {
            calendar
                .map(|c| c.events.into_iter().map(|e| e.properties.into_iter().map(|p| (p.name, p.value)).collect()).collect())
                .map_err(|err| err.to_string())
        })
        .collect()
}

/// The value of the first property named `key`, in any case.
pub open spec fn prop_value(props: Seq<(Seq<char>, Option<Seq<char>>)>, key: Seq<char>) -> Option<Seq<char>>
    decreases props.len(),
{
    if props.len() == 0 {
        None
    } else if eq_ignore_case(props[0].0, key) {
        props[0].1
    } else {
        prop_value(props.drop_first(), key)
    }
}

pub fn property_value(properties: &Vec<(String, Option<String>)>, key: &str) -> (r: Option<String>)
    ensures
        crate::mail::opt_text(r) == prop_value(props_view(properties@), key@),
{
    let k = chars_of(key);
    let ghost pv = props_view(properties@);
    let mut i: usize = 0;
    assert(pv.skip(0) =~= pv);
    while i < properties.len()
        invariant
            i <= properties.len(),
            k@ == key@,
            pv == props_view(properties@),
            prop_value(pv, key@) == prop_value(pv.skip(i as int), key@),
        decreases properties.len() - i,
    {
        assert(pv.skip(i as int).drop_first() =~= pv.skip(i + 1));
        assert(pv.skip(i as int)[0] == pv[i as int]);
        let name = chars_of(properties[i].0.as_str());
        if eq_ignore_ascii_case(name.as_slice(), k.as_slice()) {
            return match &properties[i].1 {
                Some(v) => Some(v.clone()),
                None => None,
            };
        }
        i = i + 1;
    }
    None
}

/// `e` is the event that the properties describe, stored under `id` and
/// read at `now`; `fallback_uid` names an event without a `UID`.
pub open spec fn imported_event(e: CalendarEvent, props: Seq<(Seq<char>, Option<Seq<char>>)>, account_id: u128, calendar_id: Seq<char>, id: u128, fallback_uid: u128, now: i64, start: i64, end: i64) -> bool {
    &&& e.id == id
    &&& e.account_id == account_id
    &&& e.calendar_id@ == calendar_id
    &&& e.remote_id@ == match prop_value(props, "UID"@) {
        Some(u) => u,
        None => uuid_text(fallback_uid),
    }
    &&& e.title@ == match prop_value(props, "SUMMARY"@) {
        Some(t) => t,
        None => "Untitled Event"@,
    }
    &&& crate::mail::opt_text(e.description) == prop_value(props, "DESCRIPTION"@)
    &&& crate::mail::opt_text(e.location) == prop_value(props, "LOCATION"@)
    &&& e.timezone.is_none()
    &&& e.starts_at == start
    &&& e.ends_at == end
    &&& e.all_day == all_day_value(prop_value(props, "DTSTART"@)->0)
    &&& crate::mail::opt_text(e.recurrence_rule) == prop_value(props, "RRULE"@)
    &&& e.attendees@.len() == 0
    &&& crate::mail::opt_text(e.organizer) == prop_value(props, "ORGANIZER"@)
    &&& e.alarms@.len() == 1 && e.alarms@[0].minutes_before == 10
    &&& crate::mail::opt_text(e.alarms@[0].message) == Some("Upcoming event"@)
    &&& e.rsvp_status == RsvpStatus::NeedsAction
    &&& e.updated_at == now
}

/// The `i`-th property is the first whose name is `key`, in any case.
pub open spec fn first_named(props: Seq<(Seq<char>, Option<Seq<char>>)>, key: Seq<char>, i: int) -> bool {
    &&& 0 <= i < props.len()
    &&& eq_ignore_case(props[i].0, key)
    &&& forall|j: int| 0 <= j < i ==> !eq_ignore_case(#[trigger] props[j].0, key)
}

/// No property is named `key`, in any case.
pub open spec fn none_named(props: Seq<(Seq<char>, Option<Seq<char>>)>, key: Seq<char>) -> bool {
    forall|j: int| 0 <= j < props.len() ==> !eq_ignore_case(#[trigger] props[j].0, key)
}

proof fn lemma_prop_value_first(props: Seq<(Seq<char>, Option<Seq<char>>)>, key: Seq<char>)
    ensures
        none_named(props, key) ==> prop_value(props, key).is_none(),
        forall|i: int| first_named(props, key, i) ==> prop_value(props, key) == (#[trigger] props[i]).1,
    decreases props.len(),
{
    if props.len() > 0 {
        let t = props.drop_first();
        lemma_prop_value_first(t, key);
        if none_named(props, key) {
            assert(!eq_ignore_case(props[0].0, key));
            assert(none_named(t, key)) by {
                assert forall|j: int| 0 <= j < t.len() implies !eq_ignore_case(#[trigger] t[j].0, key) by {
                    assert(t[j] == props[j + 1]);
                }
            }
        }
        assert forall|i: int| first_named(props, key, i) implies prop_value(props, key) == (#[trigger] props[i]).1 by {
            if i > 0 {
                assert(!eq_ignore_case(props[0].0, key));
                assert(t[i - 1] == props[i]);
                assert(first_named(t, key, i - 1)) by {
                    assert forall|j: int| 0 <= j < i - 1 implies !eq_ignore_case(#[trigger] t[j].0, key) by {
                        assert(t[j] == props[j + 1]);
                    }
                }
            }
        }
    }
}

proof fn lemma_field_first(props: Seq<(Seq<char>, Option<Seq<char>>)>, key: Seq<char>, v: Option<Seq<char>>)
    requires
        v == prop_value(props, key),
    ensures
        none_named(props, key) ==> v.is_none(),
        forall|i: int| first_named(props, key, i) ==> v == (#[trigger] props[i]).1,
{
    lemma_prop_value_first(props, key);
}

/// What an imported event holds of its properties: its recurrence rule,
/// description, location and organizer are the values of the first property
/// of that name (any case) and absent when there is none; its remote id and
/// title likewise, with a fresh id and "Untitled Event" when absent.
pub proof fn lemma_imported_fields(
    e: CalendarEvent,
    props: Seq<(Seq<char>, Option<Seq<char>>)>,
    account_id: u128,
    calendar_id: Seq<char>,
    id: u128,
    fallback_uid: u128,
    now: i64,
    start: i64,
    end: i64,
)
    requires
        imported_event(e, props, account_id, calendar_id, id, fallback_uid, now, start, end),
    ensures
        none_named(props, "RRULE"@) ==> e.recurrence_rule.is_none(),
        forall|i: int| first_named(props, "RRULE"@, i) ==> crate::mail::opt_text(e.recurrence_rule) == (#[trigger] props[i]).1,
        none_named(props, "DESCRIPTION"@) ==> e.description.is_none(),
        forall|i: int| first_named(props, "DESCRIPTION"@, i) ==> crate::mail::opt_text(e.description) == (#[trigger] props[i]).1,
        none_named(props, "LOCATION"@) ==> e.location.is_none(),
        forall|i: int| first_named(props, "LOCATION"@, i) ==> crate::mail::opt_text(e.location) == (#[trigger] props[i]).1,
        none_named(props, "ORGANIZER"@) ==> e.organizer.is_none(),
        forall|i: int| first_named(props, "ORGANIZER"@, i) ==> crate::mail::opt_text(e.organizer) == (#[trigger] props[i]).1,
        forall|i: int| first_named(props, "UID"@, i) && (#[trigger] props[i]).1 is Some ==> Some(e.remote_id@) == props[i].1,
        none_named(props, "UID"@) ==> e.remote_id@ == uuid_text(fallback_uid),
        forall|i: int| first_named(props, "SUMMARY"@, i) && (#[trigger] props[i]).1 is Some ==> Some(e.title@) == props[i].1,
        none_named(props, "SUMMARY"@) ==> e.title@ == "Untitled Event"@,
        e.account_id == account_id && e.calendar_id@ == calendar_id && e.starts_at == start && e.ends_at == end,
{
    lemma_field_first(props, "RRULE"@, crate::mail::opt_text(e.recurrence_rule));
    lemma_field_first(props, "DESCRIPTION"@, crate::mail::opt_text(e.description));
    lemma_field_first(props, "LOCATION"@, crate::mail::opt_text(e.location));
    lemma_field_first(props, "ORGANIZER"@, crate::mail::opt_text(e.organizer));
    lemma_prop_value_first(props, "UID"@);
    lemma_prop_value_first(props, "SUMMARY"@);
}

/// What importing one event gives: its start and end, or the error.
pub open spec fn event_times(props: Seq<(Seq<char>, Option<Seq<char>>)>) -> Result<(i64, i64), CalendarErrorView> {
    match prop_value(props, "DTSTART"@) {
        None => Err(CalendarErrorView::Data("VEVENT missing DTSTART"@)),
        Some(s) => match prop_value(props, "DTEND"@) {
            None => Err(CalendarErrorView::Data("VEVENT missing DTEND"@)),
            Some(t) => match ics_datetime(s) {
                Err(m) => Err(CalendarErrorView::Parse(m)),
                Ok(a) => match ics_datetime(t) {
                    Err(m) => Err(CalendarErrorView::Parse(m)),
                    Ok(b) => Ok((a, b)),
                },
            },
        },
    }
}

/// The event that one `VEVENT`'s properties describe, stored under `id` and
/// read at `now`; `fallback_uid` names an event without a `UID`.
pub fn event_from_properties(
    account_id: u128,
    calendar_id: &str,
    props: &Vec<(String, Option<String>)>,
    id: u128,
    fallback_uid: u128,
    now: i64,
) -> (r: Result<CalendarEvent, CalendarError>)
    ensures
        match event_times(props_view(props@)) {
            Ok((a, b)) => r matches Ok(e) && imported_event(e, props_view(props@), account_id, calendar_id@, id, fallback_uid, now, a, b),
            Err(v) => r matches Err(e) && e@ == v,
        },
{
    let uid = match property_value(props, "UID") {
        Some(u) => u,
        None => uuid_to_string(fallback_uid),
    };
    let title = match property_value(props, "SUMMARY") {
        Some(t) => t,
        None => "Untitled Event".to_owned(),
    };
    let description = property_value(props, "DESCRIPTION");
    let location = property_value(props, "LOCATION");
    let recurrence_rule = property_value(props, "RRULE");
    let starts_at_raw = match property_value(props, "DTSTART") {
        Some(s) => s,
        None => return Err(CalendarError::Data("VEVENT missing DTSTART".to_owned())),
    };
    let ends_at_raw = match property_value(props, "DTEND") {
        Some(s) => s,
        None => return Err(CalendarError::Data("VEVENT missing DTEND".to_owned())),
    };
    let starts_at = parse_ical_datetime(starts_at_raw.as_str())?;
    let ends_at = parse_ical_datetime(ends_at_raw.as_str())?;
    let mut alarms: Vec<CalendarAlarm> = Vec::new();
    alarms.push(CalendarAlarm { minutes_before: 10, message: Some("Upcoming event".to_owned()) });
    Ok(CalendarEvent {
        id,
        account_id,
        calendar_id: calendar_id.to_owned(),
        remote_id: uid,
        title,
        description,
        location,
        timezone: None,
        starts_at,
        ends_at,
        all_day: is_all_day(starts_at_raw.as_str()),
        recurrence_rule,
        attendees: Vec::new(),
        organizer: property_value(props, "ORGANIZER"),
        alarms,
        rsvp_status: RsvpStatus::NeedsAction,
        updated_at: now,
    })
}

/// `e` was imported from the properties, under some ids and time.
pub open spec fn imported_from(e: CalendarEvent, props: Seq<(Seq<char>, Option<Seq<char>>)>, account_id: u128, calendar_id: Seq<char>) -> bool {
    event_times(props) matches Ok((a, b)) && exists|id: u128, fallback: u128, now: i64| chrono_time(now)
        && imported_event(e, props, account_id, calendar_id, id, fallback, now, a, b)
}

pub type Props = Seq<(Seq<char>, Option<Seq<char>>)>;

/// An event that `import_ics` returns holds the values of the first
/// `RRULE`, `DESCRIPTION`, `LOCATION` and `ORGANIZER` properties of its
/// `VEVENT` (any case), none where there is none, and starts and ends at
/// the instants its `DTSTART` and `DTEND` read as.
pub proof fn lemma_imported_from_fields(e: CalendarEvent, props: Props, account_id: u128, calendar_id: Seq<char>)
    requires
        imported_from(e, props, account_id, calendar_id),
    ensures
        none_named(props, "RRULE"@) ==> e.recurrence_rule.is_none(),
        forall|i: int| first_named(props, "RRULE"@, i) ==> crate::mail::opt_text(e.recurrence_rule) == (#[trigger] props[i]).1,
        none_named(props, "DESCRIPTION"@) ==> e.description.is_none(),
        forall|i: int| first_named(props, "DESCRIPTION"@, i) ==> crate::mail::opt_text(e.description) == (#[trigger] props[i]).1,
        none_named(props, "LOCATION"@) ==> e.location.is_none(),
        forall|i: int| first_named(props, "LOCATION"@, i) ==> crate::mail::opt_text(e.location) == (#[trigger] props[i]).1,
        none_named(props, "ORGANIZER"@) ==> e.organizer.is_none(),
        forall|i: int| first_named(props, "ORGANIZER"@, i) ==> crate::mail::opt_text(e.organizer) == (#[trigger] props[i]).1,
        forall|i: int| first_named(props, "UID"@, i) && (#[trigger] props[i]).1 is Some ==> Some(e.remote_id@) == props[i].1,
        event_times(props) == Ok::<(i64, i64), CalendarErrorView>((e.starts_at, e.ends_at)),
{
    let (a, b) = event_times(props)->Ok_0;
    let (id, fallback, now) = choose|id: u128, fallback: u128, now: i64| chrono_time(now)
        && imported_event(e, props, account_id, calendar_id, id, fallback, now, a, b);
    lemma_imported_fields(e, props, account_id, calendar_id, id, fallback, now, a, b);
}



/// What one calendar read contributes: its events, or its error.
pub open spec fn calendar_items(c: Result<Seq<Props>, Seq<char>>) -> Seq<Result<Props, Seq<char>>> {
    match c {
        Ok(es) => es.map_values(|p: Props| Ok::<Props, Seq<char>>(p)),
        Err(m) => seq![Err::<Props, Seq<char>>(m)],
    }
}

/// The events and read errors of a document, in reading order.
pub open spec fn import_items(cals: Seq<Result<Seq<Props>, Seq<char>>>) -> Seq<Result<Props, Seq<char>>>
    decreases cals.len(),
{
    if cals.len() == 0 {
        Seq::empty()
    } else {
        calendar_items(cals[0]) + import_items(cals.drop_first())
    }
}

pub open spec fn item_view(r: Result<Vec<(String, Option<String>)>, String>) -> Result<Props, Seq<char>> {
    match r {
        Ok(p) => Ok(props_view(p@)),
        Err(m) => Err(m@),
    }
}

pub open spec fn items_view(v: Seq<Result<Vec<(String, Option<String>)>, String>>) -> Seq<Result<Props, Seq<char>>> {
    v.map_values(|r: Result<Vec<(String, Option<String>)>, String>| item_view(r))
}

/// The document's events and read errors, in reading order.
fn flatten_calendars(cals: Vec<Result<Vec<Vec<(String, Option<String>)>>, String>>) -> (r: Vec<Result<Vec<(String, Option<String>)>, String>>)
    ensures
        items_view(r@) == import_items(calendars_view(cals@)),
{
    let mut cals = cals;
    let ghost all = calendars_view(cals@);
    let mut flat: Vec<Result<Vec<(String, Option<String>)>, String>> = Vec::new();
    assert(items_view(flat@) + import_items(calendars_view(cals@)) =~= import_items(all));
    while cals.len() > 0
        invariant
            items_view(flat@) + import_items(calendars_view(cals@)) == import_items(all),
        decreases cals@.len(),
    {
        let ghost old_cals = calendars_view(cals@);
        let first = cals.remove(0);
        assert(calendars_view(cals@) =~= old_cals.drop_first());
        let ghost head = calendar_items(old_cals[0]);
        let ghost before = items_view(flat@);
        match first {
            Err(m) => {
                flat.push(Err(m));
                assert(items_view(flat@) =~= before + head);
            },
            Ok(events) => {
                let mut events = events;
                let ghost evs = events_view(events@);
                let ghost mut k: int = 0;
                assert(evs.skip(0) =~= evs);
                assert(before + evs.take(0).map_values(|p: Props| Ok::<Props, Seq<char>>(p)) =~= before);
                while events.len() > 0
                    invariant
                        0 <= k <= evs.len(),
                        events_view(events@) == evs.skip(k),
                        items_view(flat@) == before + evs.take(k).map_values(|p: Props| Ok::<Props, Seq<char>>(p)),
                    decreases events@.len(),
                {
                    let ghost old_ev = events@;
                    assert(events_view(old_ev).len() == old_ev.len());
                    assert(k < evs.len());
                    let e = events.remove(0);
                    proof {
                        assert(events_view(old_ev)[0] == props_view(old_ev[0]@));
                        assert(evs.skip(k)[0] == evs[k]);
                        assert(evs[k] == props_view(e@));
                        assert(events@ =~= old_ev.remove(0));
                        assert(events_view(events@) =~= events_view(old_ev).drop_first());
                        assert(evs.skip(k).drop_first() =~= evs.skip(k + 1));
                    }
                    let ghost prev = items_view(flat@);
                    flat.push(Ok(e));
                    proof {
                        assert(evs.take(k + 1).map_values(|p: Props| Ok::<Props, Seq<char>>(p))
                            =~= evs.take(k).map_values(|p: Props| Ok::<Props, Seq<char>>(p)).push(Ok(evs[k])));
                        assert(items_view(flat@) =~= prev.push(Ok(evs[k])));
                        k = k + 1;
                    }
                }
                assert(evs.take(k) =~= evs);
                assert(items_view(flat@) =~= before + head);
            },
        }
    }
    assert(items_view(flat@) + Seq::<Result<Props, Seq<char>>>::empty() =~= items_view(flat@));
    flat
}

/// The error that stops an import at this item, if any.
pub open spec fn item_error(it: Result<Props, Seq<char>>) -> Option<CalendarErrorView> {
    match it {
        Err(m) => Some(CalendarErrorView::Parse(m)),
        Ok(p) => match event_times(p) {
            Err(v) => Some(v),
            Ok(_) => None,
        },
    }
}

/// `k` is where an import stops: no item before it fails, and it is the
/// end or a failing item.
pub open spec fn stops_at(its: Seq<Result<Props, Seq<char>>>, k: int) -> bool {
    &&& 0 <= k <= its.len()
    &&& forall|i: int| 0 <= i < k ==> item_error(#[trigger] its[i]).is_none()
    &&& k < its.len() ==> item_error(its[k]) is Some
}

pub open spec fn opt_error_view(e: Option<CalendarError>) -> Option<CalendarErrorView> {
    match e {
        Some(e) => Some(e@),
        None => None,
    }
}

/// Imports the events of an iCalendar document in reading order, each with
/// fresh ids and read at the current time, up to the first calendar that
/// fails to read or the first event without a readable start and end; the
/// error, if any, comes with the events imported before it.
pub fn import_ics(account_id: u128, calendar_id: &str, ics_payload: &str) -> (r: (Vec<CalendarEvent>, Option<CalendarError>))
    ensures
        stops_at(import_items(ical_calendars(ics_payload@)), r.0@.len() as int),
        forall|i: int| 0 <= i < r.0@.len() ==> imported_from(#[trigger] r.0@[i], import_items(ical_calendars(ics_payload@))[i]->Ok_0, account_id, calendar_id@),
        opt_error_view(r.1) == if r.0@.len() < import_items(ical_calendars(ics_payload@)).len() {
            item_error(import_items(ical_calendars(ics_payload@))[r.0@.len() as int])
        } else {
            None
        },
{
    let cals = read_ical_calendars(ics_payload);
    let items = flatten_calendars(cals);
    let ghost its = items_view(items@);
    let mut out: Vec<CalendarEvent> = Vec::new();
    for k in 0..items.len()
        invariant
            its == items_view(items@),
            its == import_items(ical_calendars(ics_payload@)),
            out@.len() == k,
            forall|i: int| 0 <= i < k ==> item_error(#[trigger] its[i]).is_none(),
            forall|i: int| 0 <= i < k ==> imported_from(#[trigger] out@[i], its[i]->Ok_0, account_id, calendar_id@),
    {
        assert(its[k as int] == item_view(items@[k as int]));
        match &items[k] {
            Err(m) => {
                return (out, Some(CalendarError::Parse(m.clone())));
            },
            Ok(props) => {
                let id = new_id();
                let fallback = new_id();
                let now = now_utc();
                match event_from_properties(account_id, calendar_id, props, id, fallback, now) {
                    Ok(e) => {
                        proof {
                            let (a, b) = event_times(props_view(props@))->Ok_0;
                            assert(imported_event(e, props_view(props@), account_id, calendar_id@, id, fallback, now, a, b));
                            assert(imported_from(e, its[k as int]->Ok_0, account_id, calendar_id@));
                        }
                        let ghost prev = out@;
                        out.push(e);
                        assert(forall|i: int| 0 <= i < k ==> out@[i] == prev[i]);
                    },
                    Err(err) => {
                        return (out, Some(err));
                    },
                }
            },
        }
    }
    (out, None)
}

// ------------------------------------------------------------------ conflicts

/// `e` placed after every event of `s` that starts no later, `s` being in
/// order of start.
pub open spec fn insert_by_start(s: Seq<CalendarEvent>, e: CalendarEvent) -> Seq<CalendarEvent>
    decreases s.len(),
{
    if s.len() == 0 || s.last().starts_at <= e.starts_at {
        s.push(e)
    } else {
        insert_by_start(s.drop_last(), e).push(s.last())
    }
}

/// The events in order of start, events that start together in their
/// original order (a stable sort by start).
pub open spec fn sorted_by_start(s: Seq<CalendarEvent>) -> Seq<CalendarEvent>
    decreases s.len(),
{
    if s.len() == 0 {
        s
    } else {
        insert_by_start(sorted_by_start(s.drop_last()), s.last())
    }
}

pub open spec fn ordered_by_start(s: Seq<CalendarEvent>) -> bool {
    forall|i: int, j: int| 0 <= i < j < s.len() ==> s[i].starts_at <= s[j].starts_at
}

proof fn lemma_insert_at(s: Seq<CalendarEvent>, e: CalendarEvent, j: int)
    requires
        0 <= j <= s.len(),
        forall|k: int| j <= k < s.len() ==> s[k].starts_at > e.starts_at,
        j == 0 || s[j - 1].starts_at <= e.starts_at,
    ensures
        insert_by_start(s, e) == s.take(j).push(e) + s.skip(j),
    decreases s.len(),
{
    if j == s.len() {
        assert(s.take(j) =~= s);
        assert(s.skip(j) =~= Seq::<CalendarEvent>::empty());
        assert(s.take(j).push(e) + s.skip(j) =~= s.push(e));
    } else {
        let t = s.drop_last();
        lemma_insert_at(t, e, j);
        assert(s.take(j).push(e) + s.skip(j) =~= (t.take(j).push(e) + t.skip(j)).push(s.last()));
    }
}

proof fn lemma_insert_multiset(s: Seq<CalendarEvent>, e: CalendarEvent)
    ensures
        insert_by_start(s, e).to_multiset() == s.to_multiset().insert(e),
    decreases s.len(),
{
    broadcast use vstd::seq_lib::group_to_multiset_ensures, vstd::multiset::group_multiset_axioms;
    if s.len() == 0 || s.last().starts_at <= e.starts_at {
    } else {
        lemma_insert_multiset(s.drop_last(), e);
        assert(s.drop_last().push(s.last()) =~= s);
        assert(insert_by_start(s.drop_last(), e).push(s.last()).to_multiset()
            =~= s.drop_last().to_multiset().insert(e).insert(s.last()));
        assert(s.to_multiset() =~= s.drop_last().to_multiset().insert(s.last()));
    }
}

/// Sorting by start keeps every event, as often as it occurs: the sorted
/// events are a permutation of the events.
pub proof fn lemma_sorted_by_start_permutes(s: Seq<CalendarEvent>)
    ensures
        sorted_by_start(s).to_multiset() == s.to_multiset(),
    decreases s.len(),
{
    broadcast use vstd::seq_lib::group_to_multiset_ensures, vstd::multiset::group_multiset_axioms;
    if s.len() == 0 {
        assert(sorted_by_start(s) == s);
    } else {
        lemma_sorted_by_start_permutes(s.drop_last());
        lemma_insert_multiset(sorted_by_start(s.drop_last()), s.last());
        assert(s.drop_last().push(s.last()) =~= s);
    }
}

/// Sorting keeps the events in order of start.
pub proof fn lemma_sorted_by_start_ordered(s: Seq<CalendarEvent>)
    ensures
        ordered_by_start(sorted_by_start(s)),
        sorted_by_start(s).len() == s.len(),
    decreases s.len(),
{
    if s.len() > 0 {
        let t = sorted_by_start(s.drop_last());
        lemma_sorted_by_start_ordered(s.drop_last());
        let e = s.last();
        let j = insert_pos(t, e);
        lemma_insert_pos(t, e);
        lemma_insert_at(t, e, j);
        let r = t.take(j).push(e) + t.skip(j);
        assert forall|a: int, b: int| 0 <= a < b < r.len() implies r[a].starts_at <= r[b].starts_at by {
            if b < j {
                assert(r[a] == t[a] && r[b] == t[b]);
            } else if b == j {
                if a < j { assert(r[a] == t[a]); }
            } else if a < j {
                assert(r[a] == t[a] && r[b] == t[b - 1]);
            } else if a == j {
                assert(r[b] == t[b - 1]);
            } else {
                assert(r[a] == t[a - 1] && r[b] == t[b - 1]);
            }
        }
    }
}

/// Where `e` goes in `s`: after the last event that starts no later.
pub open spec fn insert_pos(s: Seq<CalendarEvent>, e: CalendarEvent) -> int
    decreases s.len(),
{
    if s.len() == 0 || s.last().starts_at <= e.starts_at {
        s.len() as int
    } else {
        insert_pos(s.drop_last(), e)
    }
}

proof fn lemma_insert_pos(s: Seq<CalendarEvent>, e: CalendarEvent)
    requires
        ordered_by_start(s),
    ensures
        0 <= insert_pos(s, e) <= s.len(),
        forall|k: int| insert_pos(s, e) <= k < s.len() ==> s[k].starts_at > e.starts_at,
        insert_pos(s, e) == 0 || s[insert_pos(s, e) - 1].starts_at <= e.starts_at,
    decreases s.len(),
{
    if s.len() > 0 && s.last().starts_at > e.starts_at {
        let t = s.drop_last();
        assert(ordered_by_start(t)) by {
            assert forall|i: int, j: int| 0 <= i < j < t.len() implies t[i].starts_at <= t[j].starts_at by {
                assert(t[i] == s[i] && t[j] == s[j]);
            }
        }
        lemma_insert_pos(t, e);
        assert forall|k: int| insert_pos(s, e) <= k < s.len() implies s[k].starts_at > e.starts_at by {
            if k < t.len() {
                assert(s[k] == t[k]);
            }
        }
        if insert_pos(s, e) > 0 {
            assert(s[insert_pos(s, e) - 1] == t[insert_pos(s, e) - 1]);
        }
    }
}

/// Two events hold the same data.
pub open spec fn same_event(a: CalendarEvent, b: CalendarEvent) -> bool {
    &&& a.id == b.id && a.account_id == b.account_id
    &&& a.calendar_id@ == b.calendar_id@ && a.remote_id@ == b.remote_id@ && a.title@ == b.title@
    &&& crate::mail::opt_text(a.description) == crate::mail::opt_text(b.description)
    &&& crate::mail::opt_text(a.location) == crate::mail::opt_text(b.location)
    &&& crate::mail::opt_text(a.timezone) == crate::mail::opt_text(b.timezone)
    &&& a.starts_at == b.starts_at && a.ends_at == b.ends_at && a.all_day == b.all_day
    &&& crate::mail::opt_text(a.recurrence_rule) == crate::mail::opt_text(b.recurrence_rule)
    &&& a.attendees@ == b.attendees@
    &&& crate::mail::opt_text(a.organizer) == crate::mail::opt_text(b.organizer)
    &&& a.alarms@ == b.alarms@
    &&& a.rsvp_status == b.rsvp_status && a.updated_at == b.updated_at
}

/// A copy of an event.
pub fn copy_event(e: &CalendarEvent) -> (r: CalendarEvent)
    ensures
        same_event(r, *e),
{
    let mut alarms: Vec<CalendarAlarm> = Vec::new();
    for i in 0..e.alarms.len()
        invariant
            alarms@ == e.alarms@.take(i as int),
    {
        let a = &e.alarms[i];
        let message = match &a.message {
            Some(m) => Some(m.clone()),
            None => None,
        };
        assert(message == a.message);
        alarms.push(CalendarAlarm { minutes_before: a.minutes_before, message });
        assert(alarms@ =~= e.alarms@.take(i + 1));
    }
    assert(e.alarms@.take(e.alarms.len() as int) =~= e.alarms@);
    let attendees = e.attendees.clone();
    assert(attendees@ =~= e.attendees@);
    CalendarEvent {
        id: e.id,
        account_id: e.account_id,
        calendar_id: e.calendar_id.clone(),
        remote_id: e.remote_id.clone(),
        title: e.title.clone(),
        description: crate::tasks::copy_opt(&e.description),
        location: crate::tasks::copy_opt(&e.location),
        timezone: crate::tasks::copy_opt(&e.timezone),
        starts_at: e.starts_at,
        ends_at: e.ends_at,
        all_day: e.all_day,
        recurrence_rule: crate::tasks::copy_opt(&e.recurrence_rule),
        attendees,
        organizer: crate::tasks::copy_opt(&e.organizer),
        alarms,
        rsvp_status: e.rsvp_status,
        updated_at: e.updated_at,
    }
}

/// The events in order of start, stable.
pub fn sort_by_start(events: Vec<CalendarEvent>) -> (r: Vec<CalendarEvent>)
    ensures
        r@ == sorted_by_start(events@),
{
    let mut rest = events;
    let ghost all = rest@;
    let mut sorted: Vec<CalendarEvent> = Vec::new();
    let ghost mut k: int = 0;
    assert(all.take(0) =~= Seq::<CalendarEvent>::empty());
    assert(all.skip(0) =~= all);
    while rest.len() > 0
        invariant
            0 <= k <= all.len(),
            rest@ == all.skip(k),
            sorted@ == sorted_by_start(all.take(k)),
        decreases rest@.len(),
    {
        let e = rest.remove(0);
        proof {
            assert(all.skip(k)[0] == all[k]);
            assert(rest@ =~= all.skip(k + 1));
            assert(all.take(k + 1).drop_last() =~= all.take(k));
            lemma_sorted_by_start_ordered(all.take(k));
            lemma_insert_pos(sorted@, e);
        }
        let mut j = sorted.len();
        while j > 0 && sorted[j - 1].starts_at > e.starts_at
            invariant
                j <= sorted@.len(),
                forall|m: int| j <= m < sorted@.len() ==> sorted@[m].starts_at > e.starts_at,
            decreases j,
        {
            j = j - 1;
        }
        proof {
            lemma_insert_at(sorted@, e, j as int);
        }
        let ghost before = sorted@;
        sorted.insert(j, e);
        proof {
            assert(sorted@ =~= before.take(j as int).push(e) + before.skip(j as int));
            k = k + 1;
        }
    }
    assert(all.take(k) =~= all);
    sorted
}

/// The pairs of event `i` with the events that follow it and start before
/// it ends, from `k` on, stopping at the first that does not.
pub open spec fn overlap_run(s: Seq<CalendarEvent>, i: int, k: int) -> Seq<(CalendarEvent, CalendarEvent)>
    decreases s.len() - k,
{
    if k < 0 || k >= s.len() || s[k].starts_at >= s[i].ends_at {
        Seq::empty()
    } else {
        seq![(s[i], s[k])] + overlap_run(s, i, k + 1)
    }
}

/// The overlapping pairs of the events from `i` on, in order.
pub open spec fn conflicts_from(s: Seq<CalendarEvent>, i: int) -> Seq<(CalendarEvent, CalendarEvent)>
    decreases s.len() - i,
{
    if i < 0 || i >= s.len() {
        Seq::empty()
    } else {
        overlap_run(s, i, i + 1) + conflicts_from(s, i + 1)
    }
}

proof fn lemma_run_contains(s: Seq<CalendarEvent>, i: int, k: int, j: int)
    requires
        ordered_by_start(s),
        0 <= i < k <= j < s.len(),
        s[j].starts_at < s[i].ends_at,
    ensures
        overlap_run(s, i, k).contains((s[i], s[j])),
    decreases j - k,
{
    assert(s[k].starts_at <= s[j].starts_at);
    let r = overlap_run(s, i, k);
    assert(r == seq![(s[i], s[k])] + overlap_run(s, i, k + 1));
    if k == j {
        assert(r[0] == (s[i], s[j]));
    } else {
        lemma_run_contains(s, i, k + 1, j);
        let t = overlap_run(s, i, k + 1);
        let p = choose|p: int| 0 <= p < t.len() && #[trigger] t[p] == (s[i], s[j]);
        assert(r[p + 1] == (s[i], s[j]));
    }
}

proof fn lemma_run_sound(s: Seq<CalendarEvent>, i: int, k: int)
    requires
        0 <= i < k,
        i < s.len(),
    ensures
        forall|p: int| 0 <= p < overlap_run(s, i, k).len() ==> exists|j: int| #![trigger s[j]]
            k <= j < s.len() && s[j].starts_at < s[i].ends_at && #[trigger] overlap_run(s, i, k)[p] == (s[i], s[j]),
    decreases s.len() - k,
{
    if k < s.len() && s[k].starts_at < s[i].ends_at {
        lemma_run_sound(s, i, k + 1);
        let r = overlap_run(s, i, k);
        let t = overlap_run(s, i, k + 1);
        assert(r == seq![(s[i], s[k])] + t);
        assert forall|p: int| 0 <= p < r.len() implies exists|j: int| #![trigger s[j]]
            k <= j < s.len() && s[j].starts_at < s[i].ends_at && #[trigger] r[p] == (s[i], s[j]) by {
            if p == 0 {
                assert(r[0] == (s[i], s[k]));
            } else {
                assert(r[p] == t[p - 1]);
            }
        }
    }
}

proof fn lemma_conflicts_contains(s: Seq<CalendarEvent>, m: int, i: int, j: int)
    requires
        ordered_by_start(s),
        0 <= m <= i < j < s.len(),
        s[j].starts_at < s[i].ends_at,
    ensures
        conflicts_from(s, m).contains((s[i], s[j])),
    decreases i - m,
{
    let c = conflicts_from(s, m);
    let run = overlap_run(s, m, m + 1);
    let rest = conflicts_from(s, m + 1);
    assert(c == run + rest);
    if m == i {
        lemma_run_contains(s, i, i + 1, j);
        let p = choose|p: int| 0 <= p < run.len() && #[trigger] run[p] == (s[i], s[j]);
        assert(c[p] == (s[i], s[j]));
    } else {
        lemma_conflicts_contains(s, m + 1, i, j);
        let p = choose|p: int| 0 <= p < rest.len() && #[trigger] rest[p] == (s[i], s[j]);
        assert(c[run.len() + p] == (s[i], s[j]));
    }
}

proof fn lemma_conflicts_sound(s: Seq<CalendarEvent>, m: int)
    requires
        0 <= m,
    ensures
        forall|p: int| 0 <= p < conflicts_from(s, m).len() ==> exists|i: int, j: int| #![trigger s[i], s[j]]
            m <= i < j < s.len() && s[j].starts_at < s[i].ends_at && #[trigger] conflicts_from(s, m)[p] == (s[i], s[j]),
    decreases s.len() - m,
{
    if m < s.len() {
        lemma_conflicts_sound(s, m + 1);
        lemma_run_sound(s, m, m + 1);
        let c = conflicts_from(s, m);
        let run = overlap_run(s, m, m + 1);
        let rest = conflicts_from(s, m + 1);
        assert(c == run + rest);
        assert forall|p: int| 0 <= p < c.len() implies exists|i: int, j: int| #![trigger s[i], s[j]]
            m <= i < j < s.len() && s[j].starts_at < s[i].ends_at && #[trigger] c[p] == (s[i], s[j]) by {
            if p < run.len() {
                assert(c[p] == run[p]);
                let j = choose|j: int| #![trigger s[j]] m + 1 <= j < s.len() && s[j].starts_at < s[m].ends_at && run[p] == (s[m], s[j]);
                assert(s[m] == s[m] && s[j] == s[j]);
            } else {
                assert(c[p] == rest[p - run.len()]);
                let (i, j) = choose|i: int, j: int| #![trigger s[i], s[j]]
                    m + 1 <= i < j < s.len() && s[j].starts_at < s[i].ends_at && rest[p - run.len()] == (s[i], s[j]);
                assert(s[i] == s[i] && s[j] == s[j]);
            }
        }
    }
}

/// The conflicts of some events are exactly their overlapping pairs: with the
/// events in order of start, every pair of an event and a later one that
/// starts before the first ends is among the conflicts, and every conflict is
/// such a pair.
pub proof fn lemma_conflicts_are_overlaps(events: Seq<CalendarEvent>)
    ensures
        forall|i: int, j: int| #![trigger sorted_by_start(events)[i], sorted_by_start(events)[j]]
            0 <= i < j < sorted_by_start(events).len()
            && sorted_by_start(events)[j].starts_at < sorted_by_start(events)[i].ends_at
            ==> conflicts_from(sorted_by_start(events), 0).contains((sorted_by_start(events)[i], sorted_by_start(events)[j])),
        forall|p: int| 0 <= p < conflicts_from(sorted_by_start(events), 0).len() ==> exists|i: int, j: int|
            #![trigger sorted_by_start(events)[i], sorted_by_start(events)[j]]
            0 <= i < j < sorted_by_start(events).len()
            && sorted_by_start(events)[j].starts_at < sorted_by_start(events)[i].ends_at
            && #[trigger] conflicts_from(sorted_by_start(events), 0)[p] == (sorted_by_start(events)[i], sorted_by_start(events)[j]),
        sorted_by_start(events).len() == events.len(),
        ordered_by_start(sorted_by_start(events)),
{
    let s = sorted_by_start(events);
    lemma_sorted_by_start_ordered(events);
    assert forall|i: int, j: int| #![trigger s[i], s[j]]
        0 <= i < j < s.len() && s[j].starts_at < s[i].ends_at implies conflicts_from(s, 0).contains((s[i], s[j])) by {
        lemma_conflicts_contains(s, 0, i, j);
    }
    lemma_conflicts_sound(s, 0);
}

pub open spec fn same_pairs(a: Seq<(CalendarEvent, CalendarEvent)>, b: Seq<(CalendarEvent, CalendarEvent)>) -> bool {
    a.len() == b.len() && forall|i: int| 0 <= i < a.len() ==> same_event((#[trigger] a[i]).0, b[i].0) && same_event(a[i].1, b[i].1)
}

/// The pairs of overlapping events: with the events in order of start, each
/// event with every later one that starts before it ends.
pub fn detect_conflicts(events: Vec<CalendarEvent>) -> (r: Vec<(CalendarEvent, CalendarEvent)>)
    ensures
        same_pairs(r@, conflicts_from(sorted_by_start(events@), 0)),
{
    let sorted = sort_by_start(events);
    let ghost s = sorted@;
    let mut out: Vec<(CalendarEvent, CalendarEvent)> = Vec::new();
    let ghost mut expect: Seq<(CalendarEvent, CalendarEvent)> = Seq::empty();
    for i in 0..sorted.len()
        invariant
            s == sorted@,
            same_pairs(out@, expect),
            expect + conflicts_from(s, i as int) == conflicts_from(s, 0),
    {
        let mut k = i + 1;
        assert(expect + overlap_run(s, i as int, k as int) + conflicts_from(s, i + 1) =~= conflicts_from(s, 0));
        while k < sorted.len() && sorted[k].starts_at < sorted[i].ends_at
            invariant
                s == sorted@,
                i < k <= sorted.len(),
                same_pairs(out@, expect),
                expect + overlap_run(s, i as int, k as int) + conflicts_from(s, i + 1) == conflicts_from(s, 0),
            decreases sorted.len() - k,
        {
            let pair = (copy_event(&sorted[i]), copy_event(&sorted[k]));
            let ghost before = expect;
            out.push(pair);
            proof {
                expect = expect.push((s[i as int], s[k as int]));
                assert(expect + overlap_run(s, i as int, k + 1) =~= before + overlap_run(s, i as int, k as int));
            }
            k = k + 1;
        }
        assert(expect + conflicts_from(s, i + 1) =~= expect + overlap_run(s, i as int, k as int) + conflicts_from(s, i + 1));
    }
    assert(expect + conflicts_from(s, sorted.len() as int) =~= expect);
    out
}

}
