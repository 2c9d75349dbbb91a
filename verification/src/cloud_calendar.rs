//! Events as the Google Calendar and Microsoft Graph APIs send and take
//! them: the replies read into events, the request bodies and addresses
//! built from events.
use vstd::prelude::*;
use crate::calendar::{google_time, graph_time, parse_google_datetime, parse_graph_datetime, CalendarError, CalendarErrorView};
use crate::ids::{new_id, uuid_to_string};
use crate::json::{jentries, jtext, jtext_or_null, jview, jviews, put, push_item, JsonValue, JsonView};
use crate::mail::opt_text;
use crate::model::{CalendarAlarm, CalendarEvent, RsvpStatus};
use crate::text::{chars_of, extend, push_str, seq_eq, string_from_chars};
use crate::time::{chrono_time, format_secs, format_time, formattable, now_utc, parse_rfc3339, rfc3339_secs, rfc3339_text, to_rfc3339};

verus! {

pub open spec fn string_views(s: Seq<String>) -> Seq<Seq<char>> {
    s.map_values(|x: String| x@)
}

/// The one reminder every synced event gets: ten minutes before,
/// "Upcoming event".
pub open spec fn has_default_alarm(e: CalendarEvent) -> bool {
    &&& e.alarms@.len() == 1
    &&& e.alarms@[0].minutes_before == 10
    &&& opt_text(e.alarms@[0].message) == Some("Upcoming event"@)
}

fn default_alarms() -> (r: Vec<CalendarAlarm>)
    ensures
        r@.len() == 1,
        r@[0].minutes_before == 10,
        opt_text(r@[0].message) == Some("Upcoming event"@),
{
    let mut alarms: Vec<CalendarAlarm> = Vec::new();
    alarms.push(CalendarAlarm { minutes_before: 10, message: Some("Upcoming event".to_owned()) });
    alarms
}

/// When an event was last changed: the RFC 3339 time the server gave, else
/// some instant at which it was read.
pub open spec fn updated_from(t: i64, raw: Option<String>) -> bool {
    match raw {
        Some(u) => match rfc3339_secs(u@) {
            Some(v) => t == v,
            None => chrono_time(t),
        },
        None => chrono_time(t),
    }
}

fn updated_at_of(raw: &Option<String>) -> (r: i64)
    ensures
        updated_from(r, *raw),
{
    let parsed = match raw {
        Some(u) => parse_rfc3339(u.as_str()),
        None => None,
    };
    match parsed {
        Some(t) => t,
        None => now_utc(),
    }
}

// ------------------------------------------------------------------ Google

#[derive(Debug, Clone)]
pub struct GoogleCalendarDateTime {
    pub date_time: Option<String>,
    pub date: Option<String>,
    pub time_zone: Option<String>,
}

#[derive(Debug, Clone)]
pub struct GoogleCalendarAttendee {
    pub email: Option<String>,
}

#[derive(Debug, Clone)]
pub struct GoogleCalendarOrganizer {
    pub email: Option<String>,
}

/// One event of a Google Calendar `events` reply.
#[derive(Debug, Clone)]
pub struct GoogleCalendarEvent {
    pub id: Option<String>,
    pub summary: Option<String>,
    pub description: Option<String>,
    pub location: Option<String>,
    pub start: Option<GoogleCalendarDateTime>,
    pub end: Option<GoogleCalendarDateTime>,
    pub recurrence: Option<Vec<String>>,
    pub attendees: Option<Vec<GoogleCalendarAttendee>>,
    pub organizer: Option<GoogleCalendarOrganizer>,
    pub updated: Option<String>,
    pub status: Option<String>,
}

pub open spec fn gtime(d: Option<GoogleCalendarDateTime>) -> Option<i64> {
    match d {
        Some(d) => google_time(opt_text(d.date_time), opt_text(d.date)),
        None => None,
    }
}

pub open spec fn google_cancelled(g: GoogleCalendarEvent) -> bool {
    opt_text(g.status) == Some("cancelled"@)
}

/// What stops a Google event from being read: a missing or unreadable start
/// or end. Cancelled events are skipped, not read.
pub open spec fn google_problem(g: GoogleCalendarEvent) -> Option<Seq<char>> {
    if google_cancelled(g) {
        None
    } else if gtime(g.start).is_none() {
        Some("Google event missing start time"@)
    } else if gtime(g.end).is_none() {
        Some("Google event missing end time"@)
    } else {
        None
    }
}

pub open spec fn first_google_problem(items: Seq<GoogleCalendarEvent>) -> Option<Seq<char>>
    decreases items.len(),
{
    if items.len() == 0 {
        None
    } else {
        match google_problem(items[0]) {
            Some(m) => Some(m),
            None => first_google_problem(items.drop_first()),
        }
    }
}

/// The events that are not cancelled, in order.
pub open spec fn google_kept(items: Seq<GoogleCalendarEvent>) -> Seq<GoogleCalendarEvent>
    decreases items.len(),
{
    if items.len() == 0 {
        Seq::empty()
    } else if google_cancelled(items.last()) {
        google_kept(items.drop_last())
    } else {
        google_kept(items.drop_last()).push(items.last())
    }
}

/// The e-mail addresses of the attendees that have one.
pub open spec fn attendee_emails(atts: Seq<GoogleCalendarAttendee>) -> Seq<Seq<char>>
    decreases atts.len(),
{
    if atts.len() == 0 {
        Seq::empty()
    } else {
        match atts.last().email {
            Some(e) => attendee_emails(atts.drop_last()).push(e@),
            None => attendee_emails(atts.drop_last()),
        }
    }
}

pub open spec fn google_zone(g: GoogleCalendarEvent) -> Option<Seq<char>> {
    let from_start = match g.start {
        Some(s) => opt_text(s.time_zone),
        None => None,
    };
    if from_start.is_some() {
        from_start
    } else {
        match g.end {
            Some(t) => opt_text(t.time_zone),
            None => None,
        }
    }
}

/// `e` is the Google event `g` of calendar `calendar_id`: its id (a fresh
/// one when it has none), summary ("Untitled event" when none), texts,
/// time zone (the start's, else the end's), times, whole-day flag (a start
/// given as a date), first recurrence rule, attendees with an address,
/// organizer, the default reminder, and when it was last changed.
pub open spec fn google_event_of(e: CalendarEvent, g: GoogleCalendarEvent, account_id: u128, calendar_id: Seq<char>) -> bool {
    &&& e.account_id == account_id
    &&& e.calendar_id@ == calendar_id
    &&& (g.id matches Some(i) ==> e.remote_id@ == i@)
    &&& e.title@ == match g.summary {
        Some(s) => s@,
        None => "Untitled event"@,
    }
    &&& opt_text(e.description) == opt_text(g.description)
    &&& opt_text(e.location) == opt_text(g.location)
    &&& opt_text(e.timezone) == google_zone(g)
    &&& gtime(g.start) == Some(e.starts_at)
    &&& gtime(g.end) == Some(e.ends_at)
    &&& e.all_day == (g.start matches Some(s) && s.date.is_some())
    &&& opt_text(e.recurrence_rule) == match g.recurrence {
        Some(rs) => if rs@.len() > 0 { Some(rs@[0]@) } else { None },
        None => None,
    }
    &&& string_views(e.attendees@) == match g.attendees {
        Some(a) => attendee_emails(a@),
        None => Seq::empty(),
    }
    &&& opt_text(e.organizer) == match g.organizer {
        Some(o) => opt_text(o.email),
        None => None,
    }
    &&& has_default_alarm(e)
    &&& e.rsvp_status == RsvpStatus::NeedsAction
    &&& updated_from(e.updated_at, g.updated)
}

fn emails_of(atts: &Option<Vec<GoogleCalendarAttendee>>) -> (r: Vec<String>)
    ensures
        string_views(r@) == match atts {
            Some(a) => attendee_emails(a@),
            None => Seq::empty(),
        },
{
    let mut out: Vec<String> = Vec::new();
    match atts {
        Some(a) => {
            for i in 0..a.len()
                invariant
                    string_views(out@) == attendee_emails(a@.take(i as int)),
            {
                assert(a@.take(i + 1).drop_last() =~= a@.take(i as int));
                assert(a@.take(i + 1).last() == a@[i as int]);
                let ghost before = out@;
                match &a[i].email {
                    Some(e) => {
                        out.push(e.clone());
                        assert(string_views(out@) =~= string_views(before).push(e@));
                    },
                    None => {},
                }
            }
            assert(a@.take(a@.len() as int) =~= a@);
        },
        None => {
            assert(string_views(out@) =~= Seq::<Seq<char>>::empty());
        },
    }
    out
}

fn opt_email(o: &Option<String>) -> (r: Option<String>)
    ensures
        opt_text(r) == opt_text(*o),
{
    match o {
        Some(s) => Some(s.clone()),
        None => None,
    }
}

fn is_cancelled(status: &Option<String>) -> (r: bool)
    ensures
        r == (opt_text(*status) == Some("cancelled"@)),
{
    proof {
        reveal_strlit("cancelled");
    }
    match status {
        Some(s) => seq_eq(chars_of(s.as_str()).as_slice(), chars_of("cancelled").as_slice()),
        None => false,
    }
}

fn google_time_of(d: &Option<GoogleCalendarDateTime>) -> (r: Option<i64>)
    ensures
        r == gtime(*d),
{
    match d {
        Some(d) => parse_google_datetime(&d.date_time, &d.date),
        None => None,
    }
}

/// The events of a Google Calendar reply for the calendar `calendar_id`,
/// cancelled ones left out. The first other event without a readable start
/// or end stops the sync with a parse error.
pub fn google_events(account_id: u128, calendar_id: &str, items: Vec<GoogleCalendarEvent>) -> (r: Result<Vec<CalendarEvent>, CalendarError>)
    ensures
        match r {
            Ok(evs) => first_google_problem(items@).is_none()
                && evs@.len() == google_kept(items@).len()
                && forall|i: int| 0 <= i < evs@.len() ==> google_event_of(#[trigger] evs@[i], google_kept(items@)[i], account_id, calendar_id@),
            Err(e) => first_google_problem(items@) matches Some(m) && e@ == CalendarErrorView::Parse(m),
        },
{
    let mut out: Vec<CalendarEvent> = Vec::new();
    assert(items@.skip(0) =~= items@);
    for i in 0..items.len()
        invariant
            first_google_problem(items@) == first_google_problem(items@.skip(i as int)),
            out@.len() == google_kept(items@.take(i as int)).len(),
            forall|j: int| 0 <= j < out@.len() ==> google_event_of(#[trigger] out@[j], google_kept(items@.take(i as int))[j], account_id, calendar_id@),
    {
        let g = &items[i];
        let ghost gi = items@[i as int];
        proof {
            assert(items@.skip(i as int)[0] == gi);
            assert(items@.skip(i as int).drop_first() =~= items@.skip(i + 1));
            assert(items@.take(i + 1).drop_last() =~= items@.take(i as int));
            assert(items@.take(i + 1).last() == gi);
            reveal_strlit("Google event missing start time");
            reveal_strlit("Google event missing end time");
        }
        if !is_cancelled(&g.status) {
            let starts_at = match google_time_of(&g.start) {
                Some(t) => t,
                None => return Err(CalendarError::Parse("Google event missing start time".to_owned())),
            };
            let ends_at = match google_time_of(&g.end) {
                Some(t) => t,
                None => return Err(CalendarError::Parse("Google event missing end time".to_owned())),
            };
            let all_day = match &g.start {
                Some(s) => s.date.is_some(),
                None => false,
            };
            let from_start = match &g.start {
                Some(s) => opt_email(&s.time_zone),
                None => None,
            };
            let timezone = match from_start {
                Some(z) => Some(z),
                None => match &g.end {
                    Some(t) => opt_email(&t.time_zone),
                    None => None,
                },
            };
            let remote_id = match &g.id {
                Some(id) => id.clone(),
                None => uuid_to_string(new_id()),
            };
            let title = match &g.summary {
                Some(s) => s.clone(),
                None => "Untitled event".to_owned(),
            };
            let recurrence_rule = match &g.recurrence {
                Some(rs) => if rs.len() > 0 { Some(rs[0].clone()) } else { None },
                None => None,
            };
            let organizer = match &g.organizer {
                Some(o) => opt_email(&o.email),
                None => None,
            };
            let event = CalendarEvent {
                id: new_id(),
                account_id,
                calendar_id: calendar_id.to_owned(),
                remote_id,
                title,
                description: opt_email(&g.description),
                location: opt_email(&g.location),
                timezone,
                starts_at,
                ends_at,
                all_day,
                recurrence_rule,
                attendees: emails_of(&g.attendees),
                organizer,
                alarms: default_alarms(),
                rsvp_status: RsvpStatus::NeedsAction,
                updated_at: updated_at_of(&g.updated),
            };
            proof {
                reveal_strlit("Untitled event");
            }
            let ghost before = out@;
            out.push(event);
            proof {
                assert(google_kept(items@.take(i + 1)) == google_kept(items@.take(i as int)).push(gi));
                assert forall|j: int| 0 <= j < out@.len() implies google_event_of(#[trigger] out@[j], google_kept(items@.take(i + 1))[j], account_id, calendar_id@) by {
                    if j < before.len() {
                        assert(out@[j] == before[j]);
                    }
                }
            }
        } else {
            assert(google_kept(items@.take(i + 1)) == google_kept(items@.take(i as int)));
        }
    }
    assert(items@.take(items@.len() as int) =~= items@);
    Ok(out)
}

/// `s` with each `/` written as `%2F`.
pub open spec fn slash_escaped(s: Seq<char>) -> Seq<char>
    decreases s.len(),
{
    if s.len() == 0 {
        Seq::empty()
    } else if s.last() == '/' {
        slash_escaped(s.drop_last()) + "%2F"@
    } else {
        slash_escaped(s.drop_last()).push(s.last())
    }
}

fn escape_slashes(s: &str) -> (r: Vec<char>)
    ensures
        r@ == slash_escaped(s@),
{
    let cs = chars_of(s);
    let mut out: Vec<char> = Vec::new();
    for i in 0..cs.len()
        invariant
            cs@ == s@,
            out@ == slash_escaped(cs@.take(i as int)),
    {
        assert(cs@.take(i + 1).drop_last() =~= cs@.take(i as int));
        assert(cs@.take(i + 1).last() == cs@[i as int]);
        let ghost before = out@;
        if cs[i] == '/' {
            push_str(&mut out, "%2F");
        } else {
            out.push(cs[i]);
        }
    }
    assert(cs@.take(cs@.len() as int) =~= cs@);
    out
}

/// The address of a Google calendar's events.
pub open spec fn google_events_url(calendar_id: Seq<char>) -> Seq<char> {
    "https://www.googleapis.com/calendar/v3/calendars/"@ + slash_escaped(calendar_id) + "/events"@
}

pub fn google_events_endpoint(calendar_id: &str) -> (r: String)
    ensures
        r@ == google_events_url(calendar_id@),
{
    let mut u = chars_of("https://www.googleapis.com/calendar/v3/calendars/");
    let c = escape_slashes(calendar_id);
    extend(&mut u, c.as_slice());
    push_str(&mut u, "/events");
    proof {
        reveal_strlit("https://www.googleapis.com/calendar/v3/calendars/");
        reveal_strlit("/events");
    }
    string_from_chars(u.as_slice())
}


/// The address of one event of a Google calendar.
pub open spec fn google_event_url(calendar_id: Seq<char>, remote_id: Seq<char>) -> Seq<char> {
    google_events_url(calendar_id) + "/"@ + remote_id
}

pub fn google_event_endpoint(calendar_id: &str, remote_id: &str) -> (r: String)
    ensures
        r@ == google_event_url(calendar_id@, remote_id@),
{
    let base = google_events_endpoint(calendar_id);
    let mut u = chars_of(base.as_str());
    push_str(&mut u, "/");
    push_str(&mut u, remote_id);
    string_from_chars(u.as_slice())
}

/// The query of a Google Calendar sync between two instants: the window,
/// recurring events expanded, deleted ones left out, up to 500.
pub open spec fn google_sync_params(from: i64, to: i64) -> Seq<(Seq<char>, Seq<char>)> {
    seq![("timeMin"@, rfc3339_text(from)), ("timeMax"@, rfc3339_text(to)), ("singleEvents"@, "true"@),
        ("showDeleted"@, "false"@), ("maxResults"@, "500"@)]
}

pub open spec fn pairs_view(p: Seq<(String, String)>) -> Seq<(Seq<char>, Seq<char>)> {
    p.map_values(|x: (String, String)| (x.0@, x.1@))
}

pub fn google_sync_query(from: i64, to: i64) -> (r: Vec<(String, String)>)
    requires
        chrono_time(from),
        chrono_time(to),
    ensures
        pairs_view(r@) == google_sync_params(from, to),
{
    let mut q: Vec<(String, String)> = Vec::new();
    q.push(("timeMin".to_owned(), to_rfc3339(from)));
    q.push(("timeMax".to_owned(), to_rfc3339(to)));
    q.push(("singleEvents".to_owned(), "true".to_owned()));
    q.push(("showDeleted".to_owned(), "false".to_owned()));
    q.push(("maxResults".to_owned(), "500".to_owned()));
    assert(pairs_view(q@) =~= google_sync_params(from, to));
    q
}

pub open spec fn opt_json(o: Option<String>) -> JsonView {
    match o {
        Some(t) => JsonView::Str(t@),
        None => JsonView::Null,
    }
}

pub open spec fn email_entry(a: String) -> JsonView {
    JsonView::Object(seq![("email"@, JsonView::Str(a@))])
}

/// The body of a Google Calendar update of `e`.
pub open spec fn google_body(e: CalendarEvent) -> JsonView {
    JsonView::Object(seq![
        ("summary"@, JsonView::Str(e.title@)),
        ("description"@, opt_json(e.description)),
        ("location"@, opt_json(e.location)),
        ("start"@, JsonView::Object(seq![("dateTime"@, JsonView::Str(rfc3339_text(e.starts_at)))])),
        ("end"@, JsonView::Object(seq![("dateTime"@, JsonView::Str(rfc3339_text(e.ends_at)))])),
        ("recurrence"@, JsonView::Array(match e.recurrence_rule {
            Some(r) => seq![JsonView::Str(r@)],
            None => Seq::empty(),
        })),
        ("attendees"@, JsonView::Array(e.attendees@.map_values(|a: String| email_entry(a)))),
    ])
}

fn time_object(t: i64) -> (r: JsonValue)
    requires
        chrono_time(t),
    ensures
        jview(r) == JsonView::Object(seq![("dateTime"@, JsonView::Str(rfc3339_text(t)))]),
{
    let mut es: Vec<(String, JsonValue)> = Vec::new();
    let v = JsonValue::String(to_rfc3339(t));
    put(&mut es, "dateTime", v);
    proof {
        reveal_strlit("dateTime");
        assert(jentries(es@) =~= seq![("dateTime"@, JsonView::Str(rfc3339_text(t)))]);
    }
    JsonValue::Object(es)
}

pub fn google_event_body(event: &CalendarEvent) -> (r: JsonValue)
    requires
        chrono_time(event.starts_at),
        chrono_time(event.ends_at),
    ensures
        jview(r) == google_body(*event),
{
    let mut es: Vec<(String, JsonValue)> = Vec::new();
    put(&mut es, "summary", JsonValue::String(event.title.clone()));
    put(&mut es, "description", jtext_or_null(&event.description));
    put(&mut es, "location", jtext_or_null(&event.location));
    put(&mut es, "start", time_object(event.starts_at));
    put(&mut es, "end", time_object(event.ends_at));
    let mut rec: Vec<JsonValue> = Vec::new();
    match &event.recurrence_rule {
        Some(r) => push_item(&mut rec, JsonValue::String(r.clone())),
        None => {},
    }
    put(&mut es, "recurrence", JsonValue::Array(rec));
    let mut atts: Vec<JsonValue> = Vec::new();
    for i in 0..event.attendees.len()
        invariant
            jviews(atts@) == event.attendees@.take(i as int).map_values(|a: String| email_entry(a)),
    {
        let mut o: Vec<(String, JsonValue)> = Vec::new();
        put(&mut o, "email", JsonValue::String(event.attendees[i].clone()));
        proof {
            reveal_strlit("email");
            assert(jentries(o@) =~= seq![("email"@, JsonView::Str(event.attendees@[i as int]@))]);
        }
        push_item(&mut atts, JsonValue::Object(o));
        assert(event.attendees@.take(i + 1).map_values(|a: String| email_entry(a))
            =~= event.attendees@.take(i as int).map_values(|a: String| email_entry(a)).push(email_entry(event.attendees@[i as int])));
    }
    assert(event.attendees@.take(event.attendees@.len() as int) =~= event.attendees@);
    put(&mut es, "attendees", JsonValue::Array(atts));
    proof {
        reveal_strlit("summary");
        reveal_strlit("description");
        reveal_strlit("location");
        reveal_strlit("start");
        reveal_strlit("end");
        reveal_strlit("recurrence");
        reveal_strlit("attendees");
        assert(jviews(rec@) =~= match event.recurrence_rule {
            Some(r) => seq![JsonView::Str(r@)],
            None => Seq::<JsonView>::empty(),
        });
        assert(jentries(es@) =~= seq![
            ("summary"@, JsonView::Str(event.title@)),
            ("description"@, opt_json(event.description)),
            ("location"@, opt_json(event.location)),
            ("start"@, JsonView::Object(seq![("dateTime"@, JsonView::Str(rfc3339_text(event.starts_at)))])),
            ("end"@, JsonView::Object(seq![("dateTime"@, JsonView::Str(rfc3339_text(event.ends_at)))])),
            ("recurrence"@, JsonView::Array(match event.recurrence_rule {
                Some(r) => seq![JsonView::Str(r@)],
                None => Seq::empty(),
            })),
            ("attendees"@, JsonView::Array(event.attendees@.map_values(|a: String| email_entry(a)))),
        ]);
    }
    JsonValue::Object(es)
}


// ------------------------------------------------------------------ Microsoft Graph

#[derive(Debug, Clone)]
pub struct GraphLocation {
    pub display_name: Option<String>,
}

#[derive(Debug, Clone)]
pub struct GraphDateTime {
    pub date_time: Option<String>,
    pub time_zone: Option<String>,
}

#[derive(Debug, Clone)]
pub struct GraphEmailAddress {
    pub address: Option<String>,
}

#[derive(Debug, Clone)]
pub struct GraphAttendee {
    pub email_address: Option<GraphEmailAddress>,
}

#[derive(Debug, Clone)]
pub struct GraphOrganizer {
    pub email_address: Option<GraphEmailAddress>,
}

/// One event of a Microsoft Graph `calendarView` reply; its recurrence is
/// kept as the JSON text of the pattern.
#[derive(Debug, Clone)]
pub struct GraphCalendarEvent {
    pub id: Option<String>,
    pub subject: Option<String>,
    pub body_preview: Option<String>,
    pub location: Option<GraphLocation>,
    pub start: Option<GraphDateTime>,
    pub end: Option<GraphDateTime>,
    pub attendees: Option<Vec<GraphAttendee>>,
    pub organizer: Option<GraphOrganizer>,
    pub is_all_day: Option<bool>,
    pub last_modified: Option<String>,
    pub recurrence: Option<String>,
}

pub open spec fn grtime(d: Option<GraphDateTime>) -> Option<i64> {
    match d {
        Some(d) => graph_time(opt_text(d.date_time), opt_text(d.time_zone)),
        None => None,
    }
}

pub open spec fn graph_problem(g: GraphCalendarEvent) -> Option<Seq<char>> {
    if grtime(g.start).is_none() {
        Some("Graph event missing start"@)
    } else if grtime(g.end).is_none() {
        Some("Graph event missing end"@)
    } else {
        None
    }
}

pub open spec fn first_graph_problem(items: Seq<GraphCalendarEvent>) -> Option<Seq<char>>
    decreases items.len(),
{
    if items.len() == 0 {
        None
    } else {
        match graph_problem(items[0]) {
            Some(m) => Some(m),
            None => first_graph_problem(items.drop_first()),
        }
    }
}

pub open spec fn graph_address(a: Option<GraphEmailAddress>) -> Option<Seq<char>> {
    match a {
        Some(e) => opt_text(e.address),
        None => None,
    }
}

/// The addresses of the attendees that have one.
pub open spec fn graph_emails(atts: Seq<GraphAttendee>) -> Seq<Seq<char>>
    decreases atts.len(),
{
    if atts.len() == 0 {
        Seq::empty()
    } else {
        match graph_address(atts.last().email_address) {
            Some(e) => graph_emails(atts.drop_last()).push(e),
            None => graph_emails(atts.drop_last()),
        }
    }
}

/// `e` is the Graph event `g` of calendar `calendar_id`: its id (a fresh one
/// when it has none), subject ("Untitled event" when none), body preview as
/// description, location name, the start's time zone, times, whole-day
/// flag, recurrence text, attendees with an address, organizer, the default
/// reminder, and when it was last changed.
pub open spec fn graph_event_of(e: CalendarEvent, g: GraphCalendarEvent, account_id: u128, calendar_id: Seq<char>) -> bool {
    &&& e.account_id == account_id
    &&& e.calendar_id@ == calendar_id
    &&& (g.id matches Some(i) ==> e.remote_id@ == i@)
    &&& e.title@ == match g.subject {
        Some(s) => s@,
        None => "Untitled event"@,
    }
    &&& opt_text(e.description) == opt_text(g.body_preview)
    &&& opt_text(e.location) == match g.location {
        Some(l) => opt_text(l.display_name),
        None => None,
    }
    &&& opt_text(e.timezone) == match g.start {
        Some(s) => opt_text(s.time_zone),
        None => None,
    }
    &&& grtime(g.start) == Some(e.starts_at)
    &&& grtime(g.end) == Some(e.ends_at)
    &&& e.all_day == (g.is_all_day == Some(true))
    &&& opt_text(e.recurrence_rule) == opt_text(g.recurrence)
    &&& string_views(e.attendees@) == match g.attendees {
        Some(a) => graph_emails(a@),
        None => Seq::empty(),
    }
    &&& opt_text(e.organizer) == match g.organizer {
        Some(o) => graph_address(o.email_address),
        None => None,
    }
    &&& has_default_alarm(e)
    &&& e.rsvp_status == RsvpStatus::NeedsAction
    &&& updated_from(e.updated_at, g.last_modified)
}

fn address_of(a: &Option<GraphEmailAddress>) -> (r: Option<String>)
    ensures
        opt_text(r) == graph_address(*a),
{
    match a {
        Some(e) => opt_email(&e.address),
        None => None,
    }
}

fn graph_emails_of(atts: &Option<Vec<GraphAttendee>>) -> (r: Vec<String>)
    ensures
        string_views(r@) == match atts {
            Some(a) => graph_emails(a@),
            None => Seq::empty(),
        },
{
    let mut out: Vec<String> = Vec::new();
    match atts {
        Some(a) => {
            for i in 0..a.len()
                invariant
                    string_views(out@) == graph_emails(a@.take(i as int)),
            {
                assert(a@.take(i + 1).drop_last() =~= a@.take(i as int));
                assert(a@.take(i + 1).last() == a@[i as int]);
                let ghost before = out@;
                match address_of(&a[i].email_address) {
                    Some(e) => {
                        out.push(e);
                        assert(string_views(out@) =~= string_views(before).push(e@));
                    },
                    None => {},
                }
            }
            assert(a@.take(a@.len() as int) =~= a@);
        },
        None => {
            assert(string_views(out@) =~= Seq::<Seq<char>>::empty());
        },
    }
    out
}

fn graph_time_of(d: &Option<GraphDateTime>) -> (r: Option<i64>)
    ensures
        r == grtime(*d),
{
    match d {
        Some(d) => parse_graph_datetime(&d.date_time, &d.time_zone),
        None => None,
    }
}

/// The events of a Microsoft Graph calendar view for the calendar
/// `calendar_id`. The first event without a readable start or end stops the
/// sync with a parse error.
pub fn graph_events(account_id: u128, calendar_id: &str, items: Vec<GraphCalendarEvent>) -> (r: Result<Vec<CalendarEvent>, CalendarError>)
    ensures
        match r {
            Ok(evs) => first_graph_problem(items@).is_none()
                && evs@.len() == items@.len()
                && forall|i: int| 0 <= i < evs@.len() ==> graph_event_of(#[trigger] evs@[i], items@[i], account_id, calendar_id@),
            Err(e) => first_graph_problem(items@) matches Some(m) && e@ == CalendarErrorView::Parse(m),
        },
{
    let mut out: Vec<CalendarEvent> = Vec::new();
    assert(items@.skip(0) =~= items@);
    for i in 0..items.len()
        invariant
            first_graph_problem(items@) == first_graph_problem(items@.skip(i as int)),
            out@.len() == i,
            forall|j: int| 0 <= j < i ==> graph_event_of(#[trigger] out@[j], items@[j], account_id, calendar_id@),
    {
        let g = &items[i];
        proof {
            assert(items@.skip(i as int)[0] == items@[i as int]);
            assert(items@.skip(i as int).drop_first() =~= items@.skip(i + 1));
            reveal_strlit("Graph event missing start");
            reveal_strlit("Graph event missing end");
            reveal_strlit("Untitled event");
        }
        let starts_at = match graph_time_of(&g.start) {
            Some(t) => t,
            None => return Err(CalendarError::Parse("Graph event missing start".to_owned())),
        };
        let ends_at = match graph_time_of(&g.end) {
            Some(t) => t,
            None => return Err(CalendarError::Parse("Graph event missing end".to_owned())),
        };
        let remote_id = match &g.id {
            Some(id) => id.clone(),
            None => uuid_to_string(new_id()),
        };
        let title = match &g.subject {
            Some(s) => s.clone(),
            None => "Untitled event".to_owned(),
        };
        let location = match &g.location {
            Some(l) => opt_email(&l.display_name),
            None => None,
        };
        let timezone = match &g.start {
            Some(s) => opt_email(&s.time_zone),
            None => None,
        };
        let organizer = match &g.organizer {
            Some(o) => address_of(&o.email_address),
            None => None,
        };
        let all_day = match g.is_all_day {
            Some(b) => b,
            None => false,
        };
        let event = CalendarEvent {
            id: new_id(),
            account_id,
            calendar_id: calendar_id.to_owned(),
            remote_id,
            title,
            description: opt_email(&g.body_preview),
            location,
            timezone,
            starts_at,
            ends_at,
            all_day,
            recurrence_rule: opt_email(&g.recurrence),
            attendees: graph_emails_of(&g.attendees),
            organizer,
            alarms: default_alarms(),
            rsvp_status: RsvpStatus::NeedsAction,
            updated_at: updated_at_of(&g.last_modified),
        };
        out.push(event);
    }
    Ok(out)
}

/// The address of a Graph calendar's view between two instants.
pub open spec fn graph_view_url(calendar_id: Seq<char>) -> Seq<char> {
    "https://graph.microsoft.com/v1.0/me/calendars/"@ + calendar_id + "/calendarView"@
}

pub fn graph_calendar_view_endpoint(calendar_id: &str) -> (r: String)
    ensures
        r@ == graph_view_url(calendar_id@),
{
    let mut u = chars_of("https://graph.microsoft.com/v1.0/me/calendars/");
    push_str(&mut u, calendar_id);
    push_str(&mut u, "/calendarView");
    proof {
        reveal_strlit("https://graph.microsoft.com/v1.0/me/calendars/");
        reveal_strlit("/calendarView");
    }
    string_from_chars(u.as_slice())
}

/// The query of a Graph calendar view between two instants.
pub open spec fn graph_sync_params(from: i64, to: i64) -> Seq<(Seq<char>, Seq<char>)> {
    seq![("startDateTime"@, rfc3339_text(from)), ("endDateTime"@, rfc3339_text(to))]
}

pub fn graph_sync_query(from: i64, to: i64) -> (r: Vec<(String, String)>)
    requires
        chrono_time(from),
        chrono_time(to),
    ensures
        pairs_view(r@) == graph_sync_params(from, to),
{
    let mut q: Vec<(String, String)> = Vec::new();
    q.push(("startDateTime".to_owned(), to_rfc3339(from)));
    q.push(("endDateTime".to_owned(), to_rfc3339(to)));
    assert(pairs_view(q@) =~= graph_sync_params(from, to));
    q
}

/// Where an event is written to Graph: a new event is created in its
/// calendar, an existing one is changed in place.
pub open spec fn graph_event_url(calendar_id: Seq<char>, remote_id: Seq<char>) -> Seq<char> {
    if remote_id.len() == 0 {
        "https://graph.microsoft.com/v1.0/me/calendars/"@ + calendar_id + "/events"@
    } else {
        "https://graph.microsoft.com/v1.0/me/events/"@ + remote_id
    }
}

pub fn graph_event_endpoint(calendar_id: &str, remote_id: &str) -> (r: String)
    ensures
        r@ == graph_event_url(calendar_id@, remote_id@),
{
    let mut u: Vec<char>;
    if remote_id.is_empty() {
        u = chars_of("https://graph.microsoft.com/v1.0/me/calendars/");
        push_str(&mut u, calendar_id);
        push_str(&mut u, "/events");
    } else {
        u = chars_of("https://graph.microsoft.com/v1.0/me/events/");
        push_str(&mut u, remote_id);
    }
    string_from_chars(u.as_slice())
}

pub open spec fn graph_time_entry(t: i64, zone: Option<String>) -> JsonView {
    JsonView::Object(seq![
        ("dateTime"@, JsonView::Str(format_secs(t, "%Y-%m-%dT%H:%M:%S"@))),
        ("timeZone"@, JsonView::Str(match zone {
            Some(z) => z@,
            None => "UTC"@,
        })),
    ])
}

pub open spec fn graph_attendee_entry(a: String) -> JsonView {
    JsonView::Object(seq![
        ("emailAddress"@, JsonView::Object(seq![("address"@, JsonView::Str(a@)), ("name"@, JsonView::Str(a@))])),
        ("type"@, JsonView::Str("required"@)),
    ])
}

pub open spec fn text_or_empty(o: Option<String>) -> Seq<char> {
    match o {
        Some(t) => t@,
        None => Seq::empty(),
    }
}

/// The body of a Graph write of `e`: subject, plain-text body, start and
/// end as wall-clock times in the event's zone (UTC when none), location
/// name, required attendees, whole-day flag.
pub open spec fn graph_body(e: CalendarEvent) -> JsonView {
    JsonView::Object(seq![
        ("subject"@, JsonView::Str(e.title@)),
        ("body"@, JsonView::Object(seq![("contentType"@, JsonView::Str("text"@)), ("content"@, JsonView::Str(text_or_empty(e.description)))])),
        ("start"@, graph_time_entry(e.starts_at, e.timezone)),
        ("end"@, graph_time_entry(e.ends_at, e.timezone)),
        ("location"@, JsonView::Object(seq![("displayName"@, JsonView::Str(text_or_empty(e.location)))])),
        ("attendees"@, JsonView::Array(e.attendees@.map_values(|a: String| graph_attendee_entry(a)))),
        ("isAllDay"@, JsonView::Bool(e.all_day)),
    ])
}

fn text_value(o: &Option<String>) -> (r: JsonValue)
    ensures
        jview(r) == JsonView::Str(text_or_empty(*o)),
{
    match o {
        Some(t) => JsonValue::String(t.clone()),
        None => JsonValue::String(String::new()),
    }
}

fn graph_time_value(t: i64, zone: &Option<String>) -> (r: JsonValue)
    requires
        formattable(t),
    ensures
        jview(r) == graph_time_entry(t, *zone),
{
    let mut es: Vec<(String, JsonValue)> = Vec::new();
    put(&mut es, "dateTime", JsonValue::String(format_time(t, "%Y-%m-%dT%H:%M:%S")));
    let z = match zone {
        Some(z) => z.clone(),
        None => "UTC".to_owned(),
    };
    put(&mut es, "timeZone", JsonValue::String(z));
    proof {
        reveal_strlit("dateTime");
        reveal_strlit("timeZone");
        reveal_strlit("UTC");
        assert(jentries(es@) =~= seq![
            ("dateTime"@, JsonView::Str(format_secs(t, "%Y-%m-%dT%H:%M:%S"@))),
            ("timeZone"@, JsonView::Str(match *zone {
                Some(z) => z@,
                None => "UTC"@,
            })),
        ]);
    }
    JsonValue::Object(es)
}

pub fn graph_event_body(event: &CalendarEvent) -> (r: JsonValue)
    requires
        formattable(event.starts_at),
        formattable(event.ends_at),
    ensures
        jview(r) == graph_body(*event),
{
    let mut es: Vec<(String, JsonValue)> = Vec::new();
    put(&mut es, "subject", JsonValue::String(event.title.clone()));
    let mut body: Vec<(String, JsonValue)> = Vec::new();
    put(&mut body, "contentType", jtext("text"));
    put(&mut body, "content", text_value(&event.description));
    put(&mut es, "body", JsonValue::Object(body));
    put(&mut es, "start", graph_time_value(event.starts_at, &event.timezone));
    put(&mut es, "end", graph_time_value(event.ends_at, &event.timezone));
    let mut loc: Vec<(String, JsonValue)> = Vec::new();
    put(&mut loc, "displayName", text_value(&event.location));
    put(&mut es, "location", JsonValue::Object(loc));
    let mut atts: Vec<JsonValue> = Vec::new();
    for i in 0..event.attendees.len()
        invariant
            jviews(atts@) == event.attendees@.take(i as int).map_values(|a: String| graph_attendee_entry(a)),
    {
        let mut addr: Vec<(String, JsonValue)> = Vec::new();
        put(&mut addr, "address", JsonValue::String(event.attendees[i].clone()));
        put(&mut addr, "name", JsonValue::String(event.attendees[i].clone()));
        let mut o: Vec<(String, JsonValue)> = Vec::new();
        put(&mut o, "emailAddress", JsonValue::Object(addr));
        put(&mut o, "type", jtext("required"));
        proof {
            reveal_strlit("address");
            reveal_strlit("name");
            reveal_strlit("emailAddress");
            reveal_strlit("type");
            reveal_strlit("required");
            let a = event.attendees@[i as int];
            assert(jentries(addr@) =~= seq![("address"@, JsonView::Str(a@)), ("name"@, JsonView::Str(a@))]);
            assert(jentries(o@) =~= seq![
                ("emailAddress"@, JsonView::Object(seq![("address"@, JsonView::Str(a@)), ("name"@, JsonView::Str(a@))])),
                ("type"@, JsonView::Str("required"@)),
            ]);
        }
        push_item(&mut atts, JsonValue::Object(o));
        assert(event.attendees@.take(i + 1).map_values(|a: String| graph_attendee_entry(a))
            =~= event.attendees@.take(i as int).map_values(|a: String| graph_attendee_entry(a)).push(graph_attendee_entry(event.attendees@[i as int])));
    }
    assert(event.attendees@.take(event.attendees@.len() as int) =~= event.attendees@);
    put(&mut es, "attendees", JsonValue::Array(atts));
    put(&mut es, "isAllDay", JsonValue::Bool(event.all_day));
    proof {
        reveal_strlit("subject");
        reveal_strlit("body");
        reveal_strlit("contentType");
        reveal_strlit("text");
        reveal_strlit("content");
        reveal_strlit("start");
        reveal_strlit("end");
        reveal_strlit("location");
        reveal_strlit("displayName");
        reveal_strlit("attendees");
        reveal_strlit("isAllDay");
        assert(jentries(body@) =~= seq![("contentType"@, JsonView::Str("text"@)), ("content"@, JsonView::Str(text_or_empty(event.description)))]);
        assert(jentries(loc@) =~= seq![("displayName"@, JsonView::Str(text_or_empty(event.location)))]);
        assert(jentries(es@) =~= seq![
            ("subject"@, JsonView::Str(event.title@)),
            ("body"@, JsonView::Object(seq![("contentType"@, JsonView::Str("text"@)), ("content"@, JsonView::Str(text_or_empty(event.description)))])),
            ("start"@, graph_time_entry(event.starts_at, event.timezone)),
            ("end"@, graph_time_entry(event.ends_at, event.timezone)),
            ("location"@, JsonView::Object(seq![("displayName"@, JsonView::Str(text_or_empty(event.location)))])),
            ("attendees"@, JsonView::Array(event.attendees@.map_values(|a: String| graph_attendee_entry(a)))),
            ("isAllDay"@, JsonView::Bool(event.all_day)),
        ]);
    }
    JsonValue::Object(es)
}

}
