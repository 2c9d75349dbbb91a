use cove_mail::calendar::{
    detect_conflicts, import_ics, is_all_day, parse_google_datetime, parse_graph_datetime, parse_ical_datetime,
    parse_ical_like, sort_by_start, CalendarError,
};
use cove_mail::ical::{
    caldav_calendar_data, escape_ical_text, export_ics_with, parse_caldav_calendar_data, parse_ical_events,
    render_event_ics_with, render_single_event_ics, unescape_ical_text, unfold_ical_lines,
};
use cove_mail::model::{CalendarEvent, ReminderTask, RsvpStatus, TaskPriority, TaskStatus};
use cove_mail::tasks::{
    graph_importance_to_priority, graph_status_to_task_status, ical_priority_to_task_priority,
    ical_status_to_task_status, infer_priority, parse_ical_vtodo_entries_at, priority_to_graph_importance,
    render_single_vtodo_ics, render_vtodo_ics_with, task_priority_to_ical_priority, task_status_to_graph_status,
    task_status_to_ical_status,
};

const ICS: &str = "BEGIN:VCALENDAR\r\n\
VERSION:2.0\r\n\
BEGIN:VEVENT\r\n\
UID:ev-1\r\n\
SUMMARY:Team sync\r\n\
DTSTART:20231114T221320Z\r\n\
DTEND:20231114T231320Z\r\n\
LOCATION:Room 1\r\n\
END:VEVENT\r\n\
END:VCALENDAR\r\n";

fn chars(s: &str) -> Vec<char> {
    s.chars().collect()
}

fn text(v: &[char]) -> String {
    v.iter().collect()
}

fn event(id: u128, start: i64, end: i64) -> CalendarEvent {
    CalendarEvent {
        id,
        account_id: 1,
        calendar_id: "primary".to_string(),
        remote_id: format!("r{}", id),
        title: format!("Event {}", id),
        description: None,
        location: None,
        timezone: None,
        starts_at: start,
        ends_at: end,
        all_day: false,
        recurrence_rule: None,
        attendees: vec![],
        organizer: None,
        alarms: vec![],
        rsvp_status: RsvpStatus::NeedsAction,
        updated_at: 0,
    }
}

#[test]
fn imported_events_end_after_they_start() {
    let ics = "BEGIN:VCALENDAR\r\nBEGIN:VEVENT\r\nUID:a\r\nDTSTART:20231114T221320Z\r\nDTEND:20231114T201320Z\r\nEND:VEVENT\r\n\
BEGIN:VEVENT\r\nUID:b\r\nDTSTART;VALUE=DATE:20231114\r\nEND:VEVENT\r\n\
BEGIN:VEVENT\r\nUID:c\r\nDTSTART:20231114T221320Z\r\nEND:VEVENT\r\nEND:VCALENDAR\r\n";
    let events = parse_ical_events(1, "c", ics);
    assert_eq!(events.len(), 3);
    assert_eq!(events[0].ends_at - events[0].starts_at, 3600);
    assert!(events[1].all_day);
    assert_eq!(events[1].ends_at - events[1].starts_at, 86400);
    assert_eq!(events[2].ends_at - events[2].starts_at, 3600);
    for e in &events {
        assert!(e.starts_at < e.ends_at);
        assert_eq!(e.alarms.len(), 1);
        assert_eq!(e.alarms[0].minutes_before, 10);
    }
}

#[test]
fn written_event_reads_back() {
    let mut e = event(7, 1_700_000_000, 1_700_003_600);
    e.title = "Plan; review, then \\ ship\nsoon".to_string();
    e.description = Some("Line one\nline two".to_string());
    e.location = Some("Room 4, floor 2".to_string());
    e.recurrence_rule = Some("FREQ=WEEKLY;COUNT=3".to_string());
    e.organizer = Some("boss@x.com".to_string());
    e.attendees = vec!["ann@x.com".to_string(), "bob@x.com".to_string()];
    let ics = render_single_event_ics(&e);
    let back = parse_ical_events(9, "other", &ics);
    assert_eq!(back.len(), 1);
    let r = &back[0];
    assert_eq!(r.remote_id, e.remote_id);
    assert_eq!(r.title, e.title);
    assert_eq!(r.description, e.description);
    assert_eq!(r.location, e.location);
    assert_eq!((r.starts_at, r.ends_at, r.all_day), (e.starts_at, e.ends_at, false));
    assert_eq!(r.recurrence_rule, e.recurrence_rule);
    assert_eq!(r.organizer, e.organizer);
    assert_eq!(r.attendees, e.attendees);
}

#[test]
fn all_day_values_have_eight_digits() {
    assert!(is_all_day("20240101"));
    assert!(!is_all_day("20240101T000000Z"));
    assert!(!is_all_day("2024010x"));
}

#[test]
fn ical_dates() {
    assert_eq!(parse_ical_datetime("20231114T221320Z"), Ok(1_700_000_000));
    assert_eq!(parse_ical_datetime("2023-11-14T22:13:20Z"), Ok(1_700_000_000));
    assert_eq!(parse_ical_datetime("20231114"), Ok(1_699_920_000));
    assert!(matches!(parse_ical_datetime("soon"), Err(CalendarError::Parse(_))));
    assert_eq!(parse_ical_like("20231114T221320Z"), Some(1_700_000_000));
    assert_eq!(parse_ical_like("20231114"), None);
}

#[test]
fn provider_dates() {
    assert_eq!(parse_google_datetime(&Some("2023-11-14T22:13:20Z".to_string()), &None), Some(1_700_000_000));
    assert_eq!(parse_google_datetime(&None, &Some("2023-11-14".to_string())), Some(1_699_920_000));
    assert_eq!(parse_google_datetime(&None, &None), None);
    assert_eq!(
        parse_graph_datetime(&Some("2023-11-14T22:13:20.0000000".to_string()), &Some("UTC".to_string())),
        Some(1_700_000_000)
    );
    assert_eq!(
        parse_graph_datetime(&Some("2023-11-14T23:13:20".to_string()), &Some("Europe/Berlin".to_string())),
        Some(1_700_000_000)
    );
    assert_eq!(
        parse_graph_datetime(&Some("2023-11-14T22:13:20".to_string()), &Some("Nowhere/Else".to_string())),
        Some(1_700_000_000)
    );
}

#[test]
fn import_reads_an_event() {
    let (events, err) = import_ics(3, "work", ICS);
    assert!(err.is_none());
    assert_eq!(events.len(), 1);
    let e = &events[0];
    assert_eq!(e.account_id, 3);
    assert_eq!(e.calendar_id, "work");
    assert_eq!(e.remote_id, "ev-1");
    assert_eq!(e.title, "Team sync");
    assert_eq!(e.starts_at, 1_700_000_000);
    assert_eq!(e.ends_at, 1_700_003_600);
    assert_eq!(e.location.as_deref(), Some("Room 1"));
    assert!(!e.all_day);
}

#[test]
fn import_stops_at_an_event_without_dates() {
    let ics = "BEGIN:VCALENDAR\r\nBEGIN:VEVENT\r\nUID:x\r\nSUMMARY:No dates\r\nEND:VEVENT\r\nEND:VCALENDAR\r\n";
    let (events, err) = import_ics(3, "work", ics);
    assert!(events.is_empty());
    assert!(err.is_some());
}

#[test]
fn own_reader_reads_the_same_event() {
    let events = parse_ical_events(3, "work", ICS);
    assert_eq!(events.len(), 1);
    assert_eq!(events[0].title, "Team sync");
    assert_eq!(events[0].starts_at, 1_700_000_000);
    assert_eq!(events[0].ends_at, 1_700_003_600);
    assert_eq!(events[0].remote_id, "ev-1");
}

#[test]
fn caldav_blocks_are_unescaped() {
    let body = "<d:multistatus><cal:calendar-data>BEGIN:VCALENDAR&#13;\nA&amp;B</cal:calendar-data>\
<C:calendar-data xmlns:C=\"x\">second</C:calendar-data></d:multistatus>";
    let blocks = caldav_calendar_data(body);
    assert_eq!(blocks.len(), 2);
    assert!(blocks[0].ends_with("A&B"));
    assert_eq!(blocks[1], "second");
    let wrapped = format!("<cal:calendar-data>{}</cal:calendar-data>", ICS.replace('&', "&amp;"));
    let events = parse_caldav_calendar_data(1, "c", &wrapped);
    assert_eq!(events.len(), 1);
}

#[test]
fn escaping_round_trips() {
    let original = chars("a,b;c\\d\ne");
    let escaped = escape_ical_text(&original);
    assert_eq!(text(&escaped), "a\\,b\\;c\\\\d\\ne");
    assert_eq!(unescape_ical_text(&escaped), original);
}

#[test]
fn folded_lines_are_joined() {
    let lines = unfold_ical_lines(&chars("SUMMARY:Long\r\n  title\r\nUID:1\r\n"));
    let texts: Vec<String> = lines.iter().map(|l| text(l)).collect();
    assert_eq!(texts, vec!["SUMMARY:Longtitle".to_string(), "UID:1".to_string()]);
}

#[test]
fn rendered_event_document() {
    let mut e = event(1, 1_700_000_000, 1_700_000_000);
    e.title = "Plan, review".to_string();
    e.attendees = vec!["a@x.com".to_string()];
    let ics = render_event_ics_with(&e, "uid-1", "20231114T000000Z");
    assert_eq!(
        ics,
        "BEGIN:VCALENDAR\r\nVERSION:2.0\r\nPRODID:-//Cove Mail//EN\r\nBEGIN:VEVENT\r\nUID:uid-1\r\n\
DTSTAMP:20231114T000000Z\r\nDTSTART:20231114T221320Z\r\nDTEND:20231114T231320Z\r\n\
SUMMARY:Plan\\, review\r\nATTENDEE:mailto:a@x.com\r\nEND:VEVENT\r\nEND:VCALENDAR\r\n"
    );
    let mut d = event(2, 1_699_920_000, 0);
    d.all_day = true;
    let ics = render_event_ics_with(&d, "u", "s");
    assert!(ics.contains("DTSTART;VALUE=DATE:20231114\r\nDTEND;VALUE=DATE:20231115\r\n"));
}

#[test]
fn export_wraps_every_event() {
    let events = vec![event(1, 1_700_000_000, 1_700_003_600), event(2, 1_700_010_000, 1_700_013_600)];
    let stamps = vec!["S1".to_string(), "S2".to_string()];
    let out = export_ics_with(&events, &stamps);
    assert!(out.starts_with("BEGIN:VCALENDAR\r\n"));
    assert!(out.ends_with("END:VCALENDAR\r\n"));
    assert_eq!(out.matches("BEGIN:VEVENT").count(), 2);
    assert!(out.contains("DTSTAMP:S2"));
}

#[test]
fn events_sort_stably_by_start() {
    let sorted = sort_by_start(vec![event(1, 30, 40), event(2, 10, 20), event(3, 30, 35), event(4, 0, 5)]);
    let ids: Vec<u128> = sorted.iter().map(|e| e.id).collect();
    assert_eq!(ids, vec![4, 2, 1, 3]);
}

#[test]
fn overlapping_events_conflict() {
    let pairs = detect_conflicts(vec![event(1, 0, 100), event(2, 50, 150), event(3, 100, 200), event(4, 300, 400)]);
    let ids: Vec<(u128, u128)> = pairs.iter().map(|(a, b)| (a.id, b.id)).collect();
    assert_eq!(ids, vec![(1, 2), (2, 3)]);
    assert!(detect_conflicts(vec![]).is_empty());
}

#[test]
fn task_field_mappings() {
    assert_eq!(ical_status_to_task_status(&chars("completed")), TaskStatus::Completed);
    assert_eq!(ical_status_to_task_status(&chars("IN-PROCESS")), TaskStatus::InProgress);
    assert_eq!(ical_status_to_task_status(&chars("?")), TaskStatus::NotStarted);
    assert_eq!(task_status_to_ical_status(TaskStatus::Canceled), "CANCELLED");
    assert_eq!(ical_priority_to_task_priority(&chars("1")), TaskPriority::Critical);
    assert_eq!(ical_priority_to_task_priority(&chars("3")), TaskPriority::High);
    assert_eq!(ical_priority_to_task_priority(&chars("5")), TaskPriority::Normal);
    assert_eq!(ical_priority_to_task_priority(&chars("8")), TaskPriority::Low);
    assert_eq!(ical_priority_to_task_priority(&chars("x")), TaskPriority::Normal);
    assert_eq!(task_priority_to_ical_priority(TaskPriority::Low), 7);
    assert_eq!(graph_importance_to_priority(Some(&chars("high"))), TaskPriority::High);
    assert_eq!(graph_importance_to_priority(None), TaskPriority::Normal);
    assert_eq!(priority_to_graph_importance(TaskPriority::Critical), "high");
    assert_eq!(graph_status_to_task_status(Some(&chars("completed"))), TaskStatus::Completed);
    assert_eq!(task_status_to_graph_status(TaskStatus::InProgress), "inProgress");
}

#[test]
fn priority_from_words() {
    assert_eq!(infer_priority(&chars("URGENT: call"), &chars("")), TaskPriority::High);
    assert_eq!(infer_priority(&chars("p1 outage"), &chars("")), TaskPriority::Critical);
    assert_eq!(infer_priority(&chars("tidy"), &chars("low effort")), TaskPriority::Low);
    assert_eq!(infer_priority(&chars("tidy"), &chars("")), TaskPriority::Normal);
}

#[test]
fn vtodo_entries_are_read() {
    let ics = "BEGIN:VCALENDAR\r\nBEGIN:VTODO\r\nUID:t-1\r\nSUMMARY:File taxes\r\nDUE:20231114T221320Z\r\n\
STATUS:IN-PROCESS\r\nPRIORITY:2\r\nEND:VTODO\r\nBEGIN:VTODO\r\nUID:t-2\r\nEND:VTODO\r\nEND:VCALENDAR\r\n";
    let tasks = parse_ical_vtodo_entries_at(1, "list", ics, 1_700_000_500);
    assert_eq!(tasks.len(), 2);
    assert_eq!(tasks[0].title, "File taxes");
    assert_eq!(tasks[0].remote_id.as_deref(), Some("t-1"));
    assert_eq!(tasks[0].due_at, Some(1_700_000_000));
    assert_eq!(tasks[0].status, TaskStatus::InProgress);
    assert_eq!(tasks[0].priority, TaskPriority::High);
    assert_eq!(tasks[1].title, "Untitled task");
    assert_eq!(tasks[1].created_at, 1_700_000_500);
}

#[test]
fn written_task_reads_back() {
    let t = ReminderTask {
        id: 1,
        account_id: 1,
        list_id: "l".to_string(),
        remote_id: None,
        title: "Pay rent, then \\ call; back".to_string(),
        notes: Some("two\nlines".to_string()),
        due_at: Some(1_700_000_000),
        completed_at: Some(1_700_100_000),
        priority: TaskPriority::Critical,
        status: TaskStatus::Canceled,
        repeat_rule: Some("FREQ=MONTHLY;COUNT=2".to_string()),
        parent_id: Some(0x1234_5678_9abc_def0_1234_5678_9abc_def0),
        snoozed_until: None,
        created_at: 0,
        updated_at: 0,
    };
    let ics = render_single_vtodo_ics(&t, "task-9");
    assert!(ics.contains("\r\nRELATED-TO:12345678-9abc-def0-1234-56789abcdef0\r\n"));
    let back = parse_ical_vtodo_entries_at(4, "home", &ics, 1_700_000_000);
    assert_eq!(back.len(), 1);
    let r = &back[0];
    assert_eq!(r.remote_id.as_deref(), Some("task-9"));
    assert_eq!(r.title, t.title);
    assert_eq!(r.notes, t.notes);
    assert_eq!((r.due_at, r.completed_at), (t.due_at, t.completed_at));
    assert_eq!((r.priority, r.status), (t.priority, t.status));
    assert_eq!(r.repeat_rule, t.repeat_rule);
    assert_eq!(r.parent_id, t.parent_id);
}

#[test]
fn rendered_task_document() {
    let t = ReminderTask {
        id: 1,
        account_id: 1,
        list_id: "l".to_string(),
        remote_id: None,
        title: "Pay rent".to_string(),
        notes: Some("by card".to_string()),
        due_at: Some(1_700_000_000),
        completed_at: None,
        priority: TaskPriority::High,
        status: TaskStatus::NotStarted,
        repeat_rule: Some("FREQ=MONTHLY".to_string()),
        parent_id: None,
        snoozed_until: None,
        created_at: 0,
        updated_at: 0,
    };
    assert_eq!(
        render_vtodo_ics_with(&t, "t-9", "STAMP"),
        "BEGIN:VCALENDAR\r\nVERSION:2.0\r\nPRODID:-//AegisInbox//EN\r\nBEGIN:VTODO\r\nUID:t-9\r\nDTSTAMP:STAMP\r\n\
SUMMARY:Pay rent\r\nDESCRIPTION:by card\r\nDUE:20231114T221320Z\r\nSTATUS:NEEDS-ACTION\r\nPRIORITY:3\r\n\
RRULE:FREQ=MONTHLY\r\nEND:VTODO\r\nEND:VCALENDAR\r\n"
    );
}
