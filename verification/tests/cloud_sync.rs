use cove_mail::calendar::CalendarError;
use cove_mail::cloud_calendar::{
    google_event_body, google_event_endpoint, google_events, google_events_endpoint, google_sync_query,
    graph_calendar_view_endpoint, graph_event_body, graph_event_endpoint, graph_events, graph_sync_query,
    GoogleCalendarAttendee, GoogleCalendarDateTime, GoogleCalendarEvent, GraphCalendarEvent, GraphDateTime,
    GraphLocation,
};
use cove_mail::cloud_tasks::{
    caldav_object_endpoint, google_task_json, google_tasks, google_tasks_endpoint, google_tasks_query,
    todo_task_body, todo_tasks, todo_tasks_endpoint, GoogleTaskItem, GraphDateTimeTimeZone, GraphTaskBody,
    GraphTodoTask,
};
use cove_mail::json::{JsonNumber, JsonValue};
use cove_mail::model::{CalendarEvent, ReminderTask, RsvpStatus, TaskPriority, TaskStatus};

fn write(v: &JsonValue, out: &mut String) {
    match v {
        JsonValue::Null => out.push_str("null"),
        JsonValue::Bool(b) => out.push_str(if *b { "true" } else { "false" }),
        JsonValue::Number(JsonNumber::PosInt(n)) => out.push_str(&n.to_string()),
        JsonValue::Number(JsonNumber::NegInt(n)) => out.push_str(&n.to_string()),
        JsonValue::Number(JsonNumber::Other(t)) => out.push_str(t),
        JsonValue::String(t) => {
            out.push('"');
            out.push_str(t);
            out.push('"');
        }
        JsonValue::Array(items) => {
            out.push('[');
            for (i, item) in items.iter().enumerate() {
                if i > 0 {
                    out.push(',');
                }
                write(item, out);
            }
            out.push(']');
        }
        JsonValue::Object(es) => {
            out.push('{');
            for (i, (k, item)) in es.iter().enumerate() {
                if i > 0 {
                    out.push(',');
                }
                out.push('"');
                out.push_str(k);
                out.push_str("\":");
                write(item, out);
            }
            out.push('}');
        }
    }
}

fn text(v: &JsonValue) -> String {
    let mut out = String::new();
    write(v, &mut out);
    out
}

fn some(t: &str) -> Option<String> {
    Some(t.to_string())
}

fn gtime(date_time: Option<&str>, date: Option<&str>) -> Option<GoogleCalendarDateTime> {
    Some(GoogleCalendarDateTime {
        date_time: date_time.map(|t| t.to_string()),
        date: date.map(|t| t.to_string()),
        time_zone: Some("Europe/Paris".to_string()),
    })
}

fn google(id: &str, status: Option<&str>) -> GoogleCalendarEvent {
    GoogleCalendarEvent {
        id: some(id),
        summary: None,
        description: some("d"),
        location: None,
        start: gtime(Some("2023-11-14T22:13:20Z"), None),
        end: gtime(Some("2023-11-14T23:13:20Z"), None),
        recurrence: Some(vec!["RRULE:FREQ=DAILY".to_string(), "EXDATE:x".to_string()]),
        attendees: Some(vec![GoogleCalendarAttendee { email: some("a@x.com") }, GoogleCalendarAttendee { email: None }]),
        organizer: None,
        updated: some("2023-11-14T22:13:20Z"),
        status: status.map(|s| s.to_string()),
    }
}

fn event() -> CalendarEvent {
    CalendarEvent {
        id: 1,
        account_id: 1,
        calendar_id: "primary".to_string(),
        remote_id: "r1".to_string(),
        title: "Sync".to_string(),
        description: None,
        location: some("Room"),
        timezone: None,
        starts_at: 1_700_000_000,
        ends_at: 1_700_003_600,
        all_day: false,
        recurrence_rule: None,
        attendees: vec!["a@x.com".to_string()],
        organizer: None,
        alarms: vec![],
        rsvp_status: RsvpStatus::Accepted,
        updated_at: 0,
    }
}

fn task() -> ReminderTask {
    ReminderTask {
        id: 1,
        account_id: 1,
        list_id: "l".to_string(),
        remote_id: None,
        title: "Pay rent".to_string(),
        notes: None,
        due_at: Some(1_700_000_000),
        completed_at: None,
        priority: TaskPriority::Low,
        status: TaskStatus::Completed,
        repeat_rule: None,
        parent_id: None,
        snoozed_until: None,
        created_at: 0,
        updated_at: 0,
    }
}

#[test]
fn google_events_skip_cancelled_ones() {
    let events = google_events(2, "primary", vec![google("g1", None), google("g2", Some("cancelled"))]).expect("read");
    assert_eq!(events.len(), 1);
    let e = &events[0];
    assert_eq!(e.remote_id, "g1");
    assert_eq!(e.title, "Untitled event");
    assert_eq!(e.starts_at, 1_700_000_000);
    assert_eq!(e.ends_at, 1_700_003_600);
    assert_eq!(e.timezone.as_deref(), Some("Europe/Paris"));
    assert_eq!(e.recurrence_rule.as_deref(), Some("RRULE:FREQ=DAILY"));
    assert_eq!(e.attendees, vec!["a@x.com".to_string()]);
    assert_eq!(e.updated_at, 1_700_000_000);
    assert!(!e.all_day);
    assert_eq!(e.alarms.len(), 1);
}

#[test]
fn google_events_need_start_and_end() {
    let mut g = google("g1", None);
    g.start = None;
    assert_eq!(
        google_events(2, "primary", vec![g]).err(),
        Some(CalendarError::Parse("Google event missing start time".to_string()))
    );
    let mut g = google("g1", None);
    g.end = gtime(None, None);
    assert_eq!(
        google_events(2, "primary", vec![g]).err(),
        Some(CalendarError::Parse("Google event missing end time".to_string()))
    );
    let mut whole = google("g3", None);
    whole.start = gtime(None, Some("2023-11-14"));
    whole.end = gtime(None, Some("2023-11-15"));
    let e = google_events(2, "primary", vec![whole]).unwrap();
    assert!(e[0].all_day);
    assert_eq!(e[0].starts_at, 1_699_920_000);
}

#[test]
fn google_addresses_and_queries() {
    assert_eq!(
        google_events_endpoint("team/cal"),
        "https://www.googleapis.com/calendar/v3/calendars/team%2Fcal/events"
    );
    assert_eq!(
        google_event_endpoint("primary", "e1"),
        "https://www.googleapis.com/calendar/v3/calendars/primary/events/e1"
    );
    let q = google_sync_query(1_700_000_000, 1_700_086_400);
    assert_eq!(q[0], ("timeMin".to_string(), "2023-11-14T22:13:20+00:00".to_string()));
    assert_eq!(q[1], ("timeMax".to_string(), "2023-11-15T22:13:20+00:00".to_string()));
    assert_eq!(q[4], ("maxResults".to_string(), "500".to_string()));
}

#[test]
fn google_event_body_lists_fields() {
    assert_eq!(
        text(&google_event_body(&event())),
        "{\"summary\":\"Sync\",\"description\":null,\"location\":\"Room\",\
\"start\":{\"dateTime\":\"2023-11-14T22:13:20+00:00\"},\"end\":{\"dateTime\":\"2023-11-14T23:13:20+00:00\"},\
\"recurrence\":[],\"attendees\":[{\"email\":\"a@x.com\"}]}"
    );
}

fn graph(start: Option<&str>) -> GraphCalendarEvent {
    GraphCalendarEvent {
        id: some("m1"),
        subject: some("Review"),
        body_preview: some("notes"),
        location: Some(GraphLocation { display_name: some("Room 2") }),
        start: Some(GraphDateTime { date_time: start.map(|s| s.to_string()), time_zone: some("UTC") }),
        end: Some(GraphDateTime { date_time: some("2023-11-14T23:13:20.0000000"), time_zone: some("UTC") }),
        attendees: None,
        organizer: None,
        is_all_day: Some(false),
        last_modified: None,
        recurrence: None,
    }
}

#[test]
fn graph_events_are_read() {
    let events = graph_events(2, "cal", vec![graph(Some("2023-11-14T22:13:20.0000000"))]).expect("read");
    assert_eq!(events[0].title, "Review");
    assert_eq!(events[0].location.as_deref(), Some("Room 2"));
    assert_eq!(events[0].starts_at, 1_700_000_000);
    assert_eq!(events[0].ends_at, 1_700_003_600);
    assert_eq!(
        graph_events(2, "cal", vec![graph(None)]).err(),
        Some(CalendarError::Parse("Graph event missing start".to_string()))
    );
}

#[test]
fn graph_addresses_and_body() {
    assert_eq!(graph_calendar_view_endpoint("c1"), "https://graph.microsoft.com/v1.0/me/calendars/c1/calendarView");
    assert_eq!(graph_event_endpoint("c1", ""), "https://graph.microsoft.com/v1.0/me/calendars/c1/events");
    assert_eq!(graph_event_endpoint("c1", "e9"), "https://graph.microsoft.com/v1.0/me/events/e9");
    let q = graph_sync_query(1_700_000_000, 1_700_086_400);
    assert_eq!(q, vec![
        ("startDateTime".to_string(), "2023-11-14T22:13:20+00:00".to_string()),
        ("endDateTime".to_string(), "2023-11-15T22:13:20+00:00".to_string()),
    ]);
    assert_eq!(
        text(&graph_event_body(&event())),
        "{\"subject\":\"Sync\",\"body\":{\"contentType\":\"text\",\"content\":\"\"},\
\"start\":{\"dateTime\":\"2023-11-14T22:13:20\",\"timeZone\":\"UTC\"},\
\"end\":{\"dateTime\":\"2023-11-14T23:13:20\",\"timeZone\":\"UTC\"},\
\"location\":{\"displayName\":\"Room\"},\
\"attendees\":[{\"emailAddress\":{\"address\":\"a@x.com\",\"name\":\"a@x.com\"},\"type\":\"required\"}],\
\"isAllDay\":false}"
    );
}

#[test]
fn todo_tasks_are_read() {
    let g = GraphTodoTask {
        id: some("t1"),
        title: None,
        body: Some(GraphTaskBody { content: some("milk") }),
        status: some("inProgress"),
        importance: some("high"),
        due_date_time: Some(GraphDateTimeTimeZone { date_time: some("2023-11-14T22:13:20.0000000"), time_zone: some("UTC") }),
        completed_date_time: None,
        created_date_time: None,
        last_modified_date_time: None,
        parent_task_id: None,
        recurrence: None,
    };
    let tasks = todo_tasks(1, "l", vec![g], 1_700_000_500);
    let t = &tasks[0];
    assert_eq!(t.title, "Untitled task");
    assert_eq!(t.notes.as_deref(), Some("milk"));
    assert_eq!(t.status, TaskStatus::InProgress);
    assert_eq!(t.priority, TaskPriority::High);
    assert_eq!(t.due_at, Some(1_700_000_000));
    assert_eq!(t.created_at, 1_700_000_500);
    assert_eq!(t.updated_at, 1_700_000_500);
}

#[test]
fn todo_addresses_and_body() {
    assert_eq!(todo_tasks_endpoint("L", &None), "https://graph.microsoft.com/v1.0/me/todo/lists/L/tasks");
    assert_eq!(todo_tasks_endpoint("L", &some("t1")), "https://graph.microsoft.com/v1.0/me/todo/lists/L/tasks/t1");
    assert_eq!(
        text(&todo_task_body(&task())),
        "{\"title\":\"Pay rent\",\"status\":\"completed\",\"importance\":\"low\",\
\"dueDateTime\":{\"dateTime\":\"2023-11-14T22:13:20\",\"timeZone\":\"UTC\"}}"
    );
}

#[test]
fn google_tasks_are_read() {
    let g = GoogleTaskItem {
        id: some("gt1"),
        title: some("Urgent: pay rent"),
        notes: None,
        due: some("2023-11-14T00:00:00.000Z"),
        completed: None,
        status: some("needsAction"),
        parent: None,
        updated: None,
    };
    let tasks = google_tasks(1, "l", vec![g], 1_700_000_500);
    let t = &tasks[0];
    assert_eq!(t.title, "Urgent: pay rent");
    assert_eq!(t.status, TaskStatus::NotStarted);
    assert_eq!(t.priority, TaskPriority::High);
    assert_eq!(t.due_at, Some(1_699_920_000));
    assert_eq!(t.updated_at, 1_700_000_500);
    assert_eq!(t.created_at, 1_700_000_500);
}

#[test]
fn google_task_addresses_and_body() {
    assert_eq!(google_tasks_endpoint("L", &None), "https://tasks.googleapis.com/tasks/v1/lists/L/tasks");
    assert_eq!(google_tasks_endpoint("L", &some("x")), "https://tasks.googleapis.com/tasks/v1/lists/L/tasks/x");
    assert_eq!(google_tasks_query(), vec![
        ("showCompleted".to_string(), "true".to_string()),
        ("showHidden".to_string(), "true".to_string()),
        ("maxResults".to_string(), "200".to_string()),
    ]);
    let body = text(&google_task_json(&task()));
    assert!(body.starts_with("{\"title\":\"Pay rent\",\"notes\":null,\"due\":\"2023-11-14T22:13:20+00:00\",\"status\":\"completed\""));
    assert!(body.ends_with("\"parent\":null}"));
}

#[test]
fn caldav_object_addresses() {
    assert_eq!(caldav_object_endpoint("https://dav.example.com/cal///", "abc"), "https://dav.example.com/cal/abc.ics");
    assert_eq!(caldav_object_endpoint("https://dav.example.com/cal", "abc"), "https://dav.example.com/cal/abc.ics");
}
