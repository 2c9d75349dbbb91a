//! Reminder tasks as Microsoft To Do, Google Tasks and CalDAV servers send
//! and take them: replies read into tasks, request bodies and addresses
//! built from tasks.
use vstd::prelude::*;
use crate::calendar::{graph_time, parse_graph_datetime};
use crate::cloud_calendar::{opt_json, pairs_view};
use crate::ids::{new_id, parse_uuid, uuid_text, uuid_to_string, uuid_value};
use crate::json::{jentries, jtext, jtext_or_null, jview, put, JsonValue, JsonView};
use crate::mail::opt_text;
use crate::model::{ReminderTask, TaskPriority, TaskStatus};
use crate::tasks::{
    graph_importance_text, graph_importance_to_priority, graph_priority, graph_status, graph_status_text,
    graph_status_to_task_status, infer_priority, keyword_priority, priority_to_graph_importance,
    task_status_to_graph_status,
};
use crate::text::{ascii_lower, chars_of, push_str, seq_eq, string_from_chars, strip_end, trim_end_char};
use crate::time::{chrono_time, format_secs, format_time, formattable, parse_rfc3339, rfc3339_secs, rfc3339_text, to_rfc3339};

verus! {

/// Where an account's tasks live: the server address, its access token, and
/// the list.
#[derive(Debug, Clone)]
pub struct TaskSettings {
    pub endpoint: String,
    pub access_token: Option<String>,
    pub list_id: String,
}

pub open spec fn opt_rfc3339(raw: Option<String>) -> Option<i64> {
    match raw {
        Some(t) => rfc3339_secs(t@),
        None => None,
    }
}

fn rfc3339_of(raw: &Option<String>) -> (r: Option<i64>)
    ensures
        r == opt_rfc3339(*raw),
{
    match raw {
        Some(t) => parse_rfc3339(t.as_str()),
        None => None,
    }
}

pub open spec fn opt_uuid(raw: Option<String>) -> Option<u128> {
    match raw {
        Some(t) => uuid_value(t@),
        None => None,
    }
}

fn uuid_of(raw: &Option<String>) -> (r: Option<u128>)
    ensures
        r == opt_uuid(*raw),
{
    match raw {
        Some(t) => parse_uuid(t.as_str()),
        None => None,
    }
}

fn copy_text(o: &Option<String>) -> (r: Option<String>)
    ensures
        opt_text(r) == opt_text(*o),
{
    match o {
        Some(s) => Some(s.clone()),
        None => None,
    }
}

// ------------------------------------------------------------------ Microsoft To Do

#[derive(Debug, Clone)]
pub struct GraphTaskBody {
    pub content: Option<String>,
}

#[derive(Debug, Clone)]
pub struct GraphDateTimeTimeZone {
    pub date_time: Option<String>,
    pub time_zone: Option<String>,
}

/// One task of a Microsoft To Do reply; its recurrence is kept as the JSON
/// text of the pattern.
#[derive(Debug, Clone)]
pub struct GraphTodoTask {
    pub id: Option<String>,
    pub title: Option<String>,
    pub body: Option<GraphTaskBody>,
    pub status: Option<String>,
    pub importance: Option<String>,
    pub due_date_time: Option<GraphDateTimeTimeZone>,
    pub completed_date_time: Option<GraphDateTimeTimeZone>,
    pub created_date_time: Option<String>,
    pub last_modified_date_time: Option<String>,
    pub parent_task_id: Option<String>,
    pub recurrence: Option<String>,
}

pub open spec fn todo_time(d: Option<GraphDateTimeTimeZone>) -> Option<i64> {
    match d {
        Some(d) => graph_time(opt_text(d.date_time), opt_text(d.time_zone)),
        None => None,
    }
}

fn todo_time_of(d: &Option<GraphDateTimeTimeZone>) -> (r: Option<i64>)
    ensures
        r == todo_time(*d),
{
    match d {
        Some(d) => parse_graph_datetime(&d.date_time, &d.time_zone),
        None => None,
    }
}

/// `t` is the To Do task `g` of list `list_id`, read at `now`: its title
/// ("Untitled task" when none), body, times (created and changed at `now`
/// when the server does not say), importance, status, recurrence and
/// parent.
pub open spec fn todo_task_of(t: ReminderTask, g: GraphTodoTask, account_id: u128, list_id: Seq<char>, now: i64) -> bool {
    &&& t.account_id == account_id
    &&& t.list_id@ == list_id
    &&& opt_text(t.remote_id) == opt_text(g.id)
    &&& t.title@ == match g.title {
        Some(s) => s@,
        None => "Untitled task"@,
    }
    &&& opt_text(t.notes) == match g.body {
        Some(b) => opt_text(b.content),
        None => None,
    }
    &&& t.due_at == todo_time(g.due_date_time)
    &&& t.completed_at == todo_time(g.completed_date_time)
    &&& t.created_at == match opt_rfc3339(g.created_date_time) {
        Some(c) => c,
        None => now,
    }
    &&& t.updated_at == match opt_rfc3339(g.last_modified_date_time) {
        Some(u) => u,
        None => match opt_rfc3339(g.created_date_time) {
            Some(c) => c,
            None => now,
        },
    }
    &&& t.priority == graph_priority(opt_text(g.importance))
    &&& t.status == graph_status(opt_text(g.status))
    &&& opt_text(t.repeat_rule) == opt_text(g.recurrence)
    &&& t.parent_id == opt_uuid(g.parent_task_id)
    &&& t.snoozed_until.is_none()
}

fn opt_chars(o: &Option<String>) -> (r: Option<Vec<char>>)
    ensures
        match r {
            Some(v) => o.is_some() && v@ == o->0@,
            None => o.is_none(),
        },
{
    match o {
        Some(s) => Some(chars_of(s.as_str())),
        None => None,
    }
}

/// The tasks of a Microsoft To Do reply for the list `list_id`, read at
/// `now`.
pub fn todo_tasks(account_id: u128, list_id: &str, items: Vec<GraphTodoTask>, now: i64) -> (r: Vec<ReminderTask>)
    ensures
        r@.len() == items@.len(),
        forall|i: int| 0 <= i < r@.len() ==> todo_task_of(#[trigger] r@[i], items@[i], account_id, list_id@, now),
{
    let mut out: Vec<ReminderTask> = Vec::new();
    for i in 0..items.len()
        invariant
            out@.len() == i,
            forall|j: int| 0 <= j < i ==> todo_task_of(#[trigger] out@[j], items@[j], account_id, list_id@, now),
    {
        let g = &items[i];
        proof {
            reveal_strlit("Untitled task");
        }
        let title = match &g.title {
            Some(s) => s.clone(),
            None => "Untitled task".to_owned(),
        };
        let notes = match &g.body {
            Some(b) => copy_text(&b.content),
            None => None,
        };
        let created = rfc3339_of(&g.created_date_time);
        let created_at = match created {
            Some(c) => c,
            None => now,
        };
        let updated_at = match rfc3339_of(&g.last_modified_date_time) {
            Some(u) => u,
            None => match created {
                Some(c) => c,
                None => now,
            },
        };
        let importance = opt_chars(&g.importance);
        let status = opt_chars(&g.status);
        let priority = match &importance {
            Some(v) => graph_importance_to_priority(Some(v.as_slice())),
            None => graph_importance_to_priority(None),
        };
        let status = match &status {
            Some(v) => graph_status_to_task_status(Some(v.as_slice())),
            None => graph_status_to_task_status(None),
        };
        let task = ReminderTask {
            id: new_id(),
            account_id,
            list_id: list_id.to_owned(),
            remote_id: copy_text(&g.id),
            title,
            notes,
            due_at: todo_time_of(&g.due_date_time),
            completed_at: todo_time_of(&g.completed_date_time),
            priority,
            status,
            repeat_rule: copy_text(&g.recurrence),
            parent_id: uuid_of(&g.parent_task_id),
            snoozed_until: None,
            created_at,
            updated_at,
        };
        out.push(task);
    }
    out
}

/// The address of a To Do list's tasks.
pub open spec fn todo_tasks_url(list_id: Seq<char>) -> Seq<char> {
    "https://graph.microsoft.com/v1.0/me/todo/lists/"@ + list_id + "/tasks"@
}

/// Where a task is written: a new task is created in the list, a known one
/// is changed in place.
pub open spec fn task_write_url(base: Seq<char>, remote_id: Option<String>) -> Seq<char> {
    match remote_id {
        Some(r) => base + "/"@ + r@,
        None => base,
    }
}

fn with_remote(base: Vec<char>, remote_id: &Option<String>) -> (r: String)
    ensures
        r@ == task_write_url(base@, *remote_id),
{
    let mut u = base;
    match remote_id {
        Some(rid) => {
            push_str(&mut u, "/");
            push_str(&mut u, rid.as_str());
        },
        None => {},
    }
    string_from_chars(u.as_slice())
}

pub fn todo_tasks_endpoint(list_id: &str, remote_id: &Option<String>) -> (r: String)
    ensures
        r@ == task_write_url(todo_tasks_url(list_id@), *remote_id),
{
    let mut u = chars_of("https://graph.microsoft.com/v1.0/me/todo/lists/");
    push_str(&mut u, list_id);
    push_str(&mut u, "/tasks");
    with_remote(u, remote_id)
}

pub open spec fn utc_entry(t: i64) -> JsonView {
    JsonView::Object(seq![
        ("dateTime"@, JsonView::Str(format_secs(t, "%Y-%m-%dT%H:%M:%S"@))),
        ("timeZone"@, JsonView::Str("UTC"@)),
    ])
}

/// The body of a To Do write of `t`: title, status and importance always;
/// the notes, due and completion times (as UTC wall-clock times), parent
/// and recurrence pattern when the task has them.
pub open spec fn todo_body(t: ReminderTask) -> JsonView {
    let base: Seq<(Seq<char>, JsonView)> = seq![
        ("title"@, JsonView::Str(t.title@)),
        ("status"@, JsonView::Str(graph_status_text(t.status))),
        ("importance"@, JsonView::Str(graph_importance_text(t.priority))),
    ];
    let with_body = match t.notes {
        Some(n) => base.push(("body"@, JsonView::Object(seq![("contentType"@, JsonView::Str("text"@)), ("content"@, JsonView::Str(n@))]))),
        None => base,
    };
    let with_due = match t.due_at {
        Some(d) => with_body.push(("dueDateTime"@, utc_entry(d))),
        None => with_body,
    };
    let with_done = match t.completed_at {
        Some(c) => with_due.push(("completedDateTime"@, utc_entry(c))),
        None => with_due,
    };
    let with_parent = match t.parent_id {
        Some(p) => with_done.push(("parentTaskId"@, JsonView::Str(uuid_text(p)))),
        None => with_done,
    };
    let all = match t.repeat_rule {
        Some(r) => with_parent.push(("recurrence"@, JsonView::Object(seq![("pattern"@, JsonView::Object(seq![("type"@, JsonView::Str(r@))]))]))),
        None => with_parent,
    };
    JsonView::Object(all)
}

fn utc_value(t: i64) -> (r: JsonValue)
    requires
        formattable(t),
    ensures
        jview(r) == utc_entry(t),
{
    let mut es: Vec<(String, JsonValue)> = Vec::new();
    put(&mut es, "dateTime", JsonValue::String(format_time(t, "%Y-%m-%dT%H:%M:%S")));
    put(&mut es, "timeZone", jtext("UTC"));
    proof {
        reveal_strlit("dateTime");
        reveal_strlit("timeZone");
        reveal_strlit("UTC");
        assert(jentries(es@) =~= seq![
            ("dateTime"@, JsonView::Str(format_secs(t, "%Y-%m-%dT%H:%M:%S"@))),
            ("timeZone"@, JsonView::Str("UTC"@)),
        ]);
    }
    JsonValue::Object(es)
}

pub fn todo_task_body(task: &ReminderTask) -> (r: JsonValue)
    requires
        task.due_at matches Some(d) ==> formattable(d),
        task.completed_at matches Some(c) ==> formattable(c),
    ensures
        jview(r) == todo_body(*task),
{
    proof {
        reveal_strlit("title");
        reveal_strlit("status");
        reveal_strlit("importance");
        reveal_strlit("body");
        reveal_strlit("contentType");
        reveal_strlit("text");
        reveal_strlit("content");
        reveal_strlit("dueDateTime");
        reveal_strlit("completedDateTime");
        reveal_strlit("parentTaskId");
        reveal_strlit("recurrence");
        reveal_strlit("pattern");
        reveal_strlit("type");
    }
    let mut es: Vec<(String, JsonValue)> = Vec::new();
    put(&mut es, "title", JsonValue::String(task.title.clone()));
    put(&mut es, "status", jtext(task_status_to_graph_status(task.status)));
    put(&mut es, "importance", jtext(priority_to_graph_importance(task.priority)));
    let ghost base = jentries(es@);
    assert(base =~= seq![
        ("title"@, JsonView::Str(task.title@)),
        ("status"@, JsonView::Str(graph_status_text(task.status))),
        ("importance"@, JsonView::Str(graph_importance_text(task.priority))),
    ]);
    match &task.notes {
        Some(n) => {
            let mut b: Vec<(String, JsonValue)> = Vec::new();
            put(&mut b, "contentType", jtext("text"));
            put(&mut b, "content", JsonValue::String(n.clone()));
            assert(jentries(b@) =~= seq![("contentType"@, JsonView::Str("text"@)), ("content"@, JsonView::Str(n@))]);
            put(&mut es, "body", JsonValue::Object(b));
        },
        None => {},
    }
    match task.due_at {
        Some(d) => put(&mut es, "dueDateTime", utc_value(d)),
        None => {},
    }
    match task.completed_at {
        Some(c) => put(&mut es, "completedDateTime", utc_value(c)),
        None => {},
    }
    match task.parent_id {
        Some(p) => put(&mut es, "parentTaskId", JsonValue::String(uuid_to_string(p))),
        None => {},
    }
    match &task.repeat_rule {
        Some(rule) => {
            let mut pattern: Vec<(String, JsonValue)> = Vec::new();
            put(&mut pattern, "type", JsonValue::String(rule.clone()));
            let mut rec: Vec<(String, JsonValue)> = Vec::new();
            put(&mut rec, "pattern", JsonValue::Object(pattern));
            assert(jentries(pattern@) =~= seq![("type"@, JsonView::Str(rule@))]);
            assert(jentries(rec@) =~= seq![("pattern"@, JsonView::Object(seq![("type"@, JsonView::Str(rule@))]))]);
            put(&mut es, "recurrence", JsonValue::Object(rec));
        },
        None => {},
    }
    JsonValue::Object(es)
}

// ------------------------------------------------------------------ Google Tasks

/// One task of a Google Tasks reply.
#[derive(Debug, Clone)]
pub struct GoogleTaskItem {
    pub id: Option<String>,
    pub title: Option<String>,
    pub notes: Option<String>,
    pub due: Option<String>,
    pub completed: Option<String>,
    pub status: Option<String>,
    pub parent: Option<String>,
    pub updated: Option<String>,
}

/// Google's task status: `completed`, `needsAction` (or none) for not
/// started, anything else in progress.
pub open spec fn google_task_status(status: Option<Seq<char>>) -> TaskStatus {
    match status {
        Some(s) => if s == "completed"@ {
            TaskStatus::Completed
        } else if s == "needsAction"@ {
            TaskStatus::NotStarted
        } else {
            TaskStatus::InProgress
        },
        None => TaskStatus::NotStarted,
    }
}

fn google_status_of(status: &Option<String>) -> (r: TaskStatus)
    ensures
        r == google_task_status(opt_text(*status)),
{
    proof {
        reveal_strlit("completed");
        reveal_strlit("needsAction");
    }
    match status {
        Some(s) => {
            let cs = chars_of(s.as_str());
            if seq_eq(cs.as_slice(), chars_of("completed").as_slice()) {
                TaskStatus::Completed
            } else if seq_eq(cs.as_slice(), chars_of("needsAction").as_slice()) {
                TaskStatus::NotStarted
            } else {
                TaskStatus::InProgress
            }
        },
        None => TaskStatus::NotStarted,
    }
}

/// `t` is the Google task `g` of list `list_id`, read at `now`: its title
/// ("Untitled task" when none), notes, times (changed at `now` when the
/// server does not say, and created when last changed), status, a priority
/// from keywords of its title and notes, and parent.
pub open spec fn google_task_of(t: ReminderTask, g: GoogleTaskItem, account_id: u128, list_id: Seq<char>, now: i64) -> bool {
    let title = match g.title {
        Some(s) => s@,
        None => "Untitled task"@,
    };
    &&& t.account_id == account_id
    &&& t.list_id@ == list_id
    &&& opt_text(t.remote_id) == opt_text(g.id)
    &&& t.title@ == title
    &&& opt_text(t.notes) == opt_text(g.notes)
    &&& t.due_at == opt_rfc3339(g.due)
    &&& t.completed_at == opt_rfc3339(g.completed)
    &&& t.updated_at == match opt_rfc3339(g.updated) {
        Some(u) => u,
        None => now,
    }
    &&& t.created_at == t.updated_at
    &&& t.status == google_task_status(opt_text(g.status))
    &&& t.priority == keyword_priority(ascii_lower(title + seq![' '] + match g.notes {
        Some(n) => n@,
        None => Seq::empty(),
    }))
    &&& t.repeat_rule.is_none()
    &&& t.parent_id == opt_uuid(g.parent)
    &&& t.snoozed_until.is_none()
}

/// The tasks of a Google Tasks reply for the list `list_id`, read at `now`.
pub fn google_tasks(account_id: u128, list_id: &str, items: Vec<GoogleTaskItem>, now: i64) -> (r: Vec<ReminderTask>)
    ensures
        r@.len() == items@.len(),
        forall|i: int| 0 <= i < r@.len() ==> google_task_of(#[trigger] r@[i], items@[i], account_id, list_id@, now),
{
    let mut out: Vec<ReminderTask> = Vec::new();
    for i in 0..items.len()
        invariant
            out@.len() == i,
            forall|j: int| 0 <= j < i ==> google_task_of(#[trigger] out@[j], items@[j], account_id, list_id@, now),
    {
        let g = &items[i];
        proof {
            reveal_strlit("Untitled task");
        }
        let title = match &g.title {
            Some(s) => s.clone(),
            None => "Untitled task".to_owned(),
        };
        let notes_chars: Vec<char> = match &g.notes {
            Some(n) => chars_of(n.as_str()),
            None => Vec::new(),
        };
        let priority = infer_priority(chars_of(title.as_str()).as_slice(), notes_chars.as_slice());
        let updated_at = match rfc3339_of(&g.updated) {
            Some(u) => u,
            None => now,
        };
        let task = ReminderTask {
            id: new_id(),
            account_id,
            list_id: list_id.to_owned(),
            remote_id: copy_text(&g.id),
            title,
            notes: copy_text(&g.notes),
            due_at: rfc3339_of(&g.due),
            completed_at: rfc3339_of(&g.completed),
            priority,
            status: google_status_of(&g.status),
            repeat_rule: None,
            parent_id: uuid_of(&g.parent),
            snoozed_until: None,
            created_at: updated_at,
            updated_at,
        };
        out.push(task);
    }
    out
}

/// The address of a Google task list's tasks.
pub open spec fn google_tasks_url(list_id: Seq<char>) -> Seq<char> {
    "https://tasks.googleapis.com/tasks/v1/lists/"@ + list_id + "/tasks"@
}

pub fn google_tasks_endpoint(list_id: &str, remote_id: &Option<String>) -> (r: String)
    ensures
        r@ == task_write_url(google_tasks_url(list_id@), *remote_id),
{
    let mut u = chars_of("https://tasks.googleapis.com/tasks/v1/lists/");
    push_str(&mut u, list_id);
    push_str(&mut u, "/tasks");
    with_remote(u, remote_id)
}

/// The query of a Google Tasks sync: completed and hidden tasks too, up to
/// 200.
pub open spec fn google_tasks_params() -> Seq<(Seq<char>, Seq<char>)> {
    seq![("showCompleted"@, "true"@), ("showHidden"@, "true"@), ("maxResults"@, "200"@)]
}

pub fn google_tasks_query() -> (r: Vec<(String, String)>)
    ensures
        pairs_view(r@) == google_tasks_params(),
{
    let mut q: Vec<(String, String)> = Vec::new();
    q.push(("showCompleted".to_owned(), "true".to_owned()));
    q.push(("showHidden".to_owned(), "true".to_owned()));
    q.push(("maxResults".to_owned(), "200".to_owned()));
    assert(pairs_view(q@) =~= google_tasks_params());
    q
}

/// The body of a Google Tasks write of `t`: title, notes, due time,
/// `completed` or `needsAction`, parent.
pub open spec fn google_task_body(t: ReminderTask) -> JsonView {
    JsonView::Object(seq![
        ("title"@, JsonView::Str(t.title@)),
        ("notes"@, opt_json(t.notes)),
        ("due"@, match t.due_at {
            Some(d) => JsonView::Str(rfc3339_text(d)),
            None => JsonView::Null,
        }),
        ("status"@, JsonView::Str(if t.status == TaskStatus::Completed { "completed"@ } else { "needsAction"@ })),
        ("parent"@, match t.parent_id {
            Some(p) => JsonView::Str(uuid_text(p)),
            None => JsonView::Null,
        }),
    ])
}

pub fn google_task_json(task: &ReminderTask) -> (r: JsonValue)
    requires
        task.due_at matches Some(d) ==> chrono_time(d),
    ensures
        jview(r) == google_task_body(*task),
{
    let mut es: Vec<(String, JsonValue)> = Vec::new();
    put(&mut es, "title", JsonValue::String(task.title.clone()));
    put(&mut es, "notes", jtext_or_null(&task.notes));
    let due = match task.due_at {
        Some(d) => JsonValue::String(to_rfc3339(d)),
        None => JsonValue::Null,
    };
    put(&mut es, "due", due);
    let status = match task.status {
        TaskStatus::Completed => "completed",
        TaskStatus::NotStarted | TaskStatus::InProgress | TaskStatus::Canceled => "needsAction",
    };
    put(&mut es, "status", jtext(status));
    let parent = match task.parent_id {
        Some(p) => JsonValue::String(uuid_to_string(p)),
        None => JsonValue::Null,
    };
    put(&mut es, "parent", parent);
    proof {
        reveal_strlit("title");
        reveal_strlit("notes");
        reveal_strlit("due");
        reveal_strlit("status");
        reveal_strlit("parent");
        reveal_strlit("completed");
        reveal_strlit("needsAction");
        assert(jentries(es@) =~= seq![
            ("title"@, JsonView::Str(task.title@)),
            ("notes"@, opt_json(task.notes)),
            ("due"@, match task.due_at {
                Some(d) => JsonView::Str(rfc3339_text(d)),
                None => JsonView::Null,
            }),
            ("status"@, JsonView::Str(if task.status == TaskStatus::Completed { "completed"@ } else { "needsAction"@ })),
            ("parent"@, match task.parent_id {
                Some(p) => JsonView::Str(uuid_text(p)),
                None => JsonView::Null,
            }),
        ]);
    }
    JsonValue::Object(es)
}

// ------------------------------------------------------------------ CalDAV

/// Where a CalDAV object named `name` is written under a collection: the
/// collection's address without trailing slashes, `/`, and `name.ics`.
pub open spec fn caldav_object_url(endpoint: Seq<char>, name: Seq<char>) -> Seq<char> {
    strip_end(endpoint, '/') + "/"@ + name + ".ics"@
}

pub fn caldav_object_endpoint(endpoint: &str, name: &str) -> (r: String)
    ensures
        r@ == caldav_object_url(endpoint@, name@),
{
    let mut u = trim_end_char(chars_of(endpoint).as_slice(), '/');
    push_str(&mut u, "/");
    push_str(&mut u, name);
    push_str(&mut u, ".ics");
    string_from_chars(u.as_slice())
}

}
