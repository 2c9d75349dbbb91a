//! Reminder tasks: iCalendar `VTODO` reading and writing, provider status and
//! priority mappings, and natural-language capture.
use vstd::prelude::*;
use crate::ical::{
    escape_ical_text, push_text_line, push_opt_text_line, opt_text_line, opt_time_line, raw_line, text_line, caldav_blocks, caldav_calendar_data, opt_view, parse_todo_datetime, strings_view, todo_time,
    unescape_ical_text, unescape_text, unfold_ical_lines, unfolded_lines, views,
};
use crate::ids::{new_id, parse_uuid, uuid_text, uuid_to_string, uuid_value};
use crate::model::{ReminderTask, TaskPriority, TaskStatus};
use crate::numbers::{decimal, decimal_text, parse_u8, parse_unsigned};
use crate::text::{
    ascii_lower, ascii_upper, chars_of, contains, contains_seq, eq_ignore_ascii_case,
    eq_ignore_case, has_prefix, lower, seq_eq, split_once, split_once_char, starts_with,
    string_from_chars, trim, trimmed, upper, extend, push_str,
};
use crate::time::{chrono_time, format_now, format_secs, format_time, formattable, now_utc};

verus! {

// ------------------------------------------------------------------ mappings

/// A `VTODO` `STATUS` value as a task status.
pub open spec fn ical_status(value: Seq<char>) -> TaskStatus {
    let v = ascii_upper(value);
    if v == "COMPLETED"@ {
        TaskStatus::Completed
    } else if v == "IN-PROCESS"@ {
        TaskStatus::InProgress
    } else if v == "CANCELLED"@ {
        TaskStatus::Canceled
    } else {
        TaskStatus::NotStarted
    }
}

pub fn ical_status_to_task_status(value: &[char]) -> (r: TaskStatus)
    ensures
        r == ical_status(value@),
{
    let v = upper(value);
    if seq_eq(v.as_slice(), chars_of("COMPLETED").as_slice()) {
        TaskStatus::Completed
    } else if seq_eq(v.as_slice(), chars_of("IN-PROCESS").as_slice()) {
        TaskStatus::InProgress
    } else if seq_eq(v.as_slice(), chars_of("CANCELLED").as_slice()) {
        TaskStatus::Canceled
    } else {
        TaskStatus::NotStarted
    }
}

pub open spec fn ical_status_text(status: TaskStatus) -> Seq<char> {
    match status {
        TaskStatus::Completed => "COMPLETED"@,
        TaskStatus::InProgress => "IN-PROCESS"@,
        TaskStatus::Canceled => "CANCELLED"@,
        TaskStatus::NotStarted => "NEEDS-ACTION"@,
    }
}

pub fn task_status_to_ical_status(status: TaskStatus) -> (r: &'static str)
    ensures
        r@ == ical_status_text(status),
{
    match status {
        TaskStatus::Completed => "COMPLETED",
        TaskStatus::InProgress => "IN-PROCESS",
        TaskStatus::Canceled => "CANCELLED",
        TaskStatus::NotStarted => "NEEDS-ACTION",
    }
}

/// A `VTODO` `PRIORITY` value (1 highest, 9 lowest) as a task priority.
pub open spec fn ical_priority(value: Seq<char>) -> TaskPriority {
    match parse_unsigned(value, 255) {
        Some(p) => if p == 1 {
            TaskPriority::Critical
        } else if 2 <= p <= 4 {
            TaskPriority::High
        } else if 6 <= p <= 9 {
            TaskPriority::Low
        } else {
            TaskPriority::Normal
        },
        None => TaskPriority::Normal,
    }
}

pub fn ical_priority_to_task_priority(value: &[char]) -> (r: TaskPriority)
    ensures
        r == ical_priority(value@),
{
    match parse_u8(value) {
        Some(1) => TaskPriority::Critical,
        Some(p) => if 2 <= p && p <= 4 {
            TaskPriority::High
        } else if 6 <= p && p <= 9 {
            TaskPriority::Low
        } else {
            TaskPriority::Normal
        },
        None => TaskPriority::Normal,
    }
}

pub open spec fn ical_priority_number(priority: TaskPriority) -> u8 {
    match priority {
        TaskPriority::Critical => 1,
        TaskPriority::High => 3,
        TaskPriority::Normal => 5,
        TaskPriority::Low => 7,
    }
}

pub fn task_priority_to_ical_priority(priority: TaskPriority) -> (r: u8)
    ensures
        r == ical_priority_number(priority),
{
    match priority {
        TaskPriority::Critical => 1,
        TaskPriority::High => 3,
        TaskPriority::Normal => 5,
        TaskPriority::Low => 7,
    }
}

/// Microsoft To Do `importance` as a task priority.
pub open spec fn graph_priority(value: Option<Seq<char>>) -> TaskPriority {
    let v = ascii_lower(match value { Some(v) => v, None => Seq::empty() });
    if v == "high"@ {
        TaskPriority::High
    } else if v == "low"@ {
        TaskPriority::Low
    } else {
        TaskPriority::Normal
    }
}

pub fn graph_importance_to_priority(value: Option<&[char]>) -> (r: TaskPriority)
    ensures
        r == graph_priority(match value { Some(v) => Some(v@), None => None }),
{
    let v = match value {
        Some(v) => lower(v),
        None => {
            let e: Vec<char> = Vec::new();
            assert(ascii_lower(Seq::<char>::empty()) =~= e@);
            e
        },
    };
    if seq_eq(v.as_slice(), chars_of("high").as_slice()) {
        TaskPriority::High
    } else if seq_eq(v.as_slice(), chars_of("low").as_slice()) {
        TaskPriority::Low
    } else {
        TaskPriority::Normal
    }
}

pub open spec fn graph_importance_text(priority: TaskPriority) -> Seq<char> {
    match priority {
        TaskPriority::Critical | TaskPriority::High => "high"@,
        TaskPriority::Low => "low"@,
        TaskPriority::Normal => "normal"@,
    }
}

pub fn priority_to_graph_importance(priority: TaskPriority) -> (r: &'static str)
    ensures
        r@ == graph_importance_text(priority),
{
    match priority {
        TaskPriority::Critical | TaskPriority::High => "high",
        TaskPriority::Low => "low",
        TaskPriority::Normal => "normal",
    }
}

/// Microsoft To Do `status` as a task status.
pub open spec fn graph_status(value: Option<Seq<char>>) -> TaskStatus {
    let v = ascii_lower(match value { Some(v) => v, None => Seq::empty() });
    if v == "completed"@ {
        TaskStatus::Completed
    } else if v == "inprogress"@ {
        TaskStatus::InProgress
    } else {
        TaskStatus::NotStarted
    }
}

pub fn graph_status_to_task_status(value: Option<&[char]>) -> (r: TaskStatus)
    ensures
        r == graph_status(match value { Some(v) => Some(v@), None => None }),
{
    let v = match value {
        Some(v) => lower(v),
        None => {
            let e: Vec<char> = Vec::new();
            assert(ascii_lower(Seq::<char>::empty()) =~= e@);
            e
        },
    };
    if seq_eq(v.as_slice(), chars_of("completed").as_slice()) {
        TaskStatus::Completed
    } else if seq_eq(v.as_slice(), chars_of("inprogress").as_slice()) {
        TaskStatus::InProgress
    } else {
        TaskStatus::NotStarted
    }
}

pub open spec fn graph_status_text(status: TaskStatus) -> Seq<char> {
    match status {
        TaskStatus::Completed => "completed"@,
        TaskStatus::InProgress => "inProgress"@,
        TaskStatus::Canceled => "deferred"@,
        TaskStatus::NotStarted => "notStarted"@,
    }
}

pub fn task_status_to_graph_status(status: TaskStatus) -> (r: &'static str)
    ensures
        r@ == graph_status_text(status),
{
    match status {
        TaskStatus::Completed => "completed",
        TaskStatus::InProgress => "inProgress",
        TaskStatus::Canceled => "deferred",
        TaskStatus::NotStarted => "notStarted",
    }
}

/// The priority that keywords in lower-cased text call for.
pub open spec fn keyword_priority(text: Seq<char>) -> TaskPriority {
    if contains(text, "p1"@) || contains(text, "critical"@) {
        TaskPriority::Critical
    } else if contains(text, "high"@) || contains(text, "urgent"@) {
        TaskPriority::High
    } else if contains(text, "low"@) {
        TaskPriority::Low
    } else {
        TaskPriority::Normal
    }
}

pub fn priority_from_keywords(text: &[char]) -> (r: TaskPriority)
    ensures
        r == keyword_priority(text@),
{
    if contains_seq(text, chars_of("p1").as_slice()) || contains_seq(text, chars_of("critical").as_slice()) {
        TaskPriority::Critical
    } else if contains_seq(text, chars_of("high").as_slice()) || contains_seq(text, chars_of("urgent").as_slice()) {
        TaskPriority::High
    } else if contains_seq(text, chars_of("low").as_slice()) {
        TaskPriority::Low
    } else {
        TaskPriority::Normal
    }
}

/// The priority of a task from keywords in its title and notes.
pub fn infer_priority(title: &[char], notes: &[char]) -> (r: TaskPriority)
    ensures
        r == keyword_priority(ascii_lower(title@ + seq![' '] + notes@)),
{
    let mut text = crate::text::to_vec(title);
    text.push(' ');
    crate::text::extend(&mut text, notes);
    assert(text@ =~= title@ + seq![' '] + notes@);
    let lowered = lower(text.as_slice());
    priority_from_keywords(lowered.as_slice())
}

}

verus! {

// ------------------------------------------------------------------ VTODO reading

/// The fields read so far from one `VTODO` component.
pub struct TodoFields {
    pub uid: Option<Seq<char>>,
    pub title: Option<Seq<char>>,
    pub notes: Option<Seq<char>>,
    pub due_at: Option<i64>,
    pub completed_at: Option<i64>,
    pub priority: TaskPriority,
    pub status: TaskStatus,
    pub repeat_rule: Option<Seq<char>>,
    pub parent_id: Option<u128>,
    pub created_at: Option<i64>,
    pub updated_at: Option<i64>,
}

pub open spec fn no_todo_fields() -> TodoFields {
    TodoFields {
        uid: None,
        title: None,
        notes: None,
        due_at: None,
        completed_at: None,
        priority: TaskPriority::Normal,
        status: TaskStatus::NotStarted,
        repeat_rule: None,
        parent_id: None,
        created_at: None,
        updated_at: None,
    }
}

/// How one `NAME;PARAMS:VALUE` line changes the fields of the current to-do.
pub open spec fn apply_todo_property(d: TodoFields, property: Seq<char>, value: Seq<char>) -> TodoFields {
    let up = ascii_upper(property);
    if starts_with(up, "UID"@) {
        if value.len() > 0 { TodoFields { uid: Some(value), ..d } } else { d }
    } else if starts_with(up, "SUMMARY"@) {
        TodoFields { title: Some(unescape_text(value)), ..d }
    } else if starts_with(up, "DESCRIPTION"@) {
        TodoFields { notes: Some(unescape_text(value)), ..d }
    } else if starts_with(up, "DUE"@) {
        TodoFields { due_at: todo_time(property, value), ..d }
    } else if starts_with(up, "COMPLETED"@) {
        TodoFields { completed_at: todo_time(property, value), ..d }
    } else if starts_with(up, "STATUS"@) {
        TodoFields { status: ical_status(value), ..d }
    } else if starts_with(up, "PRIORITY"@) {
        TodoFields { priority: ical_priority(value), ..d }
    } else if starts_with(up, "RRULE"@) {
        TodoFields { repeat_rule: Some(value), ..d }
    } else if starts_with(up, "RELATED-TO"@) {
        TodoFields { parent_id: uuid_value(value), ..d }
    } else if starts_with(up, "CREATED"@) {
        TodoFields { created_at: todo_time(property, value), ..d }
    } else if starts_with(up, "LAST-MODIFIED"@) || starts_with(up, "DTSTAMP"@) {
        match todo_time(property, value) {
            Some(t) => TodoFields { updated_at: Some(t), ..d },
            None => d,
        }
    } else {
        d
    }
}

pub struct TodoScan {
    pub in_todo: bool,
    pub current: TodoFields,
    pub todos: Seq<TodoFields>,
}

/// `BEGIN:VTODO` starts a fresh to-do; `END:VTODO` records the current fields
/// (whether or not a to-do is open) and keeps them.
pub open spec fn todo_scan_step(st: TodoScan, line: Seq<char>) -> TodoScan {
    let t = trim(line);
    if eq_ignore_case(t, "BEGIN:VTODO"@) {
        TodoScan { in_todo: true, current: no_todo_fields(), todos: st.todos }
    } else if eq_ignore_case(t, "END:VTODO"@) {
        TodoScan { in_todo: false, current: st.current, todos: st.todos.push(st.current) }
    } else if !st.in_todo {
        st
    } else {
        match split_once(t, ':') {
            Some(pv) => TodoScan { current: apply_todo_property(st.current, trim(pv.0), trim(pv.1)), ..st },
            None => st,
        }
    }
}

pub open spec fn todo_scan(lines: Seq<Seq<char>>) -> TodoScan
    decreases lines.len(),
{
    if lines.len() == 0 {
        TodoScan { in_todo: false, current: no_todo_fields(), todos: Seq::empty() }
    } else {
        todo_scan_step(todo_scan(lines.drop_last()), lines.last())
    }
}

/// The to-dos of an iCalendar payload, in order.
pub open spec fn ical_todos(payload: Seq<char>) -> Seq<TodoFields> {
    todo_scan(unfolded_lines(payload)).todos
}

/// One to-do read from an iCalendar payload.
pub struct IcalTodo {
    pub uid: Option<String>,
    pub title: Option<String>,
    pub notes: Option<String>,
    pub due_at: Option<i64>,
    pub completed_at: Option<i64>,
    pub priority: TaskPriority,
    pub status: TaskStatus,
    pub repeat_rule: Option<String>,
    pub parent_id: Option<u128>,
    pub created_at: Option<i64>,
    pub updated_at: Option<i64>,
}

impl IcalTodo {
    pub open spec fn fields(&self) -> TodoFields {
        TodoFields {
            uid: opt_view(self.uid),
            title: opt_view(self.title),
            notes: opt_view(self.notes),
            due_at: self.due_at,
            completed_at: self.completed_at,
            priority: self.priority,
            status: self.status,
            repeat_rule: opt_view(self.repeat_rule),
            parent_id: self.parent_id,
            created_at: self.created_at,
            updated_at: self.updated_at,
        }
    }

    fn empty() -> (r: Self)
        ensures
            r.fields() == no_todo_fields(),
    {
        IcalTodo {
            uid: None,
            title: None,
            notes: None,
            due_at: None,
            completed_at: None,
            priority: TaskPriority::Normal,
            status: TaskStatus::NotStarted,
            repeat_rule: None,
            parent_id: None,
            created_at: None,
            updated_at: None,
        }
    }

    fn copy(&self) -> (r: Self)
        ensures
            r.fields() == self.fields(),
    {
        IcalTodo {
            uid: copy_opt(&self.uid),
            title: copy_opt(&self.title),
            notes: copy_opt(&self.notes),
            due_at: self.due_at,
            completed_at: self.completed_at,
            priority: self.priority,
            status: self.status,
            repeat_rule: copy_opt(&self.repeat_rule),
            parent_id: self.parent_id,
            created_at: self.created_at,
            updated_at: self.updated_at,
        }
    }
}

pub fn copy_opt(o: &Option<String>) -> (r: Option<String>)
    ensures
        opt_view(r) == opt_view(*o),
{
    match o {
        Some(s) => Some(s.clone()),
        None => None,
    }
}

fn text_of(v: &[char]) -> (r: String)
    ensures
        r@ == v@,
{
    string_from_chars(v)
}

fn apply_todo_line(d: &mut IcalTodo, property: &[char], value: &[char])
    ensures
        final(d).fields() == apply_todo_property(old(d).fields(), property@, value@),
{
    let up = upper(property);
    let up = up.as_slice();
    if has_prefix(up, chars_of("UID").as_slice()) {
        if value.len() > 0 {
            d.uid = Some(text_of(value));
        }
    } else if has_prefix(up, chars_of("SUMMARY").as_slice()) {
        d.title = Some(text_of(unescape_ical_text(value).as_slice()));
    } else if has_prefix(up, chars_of("DESCRIPTION").as_slice()) {
        d.notes = Some(text_of(unescape_ical_text(value).as_slice()));
    } else if has_prefix(up, chars_of("DUE").as_slice()) {
        d.due_at = parse_todo_datetime(property, value);
    } else if has_prefix(up, chars_of("COMPLETED").as_slice()) {
        d.completed_at = parse_todo_datetime(property, value);
    } else if has_prefix(up, chars_of("STATUS").as_slice()) {
        d.status = ical_status_to_task_status(value);
    } else if has_prefix(up, chars_of("PRIORITY").as_slice()) {
        d.priority = ical_priority_to_task_priority(value);
    } else if has_prefix(up, chars_of("RRULE").as_slice()) {
        d.repeat_rule = Some(text_of(value));
    } else if has_prefix(up, chars_of("RELATED-TO").as_slice()) {
        let text = text_of(value);
        d.parent_id = parse_uuid(text.as_str());
    } else if has_prefix(up, chars_of("CREATED").as_slice()) {
        d.created_at = parse_todo_datetime(property, value);
    } else if has_prefix(up, chars_of("LAST-MODIFIED").as_slice())
        || has_prefix(up, chars_of("DTSTAMP").as_slice()) {
        match parse_todo_datetime(property, value) {
            Some(t) => {
                d.updated_at = Some(t);
            },
            None => {},
        }
    }
}

/// Reads every `VTODO` of an iCalendar payload.
pub fn parse_ical_todo_fields(payload: &str) -> (r: Vec<IcalTodo>)
    ensures
        r@.map_values(|t: IcalTodo| t.fields()) == ical_todos(payload@),
{
    let chars = chars_of(payload);
    let lines = unfold_ical_lines(chars.as_slice());
    let ghost ls = views(lines@);
    let begin = chars_of("BEGIN:VTODO");
    let end = chars_of("END:VTODO");
    let mut in_todo = false;
    let mut current = IcalTodo::empty();
    let mut out: Vec<IcalTodo> = Vec::new();
    assert(ls.take(0) =~= Seq::<Seq<char>>::empty());
    assert(out@.map_values(|t: IcalTodo| t.fields()) =~= Seq::<TodoFields>::empty());
    for i in 0..lines.len()
        invariant
            ls == views(lines@),
            ls == unfolded_lines(payload@),
            begin@ == "BEGIN:VTODO"@,
            end@ == "END:VTODO"@,
            todo_scan(ls.take(i as int)) == (TodoScan {
                in_todo,
                current: current.fields(),
                todos: out@.map_values(|t: IcalTodo| t.fields()),
            }),
    {
        assert(ls.take(i + 1).drop_last() =~= ls.take(i as int));
        assert(ls.take(i + 1).last() == lines[i as int]@);
        let t = trimmed(lines[i].as_slice());
        if eq_ignore_ascii_case(t.as_slice(), begin.as_slice()) {
            in_todo = true;
            current = IcalTodo::empty();
        } else if eq_ignore_ascii_case(t.as_slice(), end.as_slice()) {
            in_todo = false;
            let ghost before = out@.map_values(|t: IcalTodo| t.fields());
            let c = current.copy();
            out.push(c);
            assert(out@.map_values(|t: IcalTodo| t.fields()) =~= before.push(current.fields()));
        } else if in_todo {
            match split_once_char(t.as_slice(), ':') {
                Some((p, v)) => {
                    let p = trimmed(p.as_slice());
                    let v = trimmed(v.as_slice());
                    apply_todo_line(&mut current, p.as_slice(), v.as_slice());
                },
                None => {},
            }
        }
    }
    assert(ls.take(lines.len() as int) =~= ls);
    out
}

/// `t` is the task built from the to-do fields `f` at the instant `now`: the
/// title defaults to "Untitled task", creation falls back to the update time
/// and then to `now`, and the update time falls back to the creation time.
pub open spec fn todo_matches(t: ReminderTask, f: TodoFields, account_id: u128, list_id: Seq<char>, now: i64) -> bool {
    let created = match f.created_at {
        Some(c) => c,
        None => match f.updated_at {
            Some(u) => u,
            None => now,
        },
    };
    &&& t.account_id == account_id
    &&& t.list_id@ == list_id
    &&& opt_view(t.remote_id) == f.uid
    &&& t.title@ == (match f.title {
        Some(x) => x,
        None => "Untitled task"@,
    })
    &&& opt_view(t.notes) == f.notes
    &&& t.due_at == f.due_at
    &&& t.completed_at == f.completed_at
    &&& t.priority == f.priority
    &&& t.status == f.status
    &&& opt_view(t.repeat_rule) == f.repeat_rule
    &&& t.parent_id == f.parent_id
    &&& t.snoozed_until.is_none()
    &&& t.created_at == created
    &&& t.updated_at == (match f.updated_at {
        Some(u) => u,
        None => created,
    })
}

fn task_from_todo(f: IcalTodo, account_id: u128, list_id: &str, now: i64) -> (t: ReminderTask)
    ensures
        todo_matches(t, f.fields(), account_id, list_id@, now),
{
    let created = match f.created_at {
        Some(c) => c,
        None => match f.updated_at {
            Some(u) => u,
            None => now,
        },
    };
    let updated = match f.updated_at {
        Some(u) => u,
        None => created,
    };
    let title = match f.title {
        Some(x) => x,
        None => "Untitled task".to_owned(),
    };
    ReminderTask {
        id: new_id(),
        account_id,
        list_id: list_id.to_owned(),
        remote_id: f.uid,
        title,
        notes: f.notes,
        due_at: f.due_at,
        completed_at: f.completed_at,
        priority: f.priority,
        status: f.status,
        repeat_rule: f.repeat_rule,
        parent_id: f.parent_id,
        snoozed_until: None,
        created_at: created,
        updated_at: updated,
    }
}

/// Appends the to-dos of an iCalendar payload, read at the instant `now`, as
/// tasks of a list to `out`; each gets a fresh id.
pub fn append_ical_todos_at(out: &mut Vec<ReminderTask>, account_id: u128, list_id: &str, ics_payload: &str, now: i64)
    ensures
        final(out).len() == old(out).len() + ical_todos(ics_payload@).len(),
        forall|i: int| 0 <= i < old(out).len() ==> final(out)@[i] == old(out)@[i],
        forall|i: int| 0 <= i < ical_todos(ics_payload@).len() ==> todo_matches(
            #[trigger] final(out)@[old(out).len() + i], ical_todos(ics_payload@)[i], account_id, list_id@, now),
{
    let mut fields = parse_ical_todo_fields(ics_payload);
    let ghost all = fields@.map_values(|t: IcalTodo| t.fields());
    let ghost start = out@;
    let n = fields.len();
    let mut rev: Vec<IcalTodo> = Vec::new();
    while fields.len() > 0
        invariant
            fields.len() + rev.len() == n,
            all.len() == n,
            forall|i: int| 0 <= i < fields.len() ==> (#[trigger] fields@[i]).fields() == all[i],
            forall|i: int| 0 <= i < rev.len() ==> (#[trigger] rev@[i]).fields() == all[n - 1 - i],
        decreases fields.len(),
    {
        let e = fields.pop().unwrap();
        rev.push(e);
    }
    while rev.len() > 0
        invariant
            out.len() == start.len() + n - rev.len(),
            rev.len() <= n,
            all.len() == n,
            forall|i: int| 0 <= i < rev.len() ==> (#[trigger] rev@[i]).fields() == all[n - 1 - i],
            forall|i: int| 0 <= i < start.len() ==> out@[i] == start[i],
            forall|i: int| 0 <= i < n - rev.len() ==> todo_matches(#[trigger] out@[start.len() + i], all[i], account_id, list_id@, now),
        decreases rev.len(),
    {
        let f = rev.pop().unwrap();
        let t = task_from_todo(f, account_id, list_id, now);
        out.push(t);
    }
}

/// Reads the to-dos of an iCalendar payload as tasks of a list, at the instant `now`.
pub fn parse_ical_vtodo_entries_at(account_id: u128, list_id: &str, ics_payload: &str, now: i64) -> (r: Vec<ReminderTask>)
    ensures
        r.len() == ical_todos(ics_payload@).len(),
        forall|i: int| 0 <= i < r.len() ==> todo_matches(#[trigger] r@[i], ical_todos(ics_payload@)[i], account_id, list_id@, now),
{
    let mut out: Vec<ReminderTask> = Vec::new();
    append_ical_todos_at(&mut out, account_id, list_id, ics_payload, now);
    assert forall|i: int| 0 <= i < out.len() implies todo_matches(#[trigger] out@[i], ical_todos(ics_payload@)[i], account_id, list_id@, now) by {
        assert(out@[0 + i] == out@[i]);
    }
    out
}

/// Reads the to-dos of an iCalendar payload as tasks of a list; a to-do with
/// neither a creation nor an update time is stamped with the current time.
pub fn parse_ical_vtodo_entries(account_id: u128, list_id: &str, ics_payload: &str) -> (r: Vec<ReminderTask>)
    ensures
        r.len() == ical_todos(ics_payload@).len(),
        exists|now: i64| chrono_time(now) && forall|i: int| 0 <= i < r.len() ==> todo_matches(#[trigger] r@[i], ical_todos(ics_payload@)[i], account_id, list_id@, now),
{
    let now = now_utc();
    parse_ical_vtodo_entries_at(account_id, list_id, ics_payload, now)
}

/// The to-dos of every calendar-data block, in order.
pub open spec fn todos_of_blocks(blocks: Seq<Seq<char>>) -> Seq<TodoFields>
    decreases blocks.len(),
{
    if blocks.len() == 0 {
        Seq::empty()
    } else {
        todos_of_blocks(blocks.drop_last()) + ical_todos(blocks.last())
    }
}

/// Reads the to-dos of a CalDAV `REPORT` response at the instant `now`.
pub fn parse_caldav_vtodo_data_at(account_id: u128, list_id: &str, payload: &str, now: i64) -> (r: Vec<ReminderTask>)
    ensures
        r.len() == todos_of_blocks(caldav_blocks(payload@)).len(),
        forall|i: int| 0 <= i < r.len() ==> todo_matches(#[trigger] r@[i], todos_of_blocks(caldav_blocks(payload@))[i], account_id, list_id@, now),
{
    let blocks = caldav_calendar_data(payload);
    let ghost bs = strings_view(blocks@);
    let mut out: Vec<ReminderTask> = Vec::new();
    assert(bs.take(0) =~= Seq::<Seq<char>>::empty());
    for i in 0..blocks.len()
        invariant
            bs == strings_view(blocks@),
            bs == caldav_blocks(payload@),
            out.len() == todos_of_blocks(bs.take(i as int)).len(),
            forall|k: int| 0 <= k < out.len() ==> todo_matches(#[trigger] out@[k], todos_of_blocks(bs.take(i as int))[k], account_id, list_id@, now),
    {
        assert(bs.take(i + 1).drop_last() =~= bs.take(i as int));
        assert(bs.take(i + 1).last() == blocks@[i as int]@);
        let ghost pre = todos_of_blocks(bs.take(i as int));
        let ghost added = ical_todos(blocks@[i as int]@);
        append_ical_todos_at(&mut out, account_id, list_id, blocks[i].as_str(), now);
        assert forall|k: int| 0 <= k < out.len() implies todo_matches(#[trigger] out@[k], todos_of_blocks(bs.take(i + 1))[k], account_id, list_id@, now) by {
            assert(todos_of_blocks(bs.take(i + 1)) == pre + added);
            if k >= pre.len() {
                assert(out@[pre.len() + (k - pre.len())] == out@[k]);
            }
        }
    }
    assert(bs.take(blocks.len() as int) =~= bs);
    out
}

/// Reads the to-dos of a CalDAV `REPORT` response; to-dos without times are
/// stamped with the current time.
pub fn parse_caldav_vtodo_data(account_id: u128, list_id: &str, payload: &str) -> (r: Vec<ReminderTask>)
    ensures
        r.len() == todos_of_blocks(caldav_blocks(payload@)).len(),
        exists|now: i64| chrono_time(now) && forall|i: int| 0 <= i < r.len() ==> todo_matches(#[trigger] r@[i], todos_of_blocks(caldav_blocks(payload@))[i], account_id, list_id@, now),
{
    let now = now_utc();
    parse_caldav_vtodo_data_at(account_id, list_id, payload, now)
}

}

verus! {

// ------------------------------------------------------------------ VTODO writing

/// The iCalendar document for one task with the given `UID` and `DTSTAMP` texts.
pub open spec fn todo_ics(t: ReminderTask, remote_id: Seq<char>, stamp: Seq<char>) -> Seq<char> {
    "BEGIN:VCALENDAR\r\nVERSION:2.0\r\nPRODID:-//AegisInbox//EN\r\n"@ + "BEGIN:VTODO\r\n"@
        + text_line("UID:"@, remote_id)
        + "DTSTAMP:"@ + stamp + "\r\n"@
        + text_line("SUMMARY:"@, t.title@)
        + opt_text_line("DESCRIPTION:"@, opt_view(t.notes))
        + todo_tail(t)
}

/// The lines of a task's `VTODO` block after its description, through the end
/// of the calendar.
pub open spec fn todo_tail(t: ReminderTask) -> Seq<char> {
    todo_schedule(t) + todo_links(t)
}

/// The due, completion, status and priority lines of a task.
pub open spec fn todo_schedule(t: ReminderTask) -> Seq<char> {
    opt_time_line("DUE:"@, t.due_at, "%Y%m%dT%H%M%SZ"@)
        + opt_time_line("COMPLETED:"@, t.completed_at, "%Y%m%dT%H%M%SZ"@)
        + "STATUS:"@ + ical_status_text(t.status) + "\r\n"@
        + "PRIORITY:"@ + decimal(ical_priority_number(t.priority) as nat) + "\r\n"@
}

/// The recurrence and parent lines of a task, and the closing lines.
pub open spec fn todo_links(t: ReminderTask) -> Seq<char> {
    raw_line("RRULE:"@, opt_view(t.repeat_rule))
        + (match t.parent_id {
            Some(p) => "RELATED-TO:"@ + uuid_text(p) + "\r\n"@,
            None => Seq::empty(),
        })
        + "END:VTODO\r\nEND:VCALENDAR\r\n"@
}

pub open spec fn todo_renderable(t: ReminderTask) -> bool {
    &&& (t.due_at matches Some(d) ==> formattable(d))
    &&& (t.completed_at matches Some(c) ==> formattable(c))
}

fn push_opt_time_line(out: &mut Vec<char>, name: &str, t: Option<i64>, fmt: &str)
    requires
        t matches Some(x) ==> formattable(x),
        crate::time::known_format(fmt@),
    ensures
        final(out)@ == old(out)@ + opt_time_line(name@, t, fmt@),
        fmt@ == "%Y%m%dT%H%M%SZ"@ ==> (t matches Some(x) ==> (crate::time::four_digit_year(x) ==> crate::ical_round_trip::reads_back(format_secs(x, fmt@), x))),
{
    match t {
        Some(x) => {
            push_str(out, name);
            let f = format_time(x, fmt);
            push_str(out, f.as_str());
            push_str(out, "\r\n");
            assert(final(out)@ =~= old(out)@ + opt_time_line(name@, t, fmt@));
        },
        None => {
            assert(old(out)@ + Seq::<char>::empty() =~= old(out)@);
        },
    }
}

fn push_status_priority(out: &mut Vec<char>, task: &ReminderTask)
    ensures
        final(out)@ == old(out)@ + "STATUS:"@ + ical_status_text(task.status) + "\r\n"@
            + "PRIORITY:"@ + decimal(ical_priority_number(task.priority) as nat) + "\r\n"@,
{
    push_str(out, "STATUS:");
    push_str(out, task_status_to_ical_status(task.status));
    push_str(out, "\r\n");
    push_str(out, "PRIORITY:");
    let p = decimal_text(task_priority_to_ical_priority(task.priority) as u64);
    extend(out, p.as_slice());
    push_str(out, "\r\n");
    assert(final(out)@ =~= old(out)@ + "STATUS:"@ + ical_status_text(task.status) + "\r\n"@
        + "PRIORITY:"@ + decimal(ical_priority_number(task.priority) as nat) + "\r\n"@);
}

fn push_related_to(out: &mut Vec<char>, parent: Option<u128>)
    ensures
        final(out)@ == old(out)@ + (match parent {
            Some(p) => "RELATED-TO:"@ + uuid_text(p) + "\r\n"@,
            None => Seq::empty(),
        }),
        parent matches Some(p) ==> (crate::ids::hyphenated_uuid(uuid_text(p)) && uuid_value(uuid_text(p)) == Some(p)),
{
    match parent {
        Some(p) => {
            push_str(out, "RELATED-TO:");
            let text = uuid_to_string(p);
            proof {
                crate::ids::lemma_uuid_text_hyphenated(p);
            }
            push_str(out, text.as_str());
            push_str(out, "\r\n");
            assert(final(out)@ =~= old(out)@ + ("RELATED-TO:"@ + uuid_text(p) + "\r\n"@));
        },
        None => {
            assert(old(out)@ + Seq::<char>::empty() =~= old(out)@);
        },
    }
}

fn push_raw_line(out: &mut Vec<char>, name: &str, value: &Option<String>)
    ensures
        final(out)@ == old(out)@ + raw_line(name@, opt_view(*value)),
{
    match value {
        Some(v) => {
            push_str(out, name);
            push_str(out, v.as_str());
            push_str(out, "\r\n");
            assert(final(out)@ =~= old(out)@ + raw_line(name@, opt_view(*value)));
        },
        None => {
            assert(old(out)@ + Seq::<char>::empty() =~= old(out)@);
        },
    }
}

fn push_todo_schedule(out: &mut Vec<char>, task: &ReminderTask)
    requires
        todo_renderable(*task),
    ensures
        final(out)@ == old(out)@ + todo_schedule(*task),
        task.due_at matches Some(x) ==> (crate::time::four_digit_year(x) ==> crate::ical_round_trip::reads_back(format_secs(x, "%Y%m%dT%H%M%SZ"@), x)),
        task.completed_at matches Some(x) ==> (crate::time::four_digit_year(x) ==> crate::ical_round_trip::reads_back(format_secs(x, "%Y%m%dT%H%M%SZ"@), x)),
{
    let ghost s0 = out@;
    push_opt_time_line(out, "DUE:", task.due_at, "%Y%m%dT%H%M%SZ");
    push_opt_time_line(out, "COMPLETED:", task.completed_at, "%Y%m%dT%H%M%SZ");
    push_status_priority(out, task);
    assert(out@ =~= s0 + todo_schedule(*task));
}

fn push_todo_links(out: &mut Vec<char>, task: &ReminderTask)
    ensures
        final(out)@ == old(out)@ + todo_links(*task),
        task.parent_id matches Some(p) ==> (crate::ids::hyphenated_uuid(uuid_text(p)) && uuid_value(uuid_text(p)) == Some(p)),
{
    let ghost s0 = out@;
    push_raw_line(out, "RRULE:", &task.repeat_rule);
    push_related_to(out, task.parent_id);
    push_str(out, "END:VTODO\r\nEND:VCALENDAR\r\n");
    assert(out@ =~= s0 + todo_links(*task));
}

/// The iCalendar document for one task, with the given `UID` and `DTSTAMP` texts.
pub fn render_vtodo_ics_with(task: &ReminderTask, remote_id: &str, stamp: &str) -> (r: String)
    requires
        todo_renderable(*task),
    ensures
        r@ == todo_ics(*task, remote_id@, stamp@),
        task.due_at matches Some(x) ==> (crate::time::four_digit_year(x) ==> crate::ical_round_trip::reads_back(format_secs(x, "%Y%m%dT%H%M%SZ"@), x)),
        task.completed_at matches Some(x) ==> (crate::time::four_digit_year(x) ==> crate::ical_round_trip::reads_back(format_secs(x, "%Y%m%dT%H%M%SZ"@), x)),
        task.parent_id matches Some(p) ==> (crate::ids::hyphenated_uuid(uuid_text(p)) && uuid_value(uuid_text(p)) == Some(p)),
{
    let mut out: Vec<char> = Vec::new();
    push_str(&mut out, "BEGIN:VCALENDAR\r\nVERSION:2.0\r\nPRODID:-//AegisInbox//EN\r\n");
    push_str(&mut out, "BEGIN:VTODO\r\n");
    let rid = chars_of(remote_id);
    push_text_line(&mut out, "UID:", rid.as_slice());
    push_str(&mut out, "DTSTAMP:");
    push_str(&mut out, stamp);
    push_str(&mut out, "\r\n");
    let title = chars_of(task.title.as_str());
    push_text_line(&mut out, "SUMMARY:", title.as_slice());
    push_opt_text_line(&mut out, "DESCRIPTION:", &task.notes);
    push_todo_schedule(&mut out, task);
    push_todo_links(&mut out, task);
    assert(out@ =~= todo_ics(*task, remote_id@, stamp@));
    string_from_chars(out.as_slice())
}

/// The iCalendar document for one task under the given remote id, stamped
/// with the time it was written. Reading it back gives the task again, where
/// its texts survive the format.
pub fn render_single_vtodo_ics(task: &ReminderTask, remote_id: &str) -> (r: String)
    requires
        todo_renderable(*task),
    ensures
        exists|stamp: Seq<char>| r@ == todo_ics(*task, remote_id@, stamp),
        crate::todo_round_trip::todo_round_trips(*task, remote_id@) ==> {
            &&& ical_todos(r@).len() == 1
            &&& crate::todo_round_trip::todo_read_back(ical_todos(r@)[0], *task, remote_id@)
        },
{
    let stamp = format_now("%Y%m%dT%H%M%SZ");
    let r = render_vtodo_ics_with(task, remote_id, stamp.as_str());
    proof {
        if crate::todo_round_trip::todo_round_trips(*task, remote_id@) {
            crate::todo_round_trip::lemma_todo_round_trip(*task, remote_id@, stamp@);
        }
    }
    r
}

}
