//! Reading back what `render_single_vtodo_ics` writes, line by line.
use vstd::prelude::*;
use crate::text::{ascii_lower, ascii_lower_char, eq_ignore_case, first_char, is_ws, lemma_first_char_unique};
use crate::ical::{
    escape_text, lemma_unescape_escape, opt_text_line, opt_time_line, opt_view, raw_line, todo_time,
    unescape_text,
};
use crate::ical_round_trip::{
    crlf_joined, escape_free, lemma_char_differs, lemma_crlf_joined_concat, lemma_crlf_joined_one,
    lemma_crlf_joined_two, lemma_doc_names, lemma_doc_text_line, lemma_escape_free_same, lemma_escape_value,
    lemma_one_plain, lemma_plain_concat, lemma_property_line_plain, lemma_stamp_value, lemma_trim_same,
    lemma_unfolded_crlf_joined, lemma_upper_name, lemma_whole_prefix, line_text, plain_line, plain_lines, prop,
    property_name, property_value, raw_prop_lines, reads_back, text_prop_lines,
};
use crate::ids::{hyphenated_uuid, uuid_text, uuid_value};
use crate::model::{ReminderTask, TaskPriority, TaskStatus};
use crate::numbers::{decimal, parse_unsigned};
use crate::tasks::{
    apply_todo_property, ical_priority, ical_priority_number, ical_status, ical_status_text, ical_todos,
    no_todo_fields, todo_ics, todo_links, todo_scan, todo_scan_step, todo_schedule, todo_tail,
    TodoFields, TodoScan,
};
use crate::time::{format_secs, four_digit_year};

verus! {

/// The scan of `ls` continued from the state `st`.
pub open spec fn todo_scan_from(st: TodoScan, ls: Seq<Seq<char>>) -> TodoScan
    decreases ls.len(),
{
    if ls.len() == 0 {
        st
    } else {
        todo_scan_step(todo_scan_from(st, ls.drop_last()), ls.last())
    }
}

pub open spec fn todo_scan_start() -> TodoScan {
    TodoScan { in_todo: false, current: no_todo_fields(), todos: Seq::empty() }
}

proof fn lemma_todo_scan_is_scan_from(ls: Seq<Seq<char>>)
    ensures
        todo_scan(ls) == todo_scan_from(todo_scan_start(), ls),
    decreases ls.len(),
{
    if ls.len() > 0 {
        lemma_todo_scan_is_scan_from(ls.drop_last());
    }
}

proof fn lemma_todo_scan_concat(st: TodoScan, a: Seq<Seq<char>>, b: Seq<Seq<char>>)
    ensures
        todo_scan_from(st, a + b) == todo_scan_from(todo_scan_from(st, a), b),
    decreases b.len(),
{
    if b.len() == 0 {
        assert(a + b =~= a);
    } else {
        lemma_todo_scan_concat(st, a, b.drop_last());
        assert((a + b).drop_last() =~= a + b.drop_last());
        assert((a + b).last() == b.last());
    }
}

proof fn lemma_todo_scan_one(st: TodoScan, l: Seq<char>)
    ensures
        todo_scan_from(st, seq![l]) == todo_scan_step(st, l),
{
    assert(seq![l].drop_last() =~= Seq::<Seq<char>>::empty());
    assert(todo_scan_from(st, Seq::<Seq<char>>::empty()) == st);
}

/// A line outside a to-do that is neither `BEGIN:VTODO` nor `END:VTODO`.
pub open spec fn todo_outside_line(l: Seq<char>) -> bool {
    &&& l.len() > 0 && !is_ws(l[0]) && !is_ws(l.last())
    &&& (l.len() != 11 && l.len() != 9) || (ascii_lower_char(l[0]) != 'b' && ascii_lower_char(l[0]) != 'e')
}

proof fn lemma_todo_skip_line(st: TodoScan, l: Seq<char>)
    requires
        !st.in_todo,
        todo_outside_line(l),
    ensures
        todo_scan_step(st, l) == st,
{
    reveal_strlit("BEGIN:VTODO");
    reveal_strlit("END:VTODO");
    lemma_trim_same(l);
    assert(ascii_lower(l).len() == l.len());
    assert(ascii_lower(l)[0] == ascii_lower_char(l[0]));
    assert(ascii_lower("BEGIN:VTODO"@)[0] == 'b');
    assert(ascii_lower("END:VTODO"@)[0] == 'e');
    assert(ascii_lower(l) != ascii_lower("BEGIN:VTODO"@));
    assert(ascii_lower(l) != ascii_lower("END:VTODO"@));
}

proof fn lemma_todo_begin_end(st: TodoScan)
    ensures
        todo_scan_step(st, "BEGIN:VTODO"@) == (TodoScan { in_todo: true, current: no_todo_fields(), todos: st.todos }),
        todo_scan_step(st, "END:VTODO"@) == (TodoScan { in_todo: false, current: st.current, todos: st.todos.push(st.current) }),
{
    reveal_strlit("BEGIN:VTODO");
    reveal_strlit("END:VTODO");
    lemma_trim_same("BEGIN:VTODO"@);
    lemma_trim_same("END:VTODO"@);
    assert(ascii_lower("END:VTODO"@).len() == 9);
    assert(ascii_lower("BEGIN:VTODO"@).len() == 11);
}

proof fn lemma_todo_property_step(st: TodoScan, n: Seq<char>, v: Seq<char>)
    requires
        property_name(n),
        property_value(v),
        st.in_todo,
    ensures
        todo_scan_step(st, n + seq![':'] + v) == (TodoScan { current: apply_todo_property(st.current, n, v), ..st }),
{
    let l = n + seq![':'] + v;
    assert(l[0] == n[0]);
    lemma_property_line_plain(n, v);
    if v.len() > 0 {
        assert(l.last() == v.last());
    } else {
        assert(l.last() == ':');
    }
    assert(!is_ws(n[0]));
    lemma_trim_same(l);
    assert(n[0] != 'B' && n[0] != 'E' && ('A' <= n[0] && n[0] <= 'Z'));
    assert(ascii_lower_char(l[0]) != 'b' && ascii_lower_char(l[0]) != 'e');
    reveal_strlit("BEGIN:VTODO");
    reveal_strlit("END:VTODO");
    assert(ascii_lower(l)[0] == ascii_lower_char(l[0]));
    assert(ascii_lower("BEGIN:VTODO"@)[0] == 'b');
    assert(ascii_lower("END:VTODO"@)[0] == 'e');
    assert(!eq_ignore_case(l, "BEGIN:VTODO"@));
    assert(!eq_ignore_case(l, "END:VTODO"@));
    let k = n.len() as int;
    assert(first_char(l, ':', k)) by {
        assert forall|j: int| 0 <= j < k implies l[j] != ':' by {
            assert(l[j] == n[j]);
        }
    }
    assert(l.contains(':')) by {
        assert(l[k] == ':');
    }
    let i = choose|i: int| first_char(l, ':', i);
    lemma_first_char_unique(l, ':', i, k);
    assert(l.take(k) =~= n);
    assert(l.skip(k + 1) =~= v);
    lemma_trim_same(n);
    lemma_trim_same(v);
}

proof fn lemma_todo_names()
    ensures
        property_name("DUE"@),
        property_name("COMPLETED"@),
        property_name("STATUS"@),
        property_name("PRIORITY"@),
        property_name("RELATED-TO"@),
{
    reveal_strlit("DUE");
    reveal_strlit("COMPLETED");
    reveal_strlit("STATUS");
    reveal_strlit("PRIORITY");
    reveal_strlit("RELATED-TO");
}

/// What each written property does to the to-do fields read so far.
proof fn lemma_todo_apply_names(d: TodoFields, v: Seq<char>)
    ensures
        v.len() > 0 ==> apply_todo_property(d, "UID"@, v) == (TodoFields { uid: Some(v), ..d }),
        apply_todo_property(d, "SUMMARY"@, v) == (TodoFields { title: Some(unescape_text(v)), ..d }),
        apply_todo_property(d, "DESCRIPTION"@, v) == (TodoFields { notes: Some(unescape_text(v)), ..d }),
        apply_todo_property(d, "DUE"@, v) == (TodoFields { due_at: todo_time("DUE"@, v), ..d }),
        apply_todo_property(d, "COMPLETED"@, v) == (TodoFields { completed_at: todo_time("COMPLETED"@, v), ..d }),
        apply_todo_property(d, "STATUS"@, v) == (TodoFields { status: ical_status(v), ..d }),
        apply_todo_property(d, "PRIORITY"@, v) == (TodoFields { priority: ical_priority(v), ..d }),
        apply_todo_property(d, "RRULE"@, v) == (TodoFields { repeat_rule: Some(v), ..d }),
        apply_todo_property(d, "RELATED-TO"@, v) == (TodoFields { parent_id: uuid_value(v), ..d }),
        apply_todo_property(d, "DTSTAMP"@, v) == (TodoFields { updated_at: apply_todo_property(d, "DTSTAMP"@, v).updated_at, ..d }),
{
    reveal_strlit("UID");
    reveal_strlit("SUMMARY");
    reveal_strlit("DESCRIPTION");
    reveal_strlit("DUE");
    reveal_strlit("COMPLETED");
    reveal_strlit("STATUS");
    reveal_strlit("PRIORITY");
    reveal_strlit("RRULE");
    reveal_strlit("RELATED-TO");
    reveal_strlit("CREATED");
    reveal_strlit("LAST-MODIFIED");
    reveal_strlit("DTSTAMP");
    crate::ical_round_trip::lemma_names();
    lemma_todo_names();
    let uid = "UID"@;
    let sum = "SUMMARY"@;
    let des = "DESCRIPTION"@;
    let due = "DUE"@;
    let com = "COMPLETED"@;
    let sta = "STATUS"@;
    let pri = "PRIORITY"@;
    let rr = "RRULE"@;
    let rel = "RELATED-TO"@;
    let cre = "CREATED"@;
    let lm = "LAST-MODIFIED"@;
    let stamp = "DTSTAMP"@;
    lemma_upper_name(uid);
    lemma_upper_name(sum);
    lemma_upper_name(des);
    lemma_upper_name(due);
    lemma_upper_name(com);
    lemma_upper_name(sta);
    lemma_upper_name(pri);
    lemma_upper_name(rr);
    lemma_upper_name(rel);
    lemma_upper_name(stamp);
    lemma_whole_prefix(uid);
    lemma_whole_prefix(sum);
    lemma_whole_prefix(des);
    lemma_whole_prefix(due);
    lemma_whole_prefix(com);
    lemma_whole_prefix(sta);
    lemma_whole_prefix(pri);
    lemma_whole_prefix(rr);
    lemma_whole_prefix(rel);
    lemma_whole_prefix(stamp);
    lemma_char_differs(sum, uid, 0);
    lemma_char_differs(des, uid, 0);
    lemma_char_differs(des, sum, 0);
    lemma_char_differs(due, uid, 0);
    lemma_char_differs(due, sum, 0);
    lemma_char_differs(due, des, 1);
    lemma_char_differs(com, uid, 0);
    lemma_char_differs(com, sum, 0);
    lemma_char_differs(com, des, 0);
    lemma_char_differs(com, due, 0);
    lemma_char_differs(sta, uid, 0);
    lemma_char_differs(sta, sum, 1);
    lemma_char_differs(sta, des, 0);
    lemma_char_differs(sta, due, 0);
    lemma_char_differs(sta, com, 0);
    lemma_char_differs(pri, uid, 0);
    lemma_char_differs(pri, sum, 0);
    lemma_char_differs(pri, des, 0);
    lemma_char_differs(pri, due, 0);
    lemma_char_differs(pri, com, 0);
    lemma_char_differs(pri, sta, 0);
    lemma_char_differs(rr, uid, 0);
    lemma_char_differs(rr, sum, 0);
    lemma_char_differs(rr, des, 0);
    lemma_char_differs(rr, due, 0);
    lemma_char_differs(rr, com, 0);
    lemma_char_differs(rr, sta, 0);
    lemma_char_differs(rr, pri, 0);
    lemma_char_differs(rel, uid, 0);
    lemma_char_differs(rel, sum, 0);
    lemma_char_differs(rel, des, 0);
    lemma_char_differs(rel, due, 0);
    lemma_char_differs(rel, com, 0);
    lemma_char_differs(rel, sta, 0);
    lemma_char_differs(rel, pri, 0);
    lemma_char_differs(rel, rr, 1);
    lemma_char_differs(stamp, uid, 0);
    lemma_char_differs(stamp, sum, 0);
    lemma_char_differs(stamp, des, 1);
    lemma_char_differs(stamp, due, 1);
    lemma_char_differs(stamp, com, 0);
    lemma_char_differs(stamp, sta, 0);
    lemma_char_differs(stamp, pri, 0);
    lemma_char_differs(stamp, rr, 0);
    lemma_char_differs(stamp, rel, 0);
    lemma_char_differs(stamp, cre, 0);
    lemma_char_differs(stamp, lm, 0);
}

proof fn lemma_todo_time_value(n: Seq<char>, text: Seq<char>, t: i64)
    requires
        reads_back(text, t),
    ensures
        property_value(text),
        todo_time(n, text) == Some(t),
{
    assert forall|i: int| 0 <= i < text.len() implies #[trigger] text[i] != '\r' && text[i] != '\n' by {
        if i != 8 && i != 15 {
            assert('0' <= text[i] && text[i] <= '9');
        }
    }
    assert(text[0] != ' ' && '0' <= text[0]);
    assert(text.last() == text[15]);
}

proof fn lemma_status_value(s: TaskStatus)
    ensures
        property_value(ical_status_text(s)),
        property_name(ical_status_text(s)),
        ical_status(ical_status_text(s)) == s,
{
    reveal_strlit("COMPLETED");
    reveal_strlit("IN-PROCESS");
    reveal_strlit("CANCELLED");
    reveal_strlit("NEEDS-ACTION");
    let t = ical_status_text(s);
    assert(property_name(t));
    lemma_upper_name(t);
    assert(t.last() == t[t.len() - 1]);
    assert("COMPLETED"@.len() != "NEEDS-ACTION"@.len());
    assert("IN-PROCESS"@.len() != "NEEDS-ACTION"@.len());
    assert("CANCELLED"@.len() != "NEEDS-ACTION"@.len());
    assert("COMPLETED"@.len() != "IN-PROCESS"@.len());
    assert("CANCELLED"@.len() != "IN-PROCESS"@.len());
    assert("COMPLETED"@[1] != "CANCELLED"@[1]);
}

proof fn lemma_priority_value(p: TaskPriority)
    ensures
        property_value(decimal(ical_priority_number(p) as nat)),
        ical_priority(decimal(ical_priority_number(p) as nat)) == p,
{
    let n = ical_priority_number(p) as nat;
    let d = decimal(n);
    assert(d == seq![crate::numbers::digit_char(n)]);
    let c = crate::numbers::digit_char(n);
    assert(c == (('0' as u32) + n) as char);
    assert('1' <= c <= '7');
    assert(d.drop_last() =~= Seq::<char>::empty());
    assert(d.last() == c);
    assert(crate::numbers::digits_value(Seq::<char>::empty()) == 0);
    assert(c as u32 == ('0' as u32) + n);
    assert(crate::numbers::digit_value(c) == n);
    assert(crate::numbers::digits_value(d) == n);
    assert(crate::numbers::unsigned_digits(d) == Some(d));
    assert(parse_unsigned(d, 255) == Some(n));
}

proof fn lemma_uuid_value(text: Seq<char>)
    requires
        hyphenated_uuid(text),
    ensures
        property_value(text),
{
    assert forall|i: int| 0 <= i < text.len() implies #[trigger] text[i] != '\r' && text[i] != '\n' by {
        assert(('0' <= text[i] && text[i] <= '9') || ('a' <= text[i] && text[i] <= 'f') || text[i] == '-');
    }
    assert(('0' <= text[0] && text[0] <= '9') || ('a' <= text[0] && text[0] <= 'f') || text[0] == '-');
    assert(('0' <= text[35] && text[35] <= '9') || ('a' <= text[35] && text[35] <= 'f') || text[35] == '-');
    assert(text.last() == text[35]);
}

pub open spec fn time_prop_lines(n: Seq<char>, o: Option<i64>) -> Seq<Seq<char>> {
    match o {
        Some(t) => seq![prop(n, format_secs(t, "%Y%m%dT%H%M%SZ"@))],
        None => Seq::empty(),
    }
}

pub open spec fn parent_lines(o: Option<u128>) -> Seq<Seq<char>> {
    match o {
        Some(p) => seq![prop("RELATED-TO"@, uuid_text(p))],
        None => Seq::empty(),
    }
}

/// The lines written after a task's description.
pub open spec fn todo_tail_lines(t: ReminderTask) -> Seq<Seq<char>> {
    time_prop_lines("DUE"@, t.due_at)
        + time_prop_lines("COMPLETED"@, t.completed_at)
        + seq![prop("STATUS"@, ical_status_text(t.status)), prop("PRIORITY"@, decimal(ical_priority_number(t.priority) as nat))]
        + raw_prop_lines("RRULE"@, opt_view(t.repeat_rule))
        + parent_lines(t.parent_id)
        + seq!["END:VTODO"@, "END:VCALENDAR"@]
}

/// The lines of the document written for a task.
pub open spec fn todo_doc_lines(t: ReminderTask, rid: Seq<char>, stamp: Seq<char>) -> Seq<Seq<char>> {
    seq!["BEGIN:VCALENDAR"@, "VERSION:2.0"@, "PRODID:-//AegisInbox//EN"@]
        + seq!["BEGIN:VTODO"@]
        + seq![prop("UID"@, escape_text(rid))]
        + seq![prop("DTSTAMP"@, stamp)]
        + seq![prop("SUMMARY"@, escape_text(t.title@))]
        + text_prop_lines("DESCRIPTION"@, opt_view(t.notes))
        + todo_tail_lines(t)
}

proof fn lemma_todo_literals()
    ensures
        crlf_joined(seq!["BEGIN:VCALENDAR"@, "VERSION:2.0"@, "PRODID:-//AegisInbox//EN"@])
            == "BEGIN:VCALENDAR\r\nVERSION:2.0\r\nPRODID:-//AegisInbox//EN\r\n"@,
        crlf_joined(seq!["BEGIN:VTODO"@]) == "BEGIN:VTODO\r\n"@,
        crlf_joined(seq!["END:VTODO"@, "END:VCALENDAR"@]) == "END:VTODO\r\nEND:VCALENDAR\r\n"@,
        "DUE:"@ == "DUE"@ + seq![':'],
        "COMPLETED:"@ == "COMPLETED"@ + seq![':'],
        "STATUS:"@ == "STATUS"@ + seq![':'],
        "PRIORITY:"@ == "PRIORITY"@ + seq![':'],
        "RELATED-TO:"@ == "RELATED-TO"@ + seq![':'],
{
    reveal_strlit("BEGIN:VCALENDAR\r\nVERSION:2.0\r\nPRODID:-//AegisInbox//EN\r\n");
    reveal_strlit("BEGIN:VCALENDAR");
    reveal_strlit("VERSION:2.0");
    reveal_strlit("PRODID:-//AegisInbox//EN");
    reveal_strlit("BEGIN:VTODO\r\n");
    reveal_strlit("BEGIN:VTODO");
    reveal_strlit("END:VTODO\r\nEND:VCALENDAR\r\n");
    reveal_strlit("END:VTODO");
    reveal_strlit("END:VCALENDAR");
    reveal_strlit("DUE:");
    reveal_strlit("DUE");
    reveal_strlit("COMPLETED:");
    reveal_strlit("COMPLETED");
    reveal_strlit("STATUS:");
    reveal_strlit("STATUS");
    reveal_strlit("PRIORITY:");
    reveal_strlit("PRIORITY");
    reveal_strlit("RELATED-TO:");
    reveal_strlit("RELATED-TO");
    lemma_crlf_joined_two("BEGIN:VCALENDAR"@, "VERSION:2.0"@);
    lemma_crlf_joined_one("PRODID:-//AegisInbox//EN"@);
    lemma_crlf_joined_concat(seq!["BEGIN:VCALENDAR"@, "VERSION:2.0"@], seq!["PRODID:-//AegisInbox//EN"@]);
    assert(seq!["BEGIN:VCALENDAR"@, "VERSION:2.0"@] + seq!["PRODID:-//AegisInbox//EN"@]
        =~= seq!["BEGIN:VCALENDAR"@, "VERSION:2.0"@, "PRODID:-//AegisInbox//EN"@]);
    assert(crlf_joined(seq!["BEGIN:VCALENDAR"@, "VERSION:2.0"@, "PRODID:-//AegisInbox//EN"@])
        =~= "BEGIN:VCALENDAR\r\nVERSION:2.0\r\nPRODID:-//AegisInbox//EN\r\n"@);
    lemma_crlf_joined_one("BEGIN:VTODO"@);
    assert(crlf_joined(seq!["BEGIN:VTODO"@]) =~= "BEGIN:VTODO\r\n"@);
    lemma_crlf_joined_two("END:VTODO"@, "END:VCALENDAR"@);
    assert(crlf_joined(seq!["END:VTODO"@, "END:VCALENDAR"@]) =~= "END:VTODO\r\nEND:VCALENDAR\r\n"@);
    assert("DUE:"@ =~= "DUE"@ + seq![':']);
    assert("COMPLETED:"@ =~= "COMPLETED"@ + seq![':']);
    assert("STATUS:"@ =~= "STATUS"@ + seq![':']);
    assert("PRIORITY:"@ =~= "PRIORITY"@ + seq![':']);
    assert("RELATED-TO:"@ =~= "RELATED-TO"@ + seq![':']);
}

#[verifier::rlimit(40)]
proof fn lemma_todo_tail(t: ReminderTask)
    ensures
        todo_tail(t) == crlf_joined(todo_tail_lines(t)),
{
    let f = "%Y%m%dT%H%M%SZ"@;
    lemma_todo_literals();
    lemma_doc_names();
    let a = time_prop_lines("DUE"@, t.due_at);
    let b = time_prop_lines("COMPLETED"@, t.completed_at);
    let st = ical_status_text(t.status);
    let pr = decimal(ical_priority_number(t.priority) as nat);
    let c = seq![prop("STATUS"@, st), prop("PRIORITY"@, pr)];
    let d = raw_prop_lines("RRULE"@, opt_view(t.repeat_rule));
    let e = parent_lines(t.parent_id);
    let g = seq!["END:VTODO"@, "END:VCALENDAR"@];
    match t.due_at {
        Some(x) => {
            lemma_crlf_joined_one(prop("DUE"@, format_secs(x, f)));
            assert(crlf_joined(a) =~= opt_time_line("DUE:"@, t.due_at, f));
        },
        None => {
            assert(crlf_joined(a) =~= opt_time_line("DUE:"@, t.due_at, f));
        },
    }
    match t.completed_at {
        Some(x) => {
            lemma_crlf_joined_one(prop("COMPLETED"@, format_secs(x, f)));
            assert(crlf_joined(b) =~= opt_time_line("COMPLETED:"@, t.completed_at, f));
        },
        None => {
            assert(crlf_joined(b) =~= opt_time_line("COMPLETED:"@, t.completed_at, f));
        },
    }
    lemma_crlf_joined_two(prop("STATUS"@, st), prop("PRIORITY"@, pr));
    assert(crlf_joined(c) =~= "STATUS:"@ + st + "\r\n"@ + "PRIORITY:"@ + pr + "\r\n"@);
    match opt_view(t.repeat_rule) {
        Some(v) => {
            lemma_crlf_joined_one(prop("RRULE"@, v));
            assert(crlf_joined(d) =~= raw_line("RRULE:"@, Some(v)));
        },
        None => {},
    }
    match t.parent_id {
        Some(p) => {
            lemma_crlf_joined_one(prop("RELATED-TO"@, uuid_text(p)));
            assert(crlf_joined(e) =~= "RELATED-TO:"@ + uuid_text(p) + "\r\n"@);
        },
        None => {},
    }
    lemma_crlf_joined_concat(a, b);
    lemma_crlf_joined_concat(a + b, c);
    lemma_crlf_joined_concat(a + b + c, d);
    lemma_crlf_joined_concat(a + b + c + d, e);
    lemma_crlf_joined_concat(a + b + c + d + e, g);
    assert(todo_tail_lines(t) == a + b + c + d + e + g);
    assert(todo_schedule(t) =~= crlf_joined(a) + crlf_joined(b) + crlf_joined(c));
    assert(todo_links(t) =~= crlf_joined(d) + crlf_joined(e) + crlf_joined(g));
    assert(todo_tail(t) =~= crlf_joined(a) + crlf_joined(b) + crlf_joined(c) + crlf_joined(d) + crlf_joined(e) + crlf_joined(g));
}

#[verifier::rlimit(40)]
proof fn lemma_todo_doc(t: ReminderTask, rid: Seq<char>, stamp: Seq<char>)
    ensures
        todo_ics(t, rid, stamp) == crlf_joined(todo_doc_lines(t, rid, stamp)),
{
    let l0 = seq!["BEGIN:VCALENDAR"@, "VERSION:2.0"@, "PRODID:-//AegisInbox//EN"@];
    let l1 = seq!["BEGIN:VTODO"@];
    let l2 = seq![prop("UID"@, escape_text(rid))];
    let l3 = seq![prop("DTSTAMP"@, stamp)];
    let l4 = seq![prop("SUMMARY"@, escape_text(t.title@))];
    let l5 = text_prop_lines("DESCRIPTION"@, opt_view(t.notes));
    let l6 = todo_tail_lines(t);
    lemma_todo_literals();
    lemma_doc_names();
    lemma_doc_text_line("UID:"@, "UID"@, rid);
    lemma_crlf_joined_one(prop("DTSTAMP"@, stamp));
    assert(crlf_joined(l3) =~= "DTSTAMP:"@ + stamp + "\r\n"@);
    lemma_doc_text_line("SUMMARY:"@, "SUMMARY"@, t.title@);
    match opt_view(t.notes) {
        Some(v) => lemma_doc_text_line("DESCRIPTION:"@, "DESCRIPTION"@, v),
        None => {},
    }
    assert(crlf_joined(l5) =~= opt_text_line("DESCRIPTION:"@, opt_view(t.notes)));
    lemma_todo_tail(t);
    lemma_crlf_joined_concat(l0, l1);
    lemma_crlf_joined_concat(l0 + l1, l2);
    lemma_crlf_joined_concat(l0 + l1 + l2, l3);
    lemma_crlf_joined_concat(l0 + l1 + l2 + l3, l4);
    lemma_crlf_joined_concat(l0 + l1 + l2 + l3 + l4, l5);
    lemma_crlf_joined_concat(l0 + l1 + l2 + l3 + l4 + l5, l6);
    assert(todo_doc_lines(t, rid, stamp) == l0 + l1 + l2 + l3 + l4 + l5 + l6);
    let d = "DTSTAMP:"@ + stamp + "\r\n"@;
    assert(crlf_joined(l0) + crlf_joined(l1) + crlf_joined(l2) + "DTSTAMP:"@ + stamp + "\r\n"@
        =~= crlf_joined(l0) + crlf_joined(l1) + crlf_joined(l2) + d);
}

/// What a task's document needs of its stamp, its times and its parent's id
/// text, as the writer's calls into chrono and uuid give them.
pub open spec fn todo_parts_read_back(t: ReminderTask, stamp: Seq<char>) -> bool {
    &&& crate::time::no_ws(stamp)
    &&& (t.due_at matches Some(x) ==> reads_back(format_secs(x, "%Y%m%dT%H%M%SZ"@), x))
    &&& (t.completed_at matches Some(x) ==> reads_back(format_secs(x, "%Y%m%dT%H%M%SZ"@), x))
    &&& (t.parent_id matches Some(p) ==> hyphenated_uuid(uuid_text(p)) && uuid_value(uuid_text(p)) == Some(p))
}

/// A task that its iCalendar document carries unchanged: a remote id (the
/// `UID`) that needs no escaping and has no whitespace at either end; a title
/// and notes without carriage returns or whitespace at either end; due and
/// completion times in years 0 to 9999; a repeat rule without line breaks or
/// whitespace at either end.
pub open spec fn todo_round_trips(t: ReminderTask, rid: Seq<char>) -> bool {
    &&& rid.len() > 0 && property_value(rid) && escape_free(rid)
    &&& line_text(t.title@)
    &&& (opt_view(t.notes) matches Some(v) ==> line_text(v))
    &&& (t.due_at matches Some(x) ==> four_digit_year(x))
    &&& (t.completed_at matches Some(x) ==> four_digit_year(x))
    &&& (opt_view(t.repeat_rule) matches Some(v) ==> property_value(v))
}

proof fn lemma_todo_plain(t: ReminderTask, rid: Seq<char>, stamp: Seq<char>)
    requires
        todo_round_trips(t, rid),
        todo_parts_read_back(t, stamp),
    ensures
        plain_lines(todo_doc_lines(t, rid, stamp)),
{
    reveal_strlit("BEGIN:VCALENDAR");
    reveal_strlit("VERSION:2.0");
    reveal_strlit("PRODID:-//AegisInbox//EN");
    reveal_strlit("BEGIN:VTODO");
    reveal_strlit("END:VTODO");
    reveal_strlit("END:VCALENDAR");
    crate::ical_round_trip::lemma_names();
    lemma_todo_names();
    let f = "%Y%m%dT%H%M%SZ"@;
    let l0 = seq!["BEGIN:VCALENDAR"@, "VERSION:2.0"@, "PRODID:-//AegisInbox//EN"@];
    assert forall|k: int| 0 <= k < l0.len() implies plain_line(#[trigger] l0[k]) by {}
    let l1 = seq!["BEGIN:VTODO"@];
    assert forall|k: int| 0 <= k < l1.len() implies plain_line(#[trigger] l1[k]) by {}
    let l11 = seq!["END:VTODO"@, "END:VCALENDAR"@];
    assert forall|k: int| 0 <= k < l11.len() implies plain_line(#[trigger] l11[k]) by {}
    lemma_escape_free_same(rid);
    lemma_one_plain("UID"@, escape_text(rid));
    lemma_stamp_value(stamp);
    lemma_one_plain("DTSTAMP"@, stamp);
    lemma_escape_value(t.title@);
    lemma_one_plain("SUMMARY"@, escape_text(t.title@));
    match opt_view(t.notes) {
        Some(v) => { lemma_escape_value(v); lemma_one_plain("DESCRIPTION"@, escape_text(v)); },
        None => {},
    }
    match t.due_at {
        Some(x) => { lemma_todo_time_value("DUE"@, format_secs(x, f), x); lemma_one_plain("DUE"@, format_secs(x, f)); },
        None => {},
    }
    match t.completed_at {
        Some(x) => { lemma_todo_time_value("COMPLETED"@, format_secs(x, f), x); lemma_one_plain("COMPLETED"@, format_secs(x, f)); },
        None => {},
    }
    let st = ical_status_text(t.status);
    let pr = decimal(ical_priority_number(t.priority) as nat);
    lemma_status_value(t.status);
    lemma_priority_value(t.priority);
    lemma_one_plain("STATUS"@, st);
    lemma_one_plain("PRIORITY"@, pr);
    lemma_plain_concat(seq![prop("STATUS"@, st)], seq![prop("PRIORITY"@, pr)]);
    assert(seq![prop("STATUS"@, st)] + seq![prop("PRIORITY"@, pr)] =~= seq![prop("STATUS"@, st), prop("PRIORITY"@, pr)]);
    match opt_view(t.repeat_rule) {
        Some(v) => { lemma_one_plain("RRULE"@, v); },
        None => {},
    }
    match t.parent_id {
        Some(p) => { lemma_uuid_value(uuid_text(p)); lemma_one_plain("RELATED-TO"@, uuid_text(p)); },
        None => {},
    }
    let l2 = seq![prop("UID"@, escape_text(rid))];
    let l3 = seq![prop("DTSTAMP"@, stamp)];
    let l4 = seq![prop("SUMMARY"@, escape_text(t.title@))];
    let l5 = text_prop_lines("DESCRIPTION"@, opt_view(t.notes));
    let a = time_prop_lines("DUE"@, t.due_at);
    let b = time_prop_lines("COMPLETED"@, t.completed_at);
    let c = seq![prop("STATUS"@, st), prop("PRIORITY"@, pr)];
    let d = raw_prop_lines("RRULE"@, opt_view(t.repeat_rule));
    let e = parent_lines(t.parent_id);
    assert(plain_lines(l5) && plain_lines(a) && plain_lines(b) && plain_lines(d) && plain_lines(e));
    lemma_plain_concat(a, b);
    lemma_plain_concat(a + b, c);
    lemma_plain_concat(a + b + c, d);
    lemma_plain_concat(a + b + c + d, e);
    lemma_plain_concat(a + b + c + d + e, l11);
    assert(todo_tail_lines(t) == a + b + c + d + e + l11);
    lemma_plain_concat(l0, l1);
    lemma_plain_concat(l0 + l1, l2);
    lemma_plain_concat(l0 + l1 + l2, l3);
    lemma_plain_concat(l0 + l1 + l2 + l3, l4);
    lemma_plain_concat(l0 + l1 + l2 + l3 + l4, l5);
    lemma_plain_concat(l0 + l1 + l2 + l3 + l4 + l5, todo_tail_lines(t));
    assert(todo_doc_lines(t, rid, stamp) == l0 + l1 + l2 + l3 + l4 + l5 + todo_tail_lines(t));
}

/// The fields a task's document gives back.
pub open spec fn todo_read_back(f: TodoFields, t: ReminderTask, rid: Seq<char>) -> bool {
    &&& f.uid == Some(rid)
    &&& f.title == Some(t.title@)
    &&& f.notes == opt_view(t.notes)
    &&& f.due_at == t.due_at
    &&& f.completed_at == t.completed_at
    &&& f.status == t.status
    &&& f.priority == t.priority
    &&& f.repeat_rule == opt_view(t.repeat_rule)
    &&& f.parent_id == t.parent_id
}

#[verifier::rlimit(60)]
proof fn lemma_todo_tail_scan(t: ReminderTask, st: TodoScan)
    requires
        st.in_todo,
        st.current.due_at.is_none() && st.current.completed_at.is_none(),
        st.current.repeat_rule.is_none() && st.current.parent_id.is_none(),
        t.due_at matches Some(x) ==> reads_back(format_secs(x, "%Y%m%dT%H%M%SZ"@), x),
        t.completed_at matches Some(x) ==> reads_back(format_secs(x, "%Y%m%dT%H%M%SZ"@), x),
        t.parent_id matches Some(p) ==> hyphenated_uuid(uuid_text(p)) && uuid_value(uuid_text(p)) == Some(p),
        opt_view(t.repeat_rule) matches Some(v) ==> property_value(v),
    ensures
        ({
            let s = todo_scan_from(st, todo_tail_lines(t));
            &&& s.todos == st.todos.push(TodoFields {
                due_at: t.due_at,
                completed_at: t.completed_at,
                status: t.status,
                priority: t.priority,
                repeat_rule: opt_view(t.repeat_rule),
                parent_id: t.parent_id,
                ..st.current
            })
        }),
{
    let f = "%Y%m%dT%H%M%SZ"@;
    crate::ical_round_trip::lemma_names();
    lemma_todo_names();
    let a = time_prop_lines("DUE"@, t.due_at);
    let b = time_prop_lines("COMPLETED"@, t.completed_at);
    let stx = ical_status_text(t.status);
    let pr = decimal(ical_priority_number(t.priority) as nat);
    let c = seq![prop("STATUS"@, stx), prop("PRIORITY"@, pr)];
    let d = raw_prop_lines("RRULE"@, opt_view(t.repeat_rule));
    let e = parent_lines(t.parent_id);
    let g = seq!["END:VTODO"@, "END:VCALENDAR"@];
    assert(todo_tail_lines(t) == a + b + c + d + e + g);
    // DUE
    match t.due_at {
        Some(x) => {
            lemma_todo_time_value("DUE"@, format_secs(x, f), x);
            lemma_todo_scan_one(st, prop("DUE"@, format_secs(x, f)));
            lemma_todo_property_step(st, "DUE"@, format_secs(x, f));
            lemma_todo_apply_names(st.current, format_secs(x, f));
        },
        None => {},
    }
    let sa = todo_scan_from(st, a);
    assert(sa.in_todo && sa.todos == st.todos && sa.current == (TodoFields { due_at: t.due_at, ..st.current }));
    // COMPLETED
    match t.completed_at {
        Some(x) => {
            lemma_todo_time_value("COMPLETED"@, format_secs(x, f), x);
            lemma_todo_scan_one(sa, prop("COMPLETED"@, format_secs(x, f)));
            lemma_todo_property_step(sa, "COMPLETED"@, format_secs(x, f));
            lemma_todo_apply_names(sa.current, format_secs(x, f));
        },
        None => {},
    }
    let sb = todo_scan_from(sa, b);
    assert(sb.in_todo && sb.todos == st.todos
        && sb.current == (TodoFields { due_at: t.due_at, completed_at: t.completed_at, ..st.current }));
    // STATUS and PRIORITY
    lemma_status_value(t.status);
    lemma_priority_value(t.priority);
    assert(c.drop_last() =~= seq![prop("STATUS"@, stx)]);
    lemma_todo_scan_one(sb, prop("STATUS"@, stx));
    lemma_todo_property_step(sb, "STATUS"@, stx);
    lemma_todo_apply_names(sb.current, stx);
    let sb1 = todo_scan_step(sb, prop("STATUS"@, stx));
    lemma_todo_property_step(sb1, "PRIORITY"@, pr);
    lemma_todo_apply_names(sb1.current, pr);
    let sc = todo_scan_from(sb, c);
    assert(sc == todo_scan_step(sb1, prop("PRIORITY"@, pr)));
    assert(sc.in_todo && sc.todos == st.todos && sc.current == (TodoFields {
        due_at: t.due_at, completed_at: t.completed_at, status: t.status, priority: t.priority, ..st.current }));
    // RRULE
    match opt_view(t.repeat_rule) {
        Some(v) => {
            lemma_todo_scan_one(sc, prop("RRULE"@, v));
            lemma_todo_property_step(sc, "RRULE"@, v);
            lemma_todo_apply_names(sc.current, v);
        },
        None => {},
    }
    let sd = todo_scan_from(sc, d);
    assert(sd.in_todo && sd.todos == st.todos && sd.current == (TodoFields {
        due_at: t.due_at, completed_at: t.completed_at, status: t.status, priority: t.priority,
        repeat_rule: opt_view(t.repeat_rule), ..st.current }));
    // RELATED-TO
    match t.parent_id {
        Some(p) => {
            lemma_uuid_value(uuid_text(p));
            lemma_todo_scan_one(sd, prop("RELATED-TO"@, uuid_text(p)));
            lemma_todo_property_step(sd, "RELATED-TO"@, uuid_text(p));
            lemma_todo_apply_names(sd.current, uuid_text(p));
        },
        None => {},
    }
    let se = todo_scan_from(sd, e);
    assert(se.in_todo && se.todos == st.todos && se.current == (TodoFields {
        due_at: t.due_at, completed_at: t.completed_at, status: t.status, priority: t.priority,
        repeat_rule: opt_view(t.repeat_rule), parent_id: t.parent_id, ..st.current }));
    // END:VTODO, END:VCALENDAR
    assert(g.drop_last() =~= seq!["END:VTODO"@]);
    lemma_todo_scan_one(se, "END:VTODO"@);
    lemma_todo_begin_end(se);
    let sf = todo_scan_step(se, "END:VTODO"@);
    reveal_strlit("END:VCALENDAR");
    assert(todo_outside_line("END:VCALENDAR"@));
    lemma_todo_skip_line(sf, "END:VCALENDAR"@);
    assert(todo_scan_from(se, g) == todo_scan_step(sf, "END:VCALENDAR"@));
    lemma_todo_scan_concat(st, a, b);
    lemma_todo_scan_concat(st, a + b, c);
    lemma_todo_scan_concat(st, a + b + c, d);
    lemma_todo_scan_concat(st, a + b + c + d, e);
    lemma_todo_scan_concat(st, a + b + c + d + e, g);
}

/// Reading the document written for such a task gives one to-do with its
/// remote id, title, notes, times, status, priority, rule and parent.
#[verifier::rlimit(60)]
pub(crate) proof fn lemma_todo_round_trip(t: ReminderTask, rid: Seq<char>, stamp: Seq<char>)
    requires
        todo_round_trips(t, rid),
        todo_parts_read_back(t, stamp),
    ensures
        ical_todos(todo_ics(t, rid, stamp)).len() == 1,
        todo_read_back(ical_todos(todo_ics(t, rid, stamp))[0], t, rid),
{
    reveal_strlit("BEGIN:VCALENDAR");
    reveal_strlit("VERSION:2.0");
    reveal_strlit("PRODID:-//AegisInbox//EN");
    crate::ical_round_trip::lemma_names();
    lemma_todo_doc(t, rid, stamp);
    lemma_todo_plain(t, rid, stamp);
    let ls = todo_doc_lines(t, rid, stamp);
    assert(ls.len() > 0);
    lemma_unfolded_crlf_joined(ls);
    lemma_todo_scan_is_scan_from(ls);
    let l0 = seq!["BEGIN:VCALENDAR"@, "VERSION:2.0"@, "PRODID:-//AegisInbox//EN"@];
    let l1 = seq!["BEGIN:VTODO"@];
    let l2 = seq![prop("UID"@, escape_text(rid))];
    let l3 = seq![prop("DTSTAMP"@, stamp)];
    let l4 = seq![prop("SUMMARY"@, escape_text(t.title@))];
    let l5 = text_prop_lines("DESCRIPTION"@, opt_view(t.notes));
    let l6 = todo_tail_lines(t);
    assert(ls == l0 + l1 + l2 + l3 + l4 + l5 + l6);
    let s0 = todo_scan_start();
    // the calendar's own lines
    lemma_todo_skip_line(s0, "BEGIN:VCALENDAR"@);
    lemma_todo_skip_line(s0, "VERSION:2.0"@);
    lemma_todo_skip_line(s0, "PRODID:-//AegisInbox//EN"@);
    let h1 = seq!["BEGIN:VCALENDAR"@];
    let h2 = seq!["VERSION:2.0"@];
    let h3 = seq!["PRODID:-//AegisInbox//EN"@];
    assert(h1 + h2 + h3 =~= l0);
    lemma_todo_scan_one(s0, "BEGIN:VCALENDAR"@);
    lemma_todo_scan_one(s0, "VERSION:2.0"@);
    lemma_todo_scan_one(s0, "PRODID:-//AegisInbox//EN"@);
    lemma_todo_scan_concat(s0, h1, h2);
    lemma_todo_scan_concat(s0, h1 + h2, h3);
    assert(todo_scan_from(s0, l0) == s0);
    // the to-do opens
    lemma_todo_scan_concat(s0, l0, l1);
    lemma_todo_scan_one(s0, "BEGIN:VTODO"@);
    lemma_todo_begin_end(s0);
    let s1 = todo_scan_from(s0, l0 + l1);
    // UID, DTSTAMP, SUMMARY
    lemma_escape_free_same(rid);
    lemma_todo_scan_concat(s0, l0 + l1, l2);
    lemma_todo_scan_one(s1, prop("UID"@, rid));
    lemma_todo_property_step(s1, "UID"@, rid);
    lemma_todo_apply_names(s1.current, rid);
    let s2 = todo_scan_from(s0, l0 + l1 + l2);
    lemma_stamp_value(stamp);
    lemma_todo_scan_concat(s0, l0 + l1 + l2, l3);
    lemma_todo_scan_one(s2, prop("DTSTAMP"@, stamp));
    lemma_todo_property_step(s2, "DTSTAMP"@, stamp);
    lemma_todo_apply_names(s2.current, stamp);
    let s3 = todo_scan_from(s0, l0 + l1 + l2 + l3);
    lemma_escape_value(t.title@);
    lemma_unescape_escape(t.title@);
    lemma_todo_scan_concat(s0, l0 + l1 + l2 + l3, l4);
    lemma_todo_scan_one(s3, prop("SUMMARY"@, escape_text(t.title@)));
    lemma_todo_property_step(s3, "SUMMARY"@, escape_text(t.title@));
    lemma_todo_apply_names(s3.current, escape_text(t.title@));
    let s4 = todo_scan_from(s0, l0 + l1 + l2 + l3 + l4);
    // DESCRIPTION
    lemma_todo_scan_concat(s0, l0 + l1 + l2 + l3 + l4, l5);
    match opt_view(t.notes) {
        Some(v) => {
            lemma_escape_value(v);
            lemma_unescape_escape(v);
            lemma_todo_scan_one(s4, prop("DESCRIPTION"@, escape_text(v)));
            lemma_todo_property_step(s4, "DESCRIPTION"@, escape_text(v));
            lemma_todo_apply_names(s4.current, escape_text(v));
        },
        None => {},
    }
    let s5 = todo_scan_from(s0, l0 + l1 + l2 + l3 + l4 + l5);
    assert(s5.in_todo && s5.todos.len() == 0);
    assert(s5.current.uid == Some(rid) && s5.current.title == Some(t.title@) && s5.current.notes == opt_view(t.notes));
    assert(s5.current.due_at.is_none() && s5.current.completed_at.is_none());
    assert(s5.current.repeat_rule.is_none() && s5.current.parent_id.is_none());
    // the rest
    lemma_todo_tail_scan(t, s5);
    lemma_todo_scan_concat(s0, l0 + l1 + l2 + l3 + l4 + l5, l6);
}

}
