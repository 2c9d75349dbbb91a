//! Capturing a task from one line of free text: "Pay rent tomorrow high",
//! "Water plants every week", "Call Ann snooze 3h notes: ask about the lease".
use vstd::prelude::*;
use crate::model::{ReminderTask, TaskPriority, TaskStatus};
use crate::ids::new_id;
use crate::numbers::{parse_i64, parse_i64_spec};
use crate::pattern::{captures_first, first_captures, group, groups_view};
use crate::tasks::{keyword_priority, priority_from_keywords};
use crate::text::{
    ascii_lower, chars_of, contains, contains_seq, find, first_occurrence, has_prefix, lower,
    occurs_at, seq_eq, slice_range, starts_with, string_from_chars, trim, trimmed, utf8_len,
    utf8_width, utf8_width_of,
};
use crate::time::{chrono_time, now_utc};

verus! {

/// The error of the task features.
#[derive(Debug, Clone, PartialEq, Eq)]
pub enum TaskError {
    Data(String),
}

/// What one line of free text says about a task.
#[derive(Debug, Clone)]
pub struct ParsedTask {
    pub title: String,
    pub notes: Option<String>,
    pub due_at: Option<i64>,
    pub priority: TaskPriority,
    pub repeat_rule: Option<String>,
    pub snooze_until: Option<i64>,
}

pub open spec fn due_pattern() -> Seq<char> {
    "\\b(today|tomorrow|next week|in (\\d+) days)\\b"@
}

pub open spec fn snooze_pattern() -> Seq<char> {
    "snooze (\\d+)h"@
}

/// How far ahead of now the first match of the due pattern puts the task, in
/// seconds: two hours for "today", a day for "tomorrow", seven days for
/// "next week", and `n` days for "in n days" when `n` reads as an `i64`.
pub open spec fn due_offset(m: Option<Seq<Option<Seq<char>>>>) -> Option<int> {
    match m {
        None => None,
        Some(g) => match group(g, 1) {
            None => None,
            Some(w) => if w == "today"@ {
                Some(7200)
            } else if w == "tomorrow"@ {
                Some(86400)
            } else if w == "next week"@ {
                Some(604800)
            } else if starts_with(w, "in "@) {
                match group(g, 2) {
                    Some(d) => match parse_i64_spec(d) {
                        Some(n) => Some(n * 86400),
                        None => None,
                    },
                    None => None,
                }
            } else {
                None
            },
        },
    }
}

/// How far ahead of now the first match of the snooze pattern snoozes the
/// task: `n` hours when its digits read as an `i64`.
pub open spec fn snooze_offset(m: Option<Seq<Option<Seq<char>>>>) -> Option<int> {
    match m {
        None => None,
        Some(g) => match group(g, 1) {
            Some(d) => match parse_i64_spec(d) {
                Some(n) => Some(n * 3600),
                None => None,
            },
            None => None,
        },
    }
}

/// `now` moved by an offset, when there is one.
pub open spec fn shifted(now: int, offset: Option<int>) -> Option<int> {
    match offset {
        Some(o) => Some(now + o),
        None => None,
    }
}

/// An offset that keeps `now` inside what `chrono` can represent.
pub open spec fn offset_fits(now: int, offset: Option<int>) -> bool {
    offset matches Some(o) ==> chrono_time_int(now + o)
}

pub open spec fn chrono_time_int(t: int) -> bool {
    i64::MIN <= t <= i64::MAX && chrono_time(t as i64)
}

/// The rule that "every day", "every week" or "every month" asks for.
pub open spec fn repeat_rule_of(lower: Seq<char>) -> Option<Seq<char>> {
    if contains(lower, "every day"@) {
        Some("FREQ=DAILY"@)
    } else if contains(lower, "every week"@) {
        Some("FREQ=WEEKLY"@)
    } else if contains(lower, "every month"@) {
        Some("FREQ=MONTHLY"@)
    } else {
        None
    }
}

pub const TITLE_LIMIT: usize = 160;

/// `String::truncate(TITLE_LIMIT)` can cut `s`: it is no longer than the
/// limit in bytes, or a character ends exactly at the limit.
pub open spec fn title_cuttable(s: Seq<char>) -> bool {
    utf8_len(s) <= TITLE_LIMIT || exists|k: int| 0 <= k <= s.len() && utf8_len(#[trigger] s.take(k)) == TITLE_LIMIT
}

/// `s` cut to its first `TITLE_LIMIT` bytes.
pub open spec fn cut_title(s: Seq<char>) -> Seq<char> {
    if utf8_len(s) <= TITLE_LIMIT {
        s
    } else {
        s.take(choose|k: int| 0 <= k <= s.len() && utf8_len(#[trigger] s.take(k)) == TITLE_LIMIT)
    }
}

/// Where the notes marker starts in the lowered text.
pub open spec fn notes_marker(lower: Seq<char>) -> Option<int> {
    if contains(lower, "notes:"@) {
        Some(choose|i: int| first_occurrence(lower, "notes:"@, i))
    } else {
        None
    }
}

/// The title and notes of a line: what precedes the notes marker and what
/// follows it, trimmed, with empty notes as none; without a marker, the whole
/// line trimmed and cut to the title limit.
pub open spec fn title_and_notes(text: Seq<char>) -> (Seq<char>, Option<Seq<char>>) {
    match notes_marker(ascii_lower(text)) {
        Some(i) => {
            let notes = trim(text.skip(i + 6));
            (trim(text.take(i)), if notes.len() == 0 { None } else { Some(notes) })
        },
        None => (cut_title(trim(text)), None),
    }
}

pub open spec fn opt_view(o: Option<String>) -> Option<Seq<char>> {
    match o {
        Some(s) => Some(s@),
        None => None,
    }
}

pub open spec fn opt_groups(o: Option<Vec<Option<String>>>) -> Option<Seq<Option<Seq<char>>>> {
    match o {
        Some(g) => Some(groups_view(g@)),
        None => None,
    }
}

/// The task that `text` describes, given the first matches of the due and
/// snooze patterns in its lowered form and the current time.
pub open spec fn parsed_task(
    p: ParsedTask,
    text: Seq<char>,
    due: Option<Seq<Option<Seq<char>>>>,
    snooze: Option<Seq<Option<Seq<char>>>>,
    now: i64,
) -> bool {
    let lowered = ascii_lower(text);
    &&& p.title@ == title_and_notes(text).0
    &&& opt_view(p.notes) == title_and_notes(text).1
    &&& shifted(now as int, due_offset(due)) == match p.due_at {
        Some(t) => Some(t as int),
        None => None::<int>,
    }
    &&& shifted(now as int, snooze_offset(snooze)) == match p.snooze_until {
        Some(t) => Some(t as int),
        None => None::<int>,
    }
    &&& p.priority == keyword_priority(lowered)
    &&& opt_view(p.repeat_rule) == repeat_rule_of(lowered)
}

/// A run of ASCII digits reads as its decimal value when that fits in `i64`.
proof fn lemma_digits_parse(d: Seq<char>)
    requires
        d.len() > 0,
        crate::text::all_ascii_digits(d),
        crate::numbers::digits_value(d) <= 9223372036854775807,
    ensures
        parse_i64_spec(d) == Some(crate::numbers::digits_value(d) as int),
{
    assert('0' <= d[0] && d[0] <= '9');
    assert(crate::numbers::unsigned_digits(d) == Some(d));
}

proof fn lemma_offsets(
    due: Option<Seq<Option<Seq<char>>>>,
    snooze: Option<Seq<Option<Seq<char>>>>,
    now: i64,
    due_at: Option<i64>,
    snooze_until: Option<i64>,
)
    requires
        shifted(now as int, due_offset(due)) == match due_at { Some(t) => Some(t as int), None => None::<int> },
        shifted(now as int, snooze_offset(snooze)) == match snooze_until { Some(t) => Some(t as int), None => None::<int> },
    ensures
        snooze.is_none() ==> snooze_until.is_none(),
        snooze matches Some(g) ==> (group(g, 1) matches Some(d) ==> (d.len() > 0 && crate::text::all_ascii_digits(d)
            && crate::numbers::digits_value(d) <= 9223372036854775807
            ==> (snooze_until matches Some(t) && t - now == crate::numbers::digits_value(d) * 3600))),
        due.is_none() ==> due_at.is_none(),
        due matches Some(g) ==> (group(g, 1) == Some("today"@) ==> (due_at matches Some(t) && t - now == 7200)),
        due matches Some(g) ==> (group(g, 1) == Some("tomorrow"@) ==> (due_at matches Some(t) && t - now == 86400)),
        due matches Some(g) ==> (group(g, 1) == Some("next week"@) ==> (due_at matches Some(t) && t - now == 604800)),
        due matches Some(g) ==> (group(g, 1) matches Some(w) ==> (starts_with(w, "in "@) ==> (group(g, 2) matches Some(d)
            ==> (d.len() > 0 && crate::text::all_ascii_digits(d) && crate::numbers::digits_value(d) <= 9223372036854775807
            ==> (due_at matches Some(t) && t - now == crate::numbers::digits_value(d) * 86400))))),
{
    reveal_strlit("today");
    reveal_strlit("tomorrow");
    reveal_strlit("next week");
    reveal_strlit("in ");
    match snooze {
        Some(g) => match group(g, 1) {
            Some(d) => {
                if d.len() > 0 && crate::text::all_ascii_digits(d) && crate::numbers::digits_value(d) <= 9223372036854775807 {
                    lemma_digits_parse(d);
                }
            },
            None => {},
        },
        None => {},
    }
    match due {
        Some(g) => match group(g, 1) {
            Some(w) => {
                if starts_with(w, "in "@) {
                    assert(w.subrange(0, 3) == "in "@);
                    assert(w.subrange(0, 3)[0] == w[0]);
                    assert(w[0] == 'i');
                    assert(w != "today"@ && w != "tomorrow"@ && w != "next week"@) by {
                        assert("today"@[0] == 't' && "tomorrow"@[0] == 't' && "next week"@[0] == 'n');
                    }
                    match group(g, 2) {
                        Some(d) => {
                            if d.len() > 0 && crate::text::all_ascii_digits(d) && crate::numbers::digits_value(d) <= 9223372036854775807 {
                                lemma_digits_parse(d);
                            }
                        },
                        None => {},
                    }
                }
            },
            None => {},
        },
        None => {},
    }
}

/// The snooze and due times of a task read from text, in seconds from now:
/// "snooze Nh" snoozes it N hours, and with no snooze match it is not
/// snoozed; "today" makes it due in two hours, "tomorrow" in a day, "next
/// week" in seven days, and "in N days" in N days.
pub proof fn lemma_parsed_offsets(
    p: ParsedTask,
    text: Seq<char>,
    due: Option<Seq<Option<Seq<char>>>>,
    snooze: Option<Seq<Option<Seq<char>>>>,
    now: i64,
)
    requires
        parsed_task(p, text, due, snooze, now),
    ensures
        snooze.is_none() ==> p.snooze_until.is_none(),
        snooze matches Some(g) ==> (group(g, 1) matches Some(d) ==> (d.len() > 0 && crate::text::all_ascii_digits(d)
            && crate::numbers::digits_value(d) <= 9223372036854775807
            ==> (p.snooze_until matches Some(t) && t - now == crate::numbers::digits_value(d) * 3600))),
        due.is_none() ==> p.due_at.is_none(),
        due matches Some(g) ==> (group(g, 1) == Some("today"@) ==> (p.due_at matches Some(t) && t - now == 7200)),
        due matches Some(g) ==> (group(g, 1) == Some("tomorrow"@) ==> (p.due_at matches Some(t) && t - now == 86400)),
        due matches Some(g) ==> (group(g, 1) == Some("next week"@) ==> (p.due_at matches Some(t) && t - now == 604800)),
        due matches Some(g) ==> (group(g, 1) matches Some(w) ==> (starts_with(w, "in "@) ==> (group(g, 2) matches Some(d)
            ==> (d.len() > 0 && crate::text::all_ascii_digits(d) && crate::numbers::digits_value(d) <= 9223372036854775807
            ==> (p.due_at matches Some(t) && t - now == crate::numbers::digits_value(d) * 86400))))),
{
    lemma_offsets(due, snooze, now, p.due_at, p.snooze_until);
}

proof fn lemma_text_fields(
    text: Seq<char>,
    title: Seq<char>,
    notes: Option<Seq<char>>,
    priority: TaskPriority,
    repeat: Option<Seq<char>>,
)
    requires
        title == title_and_notes(text).0,
        notes == title_and_notes(text).1,
        priority == keyword_priority(ascii_lower(text)),
        repeat == repeat_rule_of(ascii_lower(text)),
    ensures
        forall|i: int| first_occurrence(ascii_lower(text), "notes:"@, i) ==> {
            &&& title == trim(#[trigger] text.take(i))
            &&& notes == if trim(text.skip(i + 6)).len() == 0 { None } else { Some(trim(text.skip(i + 6))) }
        },
        !contains(ascii_lower(text), "notes:"@) ==> notes.is_none(),
        contains(ascii_lower(text), "p1"@) || contains(ascii_lower(text), "critical"@) ==> priority == TaskPriority::Critical,
        !(contains(ascii_lower(text), "p1"@) || contains(ascii_lower(text), "critical"@))
            && (contains(ascii_lower(text), "high"@) || contains(ascii_lower(text), "urgent"@)) ==> priority == TaskPriority::High,
        !(contains(ascii_lower(text), "p1"@) || contains(ascii_lower(text), "critical"@) || contains(ascii_lower(text), "high"@)
            || contains(ascii_lower(text), "urgent"@)) && contains(ascii_lower(text), "low"@) ==> priority == TaskPriority::Low,
        !(contains(ascii_lower(text), "p1"@) || contains(ascii_lower(text), "critical"@) || contains(ascii_lower(text), "high"@)
            || contains(ascii_lower(text), "urgent"@) || contains(ascii_lower(text), "low"@)) ==> priority == TaskPriority::Normal,
        contains(ascii_lower(text), "every day"@) ==> repeat == Some("FREQ=DAILY"@),
        !contains(ascii_lower(text), "every day"@) && contains(ascii_lower(text), "every week"@) ==> repeat == Some("FREQ=WEEKLY"@),
        !contains(ascii_lower(text), "every day"@) && !contains(ascii_lower(text), "every week"@)
            && contains(ascii_lower(text), "every month"@) ==> repeat == Some("FREQ=MONTHLY"@),
        !contains(ascii_lower(text), "every day"@) && !contains(ascii_lower(text), "every week"@)
            && !contains(ascii_lower(text), "every month"@) ==> repeat.is_none(),
{
    let l = ascii_lower(text);
    assert forall|i: int| first_occurrence(l, "notes:"@, i) implies {
        &&& title == trim(#[trigger] text.take(i))
        &&& notes == if trim(text.skip(i + 6)).len() == 0 { None } else { Some(trim(text.skip(i + 6))) }
    } by {
        assert(contains(l, "notes:"@));
        let c = choose|c: int| first_occurrence(l, "notes:"@, c);
        if c < i {
            assert(!occurs_at(l, "notes:"@, c));
        } else if i < c {
            assert(!occurs_at(l, "notes:"@, i));
        }
        assert(notes_marker(l) == Some(i));
    }
}

/// What a task read from text takes from its words: the title and notes
/// split at the first "notes:" (any case), the priority from "p1" or
/// "critical", else "high" or "urgent", else "low", else normal, and the
/// repeat rule from "every day", else "every week", else "every month".
pub proof fn lemma_parsed_text(
    p: ParsedTask,
    text: Seq<char>,
    due: Option<Seq<Option<Seq<char>>>>,
    snooze: Option<Seq<Option<Seq<char>>>>,
    now: i64,
)
    requires
        parsed_task(p, text, due, snooze, now),
    ensures
        forall|i: int| first_occurrence(ascii_lower(text), "notes:"@, i) ==> {
            &&& p.title@ == trim(#[trigger] text.take(i))
            &&& opt_view(p.notes) == if trim(text.skip(i + 6)).len() == 0 { None } else { Some(trim(text.skip(i + 6))) }
        },
        !contains(ascii_lower(text), "notes:"@) ==> p.notes.is_none(),
        contains(ascii_lower(text), "p1"@) || contains(ascii_lower(text), "critical"@) ==> p.priority == TaskPriority::Critical,
        !(contains(ascii_lower(text), "p1"@) || contains(ascii_lower(text), "critical"@))
            && (contains(ascii_lower(text), "high"@) || contains(ascii_lower(text), "urgent"@)) ==> p.priority == TaskPriority::High,
        !(contains(ascii_lower(text), "p1"@) || contains(ascii_lower(text), "critical"@) || contains(ascii_lower(text), "high"@)
            || contains(ascii_lower(text), "urgent"@)) && contains(ascii_lower(text), "low"@) ==> p.priority == TaskPriority::Low,
        !(contains(ascii_lower(text), "p1"@) || contains(ascii_lower(text), "critical"@) || contains(ascii_lower(text), "high"@)
            || contains(ascii_lower(text), "urgent"@) || contains(ascii_lower(text), "low"@)) ==> p.priority == TaskPriority::Normal,
        contains(ascii_lower(text), "every day"@) ==> opt_view(p.repeat_rule) == Some("FREQ=DAILY"@),
        !contains(ascii_lower(text), "every day"@) && contains(ascii_lower(text), "every week"@) ==> opt_view(p.repeat_rule) == Some("FREQ=WEEKLY"@),
        !contains(ascii_lower(text), "every day"@) && !contains(ascii_lower(text), "every week"@)
            && contains(ascii_lower(text), "every month"@) ==> opt_view(p.repeat_rule) == Some("FREQ=MONTHLY"@),
        !contains(ascii_lower(text), "every day"@) && !contains(ascii_lower(text), "every week"@)
            && !contains(ascii_lower(text), "every month"@) ==> p.repeat_rule.is_none(),
{
    lemma_text_fields(text, p.title@, opt_view(p.notes), p.priority, opt_view(p.repeat_rule));
}

/// The first `TITLE_LIMIT` bytes of `s`, as `String::truncate` keeps them.
fn cut_title_text(s: &[char]) -> (r: Vec<char>)
    requires
        title_cuttable(s@),
    ensures
        r@ == cut_title(s@),
{
    let mut bytes: usize = 0;
    let mut i: usize = 0;
    while i < s.len() && bytes + utf8_width_of(s[i]) <= TITLE_LIMIT
        invariant
            i <= s.len(),
            bytes == utf8_len(s@.take(i as int)),
            bytes <= TITLE_LIMIT,
            title_cuttable(s@),
        decreases s.len() - i,
    {
        let w = utf8_width_of(s[i]);
        assert(s@.take(i + 1).drop_last() =~= s@.take(i as int));
        bytes = bytes + w;
        i = i + 1;
    }
    proof {
        lemma_utf8_len_mono(s@);
    }
    if i == s.len() {
        assert(s@.take(i as int) =~= s@);
        return slice_range(s, 0, s.len());
    }
    assert(s@.take(i + 1).drop_last() =~= s@.take(i as int));
    assert(utf8_len(s@) > TITLE_LIMIT) by {
        assert(utf8_len(s@.take(i + 1)) > TITLE_LIMIT);
        assert(s@.take(s@.len() as int) =~= s@);
    }
    let ghost k = choose|k: int| 0 <= k <= s@.len() && utf8_len(#[trigger] s@.take(k)) == TITLE_LIMIT;
    assert(k == i) by {
        if k < i {
            assert(utf8_len(s@.take(k)) < utf8_len(s@.take(i as int)));
        } else if k > i {
            assert(utf8_len(s@.take(k)) >= utf8_len(s@.take(i + 1)));
        }
    }
    slice_range(s, 0, i)
}

/// Longer prefixes are longer in bytes.
proof fn lemma_utf8_len_mono(s: Seq<char>)
    ensures
        forall|a: int, b: int| 0 <= a < b <= s.len() ==> utf8_len(#[trigger] s.take(a)) + utf8_width(s[a]) <= utf8_len(#[trigger] s.take(b)),
    decreases s.len(),
{
    if s.len() > 0 {
        let t = s.drop_last();
        lemma_utf8_len_mono(t);
        assert forall|a: int, b: int| 0 <= a < b <= s.len() implies utf8_len(#[trigger] s.take(a)) + utf8_width(s[a]) <= utf8_len(#[trigger] s.take(b)) by {
            assert(s.take(a) =~= t.take(a)) by {
                if a <= t.len() {}
            }
            if b == s.len() {
                assert(s.take(b) =~= s);
                assert(s.drop_last() =~= t);
                if a < t.len() {
                    assert(t.take(t.len() as int) =~= t);
                    assert(utf8_len(t.take(a)) + utf8_width(t[a]) <= utf8_len(t.take(t.len() as int)));
                } else {
                    assert(t.take(a) =~= t);
                }
            } else {
                assert(s.take(b) =~= t.take(b));
            }
        }
    }
}

/// A task from the text and the groups of the first matches of the due and
/// snooze patterns in its lowered form, at the time `now`.
pub fn natural_task_at(
    text: &str,
    due: Option<Vec<Option<String>>>,
    snooze: Option<Vec<Option<String>>>,
    now: i64,
) -> (r: ParsedTask)
    requires
        chrono_time(now),
        title_cuttable(trim(text@)),
        offset_fits(now as int, due_offset(opt_groups(due))),
        offset_fits(now as int, snooze_offset(opt_groups(snooze))),
    ensures
        parsed_task(r, text@, opt_groups(due), opt_groups(snooze), now),
{
    let chars = chars_of(text);
    let lowered = lower(chars.as_slice());
    let due_at = apply_offset(now, due_offset_of(&due));
    let snooze_until = apply_offset(now, snooze_offset_of(&snooze));
    let repeat_rule = repeat_rule_text(lowered.as_slice());
    let priority = priority_from_keywords(lowered.as_slice());
    let marker = chars_of("notes:");
    proof {
        reveal_strlit("notes:");
    }
    assert(lowered@.len() == chars@.len());
    match find(lowered.as_slice(), marker.as_slice()) {
        Some(i) => {
            proof {
                let j = choose|j: int| first_occurrence(lowered@, "notes:"@, j);
                assert(first_occurrence(lowered@, "notes:"@, i as int));
                assert(j == i as int) by {
                    if j < i as int {
                        assert(!occurs_at(lowered@, "notes:"@, j));
                    } else if j > i as int {
                        assert(!occurs_at(lowered@, "notes:"@, i as int));
                    }
                }
            }
            let head = slice_range(chars.as_slice(), 0, i);
            let tail = slice_range(chars.as_slice(), i + 6, chars.len());
            assert(head@ =~= text@.take(i as int));
            assert(tail@ =~= text@.skip(i + 6));
            let title = trimmed(head.as_slice());
            let notes = trimmed(tail.as_slice());
            let notes = if notes.len() == 0 {
                None
            } else {
                Some(string_from_chars(notes.as_slice()))
            };
            ParsedTask {
                title: string_from_chars(title.as_slice()),
                notes,
                due_at,
                priority,
                repeat_rule,
                snooze_until,
            }
        },
        None => {
            let whole = trimmed(chars.as_slice());
            let title = cut_title_text(whole.as_slice());
            ParsedTask {
                title: string_from_chars(title.as_slice()),
                notes: None,
                due_at,
                priority,
                repeat_rule,
                snooze_until,
            }
        },
    }
}

fn group_text(g: &Vec<Option<String>>, i: usize) -> (r: Option<Vec<char>>)
    ensures
        match r {
            Some(t) => group(groups_view(g@), i as int) == Some(t@),
            None => group(groups_view(g@), i as int).is_none(),
        },
{
    if i < g.len() {
        match &g[i] {
            Some(s) => Some(chars_of(s.as_str())),
            None => None,
        }
    } else {
        None
    }
}

fn is_word(t: &[char], w: &str) -> (r: bool)
    ensures
        r == (t@ == w@),
{
    let wc = chars_of(w);
    seq_eq(t, wc.as_slice())
}

pub open spec fn opt_int(o: Option<i128>) -> Option<int> {
    match o {
        Some(v) => Some(v as int),
        None => None,
    }
}

/// The offset that the first match of the due pattern gives.
fn due_offset_of(m: &Option<Vec<Option<String>>>) -> (r: Option<i128>)
    ensures
        opt_int(r) == due_offset(opt_groups(*m)),
{
    let g = match m {
        Some(g) => g,
        None => return None,
    };
    let w = match group_text(g, 1) {
        Some(w) => w,
        None => return None,
    };
    if is_word(w.as_slice(), "today") {
        Some(7200)
    } else if is_word(w.as_slice(), "tomorrow") {
        Some(86400)
    } else if is_word(w.as_slice(), "next week") {
        Some(604800)
    } else if has_prefix(w.as_slice(), chars_of("in ").as_slice()) {
        match group_text(g, 2) {
            Some(d) => match parse_i64(d.as_slice()) {
                Some(n) => Some(n as i128 * 86400),
                None => None,
            },
            None => None,
        }
    } else {
        None
    }
}

/// The offset that the first match of the snooze pattern gives.
fn snooze_offset_of(m: &Option<Vec<Option<String>>>) -> (r: Option<i128>)
    ensures
        opt_int(r) == snooze_offset(opt_groups(*m)),
{
    let g = match m {
        Some(g) => g,
        None => return None,
    };
    match group_text(g, 1) {
        Some(d) => match parse_i64(d.as_slice()) {
            Some(n) => Some(n as i128 * 3600),
            None => None,
        },
        None => None,
    }
}

fn offset_fits_at(now: i64, offset: Option<i128>) -> (r: bool)
    requires
        offset matches Some(o) ==> -1_000_000_000_000_000_000_000_000 <= o <= 1_000_000_000_000_000_000_000_000,
    ensures
        r == offset_fits(now as int, opt_int(offset)),
{
    match offset {
        Some(o) => {
            let t = now as i128 + o;
            -8_334_601_315_200 <= t && t <= 8_210_266_876_799
        },
        None => true,
    }
}

fn apply_offset(now: i64, offset: Option<i128>) -> (r: Option<i64>)
    requires
        offset_fits(now as int, opt_int(offset)),
    ensures
        shifted(now as int, opt_int(offset)) == match r {
            Some(t) => Some(t as int),
            None => None::<int>,
        },
{
    match offset {
        Some(o) => Some((now as i128 + o) as i64),
        None => None,
    }
}

/// The due and snooze times stay within what `chrono` can represent.
fn fits(due: &Option<Vec<Option<String>>>, snooze: &Option<Vec<Option<String>>>, now: i64) -> (r: bool)
    ensures
        r == (offset_fits(now as int, due_offset(opt_groups(*due))) && offset_fits(now as int, snooze_offset(opt_groups(*snooze)))),
{
    let d = due_offset_of(due);
    let s = snooze_offset_of(snooze);
    offset_fits_at(now, d) && offset_fits_at(now, s)
}

fn repeat_rule_text(lowered: &[char]) -> (r: Option<String>)
    ensures
        opt_view(r) == repeat_rule_of(lowered@),
{
    if contains_seq(lowered, chars_of("every day").as_slice()) {
        Some(string_from_chars(chars_of("FREQ=DAILY").as_slice()))
    } else if contains_seq(lowered, chars_of("every week").as_slice()) {
        Some(string_from_chars(chars_of("FREQ=WEEKLY").as_slice()))
    } else if contains_seq(lowered, chars_of("every month").as_slice()) {
        Some(string_from_chars(chars_of("FREQ=MONTHLY").as_slice()))
    } else {
        None
    }
}

/// Reads a task from one line of free text: a due time from "today",
/// "tomorrow", "next week" or "in N days"; a repeat rule from "every day",
/// "every week" or "every month"; a snooze from "snooze Nh"; a priority from
/// keywords; notes after "notes:". The times count from the current clock.
/// An error when a pattern does not compile, or when a due or snooze time
/// falls outside the dates `chrono` can hold.
pub fn parse_natural_task(text: &str) -> (r: Result<ParsedTask, TaskError>)
    requires
        title_cuttable(trim(text@)),
    ensures
        first_captures(due_pattern(), ascii_lower(text@)).is_none() ==> r.is_err(),
        first_captures(snooze_pattern(), ascii_lower(text@)).is_none() ==> r.is_err(),
        match (first_captures(due_pattern(), ascii_lower(text@)), first_captures(snooze_pattern(), ascii_lower(text@))) {
            (Some(due), Some(snooze)) => exists|now: i64| chrono_time(now) && match r {
                Ok(p) => offset_fits(now as int, due_offset(due)) && offset_fits(now as int, snooze_offset(snooze))
                    && parsed_task(p, text@, due, snooze, now),
                Err(_) => !(offset_fits(now as int, due_offset(due)) && offset_fits(now as int, snooze_offset(snooze))),
            },
            _ => true,
        },
{
    let chars = chars_of(text);
    let lowered_chars = lower(chars.as_slice());
    let lowered = string_from_chars(lowered_chars.as_slice());
    let due = match captures_first("\\b(today|tomorrow|next week|in (\\d+) days)\\b", lowered.as_str()) {
        Some(m) => m,
        None => return Err(TaskError::Data(string_from_chars(chars_of("invalid due pattern").as_slice()))),
    };
    let snooze = match captures_first("snooze (\\d+)h", lowered.as_str()) {
        Some(m) => m,
        None => return Err(TaskError::Data(string_from_chars(chars_of("invalid snooze pattern").as_slice()))),
    };
    let now = now_utc();
    if !fits(&due, &snooze, now) {
        return Err(TaskError::Data(string_from_chars(chars_of("date out of range").as_slice())));
    }
    Ok(natural_task_at(text, due, snooze, now))
}

/// A task to capture from a line of free text, for an account's list.
#[derive(Debug, Clone)]
pub struct NaturalTaskInput {
    pub text: String,
    pub account_id: u128,
    pub list_id: String,
}

/// `t` is the new task that `parsed_task` describes for `input`: in the
/// input's account and list, not started, without remote id, parent or
/// completion, created and changed at one instant.
pub open spec fn new_task_from(
    t: ReminderTask,
    input: NaturalTaskInput,
    due: Option<Seq<Option<Seq<char>>>>,
    snooze: Option<Seq<Option<Seq<char>>>>,
    now: i64,
) -> bool {
    let lowered = ascii_lower(input.text@);
    &&& t.account_id == input.account_id
    &&& t.list_id@ == input.list_id@
    &&& t.remote_id.is_none()
    &&& t.title@ == title_and_notes(input.text@).0
    &&& opt_view(t.notes) == title_and_notes(input.text@).1
    &&& shifted(now as int, due_offset(due)) == match t.due_at {
        Some(d) => Some(d as int),
        None => None::<int>,
    }
    &&& shifted(now as int, snooze_offset(snooze)) == match t.snoozed_until {
        Some(d) => Some(d as int),
        None => None::<int>,
    }
    &&& t.priority == keyword_priority(lowered)
    &&& opt_view(t.repeat_rule) == repeat_rule_of(lowered)
    &&& t.completed_at.is_none()
    &&& t.status == TaskStatus::NotStarted
    &&& t.parent_id.is_none()
    &&& chrono_time(t.created_at)
    &&& t.updated_at == t.created_at
}

/// The same offsets for a task created from text: "snooze Nh" snoozes it N
/// hours from its creation instant, "today" makes it due in two hours,
/// "tomorrow" in a day, "next week" in seven days, "in N days" in N days.
pub proof fn lemma_new_task_offsets(
    t: ReminderTask,
    input: NaturalTaskInput,
    due: Option<Seq<Option<Seq<char>>>>,
    snooze: Option<Seq<Option<Seq<char>>>>,
    now: i64,
)
    requires
        new_task_from(t, input, due, snooze, now),
    ensures
        snooze.is_none() ==> t.snoozed_until.is_none(),
        snooze matches Some(g) ==> (group(g, 1) matches Some(d) ==> (d.len() > 0 && crate::text::all_ascii_digits(d)
            && crate::numbers::digits_value(d) <= 9223372036854775807
            ==> (t.snoozed_until matches Some(x) && x - now == crate::numbers::digits_value(d) * 3600))),
        due.is_none() ==> t.due_at.is_none(),
        due matches Some(g) ==> (group(g, 1) == Some("today"@) ==> (t.due_at matches Some(x) && x - now == 7200)),
        due matches Some(g) ==> (group(g, 1) == Some("tomorrow"@) ==> (t.due_at matches Some(x) && x - now == 86400)),
        due matches Some(g) ==> (group(g, 1) == Some("next week"@) ==> (t.due_at matches Some(x) && x - now == 604800)),
        due matches Some(g) ==> (group(g, 1) matches Some(w) ==> (starts_with(w, "in "@) ==> (group(g, 2) matches Some(d)
            ==> (d.len() > 0 && crate::text::all_ascii_digits(d) && crate::numbers::digits_value(d) <= 9223372036854775807
            ==> (t.due_at matches Some(x) && x - now == crate::numbers::digits_value(d) * 86400))))),
{
    lemma_offsets(due, snooze, now, t.due_at, t.snoozed_until);
}

/// The same for a task created from text: title and notes split at the first
/// "notes:", priority and repeat rule from the same words.
pub proof fn lemma_new_task_text(
    t: ReminderTask,
    input: NaturalTaskInput,
    due: Option<Seq<Option<Seq<char>>>>,
    snooze: Option<Seq<Option<Seq<char>>>>,
    now: i64,
)
    requires
        new_task_from(t, input, due, snooze, now),
    ensures
        forall|i: int| first_occurrence(ascii_lower(input.text@), "notes:"@, i) ==> {
            &&& t.title@ == trim(#[trigger] input.text@.take(i))
            &&& opt_view(t.notes) == if trim(input.text@.skip(i + 6)).len() == 0 { None } else { Some(trim(input.text@.skip(i + 6))) }
        },
        !contains(ascii_lower(input.text@), "notes:"@) ==> t.notes.is_none(),
        contains(ascii_lower(input.text@), "p1"@) || contains(ascii_lower(input.text@), "critical"@) ==> t.priority == TaskPriority::Critical,
        !(contains(ascii_lower(input.text@), "p1"@) || contains(ascii_lower(input.text@), "critical"@))
            && (contains(ascii_lower(input.text@), "high"@) || contains(ascii_lower(input.text@), "urgent"@)) ==> t.priority == TaskPriority::High,
        !(contains(ascii_lower(input.text@), "p1"@) || contains(ascii_lower(input.text@), "critical"@) || contains(ascii_lower(input.text@), "high"@)
            || contains(ascii_lower(input.text@), "urgent"@)) && contains(ascii_lower(input.text@), "low"@) ==> t.priority == TaskPriority::Low,
        !(contains(ascii_lower(input.text@), "p1"@) || contains(ascii_lower(input.text@), "critical"@) || contains(ascii_lower(input.text@), "high"@)
            || contains(ascii_lower(input.text@), "urgent"@) || contains(ascii_lower(input.text@), "low"@)) ==> t.priority == TaskPriority::Normal,
        contains(ascii_lower(input.text@), "every day"@) ==> opt_view(t.repeat_rule) == Some("FREQ=DAILY"@),
        !contains(ascii_lower(input.text@), "every day"@) && contains(ascii_lower(input.text@), "every week"@) ==> opt_view(t.repeat_rule) == Some("FREQ=WEEKLY"@),
        !contains(ascii_lower(input.text@), "every day"@) && !contains(ascii_lower(input.text@), "every week"@)
            && contains(ascii_lower(input.text@), "every month"@) ==> opt_view(t.repeat_rule) == Some("FREQ=MONTHLY"@),
        !contains(ascii_lower(input.text@), "every day"@) && !contains(ascii_lower(input.text@), "every week"@)
            && !contains(ascii_lower(input.text@), "every month"@) ==> t.repeat_rule.is_none(),
{
    lemma_text_fields(input.text@, t.title@, opt_view(t.notes), t.priority, opt_view(t.repeat_rule));
}

/// A new task from a line of free text (see `parse_natural_task`), with a
/// fresh id, created now; storing it is the caller's part.
pub fn create_from_natural_language(input: NaturalTaskInput) -> (r: Result<ReminderTask, TaskError>)
    requires
        title_cuttable(trim(input.text@)),
    ensures
        first_captures(due_pattern(), ascii_lower(input.text@)).is_none() ==> r.is_err(),
        first_captures(snooze_pattern(), ascii_lower(input.text@)).is_none() ==> r.is_err(),
        match (first_captures(due_pattern(), ascii_lower(input.text@)), first_captures(snooze_pattern(), ascii_lower(input.text@))) {
            (Some(due), Some(snooze)) => exists|now: i64| chrono_time(now) && match r {
                Ok(t) => offset_fits(now as int, due_offset(due)) && offset_fits(now as int, snooze_offset(snooze))
                    && new_task_from(t, input, due, snooze, now),
                Err(_) => !(offset_fits(now as int, due_offset(due)) && offset_fits(now as int, snooze_offset(snooze))),
            },
            _ => true,
        },
{
    let parsed = parse_natural_task(input.text.as_str());
    let p = match parsed {
        Ok(p) => p,
        Err(e) => return Err(e),
    };
    let now = now_utc();
    let t = ReminderTask {
        id: new_id(),
        account_id: input.account_id,
        list_id: input.list_id.clone(),
        remote_id: None,
        title: p.title,
        notes: p.notes,
        due_at: p.due_at,
        completed_at: None,
        priority: p.priority,
        status: TaskStatus::NotStarted,
        repeat_rule: p.repeat_rule,
        parent_id: None,
        snoozed_until: p.snooze_until,
        created_at: now,
        updated_at: now,
    };
    Ok(t)
}

}
