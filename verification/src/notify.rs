//! Which desktop notifications to show for new mail and for event and task
//! reminders, each at most once, and when quiet hours hold them back. The
//! application shows what these functions return.
use vstd::prelude::*;
use std::collections::HashSet;
use crate::config::NotificationConfig;
use crate::model::{CalendarEvent, MailMessage, ReminderTask};
use crate::numbers::{decimal, decimal_text};
use crate::text::{chars_of, extend, push_str, string_from_chars};
use crate::time::{hhmm_secs, local_seconds_of_day, parse_hhmm};

verus! {

broadcast use vstd::std_specs::hash::group_hash_axioms;

/// One notification: its title and its text.
#[derive(Debug, Clone)]
pub struct Notice {
    pub summary: String,
    pub body: String,
}

pub const MAX_NOTIFIED_MESSAGES: usize = 5000;
pub const MAX_NOTIFIED_REMINDERS: usize = 2000;

// ------------------------------------------------------------------ quiet hours

/// Quiet hours hold at `now` seconds after local midnight: between start and
/// end on one day, or from start past midnight to end when end comes first.
pub open spec fn quiet_at(enabled: bool, start: Option<u32>, end: Option<u32>, now: u32) -> bool {
    enabled && match (start, end) {
        (Some(s), Some(e)) => if s <= e { s <= now && now < e } else { now >= s || now < e },
        _ => false,
    }
}

/// Quiet hours hold at `now` seconds after local midnight under `config`;
/// times that do not read as `HH:MM` turn them off.
pub fn quiet_hours_at(config: &NotificationConfig, now: u32) -> (r: bool)
    ensures
        r == quiet_at(config.quiet_hours_enabled, hhmm_secs(config.quiet_hours_start@), hhmm_secs(config.quiet_hours_end@), now),
{
    if !config.quiet_hours_enabled {
        return false;
    }
    let start = parse_hhmm(config.quiet_hours_start.as_str());
    let end = parse_hhmm(config.quiet_hours_end.as_str());
    match (start, end) {
        (Some(s), Some(e)) => if s <= e { s <= now && now < e } else { now >= s || now < e },
        _ => false,
    }
}

/// Quiet hours hold now, by the local clock.
pub fn is_quiet_hours(config: &NotificationConfig) -> (r: bool)
    ensures
        exists|now: u32| now < 86400 && r == quiet_at(config.quiet_hours_enabled, hhmm_secs(config.quiet_hours_start@), hhmm_secs(config.quiet_hours_end@), now),
{
    let now = local_seconds_of_day();
    quiet_hours_at(config, now)
}

// ------------------------------------------------------------------ reminders text

/// `format!("{}", n)` for an `i64`.
pub open spec fn signed_decimal(n: int) -> Seq<char> {
    if n < 0 { seq!['-'] + decimal((-n) as nat) } else { decimal(n as nat) }
}

fn signed_decimal_text(n: i64) -> (r: Vec<char>)
    ensures
        r@ == signed_decimal(n as int),
{
    if n < 0 {
        let m: u64 = if n == i64::MIN { 9223372036854775808 } else { (-n) as u64 };
        let mut out: Vec<char> = Vec::new();
        out.push('-');
        let d = decimal_text(m);
        extend(&mut out, d.as_slice());
        assert(out@ =~= seq!['-'] + decimal((-(n as int)) as nat));
        out
    } else {
        decimal_text(n as u64)
    }
}

/// When a reminder fires: "now" at zero minutes, else "in N min".
pub open spec fn reminder_label(mins: i64) -> Seq<char> {
    if mins == 0 { "now"@ } else { "in "@ + signed_decimal(mins as int) + " min"@ }
}

fn reminder_label_text(mins: i64) -> (r: Vec<char>)
    ensures
        r@ == reminder_label(mins),
{
    if mins == 0 {
        chars_of("now")
    } else {
        let mut out = chars_of("in ");
        let d = signed_decimal_text(mins);
        extend(&mut out, d.as_slice());
        push_str(&mut out, " min");
        out
    }
}

/// Whole minutes from `now` to `at`, for `at` not before `now`.
pub open spec fn minutes_until(at: i64, now: i64) -> int {
    (at - now) / 60
}

// ------------------------------------------------------------------ state

/// What has been notified so far: messages by id, reminders by item id and
/// lead time in minutes, each pair once.
pub struct NotificationState {
    pub notified_messages: HashSet<u128>,
    pub notified_reminders: Vec<(u128, i64)>,
}

pub open spec fn reminded(r: Seq<(u128, i64)>, key: (u128, i64)) -> bool {
    exists|i: int| 0 <= i < r.len() && r[i] == key
}

/// No reminder pair is kept twice.
pub open spec fn distinct_pairs(r: Seq<(u128, i64)>) -> bool {
    forall|i: int, j: int| 0 <= i < j < r.len() ==> r[i] != r[j]
}

/// The sender shown for a message: the first sender's name, else its
/// address, else "Unknown sender".
pub open spec fn sender_of(m: MailMessage) -> Seq<char> {
    if m.from@.len() > 0 {
        match m.from@[0].name {
            Some(n) => n@,
            None => m.from@[0].address@,
        }
    } else {
        "Unknown sender"@
    }
}

pub open spec fn mail_notice(m: MailMessage) -> (Seq<char>, Seq<char>) {
    ("New mail from "@ + sender_of(m), m.subject@)
}

pub open spec fn notice_view(n: Notice) -> (Seq<char>, Seq<char>) {
    (n.summary@, n.body@)
}

pub open spec fn notices_view(v: Seq<Notice>) -> Seq<(Seq<char>, Seq<char>)> {
    v.map_values(|n: Notice| notice_view(n))
}

/// The notices for the messages, in order, given the ids notified before:
/// one per unseen message whose id was not yet notified, each id once.
pub open spec fn mail_notices(ms: Seq<MailMessage>, seen_ids: Set<u128>) -> Seq<(Seq<char>, Seq<char>)>
    decreases ms.len(),
{
    if ms.len() == 0 {
        Seq::empty()
    } else if ms[0].flags.seen || seen_ids.contains(ms[0].id) {
        mail_notices(ms.drop_first(), seen_ids)
    } else {
        seq![mail_notice(ms[0])] + mail_notices(ms.drop_first(), seen_ids.insert(ms[0].id))
    }
}

/// The ids notified after the messages, given those notified before.
pub open spec fn mail_ids_after(ms: Seq<MailMessage>, seen_ids: Set<u128>) -> Set<u128>
    decreases ms.len(),
{
    if ms.len() == 0 {
        seen_ids
    } else if ms[0].flags.seen || seen_ids.contains(ms[0].id) {
        mail_ids_after(ms.drop_first(), seen_ids)
    } else {
        mail_ids_after(ms.drop_first(), seen_ids.insert(ms[0].id))
    }
}

/// The ids of the unseen messages among `ms`.
pub open spec fn unseen_ids(ms: Seq<MailMessage>) -> Set<u128> {
    Set::new(|id: u128| exists|i: int| 0 <= i < ms.len() && !ms[i].flags.seen && ms[i].id == id)
}

proof fn lemma_unseen_ids_front(ms: Seq<MailMessage>)
    requires
        ms.len() > 0,
    ensures
        unseen_ids(ms) == if ms[0].flags.seen {
            unseen_ids(ms.drop_first())
        } else {
            unseen_ids(ms.drop_first()).insert(ms[0].id)
        },
{
    let t = ms.drop_first();
    let rhs = if ms[0].flags.seen { unseen_ids(t) } else { unseen_ids(t).insert(ms[0].id) };
    assert forall|id: u128| unseen_ids(ms).contains(id) implies rhs.contains(id) by {
        let i = choose|i: int| 0 <= i < ms.len() && !ms[i].flags.seen && ms[i].id == id;
        if i > 0 {
            assert(t[i - 1] == ms[i]);
        }
    }
    assert forall|id: u128| rhs.contains(id) implies unseen_ids(ms).contains(id) by {
        if unseen_ids(t).contains(id) {
            let j = choose|j: int| 0 <= j < t.len() && !t[j].flags.seen && t[j].id == id;
            assert(ms[j + 1] == t[j]);
        } else {
            assert(!ms[0].flags.seen && ms[0].id == id);
        }
    }
    assert(unseen_ids(ms) =~= rhs);
}

proof fn lemma_unseen_ids_finite(ms: Seq<MailMessage>)
    ensures
        unseen_ids(ms).finite(),
    decreases ms.len(),
{
    if ms.len() == 0 {
        assert(unseen_ids(ms) =~= Set::<u128>::empty());
    } else {
        lemma_unseen_ids_front(ms);
        lemma_unseen_ids_finite(ms.drop_first());
    }
}

/// Once every unseen message's id was notified, the messages give no notice.
proof fn lemma_no_notice_when_known(ms: Seq<MailMessage>, ids: Set<u128>)
    requires
        unseen_ids(ms).subset_of(ids),
    ensures
        mail_notices(ms, ids).len() == 0,
    decreases ms.len(),
{
    if ms.len() > 0 {
        lemma_unseen_ids_front(ms);
        lemma_no_notice_when_known(ms.drop_first(), ids);
    }
}

/// New mail is announced once per id: the messages give one notice for each
/// distinct id of an unseen message that was not notified before, after them
/// the notified ids are those of before together with the unseen messages'
/// ids, and the same messages then give no notice at all.
pub proof fn lemma_new_mail_once(ms: Seq<MailMessage>, ids: Set<u128>)
    requires
        ids.finite(),
    ensures
        mail_notices(ms, ids).len() == unseen_ids(ms).difference(ids).len(),
        mail_ids_after(ms, ids) == ids.union(unseen_ids(ms)),
        mail_notices(ms, mail_ids_after(ms, ids)).len() == 0,
    decreases ms.len(),
{
    lemma_unseen_ids_finite(ms);
    if ms.len() == 0 {
        assert(unseen_ids(ms) =~= Set::<u128>::empty());
        assert(unseen_ids(ms).difference(ids) =~= Set::<u128>::empty());
        assert(ids.union(unseen_ids(ms)) =~= ids);
    } else {
        let m = ms[0];
        let t = ms.drop_first();
        lemma_unseen_ids_front(ms);
        lemma_unseen_ids_finite(t);
        if m.flags.seen || ids.contains(m.id) {
            lemma_new_mail_once(t, ids);
            assert(unseen_ids(ms).difference(ids) =~= unseen_ids(t).difference(ids));
            assert(ids.union(unseen_ids(ms)) =~= ids.union(unseen_ids(t)));
        } else {
            let ids2 = ids.insert(m.id);
            lemma_new_mail_once(t, ids2);
            let d = unseen_ids(t).difference(ids2);
            assert(unseen_ids(ms).difference(ids) =~= d.insert(m.id));
            assert(!d.contains(m.id));
            assert(ids.union(unseen_ids(ms)) =~= ids2.union(unseen_ids(t)));
        }
    }
    lemma_no_notice_when_known(ms, mail_ids_after(ms, ids));
}

fn sender_text(m: &MailMessage) -> (r: Vec<char>)
    ensures
        r@ == sender_of(*m),
{
    if m.from.len() > 0 {
        match &m.from[0].name {
            Some(n) => chars_of(n.as_str()),
            None => chars_of(m.from[0].address.as_str()),
        }
    } else {
        chars_of("Unknown sender")
    }
}

fn notice_for_mail(m: &MailMessage) -> (r: Notice)
    ensures
        notice_view(r) == mail_notice(*m),
{
    let mut summary = chars_of("New mail from ");
    let s = sender_text(m);
    extend(&mut summary, s.as_slice());
    Notice { summary: string_from_chars(summary.as_slice()), body: m.subject.clone() }
}

/// An item at `at` is due for the reminder `mins` minutes ahead when it is
/// at or after `now` and within `mins` whole minutes.
pub open spec fn reminder_due(at: i64, now: i64, mins: i64) -> bool {
    at >= now && minutes_until(at, now) <= mins
}

pub open spec fn event_notice(e: CalendarEvent, mins: i64) -> (Seq<char>, Seq<char>) {
    (e.title@ + " - "@ + reminder_label(mins), match e.location {
        Some(l) => l@,
        None => Seq::empty(),
    })
}

pub open spec fn task_notice(t: ReminderTask, mins: i64) -> (Seq<char>, Seq<char>) {
    ("Task due "@ + reminder_label(mins), t.title@)
}

/// A task takes reminders while it is open and not snoozed past `now`.
pub open spec fn task_open(t: ReminderTask, now: i64) -> bool {
    &&& t.completed_at.is_none()
    &&& !(t.snoozed_until matches Some(s) && now < s)
}

/// A reminder that may fire: the pair that identifies it and its notice.
pub struct Candidate {
    pub key: (u128, i64),
    pub notice: (Seq<char>, Seq<char>),
}

/// Firing the candidates in order, each pair at most once: the notices
/// shown and the pairs remembered afterwards.
pub open spec fn fire(cs: Seq<Candidate>, seen: Seq<(u128, i64)>) -> (Seq<(Seq<char>, Seq<char>)>, Seq<(u128, i64)>)
    decreases cs.len(),
{
    if cs.len() == 0 {
        (Seq::empty(), seen)
    } else {
        let (n, s) = fire(cs.drop_last(), seen);
        if reminded(s, cs.last().key) { (n, s) } else { (n.push(cs.last().notice), s.push(cs.last().key)) }
    }
}

/// The candidates of one event for the first `j` lead times.
pub open spec fn event_candidates(e: CalendarEvent, mins: Seq<i64>, now: i64, j: int) -> Seq<Candidate>
    decreases j,
{
    if j <= 0 || j > mins.len() {
        Seq::empty()
    } else {
        let rest = event_candidates(e, mins, now, j - 1);
        if reminder_due(e.starts_at, now, mins[j - 1]) {
            rest.push(Candidate { key: (e.id, mins[j - 1]), notice: event_notice(e, mins[j - 1]) })
        } else {
            rest
        }
    }
}

/// The candidates of the first `n` events, in order.
pub open spec fn events_candidates(es: Seq<CalendarEvent>, mins: Seq<i64>, now: i64, n: int) -> Seq<Candidate>
    decreases n,
{
    if n <= 0 || n > es.len() {
        Seq::empty()
    } else {
        events_candidates(es, mins, now, n - 1) + event_candidates(es[n - 1], mins, now, mins.len() as int)
    }
}

/// The candidates of one task for the first `j` lead times.
pub open spec fn task_candidates(t: ReminderTask, mins: Seq<i64>, now: i64, j: int) -> Seq<Candidate>
    decreases j,
{
    if j <= 0 || j > mins.len() || !task_open(t, now) || t.due_at.is_none() {
        Seq::empty()
    } else {
        let rest = task_candidates(t, mins, now, j - 1);
        if reminder_due(t.due_at->0, now, mins[j - 1]) {
            rest.push(Candidate { key: (t.id, mins[j - 1]), notice: task_notice(t, mins[j - 1]) })
        } else {
            rest
        }
    }
}

/// The candidates of the first `n` tasks, in order.
pub open spec fn tasks_candidates(ts: Seq<ReminderTask>, mins: Seq<i64>, now: i64, n: int) -> Seq<Candidate>
    decreases n,
{
    if n <= 0 || n > ts.len() {
        Seq::empty()
    } else {
        tasks_candidates(ts, mins, now, n - 1) + task_candidates(ts[n - 1], mins, now, mins.len() as int)
    }
}

/// A task may remind `m` minutes ahead at `now`: it is not completed, not
/// snoozed past `now`, and due now or later within `m` minutes.
pub open spec fn may_remind(t: ReminderTask, now: i64, m: i64) -> bool {
    &&& t.completed_at.is_none()
    &&& (t.snoozed_until matches Some(s) ==> s <= now)
    &&& t.due_at matches Some(d) && d >= now && minutes_until(d, now) <= m
}

proof fn lemma_task_candidates_sound(t: ReminderTask, mins: Seq<i64>, now: i64, j: int)
    ensures
        forall|p: int| 0 <= p < task_candidates(t, mins, now, j).len() ==> exists|q: int| #![trigger mins[q]]
            0 <= q < mins.len() && may_remind(t, now, mins[q])
            && #[trigger] task_candidates(t, mins, now, j)[p] == (Candidate { key: (t.id, mins[q]), notice: task_notice(t, mins[q]) }),
    decreases j,
{
    if !(j <= 0 || j > mins.len() || !task_open(t, now) || t.due_at.is_none()) {
        lemma_task_candidates_sound(t, mins, now, j - 1);
        let rest = task_candidates(t, mins, now, j - 1);
        let c = task_candidates(t, mins, now, j);
        assert forall|p: int| 0 <= p < c.len() implies exists|q: int| #![trigger mins[q]]
            0 <= q < mins.len() && may_remind(t, now, mins[q])
            && #[trigger] c[p] == (Candidate { key: (t.id, mins[q]), notice: task_notice(t, mins[q]) }) by {
            if p < rest.len() {
                assert(c[p] == rest[p]);
            } else {
                assert(mins[j - 1] == mins[j - 1]);
            }
        }
    }
}

/// `c` is the reminder of one of the tasks that may remind at one of the
/// lead times.
pub open spec fn reminder_of_tasks(ts: Seq<ReminderTask>, mins: Seq<i64>, now: i64, c: Candidate) -> bool {
    exists|k: int, q: int| #![trigger ts[k], mins[q]]
        0 <= k < ts.len() && 0 <= q < mins.len() && may_remind(ts[k], now, mins[q])
        && c == (Candidate { key: (ts[k].id, mins[q]), notice: task_notice(ts[k], mins[q]) })
}

proof fn lemma_tasks_candidates_sound(ts: Seq<ReminderTask>, mins: Seq<i64>, now: i64, n: int)
    ensures
        forall|p: int| 0 <= p < tasks_candidates(ts, mins, now, n).len()
            ==> reminder_of_tasks(ts, mins, now, #[trigger] tasks_candidates(ts, mins, now, n)[p]),
    decreases n,
{
    if !(n <= 0 || n > ts.len()) {
        lemma_tasks_candidates_sound(ts, mins, now, n - 1);
        lemma_task_candidates_sound(ts[n - 1], mins, now, mins.len() as int);
        let a = tasks_candidates(ts, mins, now, n - 1);
        let b = task_candidates(ts[n - 1], mins, now, mins.len() as int);
        let c = tasks_candidates(ts, mins, now, n);
        assert(c == a + b);
        assert forall|p: int| 0 <= p < c.len() implies reminder_of_tasks(ts, mins, now, #[trigger] c[p]) by {
            if p < a.len() {
                assert(c[p] == a[p]);
            } else {
                assert(c[p] == b[p - a.len()]);
                let t = ts[n - 1];
                let q = choose|q: int| #![trigger mins[q]] 0 <= q < mins.len() && may_remind(t, now, mins[q])
                    && #[trigger] b[p - a.len()] == (Candidate { key: (t.id, mins[q]), notice: task_notice(t, mins[q]) });
                assert(ts[n - 1] == t && mins[q] == mins[q]);
            }
        }
    }
}

proof fn lemma_fire_sound(cs: Seq<Candidate>, seen: Seq<(u128, i64)>)
    ensures
        fire(cs, seen).1.len() >= seen.len(),
        fire(cs, seen).1.take(seen.len() as int) == seen,
        forall|p: int| 0 <= p < fire(cs, seen).0.len() ==> exists|q: int| 0 <= q < cs.len() && #[trigger] fire(cs, seen).0[p] == (#[trigger] cs[q]).notice,
        forall|p: int| seen.len() <= p < fire(cs, seen).1.len() ==> exists|q: int| 0 <= q < cs.len() && #[trigger] fire(cs, seen).1[p] == (#[trigger] cs[q]).key,
    decreases cs.len(),
{
    if cs.len() > 0 {
        let d = cs.drop_last();
        lemma_fire_sound(d, seen);
        let (n, s0) = fire(d, seen);
        let f = fire(cs, seen);
        assert forall|p: int| 0 <= p < f.0.len() implies exists|q: int| 0 <= q < cs.len() && #[trigger] f.0[p] == (#[trigger] cs[q]).notice by {
            if p < n.len() {
                assert(f.0[p] == n[p]);
                let q = choose|q: int| 0 <= q < d.len() && #[trigger] n[p] == (#[trigger] d[q]).notice;
                assert(cs[q] == d[q]);
            } else {
                assert(cs[cs.len() - 1] == cs.last());
            }
        }
        assert forall|p: int| seen.len() <= p < f.1.len() implies exists|q: int| 0 <= q < cs.len() && #[trigger] f.1[p] == (#[trigger] cs[q]).key by {
            if p < s0.len() {
                assert(f.1[p] == s0[p]);
                let q = choose|q: int| 0 <= q < d.len() && #[trigger] s0[p] == (#[trigger] d[q]).key;
                assert(cs[q] == d[q]);
            } else {
                assert(cs[cs.len() - 1] == cs.last());
            }
        }
        if !reminded(s0, cs.last().key) {
            assert(s0.push(cs.last().key).take(seen.len() as int) =~= s0.take(seen.len() as int));
        }
    }
}

/// Task reminders come only from tasks that may remind: every notice a
/// check of task reminders shows is the notice of a task that is not
/// completed, not snoozed past `now` and due within one of the lead times,
/// and every reminder pair it records is such a task's id and lead time; the
/// pairs recorded before stay as they were. A task snoozed past `now` thus
/// neither reminds nor is recorded.
pub proof fn lemma_task_reminders_sound(ts: Seq<ReminderTask>, mins: Seq<i64>, now: i64, seen: Seq<(u128, i64)>)
    ensures
        ({
            let f = fire(tasks_candidates(ts, mins, now, ts.len() as int), seen);
            &&& forall|p: int| 0 <= p < f.0.len() ==> exists|k: int, q: int| #![trigger ts[k], mins[q]]
                0 <= k < ts.len() && 0 <= q < mins.len() && may_remind(ts[k], now, mins[q])
                && #[trigger] f.0[p] == task_notice(ts[k], mins[q])
            &&& forall|p: int| seen.len() <= p < f.1.len() ==> exists|k: int, q: int| #![trigger ts[k], mins[q]]
                0 <= k < ts.len() && 0 <= q < mins.len() && may_remind(ts[k], now, mins[q])
                && #[trigger] f.1[p] == (ts[k].id, mins[q])
            &&& f.1.len() >= seen.len() && f.1.take(seen.len() as int) == seen
        }),
{
    let cs = tasks_candidates(ts, mins, now, ts.len() as int);
    lemma_tasks_candidates_sound(ts, mins, now, ts.len() as int);
    lemma_fire_sound(cs, seen);
    let f = fire(cs, seen);
    assert forall|p: int| 0 <= p < f.0.len() implies exists|k: int, q: int| #![trigger ts[k], mins[q]]
        0 <= k < ts.len() && 0 <= q < mins.len() && may_remind(ts[k], now, mins[q])
        && #[trigger] f.0[p] == task_notice(ts[k], mins[q]) by {
        let c = choose|c: int| 0 <= c < cs.len() && #[trigger] f.0[p] == (#[trigger] cs[c]).notice;
        assert(reminder_of_tasks(ts, mins, now, cs[c]));
        let (k, q) = choose|k: int, q: int| #![trigger ts[k], mins[q]]
            0 <= k < ts.len() && 0 <= q < mins.len() && may_remind(ts[k], now, mins[q])
            && cs[c] == (Candidate { key: (ts[k].id, mins[q]), notice: task_notice(ts[k], mins[q]) });
        assert(ts[k] == ts[k] && mins[q] == mins[q]);
    }
    assert forall|p: int| seen.len() <= p < f.1.len() implies exists|k: int, q: int| #![trigger ts[k], mins[q]]
        0 <= k < ts.len() && 0 <= q < mins.len() && may_remind(ts[k], now, mins[q])
        && #[trigger] f.1[p] == (ts[k].id, mins[q]) by {
        let c = choose|c: int| 0 <= c < cs.len() && #[trigger] f.1[p] == (#[trigger] cs[c]).key;
        assert(reminder_of_tasks(ts, mins, now, cs[c]));
        let (k, q) = choose|k: int, q: int| #![trigger ts[k], mins[q]]
            0 <= k < ts.len() && 0 <= q < mins.len() && may_remind(ts[k], now, mins[q])
            && cs[c] == (Candidate { key: (ts[k].id, mins[q]), notice: task_notice(ts[k], mins[q]) });
        assert(ts[k] == ts[k] && mins[q] == mins[q]);
    }
}

proof fn lemma_fire_complete(cs: Seq<Candidate>, seen: Seq<(u128, i64)>)
    ensures
        fire(cs, seen).1.len() == seen.len() + fire(cs, seen).0.len(),
        forall|q: int| 0 <= q < cs.len() ==> reminded(fire(cs, seen).1, (#[trigger] cs[q]).key),
    decreases cs.len(),
{
    if cs.len() > 0 {
        let d = cs.drop_last();
        lemma_fire_complete(d, seen);
        let (n, s0) = fire(d, seen);
        let f = fire(cs, seen);
        assert forall|q: int| 0 <= q < cs.len() implies reminded(f.1, (#[trigger] cs[q]).key) by {
            if q < d.len() {
                assert(cs[q] == d[q]);
                assert(reminded(s0, d[q].key));
                let w = choose|w: int| 0 <= w < s0.len() && s0[w] == d[q].key;
                if !reminded(s0, cs.last().key) {
                    assert(f.1[w] == s0[w]);
                }
            } else {
                if !reminded(s0, cs.last().key) {
                    assert(f.1[s0.len() as int] == cs.last().key);
                }
            }
        }
    }
}

proof fn lemma_task_candidates_complete(t: ReminderTask, mins: Seq<i64>, now: i64, j: int, q: int)
    requires
        0 <= q < j <= mins.len(),
        may_remind(t, now, mins[q]),
    ensures
        exists|c: int| 0 <= c < task_candidates(t, mins, now, j).len()
            && (#[trigger] task_candidates(t, mins, now, j)[c]).key == (t.id, mins[q]),
    decreases j,
{
    let rest = task_candidates(t, mins, now, j - 1);
    let cs = task_candidates(t, mins, now, j);
    if q == j - 1 {
        assert(cs == rest.push(Candidate { key: (t.id, mins[j - 1]), notice: task_notice(t, mins[j - 1]) }));
        assert(cs[rest.len() as int].key == (t.id, mins[q]));
    } else {
        lemma_task_candidates_complete(t, mins, now, j - 1, q);
        let c = choose|c: int| 0 <= c < rest.len() && (#[trigger] rest[c]).key == (t.id, mins[q]);
        assert(cs[c] == rest[c]);
    }
}

proof fn lemma_tasks_candidates_complete(ts: Seq<ReminderTask>, mins: Seq<i64>, now: i64, n: int, k: int, q: int)
    requires
        0 <= k < n <= ts.len(),
        0 <= q < mins.len(),
        may_remind(ts[k], now, mins[q]),
    ensures
        exists|c: int| 0 <= c < tasks_candidates(ts, mins, now, n).len()
            && (#[trigger] tasks_candidates(ts, mins, now, n)[c]).key == (ts[k].id, mins[q]),
    decreases n,
{
    let a = tasks_candidates(ts, mins, now, n - 1);
    let b = task_candidates(ts[n - 1], mins, now, mins.len() as int);
    let cs = tasks_candidates(ts, mins, now, n);
    assert(cs == a + b);
    if k == n - 1 {
        lemma_task_candidates_complete(ts[k], mins, now, mins.len() as int, q);
        let c = choose|c: int| 0 <= c < b.len() && (#[trigger] b[c]).key == (ts[k].id, mins[q]);
        assert(cs[a.len() + c] == b[c]);
    } else {
        lemma_tasks_candidates_complete(ts, mins, now, n - 1, k, q);
        let c = choose|c: int| 0 <= c < a.len() && (#[trigger] a[c]).key == (ts[k].id, mins[q]);
        assert(cs[c] == a[c]);
    }
}

/// No task reminder is lost: after a check of task reminders, every pair of
/// a task that may remind and one of the lead times is recorded, and one
/// notice is shown for each pair recorded anew.
pub proof fn lemma_task_reminders_complete(ts: Seq<ReminderTask>, mins: Seq<i64>, now: i64, seen: Seq<(u128, i64)>)
    ensures
        ({
            let f = fire(tasks_candidates(ts, mins, now, ts.len() as int), seen);
            &&& forall|k: int, q: int| #![trigger ts[k], mins[q]]
                0 <= k < ts.len() && 0 <= q < mins.len() && may_remind(ts[k], now, mins[q])
                ==> reminded(f.1, (ts[k].id, mins[q]))
            &&& f.1.len() == seen.len() + f.0.len()
        }),
{
    let cs = tasks_candidates(ts, mins, now, ts.len() as int);
    lemma_fire_complete(cs, seen);
    assert forall|k: int, q: int| #![trigger ts[k], mins[q]]
        0 <= k < ts.len() && 0 <= q < mins.len() && may_remind(ts[k], now, mins[q])
        implies reminded(fire(cs, seen).1, (ts[k].id, mins[q])) by {
        lemma_tasks_candidates_complete(ts, mins, now, ts.len() as int, k, q);
        let c = choose|c: int| 0 <= c < cs.len() && (#[trigger] cs[c]).key == (ts[k].id, mins[q]);
        assert(reminded(fire(cs, seen).1, cs[c].key));
    }
}

/// An event may remind `m` minutes ahead at `now`: it starts now or later,
/// within `m` minutes.
pub open spec fn event_may_remind(e: CalendarEvent, now: i64, m: i64) -> bool {
    e.starts_at >= now && minutes_until(e.starts_at, now) <= m
}

/// `c` is the reminder of one of the events that may remind at one of the
/// lead times.
pub open spec fn reminder_of_events(es: Seq<CalendarEvent>, mins: Seq<i64>, now: i64, c: Candidate) -> bool {
    exists|k: int, q: int| #![trigger es[k], mins[q]]
        0 <= k < es.len() && 0 <= q < mins.len() && event_may_remind(es[k], now, mins[q])
        && c == (Candidate { key: (es[k].id, mins[q]), notice: event_notice(es[k], mins[q]) })
}

/// `c` is the reminder of `e` at one of the lead times at which it may remind.
pub open spec fn reminder_of_event(e: CalendarEvent, mins: Seq<i64>, now: i64, c: Candidate) -> bool {
    exists|q: int| #![trigger mins[q]]
        0 <= q < mins.len() && event_may_remind(e, now, mins[q])
        && c == (Candidate { key: (e.id, mins[q]), notice: event_notice(e, mins[q]) })
}

proof fn lemma_event_candidates_sound(e: CalendarEvent, mins: Seq<i64>, now: i64, j: int)
    ensures
        forall|p: int| 0 <= p < event_candidates(e, mins, now, j).len()
            ==> reminder_of_event(e, mins, now, #[trigger] event_candidates(e, mins, now, j)[p]),
    decreases j,
{
    if !(j <= 0 || j > mins.len()) {
        lemma_event_candidates_sound(e, mins, now, j - 1);
        let rest = event_candidates(e, mins, now, j - 1);
        let c = event_candidates(e, mins, now, j);
        assert forall|p: int| 0 <= p < c.len() implies reminder_of_event(e, mins, now, #[trigger] c[p]) by {
            if p < rest.len() {
                assert(c[p] == rest[p]);
            } else {
                assert(mins[j - 1] == mins[j - 1]);
            }
        }
    }
}

proof fn lemma_events_candidates_sound(es: Seq<CalendarEvent>, mins: Seq<i64>, now: i64, n: int)
    ensures
        forall|p: int| 0 <= p < events_candidates(es, mins, now, n).len()
            ==> reminder_of_events(es, mins, now, #[trigger] events_candidates(es, mins, now, n)[p]),
    decreases n,
{
    if !(n <= 0 || n > es.len()) {
        lemma_events_candidates_sound(es, mins, now, n - 1);
        lemma_event_candidates_sound(es[n - 1], mins, now, mins.len() as int);
        let a = events_candidates(es, mins, now, n - 1);
        let b = event_candidates(es[n - 1], mins, now, mins.len() as int);
        let c = events_candidates(es, mins, now, n);
        assert(c == a + b);
        assert forall|p: int| 0 <= p < c.len() implies reminder_of_events(es, mins, now, #[trigger] c[p]) by {
            if p < a.len() {
                assert(c[p] == a[p]);
            } else {
                assert(c[p] == b[p - a.len()]);
                let e = es[n - 1];
                assert(reminder_of_event(e, mins, now, b[p - a.len()]));
                let q = choose|q: int| #![trigger mins[q]] 0 <= q < mins.len() && event_may_remind(e, now, mins[q])
                    && b[p - a.len()] == (Candidate { key: (e.id, mins[q]), notice: event_notice(e, mins[q]) });
                assert(es[n - 1] == e && mins[q] == mins[q]);
            }
        }
    }
}

proof fn lemma_event_candidates_complete(e: CalendarEvent, mins: Seq<i64>, now: i64, j: int, q: int)
    requires
        0 <= q < j <= mins.len(),
        event_may_remind(e, now, mins[q]),
    ensures
        exists|c: int| 0 <= c < event_candidates(e, mins, now, j).len()
            && (#[trigger] event_candidates(e, mins, now, j)[c]).key == (e.id, mins[q]),
    decreases j,
{
    let rest = event_candidates(e, mins, now, j - 1);
    let cs = event_candidates(e, mins, now, j);
    if q == j - 1 {
        assert(cs == rest.push(Candidate { key: (e.id, mins[j - 1]), notice: event_notice(e, mins[j - 1]) }));
        assert(cs[rest.len() as int].key == (e.id, mins[q]));
    } else {
        lemma_event_candidates_complete(e, mins, now, j - 1, q);
        let c = choose|c: int| 0 <= c < rest.len() && (#[trigger] rest[c]).key == (e.id, mins[q]);
        assert(cs[c] == rest[c]);
    }
}

proof fn lemma_events_candidates_complete(es: Seq<CalendarEvent>, mins: Seq<i64>, now: i64, n: int, k: int, q: int)
    requires
        0 <= k < n <= es.len(),
        0 <= q < mins.len(),
        event_may_remind(es[k], now, mins[q]),
    ensures
        exists|c: int| 0 <= c < events_candidates(es, mins, now, n).len()
            && (#[trigger] events_candidates(es, mins, now, n)[c]).key == (es[k].id, mins[q]),
    decreases n,
{
    let a = events_candidates(es, mins, now, n - 1);
    let b = event_candidates(es[n - 1], mins, now, mins.len() as int);
    let cs = events_candidates(es, mins, now, n);
    assert(cs == a + b);
    if k == n - 1 {
        lemma_event_candidates_complete(es[k], mins, now, mins.len() as int, q);
        let c = choose|c: int| 0 <= c < b.len() && (#[trigger] b[c]).key == (es[k].id, mins[q]);
        assert(cs[a.len() + c] == b[c]);
    } else {
        lemma_events_candidates_complete(es, mins, now, n - 1, k, q);
        let c = choose|c: int| 0 <= c < a.len() && (#[trigger] a[c]).key == (es[k].id, mins[q]);
        assert(cs[c] == a[c]);
    }
}

/// Event reminders come from events that start within one of the lead
/// times and none is lost: every notice a check of calendar reminders shows
/// is the notice of such an event, every pair it records anew is such an
/// event's id and lead time, every such pair is recorded afterwards, and one
/// notice is shown for each pair recorded anew.
pub proof fn lemma_event_reminders(es: Seq<CalendarEvent>, mins: Seq<i64>, now: i64, seen: Seq<(u128, i64)>)
    ensures
        ({
            let f = fire(events_candidates(es, mins, now, es.len() as int), seen);
            &&& forall|p: int| 0 <= p < f.0.len() ==> exists|k: int, q: int| #![trigger es[k], mins[q]]
                0 <= k < es.len() && 0 <= q < mins.len() && event_may_remind(es[k], now, mins[q])
                && #[trigger] f.0[p] == event_notice(es[k], mins[q])
            &&& forall|p: int| seen.len() <= p < f.1.len() ==> exists|k: int, q: int| #![trigger es[k], mins[q]]
                0 <= k < es.len() && 0 <= q < mins.len() && event_may_remind(es[k], now, mins[q])
                && #[trigger] f.1[p] == (es[k].id, mins[q])
            &&& forall|k: int, q: int| #![trigger es[k], mins[q]]
                0 <= k < es.len() && 0 <= q < mins.len() && event_may_remind(es[k], now, mins[q])
                ==> reminded(f.1, (es[k].id, mins[q]))
            &&& f.1.len() == seen.len() + f.0.len()
            &&& f.1.take(seen.len() as int) == seen
        }),
{
    let cs = events_candidates(es, mins, now, es.len() as int);
    lemma_events_candidates_sound(es, mins, now, es.len() as int);
    lemma_fire_sound(cs, seen);
    lemma_fire_complete(cs, seen);
    let f = fire(cs, seen);
    assert forall|p: int| 0 <= p < f.0.len() implies exists|k: int, q: int| #![trigger es[k], mins[q]]
        0 <= k < es.len() && 0 <= q < mins.len() && event_may_remind(es[k], now, mins[q])
        && #[trigger] f.0[p] == event_notice(es[k], mins[q]) by {
        let c = choose|c: int| 0 <= c < cs.len() && #[trigger] f.0[p] == (#[trigger] cs[c]).notice;
        assert(reminder_of_events(es, mins, now, cs[c]));
        let (k, q) = choose|k: int, q: int| #![trigger es[k], mins[q]]
            0 <= k < es.len() && 0 <= q < mins.len() && event_may_remind(es[k], now, mins[q])
            && cs[c] == (Candidate { key: (es[k].id, mins[q]), notice: event_notice(es[k], mins[q]) });
        assert(es[k] == es[k] && mins[q] == mins[q]);
    }
    assert forall|p: int| seen.len() <= p < f.1.len() implies exists|k: int, q: int| #![trigger es[k], mins[q]]
        0 <= k < es.len() && 0 <= q < mins.len() && event_may_remind(es[k], now, mins[q])
        && #[trigger] f.1[p] == (es[k].id, mins[q]) by {
        let c = choose|c: int| 0 <= c < cs.len() && #[trigger] f.1[p] == (#[trigger] cs[c]).key;
        assert(reminder_of_events(es, mins, now, cs[c]));
        let (k, q) = choose|k: int, q: int| #![trigger es[k], mins[q]]
            0 <= k < es.len() && 0 <= q < mins.len() && event_may_remind(es[k], now, mins[q])
            && cs[c] == (Candidate { key: (es[k].id, mins[q]), notice: event_notice(es[k], mins[q]) });
        assert(es[k] == es[k] && mins[q] == mins[q]);
    }
    assert forall|k: int, q: int| #![trigger es[k], mins[q]]
        0 <= k < es.len() && 0 <= q < mins.len() && event_may_remind(es[k], now, mins[q])
        implies reminded(f.1, (es[k].id, mins[q])) by {
        lemma_events_candidates_complete(es, mins, now, es.len() as int, k, q);
        let c = choose|c: int| 0 <= c < cs.len() && (#[trigger] cs[c]).key == (es[k].id, mins[q]);
        assert(reminded(f.1, cs[c].key));
    }
}

proof fn lemma_fire_distinct(cs: Seq<Candidate>, seen: Seq<(u128, i64)>)
    requires
        distinct_pairs(seen),
    ensures
        distinct_pairs(fire(cs, seen).1),
        forall|k: int| 0 <= k < seen.len() ==> reminded(fire(cs, seen).1, #[trigger] seen[k]),
        fire(cs, seen).1.len() >= seen.len(),
        fire(cs, seen).1.take(seen.len() as int) == seen,
    decreases cs.len(),
{
    if cs.len() > 0 {
        lemma_fire_distinct(cs.drop_last(), seen);
        let (n, s) = fire(cs.drop_last(), seen);
        if !reminded(s, cs.last().key) {
            let t = s.push(cs.last().key);
            assert(t.take(seen.len() as int) =~= s.take(seen.len() as int));
            assert forall|k: int| 0 <= k < seen.len() implies reminded(t, #[trigger] seen[k]) by {
                let w = choose|w: int| 0 <= w < s.len() && s[w] == seen[k];
                assert(t[w] == s[w]);
            }
        }
    }
}

impl NotificationState {
    pub open spec fn wf(&self) -> bool {
        distinct_pairs(self.notified_reminders@)
    }

    pub fn new() -> (r: NotificationState)
        ensures
            r.wf(),
            r.notified_messages@ == Set::<u128>::empty(),
            r.notified_reminders@.len() == 0,
    {
        NotificationState { notified_messages: HashSet::new(), notified_reminders: Vec::new() }
    }

    fn was_reminded(&self, key: (u128, i64)) -> (r: bool)
        ensures
            r == reminded(self.notified_reminders@, key),
    {
        for i in 0..self.notified_reminders.len()
            invariant
                forall|j: int| 0 <= j < i ==> self.notified_reminders@[j] != key,
        {
            if self.notified_reminders[i].0 == key.0 && self.notified_reminders[i].1 == key.1 {
                return true;
            }
        }
        false
    }

    /// Records the reminder `key` unless it was recorded before; says whether
    /// it is new.
    fn remember(&mut self, key: (u128, i64)) -> (r: bool)
        requires
            old(self).wf(),
        ensures
            final(self).wf(),
            r == !reminded(old(self).notified_reminders@, key),
            final(self).notified_reminders@ == if r { old(self).notified_reminders@.push(key) } else { old(self).notified_reminders@ },
            final(self).notified_messages@ == old(self).notified_messages@,
    {
        if self.was_reminded(key) {
            return false;
        }
        self.notified_reminders.push(key);
        true
    }

    /// The notices for new mail: none when new-mail notices are off or
    /// `quiet`; otherwise one per unseen message not notified before, each
    /// id once. Past 5000 remembered ids the memory is cleared.
    pub fn check_new_mail(&mut self, config: &NotificationConfig, messages: &Vec<MailMessage>, quiet: bool) -> (r: Vec<Notice>)
        requires
            old(self).wf(),
        ensures
            final(self).wf(),
            final(self).notified_reminders@ == old(self).notified_reminders@,
            !config.new_mail_enabled || quiet ==> r@.len() == 0 && final(self).notified_messages@ == old(self).notified_messages@,
            config.new_mail_enabled && !quiet ==> {
                &&& notices_view(r@) == mail_notices(messages@, old(self).notified_messages@)
                &&& final(self).notified_messages@ == if mail_ids_after(messages@, old(self).notified_messages@).len() > MAX_NOTIFIED_MESSAGES {
                    Set::<u128>::empty()
                } else {
                    mail_ids_after(messages@, old(self).notified_messages@)
                }
            },
    {
        let mut out: Vec<Notice> = Vec::new();
        if !config.new_mail_enabled || quiet {
            return out;
        }
        let ghost start = self.notified_messages@;
        assert(messages@.skip(0) =~= messages@);
        for i in 0..messages.len()
            invariant
                self.wf(),
                self.notified_reminders@ == old(self).notified_reminders@,
                start == old(self).notified_messages@,
                mail_notices(messages@, start) == notices_view(out@) + mail_notices(messages@.skip(i as int), self.notified_messages@),
                mail_ids_after(messages@, start) == mail_ids_after(messages@.skip(i as int), self.notified_messages@),
        {
            let ghost ids = self.notified_messages@;
            let ghost rest = messages@.skip(i as int);
            assert(rest.drop_first() =~= messages@.skip(i + 1));
            assert(rest[0] == messages@[i as int]);
            let m = &messages[i];
            if !m.flags.seen && !self.notified_messages.contains(&m.id) {
                self.notified_messages.insert(m.id);
                let n = notice_for_mail(m);
                let ghost before = out@;
                out.push(n);
                assert(notices_view(out@) =~= notices_view(before).push(notice_view(n)));
                assert(notices_view(before) + mail_notices(rest, ids) =~= notices_view(out@) + mail_notices(messages@.skip(i + 1), self.notified_messages@));
            }
        }
        if self.notified_messages.len() > MAX_NOTIFIED_MESSAGES {
            self.notified_messages.clear();
        }
        assert(notices_view(out@) + Seq::<(Seq<char>, Seq<char>)>::empty() =~= notices_view(out@));
        out
    }

    /// The reminders to fire for `cs`, recording each new pair.
    fn fire_one(&mut self, c_key: (u128, i64), notice: Notice, out: &mut Vec<Notice>, Ghost(done): Ghost<Seq<Candidate>>, Ghost(start): Ghost<Seq<(u128, i64)>>)
        requires
            old(self).wf(),
            notices_view(old(out)@) == fire(done, start).0,
            old(self).notified_reminders@ == fire(done, start).1,
        ensures
            final(self).wf(),
            final(self).notified_messages@ == old(self).notified_messages@,
            notices_view(final(out)@) == fire(done.push(Candidate { key: c_key, notice: notice_view(notice) }), start).0,
            final(self).notified_reminders@ == fire(done.push(Candidate { key: c_key, notice: notice_view(notice) }), start).1,
    {
        let ghost c = Candidate { key: c_key, notice: notice_view(notice) };
        assert(done.push(c).drop_last() =~= done);
        if self.remember(c_key) {
            let ghost before = out@;
            out.push(notice);
            assert(notices_view(out@) =~= notices_view(before).push(notice_view(notice)));
        }
    }

    /// The reminders for the events at `now`: for each event not started
    /// before `now` and each lead time of the settings, in order, one notice
    /// when the event starts within that many whole minutes and the pair of
    /// event and lead time was not notified before. None when reminders are
    /// off or `quiet`. Past 2000 remembered pairs the memory is cleared.
    pub fn check_calendar_reminders(&mut self, config: &NotificationConfig, events: &Vec<CalendarEvent>, now: i64, quiet: bool) -> (r: Vec<Notice>)
        requires
            old(self).wf(),
        ensures
            final(self).wf(),
            final(self).notified_messages@ == old(self).notified_messages@,
            !config.reminder_enabled || quiet ==> r@.len() == 0 && final(self).notified_reminders@ == old(self).notified_reminders@,
            config.reminder_enabled && !quiet ==> {
                let f = fire(events_candidates(events@, config.reminder_minutes_before@, now, events@.len() as int), old(self).notified_reminders@);
                &&& notices_view(r@) == f.0
                &&& final(self).notified_reminders@ == if f.1.len() > MAX_NOTIFIED_REMINDERS { Seq::empty() } else { f.1 }
            },
    {
        let mut out: Vec<Notice> = Vec::new();
        if !config.reminder_enabled || quiet {
            return out;
        }
        let ghost start = self.notified_reminders@;
        let mins_list = &config.reminder_minutes_before;
        assert(notices_view(out@) =~= Seq::<(Seq<char>, Seq<char>)>::empty());
        for e in 0..events.len()
            invariant
                self.wf(),
                self.notified_messages@ == old(self).notified_messages@,
                start == old(self).notified_reminders@,
                mins_list == &config.reminder_minutes_before,
                notices_view(out@) == fire(events_candidates(events@, mins_list@, now, e as int), start).0,
                self.notified_reminders@ == fire(events_candidates(events@, mins_list@, now, e as int), start).1,
        {
            let ev = &events[e];
            let ghost prefix = events_candidates(events@, mins_list@, now, e as int);
            assert(prefix + event_candidates(*ev, mins_list@, now, 0) =~= prefix);
            for j in 0..mins_list.len()
                invariant
                    self.wf(),
                    self.notified_messages@ == old(self).notified_messages@,
                    0 <= e < events@.len(),
                    ev == &events@[e as int],
                    prefix == events_candidates(events@, mins_list@, now, e as int),
                    notices_view(out@) == fire(prefix + event_candidates(*ev, mins_list@, now, j as int), start).0,
                    self.notified_reminders@ == fire(prefix + event_candidates(*ev, mins_list@, now, j as int), start).1,
            {
                let mins = mins_list[j];
                let ghost done = prefix + event_candidates(*ev, mins_list@, now, j as int);
                if ev.starts_at >= now && (ev.starts_at as i128 - now as i128) / 60 <= mins as i128 {
                    let mut summary = chars_of(ev.title.as_str());
                    push_str(&mut summary, " - ");
                    let label = reminder_label_text(mins);
                    extend(&mut summary, label.as_slice());
                    let body = match &ev.location {
                        Some(l) => l.clone(),
                        None => String::new(),
                    };
                    proof {
                        reveal_strlit("");
                        assert(""@ =~= Seq::<char>::empty());
                    }
                    let n = Notice { summary: string_from_chars(summary.as_slice()), body };
                    assert(notice_view(n) == event_notice(*ev, mins));
                    self.fire_one((ev.id, mins), n, &mut out, Ghost(done), Ghost(start));
                    assert(done.push(Candidate { key: (ev.id, mins), notice: event_notice(*ev, mins) })
                        =~= prefix + event_candidates(*ev, mins_list@, now, j + 1));
                } else {
                    assert(done =~= prefix + event_candidates(*ev, mins_list@, now, j + 1));
                }
            }
        }
        proof {
            lemma_fire_distinct(events_candidates(events@, mins_list@, now, events@.len() as int), start);
        }
        if self.notified_reminders.len() > MAX_NOTIFIED_REMINDERS {
            self.notified_reminders.clear();
        }
        out
    }

    /// The reminders for the tasks at `now`: for each open task, not snoozed
    /// past `now` and due at or after it, and each lead time of the settings,
    /// in order, one notice when the task is due within that many whole
    /// minutes and the pair of task and lead time was not notified before.
    /// None when reminders are off or `quiet`.
    pub fn check_task_reminders(&mut self, config: &NotificationConfig, tasks: &Vec<ReminderTask>, now: i64, quiet: bool) -> (r: Vec<Notice>)
        requires
            old(self).wf(),
        ensures
            final(self).wf(),
            final(self).notified_messages@ == old(self).notified_messages@,
            !config.reminder_enabled || quiet ==> r@.len() == 0 && final(self).notified_reminders@ == old(self).notified_reminders@,
            config.reminder_enabled && !quiet ==> {
                let f = fire(tasks_candidates(tasks@, config.reminder_minutes_before@, now, tasks@.len() as int), old(self).notified_reminders@);
                &&& notices_view(r@) == f.0
                &&& final(self).notified_reminders@ == f.1
            },
    {
        let mut out: Vec<Notice> = Vec::new();
        if !config.reminder_enabled || quiet {
            return out;
        }
        let ghost start = self.notified_reminders@;
        let mins_list = &config.reminder_minutes_before;
        assert(notices_view(out@) =~= Seq::<(Seq<char>, Seq<char>)>::empty());
        for e in 0..tasks.len()
            invariant
                self.wf(),
                self.notified_messages@ == old(self).notified_messages@,
                start == old(self).notified_reminders@,
                mins_list == &config.reminder_minutes_before,
                notices_view(out@) == fire(tasks_candidates(tasks@, mins_list@, now, e as int), start).0,
                self.notified_reminders@ == fire(tasks_candidates(tasks@, mins_list@, now, e as int), start).1,
        {
            let t = &tasks[e];
            let ghost prefix = tasks_candidates(tasks@, mins_list@, now, e as int);
            assert(prefix + task_candidates(*t, mins_list@, now, 0) =~= prefix);
            let open = t.completed_at.is_none() && match t.snoozed_until {
                Some(s) => !(now < s),
                None => true,
            };
            if open {
                match t.due_at {
                    Some(due) => {
                        for j in 0..mins_list.len()
                            invariant
                                self.wf(),
                                self.notified_messages@ == old(self).notified_messages@,
                                0 <= e < tasks@.len(),
                                t == &tasks@[e as int],
                                task_open(*t, now),
                                t.due_at == Some(due),
                                prefix == tasks_candidates(tasks@, mins_list@, now, e as int),
                                notices_view(out@) == fire(prefix + task_candidates(*t, mins_list@, now, j as int), start).0,
                                self.notified_reminders@ == fire(prefix + task_candidates(*t, mins_list@, now, j as int), start).1,
                        {
                            let mins = mins_list[j];
                            let ghost done = prefix + task_candidates(*t, mins_list@, now, j as int);
                            if due >= now && (due as i128 - now as i128) / 60 <= mins as i128 {
                                let mut summary = chars_of("Task due ");
                                let label = reminder_label_text(mins);
                                extend(&mut summary, label.as_slice());
                                let n = Notice { summary: string_from_chars(summary.as_slice()), body: t.title.clone() };
                                assert(notice_view(n) == task_notice(*t, mins));
                                self.fire_one((t.id, mins), n, &mut out, Ghost(done), Ghost(start));
                                assert(done.push(Candidate { key: (t.id, mins), notice: task_notice(*t, mins) })
                                    =~= prefix + task_candidates(*t, mins_list@, now, j + 1));
                            } else {
                                assert(done =~= prefix + task_candidates(*t, mins_list@, now, j + 1));
                            }
                        }
                    },
                    None => {
                        assert(task_candidates(*t, mins_list@, now, mins_list@.len() as int) =~= Seq::<Candidate>::empty());
                        assert(prefix + Seq::<Candidate>::empty() =~= prefix);
                    },
                }
            } else {
                assert(task_candidates(*t, mins_list@, now, mins_list@.len() as int) =~= Seq::<Candidate>::empty());
                assert(prefix + Seq::<Candidate>::empty() =~= prefix);
            }
        }
        out
    }
}

}
