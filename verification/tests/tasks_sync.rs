use cove_mail::model::TaskStatus;
use cove_mail::natural::{create_from_natural_language, NaturalTaskInput};
use cove_mail::model::{SyncDomain, SyncJob, SyncStatus, TaskPriority};
use cove_mail::natural::parse_natural_task;
use cove_mail::sync::{
    backoff_secs, fail_or_retry_job, job_summary, new_sync_job, parallel_limit, scheduled_sync_job,
    sync_domain_slot, sync_notice, JobOutcome, RetryDecision, SyncRunSummary, SyncScheduler,
};
use cove_mail::sync_run::{SyncRun, SyncRunError};

#[test]
fn parses_due_and_priority() {
    let parsed = parse_natural_task("Pay rent tomorrow high").expect("task parsed");
    assert!(parsed.due_at.is_some());
    assert_eq!(parsed.priority, TaskPriority::High);
}

#[test]
fn parses_repeat_rule() {
    let parsed = parse_natural_task("Water plants every week").expect("task parsed");
    assert_eq!(parsed.repeat_rule.as_deref(), Some("FREQ=WEEKLY"));
}

#[test]
fn natural_task_reads_snooze_and_notes() {
    let parsed = parse_natural_task("Call Ann snooze 3h notes: ask about the lease").expect("task parsed");
    assert!(parsed.snooze_until.is_some());
    assert!(parsed.due_at.is_none());
    assert_eq!(parsed.notes.as_deref(), Some("ask about the lease"));
    assert!(parsed.repeat_rule.is_none());
}

#[test]
fn natural_task_plain_text_has_no_times() {
    let parsed = parse_natural_task("Buy milk").expect("task parsed");
    assert!(parsed.due_at.is_none());
    assert!(parsed.snooze_until.is_none());
    assert!(parsed.repeat_rule.is_none());
    assert_eq!(parsed.title, "Buy milk");
}

#[test]
fn natural_task_every_day_and_month() {
    let d = parse_natural_task("Stretch every day").expect("task parsed");
    assert_eq!(d.repeat_rule.as_deref(), Some("FREQ=DAILY"));
    let m = parse_natural_task("Pay bills every month").expect("task parsed");
    assert_eq!(m.repeat_rule.as_deref(), Some("FREQ=MONTHLY"));
}

#[test]
fn natural_task_due_offsets() {
    let today = parse_natural_task("Ship it today").expect("task parsed");
    let tomorrow = parse_natural_task("Ship it tomorrow").expect("task parsed");
    let in_days = parse_natural_task("Ship it in 3 days").expect("task parsed");
    let t = today.due_at.unwrap();
    let m = tomorrow.due_at.unwrap();
    let d = in_days.due_at.unwrap();
    assert!((m - t - (86400 - 7200)).abs() < 5);
    assert!((d - t - (3 * 86400 - 7200)).abs() < 5);
}

fn job(attempts: u32, max: u32) -> SyncJob {
    SyncJob {
        id: 7,
        account_id: 3,
        domain: SyncDomain::Email,
        status: SyncStatus::Running,
        payload_json: "{}".to_string(),
        attempt_count: attempts,
        max_attempts: max,
        run_after: 0,
        last_error: None,
        created_at: 100,
        updated_at: 100,
    }
}

#[test]
fn backoff_doubles_and_caps() {
    assert_eq!(backoff_secs(0), 30);
    assert_eq!(backoff_secs(1), 60);
    assert_eq!(backoff_secs(2), 120);
    assert_eq!(backoff_secs(8), 7680);
    assert_eq!(backoff_secs(9), 7680);
    assert_eq!(backoff_secs(u32::MAX), 7680);
}

#[test]
fn backoff_never_decreases() {
    let mut prev = 0;
    for a in 0..40u32 {
        let b = backoff_secs(a);
        assert!(b >= prev);
        assert!(b <= 7680);
        prev = b;
    }
}

#[test]
fn failed_job_is_retried_after_backoff() {
    let now = 1_700_000_000;
    match fail_or_retry_job(&job(1, 5), "timeout".to_string(), now) {
        RetryDecision::Retry(j) => {
            assert_eq!(j.attempt_count, 2);
            assert_eq!(j.status, SyncStatus::Queued);
            assert_eq!(j.run_after, now + 120);
            assert_eq!(j.last_error.as_deref(), Some("timeout"));
            assert_eq!(j.updated_at, now);
            assert_eq!(j.created_at, 100);
        }
        RetryDecision::Fail { .. } => panic!("expected a retry"),
    }
}

#[test]
fn job_fails_at_its_last_attempt() {
    match fail_or_retry_job(&job(4, 5), "timeout".to_string(), 1_700_000_000) {
        RetryDecision::Fail { attempt, error } => {
            assert_eq!(attempt, 5);
            assert_eq!(error, "timeout");
        }
        RetryDecision::Retry(_) => panic!("expected a failure"),
    }
}

#[test]
fn new_job_defaults() {
    let j = new_sync_job(1, 2, SyncDomain::Calendar, None, None, 1_700_000_000);
    assert_eq!(j.payload_json, "{}");
    assert_eq!(j.max_attempts, 5);
    assert_eq!(j.attempt_count, 0);
    assert_eq!(j.status, SyncStatus::Queued);
    assert_eq!(j.run_after, 1_700_000_000);
    let later = new_sync_job(1, 2, SyncDomain::Tasks, Some("{\"a\":1}".to_string()), Some(60), 1_700_000_000);
    assert_eq!(later.run_after, 1_700_000_060);
    assert_eq!(later.payload_json, "{\"a\":1}");
    let negative = new_sync_job(1, 2, SyncDomain::Tasks, None, Some(-60), 1_700_000_000);
    assert_eq!(negative.run_after, 1_700_000_000);
}

#[test]
fn scheduled_job_waits_one_interval_after_history() {
    let first = scheduled_sync_job(1, 2, SyncDomain::Email, false, 300, 1_700_000_000);
    assert_eq!(first.run_after, 1_700_000_000);
    let again = scheduled_sync_job(1, 2, SyncDomain::Email, true, 300, 1_700_000_000);
    assert_eq!(again.run_after, 1_700_000_300);
}

#[test]
fn summaries_merge_field_by_field() {
    let mut total = SyncRunSummary::default();
    total.merge(job_summary(JobOutcome::Completed(SyncDomain::Email, 12)));
    total.merge(job_summary(JobOutcome::Completed(SyncDomain::Calendar, 3)));
    total.merge(job_summary(JobOutcome::Retried));
    total.merge(job_summary(JobOutcome::Failed));
    assert_eq!(total.completed_jobs, 2);
    assert_eq!(total.email_messages_synced, 12);
    assert_eq!(total.calendar_events_synced, 3);
    assert_eq!(total.tasks_synced, 0);
    assert_eq!(total.retried_jobs, 1);
    assert_eq!(total.failed_jobs, 1);
}

#[test]
fn merge_with_empty_summary_changes_nothing() {
    let mut s = job_summary(JobOutcome::Completed(SyncDomain::Tasks, 4));
    let before = s;
    s.merge(SyncRunSummary::default());
    assert_eq!(s, before);
}

#[test]
fn notice_lists_counts() {
    let mut s = SyncRunSummary::default();
    s.merge(job_summary(JobOutcome::Completed(SyncDomain::Email, 12)));
    s.merge(job_summary(JobOutcome::Failed));
    let (title, body) = sync_notice(&s);
    assert_eq!(title, "Cove Mail sync needs attention");
    assert_eq!(body, "12 email items | 1 failed jobs");
}

#[test]
fn notice_without_items_counts_jobs() {
    let mut s = SyncRunSummary::default();
    s.merge(job_summary(JobOutcome::Completed(SyncDomain::Email, 0)));
    let (title, body) = sync_notice(&s);
    assert_eq!(title, "Cove Mail sync complete");
    assert_eq!(body, "1 completed jobs");
}

#[test]
fn parallel_limit_is_clamped() {
    assert_eq!(parallel_limit(0), 1);
    assert_eq!(parallel_limit(8), 8);
    assert_eq!(parallel_limit(1000), 40);
}

#[test]
fn domain_slots_are_distinct() {
    assert_eq!(sync_domain_slot(&SyncDomain::Email), 0);
    assert_eq!(sync_domain_slot(&SyncDomain::Calendar), 1);
    assert_eq!(sync_domain_slot(&SyncDomain::Tasks), 2);
}

fn queued(id: u128, account: u128, domain: SyncDomain) -> SyncJob {
    let mut j = job(0, 5);
    j.id = id;
    j.account_id = account;
    j.domain = domain;
    j.status = SyncStatus::Queued;
    j
}

#[test]
fn scheduler_keeps_per_account_limits() {
    let jobs = vec![
        queued(1, 10, SyncDomain::Email),
        queued(2, 10, SyncDomain::Email),
        queued(3, 10, SyncDomain::Calendar),
        queued(4, 10, SyncDomain::Tasks),
        queued(5, 20, SyncDomain::Email),
    ];
    let mut s = SyncScheduler::new(jobs);
    let a = s.start_next().expect("first job");
    assert_eq!(a.id, 1);
    // A second email job of account 10 must wait; its calendar job may run.
    let b = s.start_next().expect("second job");
    assert_eq!(b.id, 3);
    // Account 10 now runs two jobs: only account 20 may start.
    let c = s.start_next().expect("third job");
    assert_eq!(c.id, 5);
    assert!(s.start_next().is_none());
    assert_eq!(s.pending.len(), 2);
    s.finish(10, sync_domain_slot(&SyncDomain::Email));
    let d = s.start_next().expect("email job after one finished");
    assert_eq!(d.id, 2);
}

#[test]
fn run_keeps_the_parallel_limit_and_adds_up_outcomes() {
    let jobs = vec![
        queued(1, 10, SyncDomain::Email),
        queued(2, 20, SyncDomain::Email),
        queued(3, 30, SyncDomain::Email),
        queued(4, 10, SyncDomain::Email),
    ];
    let mut run = SyncRun::new(jobs, 2);
    let (t1, a) = run.start_job().expect("first job");
    let (t2, b) = run.start_job().expect("second job");
    assert_eq!((a.id, b.id), (1, 2));
    assert_ne!(t1, t2);
    // Two jobs run: the limit holds the others back.
    assert!(run.start_job().is_none());
    assert_eq!(run.finish_job(t1, JobOutcome::Completed(SyncDomain::Email, 5)), Ok(()));
    assert_eq!(run.finish_job(t1, JobOutcome::Failed), Err(SyncRunError::UnknownJob));
    let (t3, c) = run.start_job().expect("third job");
    assert_eq!(c.id, 3);
    assert_eq!(run.finish_job(t2, JobOutcome::Retried), Ok(()));
    let (t4, d) = run.start_job().expect("fourth job");
    assert_eq!(d.id, 4);
    assert!(run.start_job().is_none());
    assert_eq!(run.finish_job(t3, JobOutcome::Failed), Ok(()));
    assert_eq!(run.finish_job(t4, JobOutcome::Completed(SyncDomain::Email, 2)), Ok(()));
    assert!(run.is_idle());
    assert!(run.start_job().is_none());
    let s = run.summary();
    assert_eq!(s.completed_jobs, 2);
    assert_eq!(s.failed_jobs, 1);
    assert_eq!(s.retried_jobs, 1);
    assert_eq!(s.email_messages_synced, 7);
}

#[test]
fn run_starts_a_waiting_job_once_its_account_is_free() {
    let jobs = vec![queued(1, 10, SyncDomain::Email), queued(2, 10, SyncDomain::Email)];
    let mut run = SyncRun::new(jobs, 0);
    let (t1, a) = run.start_job().expect("first job");
    assert_eq!(a.id, 1);
    // The second email job of the account waits for the first.
    assert!(run.start_job().is_none());
    assert_eq!(run.finish_job(t1, JobOutcome::Completed(SyncDomain::Email, 1)), Ok(()));
    assert!(run.is_idle());
    let (_, b) = run.start_job().expect("second job");
    assert_eq!(b.id, 2);
}

#[test]
fn natural_language_task_is_ready_to_store() {
    let input = NaturalTaskInput { text: "Call Ann tomorrow urgent notes: lease".to_string(), account_id: 5, list_id: "home".to_string() };
    let t = create_from_natural_language(input).expect("task");
    assert_eq!(t.account_id, 5);
    assert_eq!(t.list_id, "home");
    assert_eq!(t.title, "Call Ann tomorrow urgent");
    assert_eq!(t.notes.as_deref(), Some("lease"));
    assert_eq!(t.priority, TaskPriority::High);
    assert_eq!(t.status, TaskStatus::NotStarted);
    assert!(t.due_at.is_some());
    assert!(t.remote_id.is_none() && t.parent_id.is_none() && t.completed_at.is_none());
    assert_eq!(t.created_at, t.updated_at);
    assert!((t.due_at.unwrap() - t.created_at - 86400).abs() < 5);
}
