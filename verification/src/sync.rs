//! Background synchronisation decisions: which queued job may start next,
//! how a failed job is retried, and what a run adds up to. The caller runs
//! the jobs and reports back; nothing here waits or touches storage.
use vstd::prelude::*;
use std::collections::HashMap;
use crate::model::{SyncDomain, SyncJob, SyncStatus};
use crate::numbers::{decimal, decimal_text};
use crate::text::{extend, push_str, string_from_chars};
use crate::time::chrono_time;

verus! {

broadcast use vstd::std_specs::hash::group_hash_axioms;

// ------------------------------------------------------------------ run summary

/// What one run of the sync queue did.
#[derive(Debug, Clone, Copy, PartialEq, Eq, Structural)]
pub struct SyncRunSummary {
    pub completed_jobs: usize,
    pub failed_jobs: usize,
    pub retried_jobs: usize,
    pub email_messages_synced: usize,
    pub calendar_events_synced: usize,
    pub tasks_synced: usize,
}

impl Default for SyncRunSummary {
    fn default() -> (r: Self)
        ensures
            r == SyncRunSummary::zero(),
    {
        SyncRunSummary {
            completed_jobs: 0,
            failed_jobs: 0,
            retried_jobs: 0,
            email_messages_synced: 0,
            calendar_events_synced: 0,
            tasks_synced: 0,
        }
    }
}

/// The counts of a summary, field by field.
pub struct SummaryCounts {
    pub completed: int,
    pub failed: int,
    pub retried: int,
    pub email: int,
    pub calendar: int,
    pub tasks: int,
}

impl SyncRunSummary {
    pub open spec fn zero() -> SyncRunSummary {
        SyncRunSummary {
            completed_jobs: 0,
            failed_jobs: 0,
            retried_jobs: 0,
            email_messages_synced: 0,
            calendar_events_synced: 0,
            tasks_synced: 0,
        }
    }

    pub open spec fn counts(self) -> SummaryCounts {
        SummaryCounts {
            completed: self.completed_jobs as int,
            failed: self.failed_jobs as int,
            retried: self.retried_jobs as int,
            email: self.email_messages_synced as int,
            calendar: self.calendar_events_synced as int,
            tasks: self.tasks_synced as int,
        }
    }

    /// The two summaries can be added without any count leaving `usize`.
    pub open spec fn can_merge(self, other: SyncRunSummary) -> bool {
        &&& self.completed_jobs + other.completed_jobs <= usize::MAX
        &&& self.failed_jobs + other.failed_jobs <= usize::MAX
        &&& self.retried_jobs + other.retried_jobs <= usize::MAX
        &&& self.email_messages_synced + other.email_messages_synced <= usize::MAX
        &&& self.calendar_events_synced + other.calendar_events_synced <= usize::MAX
        &&& self.tasks_synced + other.tasks_synced <= usize::MAX
    }

    /// The field-by-field sum of two summaries.
    pub open spec fn sum(self, other: SyncRunSummary) -> SyncRunSummary {
        SyncRunSummary {
            completed_jobs: (self.completed_jobs + other.completed_jobs) as usize,
            failed_jobs: (self.failed_jobs + other.failed_jobs) as usize,
            retried_jobs: (self.retried_jobs + other.retried_jobs) as usize,
            email_messages_synced: (self.email_messages_synced + other.email_messages_synced) as usize,
            calendar_events_synced: (self.calendar_events_synced + other.calendar_events_synced) as usize,
            tasks_synced: (self.tasks_synced + other.tasks_synced) as usize,
        }
    }

    /// Adds the counts of `other` to this summary.
    pub fn merge(&mut self, other: SyncRunSummary)
        requires
            old(self).can_merge(other),
        ensures
            *final(self) == old(self).sum(other),
    {
        self.completed_jobs = self.completed_jobs + other.completed_jobs;
        self.failed_jobs = self.failed_jobs + other.failed_jobs;
        self.retried_jobs = self.retried_jobs + other.retried_jobs;
        self.email_messages_synced = self.email_messages_synced + other.email_messages_synced;
        self.calendar_events_synced = self.calendar_events_synced + other.calendar_events_synced;
        self.tasks_synced = self.tasks_synced + other.tasks_synced;
    }
}

/// Merging into an empty summary gives the other summary, and merging an
/// empty summary changes nothing.
pub proof fn lemma_merge_zero(s: SyncRunSummary)
    ensures
        SyncRunSummary::zero().can_merge(s),
        SyncRunSummary::zero().sum(s) == s,
        s.can_merge(SyncRunSummary::zero()),
        s.sum(SyncRunSummary::zero()) == s,
{
}

/// The order in which worker summaries are merged does not change the total.
pub proof fn lemma_merge_commutes(a: SyncRunSummary, b: SyncRunSummary)
    requires
        a.can_merge(b),
    ensures
        b.can_merge(a),
        a.sum(b) == b.sum(a),
{
}

/// Merging is associative where no count leaves `usize`.
pub proof fn lemma_merge_associates(a: SyncRunSummary, b: SyncRunSummary, c: SyncRunSummary)
    requires
        a.can_merge(b),
        a.sum(b).can_merge(c),
    ensures
        b.can_merge(c),
        a.can_merge(b.sum(c)),
        a.sum(b).sum(c) == a.sum(b.sum(c)),
{
}

/// How one job ended.
#[derive(Debug, Clone, Copy, PartialEq, Eq, Structural)]
pub enum JobOutcome {
    /// The domain synced this many items.
    Completed(SyncDomain, usize),
    /// The job failed and was queued again.
    Retried,
    /// The job failed for good.
    Failed,
}

/// The summary of one job.
pub open spec fn outcome_summary(o: JobOutcome) -> SyncRunSummary {
    let z = SyncRunSummary::zero();
    match o {
        JobOutcome::Completed(SyncDomain::Email, n) => SyncRunSummary { completed_jobs: 1, email_messages_synced: n, ..z },
        JobOutcome::Completed(SyncDomain::Calendar, n) => SyncRunSummary { completed_jobs: 1, calendar_events_synced: n, ..z },
        JobOutcome::Completed(SyncDomain::Tasks, n) => SyncRunSummary { completed_jobs: 1, tasks_synced: n, ..z },
        JobOutcome::Retried => SyncRunSummary { retried_jobs: 1, ..z },
        JobOutcome::Failed => SyncRunSummary { failed_jobs: 1, ..z },
    }
}

/// The summary of one job: one completed, retried or failed job, and the
/// items a completed job synced in its domain.
pub fn job_summary(outcome: JobOutcome) -> (r: SyncRunSummary)
    ensures
        r == outcome_summary(outcome),
{
    let mut s = SyncRunSummary::default();
    match outcome {
        JobOutcome::Completed(domain, n) => {
            s.completed_jobs = 1;
            match domain {
                SyncDomain::Email => s.email_messages_synced = n,
                SyncDomain::Calendar => s.calendar_events_synced = n,
                SyncDomain::Tasks => s.tasks_synced = n,
            }
        },
        JobOutcome::Retried => s.retried_jobs = 1,
        JobOutcome::Failed => s.failed_jobs = 1,
    }
    s
}

// ------------------------------------------------------------------ retries

pub open spec fn min_nat(a: nat, b: nat) -> nat {
    if a <= b { a } else { b }
}

/// The wait before retry number `attempt`: thirty seconds, doubled per
/// attempt, doubling at most eight times.
pub open spec fn backoff(attempt: nat) -> nat {
    30 * vstd::arithmetic::power2::pow2(min_nat(attempt, 8))
}

/// The wait in seconds before retry number `attempt`.
pub fn backoff_secs(attempt: u32) -> (r: u64)
    ensures
        r == backoff(attempt as nat),
{
    let capped: u32 = if attempt < 8 { attempt } else { 8 };
    proof {
        vstd::bits::lemma_u64_pow2_no_overflow(capped as nat);
        vstd::arithmetic::power2::lemma2_to64();
        vstd::bits::lemma_u64_shl_is_mul(1u64, capped as u64);
    }
    let shifted: u64 = 1u64 << (capped as u64);
    assert(shifted <= 256) by {
        if capped < 8 {
            vstd::arithmetic::power2::lemma_pow2_strictly_increases(capped as nat, 8);
        }
    }
    30u64 * shifted
}

/// The wait never exceeds thirty seconds times 256, and never shrinks as the
/// attempts grow.
pub proof fn lemma_backoff_bounded_monotone(a: nat, b: nat)
    requires
        a <= b,
    ensures
        30 <= backoff(a) <= backoff(b) <= 7680,
{
    vstd::arithmetic::power2::lemma2_to64();
    if min_nat(a, 8) < min_nat(b, 8) {
        vstd::arithmetic::power2::lemma_pow2_strictly_increases(min_nat(a, 8), min_nat(b, 8));
    }
    if min_nat(b, 8) < 8 {
        vstd::arithmetic::power2::lemma_pow2_strictly_increases(min_nat(b, 8), 8);
    }
    vstd::arithmetic::power2::lemma_pow2_pos(min_nat(a, 8));
}

/// What to do with a job that failed.
#[derive(Debug, Clone)]
pub enum RetryDecision {
    /// Mark the job failed after this many attempts, with this error.
    Fail { attempt: u32, error: String },
    /// Queue this job again.
    Retry(SyncJob),
}

pub open spec fn next_attempt(job: SyncJob) -> u32 {
    if job.attempt_count < u32::MAX { (job.attempt_count + 1) as u32 } else { u32::MAX }
}

/// The retry of `job` after `error`, queued at `now` to run after its backoff.
pub open spec fn retried_job(job: SyncJob, error: Seq<char>, now: i64, r: SyncJob) -> bool {
    &&& r.id == job.id
    &&& r.account_id == job.account_id
    &&& r.domain == job.domain
    &&& r.status == SyncStatus::Queued
    &&& r.payload_json@ == job.payload_json@
    &&& r.attempt_count == next_attempt(job)
    &&& r.max_attempts == job.max_attempts
    &&& r.run_after == now + backoff(next_attempt(job) as nat)
    &&& r.last_error matches Some(e) && e@ == error
    &&& r.created_at == job.created_at
    &&& r.updated_at == now
}

/// A failed job is failed for good once its next attempt reaches its limit;
/// otherwise it is queued again with one more attempt, after its backoff.
pub fn fail_or_retry_job(job: &SyncJob, error: String, now: i64) -> (r: RetryDecision)
    requires
        chrono_time(now),
        now + 7680 <= 8_210_266_876_799,
    ensures
        next_attempt(*job) >= job.max_attempts ==> (r matches RetryDecision::Fail { attempt, error: e }
            && attempt == next_attempt(*job) && e@ == error@),
        next_attempt(*job) < job.max_attempts ==> (r matches RetryDecision::Retry(j) && retried_job(*job, error@, now, j)),
{
    let next = job.attempt_count.saturating_add(1);
    if next >= job.max_attempts {
        return RetryDecision::Fail { attempt: next, error };
    }
    let delay = backoff_secs(next);
    proof {
        lemma_backoff_bounded_monotone(next as nat, next as nat);
    }
    RetryDecision::Retry(SyncJob {
        id: job.id,
        account_id: job.account_id,
        domain: job.domain,
        status: SyncStatus::Queued,
        payload_json: job.payload_json.clone(),
        attempt_count: next,
        max_attempts: job.max_attempts,
        run_after: now + delay as i64,
        last_error: Some(error),
        created_at: job.created_at,
        updated_at: now,
    })
}

// ------------------------------------------------------------------ new jobs

/// A job queued at `now` on request: it runs `run_after_secs` from now (none
/// or a negative delay meaning now), with the given payload or an empty JSON
/// object, and up to five attempts.
pub fn new_sync_job(
    id: u128,
    account_id: u128,
    domain: SyncDomain,
    payload: Option<String>,
    run_after_secs: Option<i64>,
    now: i64,
) -> (r: SyncJob)
    requires
        chrono_time(now),
        run_after_secs matches Some(s) ==> s <= 0 || now + s <= 8_210_266_876_799,
    ensures
        r.id == id,
        r.account_id == account_id,
        r.domain == domain,
        r.status == SyncStatus::Queued,
        r.payload_json@ == match payload {
            Some(p) => p@,
            None => "{}"@,
        },
        r.attempt_count == 0,
        r.max_attempts == 5,
        r.run_after == now + match run_after_secs {
            Some(s) => if s > 0 { s as int } else { 0 },
            None => 0,
        },
        r.last_error.is_none(),
        r.created_at == now,
        r.updated_at == now,
{
    let delay: i64 = match run_after_secs {
        Some(s) => if s > 0 { s } else { 0 },
        None => 0,
    };
    let payload_json = match payload {
        Some(p) => p,
        None => crate::text::string_from_chars(crate::text::chars_of("{}").as_slice()),
    };
    SyncJob {
        id,
        account_id,
        domain,
        status: SyncStatus::Queued,
        payload_json,
        attempt_count: 0,
        max_attempts: 5,
        run_after: now + delay,
        last_error: None,
        created_at: now,
        updated_at: now,
    }
}

/// The periodic job of one account and domain: it runs at once the first
/// time, and one polling interval from now once the domain has synced before.
pub fn scheduled_sync_job(id: u128, account_id: u128, domain: SyncDomain, has_history: bool, interval_secs: u64, now: i64) -> (r: SyncJob)
    requires
        chrono_time(now),
        has_history ==> now + (interval_secs as i64) >= -8_334_601_315_200 && now + (interval_secs as i64) <= 8_210_266_876_799,
    ensures
        r.id == id,
        r.account_id == account_id,
        r.domain == domain,
        r.status == SyncStatus::Queued,
        r.payload_json@ == "{}"@,
        r.attempt_count == 0,
        r.max_attempts == 5,
        r.run_after == if has_history { now + (interval_secs as i64) } else { now as int },
        r.last_error.is_none(),
        r.created_at == now,
        r.updated_at == now,
{
    let run_after = if has_history { now + interval_secs as i64 } else { now };
    SyncJob {
        id,
        account_id,
        domain,
        status: SyncStatus::Queued,
        payload_json: crate::text::string_from_chars(crate::text::chars_of("{}").as_slice()),
        attempt_count: 0,
        max_attempts: 5,
        run_after,
        last_error: None,
        created_at: now,
        updated_at: now,
    }
}

// ------------------------------------------------------------------ scheduling

pub const MAX_JOBS_PER_ACCOUNT: usize = 2;
pub const MAX_JOBS_PER_ACCOUNT_DOMAIN: usize = 1;
pub const MAX_PARALLEL_JOBS: usize = 40;

/// The number of jobs a run may have in flight: the configured number, at
/// least one and at most forty.
pub fn parallel_limit(configured: usize) -> (r: usize)
    ensures
        r == if configured < 1 { 1 } else if configured > 40 { 40 } else { configured },
{
    if configured < 1 {
        1
    } else if configured > MAX_PARALLEL_JOBS {
        MAX_PARALLEL_JOBS
    } else {
        configured
    }
}

pub open spec fn slot(domain: SyncDomain) -> u8 {
    match domain {
        SyncDomain::Email => 0,
        SyncDomain::Calendar => 1,
        SyncDomain::Tasks => 2,
    }
}

/// The slot under which jobs of a domain are counted.
pub fn sync_domain_slot(domain: &SyncDomain) -> (r: u8)
    ensures
        r == slot(*domain),
{
    match domain {
        SyncDomain::Email => 0,
        SyncDomain::Calendar => 1,
        SyncDomain::Tasks => 2,
    }
}

/// The number of running jobs that `m` records for `k`.
pub open spec fn running(m: Map<u128, usize>, k: u128) -> nat {
    if m.contains_key(k) { m[k] as nat } else { 0 }
}

/// Running jobs per account and domain slot, one table per slot.
pub struct DomainActivity {
    pub email: HashMap<u128, usize>,
    pub calendar: HashMap<u128, usize>,
    pub tasks: HashMap<u128, usize>,
}

impl DomainActivity {
    pub open spec fn table(&self, s: u8) -> Map<u128, usize> {
        if s == 0 { self.email@ } else if s == 1 { self.calendar@ } else { self.tasks@ }
    }

    /// The running jobs of `account` in slot `s`.
    pub open spec fn running_in(&self, account: u128, s: u8) -> nat {
        running(self.table(s), account)
    }

    pub fn new() -> (r: DomainActivity)
        ensures
            r.email@ == Map::<u128, usize>::empty(),
            r.calendar@ == Map::<u128, usize>::empty(),
            r.tasks@ == Map::<u128, usize>::empty(),
    {
        DomainActivity { email: HashMap::new(), calendar: HashMap::new(), tasks: HashMap::new() }
    }

    fn count(&self, account: u128, s: u8) -> (r: usize)
        ensures
            r == self.running_in(account, s),
    {
        let m = if s == 0 { &self.email } else if s == 1 { &self.calendar } else { &self.tasks };
        match m.get(&account) {
            Some(v) => *v,
            None => 0,
        }
    }
}

fn count_in(m: &HashMap<u128, usize>, k: u128) -> (r: usize)
    ensures
        r == running(m@, k),
{
    match m.get(&k) {
        Some(v) => *v,
        None => 0,
    }
}

/// A job may start while its account runs fewer than `max_account` jobs and
/// its account and domain fewer than `max_domain`.
pub open spec fn eligible(
    job: SyncJob,
    by_account: Map<u128, usize>,
    by_domain: DomainActivity,
    max_account: usize,
    max_domain: usize,
) -> bool {
    running(by_account, job.account_id) < max_account
        && by_domain.running_in(job.account_id, slot(job.domain)) < max_domain
}

/// Removes and returns the first queued job that may start under the limits;
/// the other jobs keep their order.
pub fn take_next_eligible_job(
    jobs: &mut Vec<SyncJob>,
    active_by_account: &HashMap<u128, usize>,
    active_by_account_domain: &DomainActivity,
    max_jobs_per_account: usize,
    max_jobs_per_account_domain: usize,
) -> (r: Option<SyncJob>)
    ensures
        match r {
            Some(job) => exists|i: int| {
                &&& 0 <= i < old(jobs)@.len()
                &&& old(jobs)@[i] == job
                &&& eligible(job, active_by_account@, *active_by_account_domain, max_jobs_per_account, max_jobs_per_account_domain)
                &&& forall|j: int| 0 <= j < i ==> !eligible(#[trigger] old(jobs)@[j], active_by_account@, *active_by_account_domain, max_jobs_per_account, max_jobs_per_account_domain)
                &&& final(jobs)@ == old(jobs)@.remove(i)
            },
            None => {
                &&& final(jobs)@ == old(jobs)@
                &&& forall|j: int| 0 <= j < old(jobs)@.len() ==> !eligible(#[trigger] old(jobs)@[j], active_by_account@, *active_by_account_domain, max_jobs_per_account, max_jobs_per_account_domain)
            },
        },
{
    let mut i: usize = 0;
    while i < jobs.len()
        invariant
            i <= jobs.len(),
            jobs@ == old(jobs)@,
            forall|j: int| 0 <= j < i ==> !eligible(#[trigger] jobs@[j], active_by_account@, *active_by_account_domain, max_jobs_per_account, max_jobs_per_account_domain),
        decreases jobs.len() - i,
    {
        let account = jobs[i].account_id;
        let account_active = count_in(active_by_account, account);
        if account_active < max_jobs_per_account {
            let s = sync_domain_slot(&jobs[i].domain);
            let domain_active = active_by_account_domain.count(account, s);
            if domain_active < max_jobs_per_account_domain {
                let job = jobs.remove(i);
                return Some(job);
            }
        }
        i = i + 1;
    }
    None
}

/// The jobs of one run of the queue: those still waiting, and how many run
/// per account and per account and domain.
pub struct SyncScheduler {
    pub pending: Vec<SyncJob>,
    pub active_by_account: HashMap<u128, usize>,
    pub active_by_account_domain: DomainActivity,
}

impl SyncScheduler {
    /// No account runs more than two jobs, nor more than one per domain, and
    /// an account with no running job has no entry.
    pub open spec fn within_limits(&self) -> bool {
        &&& forall|k: u128| #[trigger] self.active_by_account@.contains_key(k)
            ==> 1 <= self.active_by_account@[k] <= MAX_JOBS_PER_ACCOUNT
        &&& forall|k: u128, s: u8| s <= 2 && #[trigger] self.active_by_account_domain.table(s).contains_key(k)
            ==> 1 <= self.active_by_account_domain.table(s)[k] <= MAX_JOBS_PER_ACCOUNT_DOMAIN
    }

    pub fn new(jobs: Vec<SyncJob>) -> (r: SyncScheduler)
        ensures
            r.pending@ == jobs@,
            r.active_by_account@ == Map::<u128, usize>::empty(),
            forall|k: u128, s: u8| r.active_by_account_domain.running_in(k, s) == 0,
            r.within_limits(),
    {
        SyncScheduler { pending: jobs, active_by_account: HashMap::new(), active_by_account_domain: DomainActivity::new() }
    }

    /// Starts the first waiting job that the limits allow, counting it as running.
    pub fn start_next(&mut self) -> (r: Option<SyncJob>)
        requires
            old(self).within_limits(),
        ensures
            final(self).within_limits(),
            match r {
                Some(job) => exists|i: int| {
                    &&& 0 <= i < old(self).pending@.len()
                    &&& old(self).pending@[i] == job
                    &&& eligible(job, old(self).active_by_account@, old(self).active_by_account_domain, MAX_JOBS_PER_ACCOUNT, MAX_JOBS_PER_ACCOUNT_DOMAIN)
                    &&& forall|j: int| 0 <= j < i ==> !eligible(#[trigger] old(self).pending@[j], old(self).active_by_account@, old(self).active_by_account_domain, MAX_JOBS_PER_ACCOUNT, MAX_JOBS_PER_ACCOUNT_DOMAIN)
                    &&& final(self).pending@ == old(self).pending@.remove(i)
                    &&& final(self).active_by_account@ == old(self).active_by_account@.insert(job.account_id, (running(old(self).active_by_account@, job.account_id) + 1) as usize)
                    &&& forall|k: u128, s: u8| s <= 2 ==> #[trigger] final(self).active_by_account_domain.running_in(k, s) == if k == job.account_id && s == slot(job.domain) {
                        old(self).active_by_account_domain.running_in(k, s) + 1
                    } else {
                        old(self).active_by_account_domain.running_in(k, s)
                    }
                },
                None => {
                    &&& final(self).pending@ == old(self).pending@
                    &&& final(self).active_by_account@ == old(self).active_by_account@
                    &&& final(self).active_by_account_domain.table(0) == old(self).active_by_account_domain.table(0)
                    &&& final(self).active_by_account_domain.table(1) == old(self).active_by_account_domain.table(1)
                    &&& final(self).active_by_account_domain.table(2) == old(self).active_by_account_domain.table(2)
                    &&& forall|j: int| 0 <= j < old(self).pending@.len() ==> !eligible(#[trigger] old(self).pending@[j], old(self).active_by_account@, old(self).active_by_account_domain, MAX_JOBS_PER_ACCOUNT, MAX_JOBS_PER_ACCOUNT_DOMAIN)
                },
            },
    {
        let job = match take_next_eligible_job(
            &mut self.pending,
            &self.active_by_account,
            &self.active_by_account_domain,
            MAX_JOBS_PER_ACCOUNT,
            MAX_JOBS_PER_ACCOUNT_DOMAIN,
        ) {
            Some(job) => job,
            None => return None,
        };
        let account = job.account_id;
        let n = count_in(&self.active_by_account, account);
        self.active_by_account.insert(account, n + 1);
        let s = sync_domain_slot(&job.domain);
        if s == 0 {
            let d = count_in(&self.active_by_account_domain.email, account);
            self.active_by_account_domain.email.insert(account, d + 1);
        } else if s == 1 {
            let d = count_in(&self.active_by_account_domain.calendar, account);
            self.active_by_account_domain.calendar.insert(account, d + 1);
        } else {
            let d = count_in(&self.active_by_account_domain.tasks, account);
            self.active_by_account_domain.tasks.insert(account, d + 1);
        }
        proof {
            let ghost o = old(self).active_by_account_domain;
            assert forall|k: u128, t: u8| t <= 2 && #[trigger] self.active_by_account_domain.table(t).contains_key(k)
                implies 1 <= self.active_by_account_domain.table(t)[k] <= MAX_JOBS_PER_ACCOUNT_DOMAIN by {
                if !(k == account && t == s) {
                    assert(o.table(t).contains_key(k));
                }
            }
        }
        Some(job)
    }

    /// Counts one job of `account` in slot `s` as done; a count that reaches
    /// zero is dropped.
    pub fn finish(&mut self, account: u128, s: u8)
        requires
            old(self).within_limits(),
        ensures
            final(self).within_limits(),
            final(self).pending@ == old(self).pending@,
            forall|k: u128| #[trigger] running(final(self).active_by_account@, k) == if k == account {
                (if running(old(self).active_by_account@, k) > 0 { running(old(self).active_by_account@, k) - 1 } else { 0 }) as nat
            } else {
                running(old(self).active_by_account@, k)
            },
            forall|k: u128, t: u8| t <= 2 ==> #[trigger] final(self).active_by_account_domain.running_in(k, t) == if k == account && t == s {
                (if old(self).active_by_account_domain.running_in(k, t) > 0 { old(self).active_by_account_domain.running_in(k, t) - 1 } else { 0 }) as nat
            } else {
                old(self).active_by_account_domain.running_in(k, t)
            },
    {
        release(&mut self.active_by_account, account);
        if s == 0 {
            release(&mut self.active_by_account_domain.email, account);
        } else if s == 1 {
            release(&mut self.active_by_account_domain.calendar, account);
        } else if s == 2 {
            release(&mut self.active_by_account_domain.tasks, account);
        }
        proof {
            let ghost o = old(self).active_by_account_domain;
            assert forall|k: u128, t: u8| t <= 2 && #[trigger] self.active_by_account_domain.table(t).contains_key(k)
                implies 1 <= self.active_by_account_domain.table(t)[k] <= MAX_JOBS_PER_ACCOUNT_DOMAIN by {
                assert(o.table(t).contains_key(k));
            }
        }
    }
}

/// Lowers the count of `k` by one, dropping it at zero.
fn release(m: &mut HashMap<u128, usize>, k: u128)
    ensures
        forall|j: u128| j != k ==> #[trigger] final(m)@.contains_key(j) == old(m)@.contains_key(j),
        forall|j: u128| j != k && old(m)@.contains_key(j) ==> #[trigger] final(m)@[j] == old(m)@[j],
        final(m)@.contains_key(k) ==> old(m)@.contains_key(k) && old(m)@[k] > 1 && final(m)@[k] == old(m)@[k] - 1,
        old(m)@.contains_key(k) && old(m)@[k] > 1 ==> final(m)@.contains_key(k),
{
    match m.get(&k) {
        Some(v) => {
            let n = *v;
            if n <= 1 {
                m.remove(&k);
            } else {
                m.insert(k, n - 1);
            }
        },
        None => {},
    }
}

}

verus! {

// ------------------------------------------------------------------ run notice

/// The title of the notice after a run: a call for attention when a job
/// failed.
pub open spec fn notice_title(s: SyncRunSummary) -> Seq<char> {
    if s.failed_jobs > 0 { "Cove Mail sync needs attention"@ } else { "Cove Mail sync complete"@ }
}

/// The counted parts of the notice, in order: synced mail, events and tasks,
/// retried and failed jobs, each when there were any; else the completed
/// jobs.
pub open spec fn notice_parts(s: SyncRunSummary) -> Seq<Seq<char>> {
    let a: Seq<Seq<char>> = if s.email_messages_synced > 0 { seq![decimal(s.email_messages_synced as nat) + " email items"@] } else { seq![] };
    let b = if s.calendar_events_synced > 0 { a.push(decimal(s.calendar_events_synced as nat) + " calendar events"@) } else { a };
    let c = if s.tasks_synced > 0 { b.push(decimal(s.tasks_synced as nat) + " tasks"@) } else { b };
    let d = if s.retried_jobs > 0 { c.push(decimal(s.retried_jobs as nat) + " retried jobs"@) } else { c };
    let e = if s.failed_jobs > 0 { d.push(decimal(s.failed_jobs as nat) + " failed jobs"@) } else { d };
    if e.len() == 0 { seq![decimal(s.completed_jobs as nat) + " completed jobs"@] } else { e }
}

/// The notice after a run, as title and body: its parts separated by
/// ` | `.
pub fn sync_notice(summary: &SyncRunSummary) -> (r: (String, String))
    requires
        summary.email_messages_synced <= u64::MAX,
        summary.calendar_events_synced <= u64::MAX,
        summary.tasks_synced <= u64::MAX,
        summary.retried_jobs <= u64::MAX,
        summary.failed_jobs <= u64::MAX,
        summary.completed_jobs <= u64::MAX,
    ensures
        r.0@ == notice_title(*summary),
        r.1@ == joined(notice_parts(*summary), " | "@),
{
    let title = if summary.failed_jobs > 0 { "Cove Mail sync needs attention" } else { "Cove Mail sync complete" };
    let mut parts: Vec<Vec<char>> = Vec::new();
    if summary.email_messages_synced > 0 {
        parts.push(counted(summary.email_messages_synced as u64, " email items"));
    }
    if summary.calendar_events_synced > 0 {
        parts.push(counted(summary.calendar_events_synced as u64, " calendar events"));
    }
    if summary.tasks_synced > 0 {
        parts.push(counted(summary.tasks_synced as u64, " tasks"));
    }
    if summary.retried_jobs > 0 {
        parts.push(counted(summary.retried_jobs as u64, " retried jobs"));
    }
    if summary.failed_jobs > 0 {
        parts.push(counted(summary.failed_jobs as u64, " failed jobs"));
    }
    if parts.len() == 0 {
        parts.push(counted(summary.completed_jobs as u64, " completed jobs"));
    }
    assert(parts@.map_values(|p: Vec<char>| p@) =~= notice_parts(*summary));
    let body = join_parts(&parts, " | ");
    (title.to_owned(), string_from_chars(body.as_slice()))
}

fn counted(n: u64, what: &str) -> (r: Vec<char>)
    ensures
        r@ == decimal(n as nat) + what@,
{
    let mut t = decimal_text(n);
    push_str(&mut t, what);
    t
}

/// Texts with `sep` between each two.
pub open spec fn joined(parts: Seq<Seq<char>>, sep: Seq<char>) -> Seq<char>
    decreases parts.len(),
{
    if parts.len() == 0 {
        Seq::empty()
    } else if parts.len() == 1 {
        parts[0]
    } else {
        joined(parts.drop_last(), sep) + sep + parts.last()
    }
}

fn join_parts(parts: &Vec<Vec<char>>, sep: &str) -> (r: Vec<char>)
    ensures
        r@ == joined(parts@.map_values(|p: Vec<char>| p@), sep@),
{
    let ghost pv = parts@.map_values(|p: Vec<char>| p@);
    let mut out: Vec<char> = Vec::new();
    for i in 0..parts.len()
        invariant
            pv == parts@.map_values(|p: Vec<char>| p@),
            out@ == joined(pv.take(i as int), sep@),
    {
        assert(pv.take(i + 1).drop_last() =~= pv.take(i as int));
        assert(pv.take(i + 1).last() == parts@[i as int]@);
        if i > 0 {
            push_str(&mut out, sep);
        }
        extend(&mut out, parts[i].as_slice());
    }
    assert(pv.take(pv.len() as int) =~= pv);
    out
}

}
