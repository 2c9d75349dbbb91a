//! One run of the sync queue, as the decisions between the caller's work:
//! the caller starts each job that `start_job` hands out, runs it, and
//! reports its outcome to `finish_job`, until nothing runs any more.
use vstd::prelude::*;
use crate::model::SyncJob;
use crate::sync::{
    eligible, job_summary, outcome_summary, parallel_limit, running, slot, sync_domain_slot, JobOutcome,
    SyncRunSummary, SyncScheduler, MAX_JOBS_PER_ACCOUNT, MAX_JOBS_PER_ACCOUNT_DOMAIN, MAX_PARALLEL_JOBS,
};

verus! {

broadcast use vstd::seq_lib::group_to_multiset_ensures, vstd::multiset::group_multiset_axioms;

/// The jobs of account `k` among `js`.
pub open spec fn account_load(js: Seq<SyncJob>, k: u128) -> nat
    decreases js.len(),
{
    if js.len() == 0 {
        0
    } else {
        account_load(js.drop_last(), k) + if js.last().account_id == k { 1nat } else { 0nat }
    }
}

/// The jobs of account `k` in domain slot `s` among `js`.
pub open spec fn domain_load(js: Seq<SyncJob>, k: u128, s: u8) -> nat
    decreases js.len(),
{
    if js.len() == 0 {
        0
    } else {
        domain_load(js.drop_last(), k, s) + if js.last().account_id == k && slot(js.last().domain) == s { 1nat } else { 0nat }
    }
}

/// `job` may start beside the `running` jobs: its account runs fewer than
/// two jobs and none in its domain.
pub open spec fn may_start(job: SyncJob, running: Seq<SyncJob>) -> bool {
    account_load(running, job.account_id) < MAX_JOBS_PER_ACCOUNT
        && domain_load(running, job.account_id, slot(job.domain)) < MAX_JOBS_PER_ACCOUNT_DOMAIN
}

/// The jobs of finished entries, in the order they finished.
pub open spec fn finished_jobs(done: Seq<(SyncJob, SyncRunSummary)>) -> Seq<SyncJob> {
    done.map_values(|e: (SyncJob, SyncRunSummary)| e.0)
}

/// The field-by-field sum of the summaries of finished jobs.
pub open spec fn total(done: Seq<(SyncJob, SyncRunSummary)>) -> SyncRunSummary
    decreases done.len(),
{
    if done.len() == 0 {
        SyncRunSummary::zero()
    } else {
        total(done.drop_last()).sum(done.last().1)
    }
}

proof fn lemma_load_push(js: Seq<SyncJob>, j: SyncJob, k: u128, s: u8)
    ensures
        account_load(js.push(j), k) == account_load(js, k) + if j.account_id == k { 1nat } else { 0nat },
        domain_load(js.push(j), k, s) == domain_load(js, k, s) + if j.account_id == k && slot(j.domain) == s { 1nat } else { 0nat },
{
    assert(js.push(j).drop_last() =~= js);
}

proof fn lemma_load_remove(js: Seq<SyncJob>, i: int, k: u128, s: u8)
    requires
        0 <= i < js.len(),
    ensures
        account_load(js.remove(i), k) + (if js[i].account_id == k { 1nat } else { 0nat }) == account_load(js, k),
        domain_load(js.remove(i), k, s) + (if js[i].account_id == k && slot(js[i].domain) == s { 1nat } else { 0nat })
            == domain_load(js, k, s),
    decreases js.len(),
{
    if i == js.len() - 1 {
        assert(js.remove(i) =~= js.drop_last());
    } else {
        lemma_load_remove(js.drop_last(), i, k, s);
        assert(js.remove(i).drop_last() =~= js.drop_last().remove(i));
        assert(js.remove(i).last() == js.last());
    }
}

proof fn lemma_no_load_past_slots(js: Seq<SyncJob>, k: u128, s: u8)
    requires
        s > 2,
    ensures
        domain_load(js, k, s) == 0,
    decreases js.len(),
{
    if js.len() > 0 {
        lemma_no_load_past_slots(js.drop_last(), k, s);
    }
}

/// Why a report of a finished job was refused.
#[derive(Debug, Clone, Copy, PartialEq, Eq, Structural)]
pub enum SyncRunError {
    /// No running job has that ticket.
    UnknownJob,
    /// A count of the run's summary would leave `usize`.
    SummaryOverflow,
}

/// A run of the sync queue: the jobs still waiting, those running (each
/// under a ticket), and the summary of those finished.
pub struct SyncRun {
    scheduler: SyncScheduler,
    running: Vec<(usize, u128, u8)>,
    limit: usize,
    next_ticket: usize,
    summary: SyncRunSummary,
    jobs: Ghost<Seq<SyncJob>>,
    in_flight: Ghost<Seq<SyncJob>>,
    done: Ghost<Seq<(SyncJob, SyncRunSummary)>>,
}

fn fits(a: &SyncRunSummary, b: &SyncRunSummary) -> (r: bool)
    ensures
        r == a.can_merge(*b),
{
    a.completed_jobs.checked_add(b.completed_jobs).is_some()
        && a.failed_jobs.checked_add(b.failed_jobs).is_some()
        && a.retried_jobs.checked_add(b.retried_jobs).is_some()
        && a.email_messages_synced.checked_add(b.email_messages_synced).is_some()
        && a.calendar_events_synced.checked_add(b.calendar_events_synced).is_some()
        && a.tasks_synced.checked_add(b.tasks_synced).is_some()
}

impl SyncRun {
    /// The jobs the run was given.
    pub closed spec fn original(&self) -> Seq<SyncJob> {
        self.jobs@
    }

    /// The jobs not started yet, in queue order.
    pub closed spec fn pending(&self) -> Seq<SyncJob> {
        self.scheduler.pending@
    }

    /// The running jobs, in the order they started.
    pub closed spec fn running_jobs(&self) -> Seq<SyncJob> {
        self.in_flight@
    }

    /// The tickets of the running jobs, in the same order.
    pub closed spec fn tickets(&self) -> Seq<usize> {
        self.running@.map_values(|e: (usize, u128, u8)| e.0)
    }

    /// The finished jobs with their summaries, in the order they finished.
    pub closed spec fn finished(&self) -> Seq<(SyncJob, SyncRunSummary)> {
        self.done@
    }

    /// How many jobs may run at once.
    pub closed spec fn limit(&self) -> usize {
        self.limit
    }

    pub closed spec fn summary_so_far(&self) -> SyncRunSummary {
        self.summary
    }

    pub closed spec fn wf(&self) -> bool {
        &&& 1 <= self.limit <= MAX_PARALLEL_JOBS
        &&& self.running@.len() == self.in_flight@.len()
        &&& self.in_flight@.len() <= self.limit
        &&& forall|i: int| 0 <= i < self.running@.len() ==> (#[trigger] self.running@[i]).1 == self.in_flight@[i].account_id
            && self.running@[i].2 == slot(self.in_flight@[i].domain) && self.running@[i].0 < self.next_ticket
        &&& forall|i: int, j: int| 0 <= i < j < self.running@.len() ==> (#[trigger] self.running@[i]).0 < (#[trigger] self.running@[j]).0
        &&& self.scheduler.within_limits()
        &&& forall|k: u128| #[trigger] running(self.scheduler.active_by_account@, k) == account_load(self.in_flight@, k)
        &&& forall|k: u128, s: u8| s <= 2 ==> #[trigger] self.scheduler.active_by_account_domain.running_in(k, s) == domain_load(self.in_flight@, k, s)
        &&& finished_jobs(self.done@).to_multiset().add(self.in_flight@.to_multiset()).add(self.scheduler.pending@.to_multiset())
            == self.jobs@.to_multiset()
        &&& self.jobs@.len() <= usize::MAX
        &&& self.next_ticket + self.scheduler.pending@.len() == self.jobs@.len()
        &&& self.next_ticket == self.done@.len() + self.in_flight@.len()
        &&& self.summary == total(self.done@)
    }

    /// A run of `jobs`, of which at most `max_parallel` (taken between one
    /// and forty) run at once.
    pub fn new(jobs: Vec<SyncJob>, max_parallel: usize) -> (r: SyncRun)
        ensures
            r.wf(),
            r.original() == jobs@,
            r.pending() == jobs@,
            r.running_jobs().len() == 0,
            r.tickets().len() == 0,
            r.finished().len() == 0,
            r.limit() == if max_parallel < 1 { 1 } else if max_parallel > 40 { 40 } else { max_parallel },
            r.summary_so_far() == SyncRunSummary::zero(),
    {
        let ghost original = jobs@;
        let _n: usize = jobs.len();
        let limit = parallel_limit(max_parallel);
        let scheduler = SyncScheduler::new(jobs);
        let run = SyncRun {
            scheduler,
            running: Vec::new(),
            limit,
            next_ticket: 0,
            summary: SyncRunSummary::default(),
            jobs: Ghost(original),
            in_flight: Ghost(Seq::empty()),
            done: Ghost(Seq::empty()),
        };
        proof {
            assert(finished_jobs(run.done@) =~= Seq::<SyncJob>::empty());
            assert(finished_jobs(run.done@).to_multiset().add(run.in_flight@.to_multiset()).add(original.to_multiset())
                =~= original.to_multiset());
            assert(run.tickets() =~= Seq::<usize>::empty());
        }
        run
    }

    proof fn lemma_eligible_is_may_start(&self, j: SyncJob)
        requires
            self.wf(),
        ensures
            eligible(j, self.scheduler.active_by_account@, self.scheduler.active_by_account_domain, MAX_JOBS_PER_ACCOUNT,
                MAX_JOBS_PER_ACCOUNT_DOMAIN) == may_start(j, self.in_flight@),
    {
        assert(running(self.scheduler.active_by_account@, j.account_id) == account_load(self.in_flight@, j.account_id));
        assert(self.scheduler.active_by_account_domain.running_in(j.account_id, slot(j.domain))
            == domain_load(self.in_flight@, j.account_id, slot(j.domain)));
    }

    /// Starts the first waiting job that may run beside the running ones,
    /// unless `limit` jobs run already; hands it out with a new ticket.
    pub fn start_job(&mut self) -> (r: Option<(usize, SyncJob)>)
        requires
            old(self).wf(),
        ensures
            final(self).wf(),
            final(self).original() == old(self).original(),
            final(self).finished() == old(self).finished(),
            final(self).limit() == old(self).limit(),
            final(self).summary_so_far() == old(self).summary_so_far(),
            match r {
                Some((t, job)) => exists|i: int| {
                    &&& 0 <= i < old(self).pending().len()
                    &&& old(self).pending()[i] == job
                    &&& old(self).running_jobs().len() < old(self).limit()
                    &&& may_start(job, old(self).running_jobs())
                    &&& forall|j: int| 0 <= j < i ==> !may_start(#[trigger] old(self).pending()[j], old(self).running_jobs())
                    &&& final(self).pending() == old(self).pending().remove(i)
                    &&& final(self).running_jobs() == old(self).running_jobs().push(job)
                    &&& !old(self).tickets().contains(t)
                    &&& final(self).tickets() == old(self).tickets().push(t)
                },
                None => {
                    &&& final(self).pending() == old(self).pending()
                    &&& final(self).running_jobs() == old(self).running_jobs()
                    &&& final(self).tickets() == old(self).tickets()
                    &&& (old(self).running_jobs().len() >= old(self).limit()
                        || forall|j: int| 0 <= j < old(self).pending().len() ==> !may_start(#[trigger] old(self).pending()[j], old(self).running_jobs()))
                },
            },
    {
        if self.running.len() >= self.limit {
            return None;
        }
        let ghost pre = *self;
        proof {
            assert forall|j: SyncJob| eligible(j, pre.scheduler.active_by_account@, pre.scheduler.active_by_account_domain,
                MAX_JOBS_PER_ACCOUNT, MAX_JOBS_PER_ACCOUNT_DOMAIN) == may_start(j, pre.in_flight@) by {
                pre.lemma_eligible_is_may_start(j);
            }
        }
        match self.scheduler.start_next() {
            None => {
                assert forall|k: u128, s: u8| s <= 2 implies #[trigger] self.scheduler.active_by_account_domain.running_in(k, s)
                    == domain_load(self.in_flight@, k, s) by {
                    assert(pre.scheduler.active_by_account_domain.running_in(k, s) == domain_load(pre.in_flight@, k, s));
                }
                assert forall|k: u128| #[trigger] running(self.scheduler.active_by_account@, k) == account_load(self.in_flight@, k) by {
                    assert(running(pre.scheduler.active_by_account@, k) == account_load(pre.in_flight@, k));
                }
                None
            },
            Some(job) => {
                let ghost i = choose|i: int| {
                    &&& 0 <= i < pre.scheduler.pending@.len()
                    &&& pre.scheduler.pending@[i] == job
                    &&& eligible(job, pre.scheduler.active_by_account@, pre.scheduler.active_by_account_domain, MAX_JOBS_PER_ACCOUNT, MAX_JOBS_PER_ACCOUNT_DOMAIN)
                    &&& forall|j: int| 0 <= j < i ==> !eligible(#[trigger] pre.scheduler.pending@[j], pre.scheduler.active_by_account@, pre.scheduler.active_by_account_domain, MAX_JOBS_PER_ACCOUNT, MAX_JOBS_PER_ACCOUNT_DOMAIN)
                    &&& self.scheduler.pending@ == pre.scheduler.pending@.remove(i)
                    &&& self.scheduler.active_by_account@ == pre.scheduler.active_by_account@.insert(job.account_id, (running(pre.scheduler.active_by_account@, job.account_id) + 1) as usize)
                    &&& forall|k: u128, s: u8| s <= 2 ==> #[trigger] self.scheduler.active_by_account_domain.running_in(k, s) == if k == job.account_id && s == slot(job.domain) {
                        pre.scheduler.active_by_account_domain.running_in(k, s) + 1
                    } else {
                        pre.scheduler.active_by_account_domain.running_in(k, s)
                    }
                };
                let t = self.next_ticket;
                let entry = (t, job.account_id, sync_domain_slot(&job.domain));
                self.running.push(entry);
                self.next_ticket = t + 1;
                proof {
                    let inf = pre.in_flight@.push(job);
                    self.in_flight = Ghost(inf);
                    if pre.scheduler.active_by_account@.contains_key(job.account_id) {
                        assert(pre.scheduler.active_by_account@[job.account_id] <= 2);
                    }
                    assert forall|k: u128| #[trigger] running(self.scheduler.active_by_account@, k) == account_load(inf, k) by {
                        lemma_load_push(pre.in_flight@, job, k, 0);
                        assert(running(pre.scheduler.active_by_account@, k) == account_load(pre.in_flight@, k));
                    }
                    assert forall|k: u128, s: u8| s <= 2 implies #[trigger] self.scheduler.active_by_account_domain.running_in(k, s)
                        == domain_load(inf, k, s) by {
                        lemma_load_push(pre.in_flight@, job, k, s);
                        assert(pre.scheduler.active_by_account_domain.running_in(k, s) == domain_load(pre.in_flight@, k, s));
                    }
                    let p0 = pre.scheduler.pending@;
                    assert(p0.remove(i).to_multiset() == p0.to_multiset().remove(job));
                    assert(p0.to_multiset().count(job) > 0);
                    assert(finished_jobs(self.done@).to_multiset().add(inf.to_multiset()).add(self.scheduler.pending@.to_multiset())
                        =~= self.jobs@.to_multiset());
                    assert forall|a: int| 0 <= a < self.running@.len() implies (#[trigger] self.running@[a]).1 == self.in_flight@[a].account_id
                        && self.running@[a].2 == slot(self.in_flight@[a].domain) && self.running@[a].0 < self.next_ticket by {
                        if a < pre.running@.len() {
                            assert(self.running@[a] == pre.running@[a]);
                        }
                    }
                    assert forall|a: int, b: int| 0 <= a < b < self.running@.len() implies (#[trigger] self.running@[a]).0
                        < (#[trigger] self.running@[b]).0 by {
                        assert(self.running@[a] == pre.running@[a]);
                        if b < pre.running@.len() {
                            assert(self.running@[b] == pre.running@[b]);
                        }
                    }
                    assert(self.tickets() =~= pre.tickets().push(t));
                    assert(!pre.tickets().contains(t)) by {
                        if pre.tickets().contains(t) {
                            let a = choose|a: int| 0 <= a < pre.tickets().len() && pre.tickets()[a] == t;
                            assert(pre.running@[a].0 < pre.next_ticket);
                        }
                    }
                    pre.lemma_eligible_is_may_start(job);
                    assert forall|j: int| 0 <= j < i implies !may_start(#[trigger] pre.pending()[j], pre.running_jobs()) by {
                        pre.lemma_eligible_is_may_start(pre.scheduler.pending@[j]);
                    }
                    assert(self.running_jobs() == pre.running_jobs().push(job));
                    assert(self.pending() == pre.pending().remove(i));
                }
                Some((t, job))
            },
        }
    }

    /// Records the end of the running job with ticket `t`: it no longer runs,
    /// and the summary of `outcome` is added to the run's. A ticket that no
    /// running job has, or a count that would leave `usize`, is refused and
    /// changes nothing.
    pub fn finish_job(&mut self, t: usize, outcome: JobOutcome) -> (r: Result<(), SyncRunError>)
        requires
            old(self).wf(),
        ensures
            final(self).wf(),
            final(self).original() == old(self).original(),
            final(self).limit() == old(self).limit(),
            final(self).pending() == old(self).pending(),
            !old(self).tickets().contains(t) ==> r == Err::<(), SyncRunError>(SyncRunError::UnknownJob),
            old(self).tickets().contains(t) && !old(self).summary_so_far().can_merge(outcome_summary(outcome))
                ==> r == Err::<(), SyncRunError>(SyncRunError::SummaryOverflow),
            r is Err ==> {
                &&& final(self).running_jobs() == old(self).running_jobs()
                &&& final(self).tickets() == old(self).tickets()
                &&& final(self).finished() == old(self).finished()
                &&& final(self).summary_so_far() == old(self).summary_so_far()
            },
            r is Ok ==> exists|i: int| {
                &&& 0 <= i < old(self).tickets().len()
                &&& old(self).tickets()[i] == t
                &&& old(self).summary_so_far().can_merge(outcome_summary(outcome))
                &&& final(self).running_jobs() == old(self).running_jobs().remove(i)
                &&& final(self).tickets() == old(self).tickets().remove(i)
                &&& final(self).finished() == old(self).finished().push((old(self).running_jobs()[i], outcome_summary(outcome)))
                &&& final(self).summary_so_far() == old(self).summary_so_far().sum(outcome_summary(outcome))
            },
    {
        let ghost pre = *self;
        let mut i: usize = 0;
        while i < self.running.len()
            invariant
                *self == pre,
                i <= self.running@.len(),
                forall|a: int| 0 <= a < i ==> (#[trigger] self.running@[a]).0 != t,
            ensures
                *self == pre,
                i <= self.running@.len(),
                forall|a: int| 0 <= a < i ==> (#[trigger] self.running@[a]).0 != t,
                i < self.running@.len() ==> self.running@[i as int].0 == t,
            decreases self.running@.len() - i,
        {
            if self.running[i].0 == t {
                break;
            }
            i = i + 1;
        }
        if i == self.running.len() {
            proof {
                assert(!pre.tickets().contains(t)) by {
                    if pre.tickets().contains(t) {
                        let a = choose|a: int| 0 <= a < pre.tickets().len() && pre.tickets()[a] == t;
                        assert(pre.running@[a].0 == t);
                    }
                }
            }
            return Err(SyncRunError::UnknownJob);
        }
        let part = job_summary(outcome);
        if !fits(&self.summary, &part) {
            proof {
                assert(pre.tickets()[i as int] == t);
                assert(part == outcome_summary(outcome));
            }
            return Err(SyncRunError::SummaryOverflow);
        }
        let entry = self.running.remove(i);
        let account = entry.1;
        let s = entry.2;
        self.scheduler.finish(account, s);
        self.summary.merge(part);
        proof {
            let ii = i as int;
            let job = pre.in_flight@[ii];
            let inf = pre.in_flight@.remove(ii);
            self.in_flight = Ghost(inf);
            self.done = Ghost(pre.done@.push((job, part)));
            assert(slot(job.domain) <= 2);
            assert forall|k: u128| #[trigger] running(self.scheduler.active_by_account@, k) == account_load(inf, k) by {
                lemma_load_remove(pre.in_flight@, ii, k, 0);
                assert(running(pre.scheduler.active_by_account@, k) == account_load(pre.in_flight@, k));
            }
            assert forall|k: u128, u: u8| u <= 2 implies #[trigger] self.scheduler.active_by_account_domain.running_in(k, u)
                == domain_load(inf, k, u) by {
                lemma_load_remove(pre.in_flight@, ii, k, u);
                assert(pre.scheduler.active_by_account_domain.running_in(k, u) == domain_load(pre.in_flight@, k, u));
            }
            let f0 = finished_jobs(pre.done@);
            assert(finished_jobs(self.done@) =~= f0.push(job));
            assert(pre.in_flight@.remove(ii).to_multiset() == pre.in_flight@.to_multiset().remove(job));
            assert(pre.in_flight@.to_multiset().count(job) > 0);
            assert(finished_jobs(self.done@).to_multiset().add(inf.to_multiset()).add(self.scheduler.pending@.to_multiset())
                =~= self.jobs@.to_multiset());
            assert(self.done@.drop_last() =~= pre.done@);
            assert forall|a: int| 0 <= a < self.running@.len() implies (#[trigger] self.running@[a]).1 == self.in_flight@[a].account_id
                && self.running@[a].2 == slot(self.in_flight@[a].domain) && self.running@[a].0 < self.next_ticket by {
                if a < ii {
                    assert(self.running@[a] == pre.running@[a]);
                } else {
                    assert(self.running@[a] == pre.running@[a + 1]);
                }
            }
            assert forall|a: int, b: int| 0 <= a < b < self.running@.len() implies (#[trigger] self.running@[a]).0
                < (#[trigger] self.running@[b]).0 by {
                let a2 = if a < ii { a } else { a + 1 };
                let b2 = if b < ii { b } else { b + 1 };
                assert(self.running@[a] == pre.running@[a2]);
                assert(self.running@[b] == pre.running@[b2]);
            }
            assert(self.tickets() =~= pre.tickets().remove(ii));
            assert(pre.tickets()[ii] == t);
        }
        Ok(())
    }

    /// The summary of the jobs finished so far.
    pub fn summary(&self) -> (r: SyncRunSummary)
        ensures
            r == self.summary_so_far(),
    {
        self.summary
    }

    /// Whether no job runs.
    pub fn is_idle(&self) -> (r: bool)
        requires
            self.wf(),
        ensures
            r == (self.running_jobs().len() == 0),
    {
        self.running.len() == 0
    }
}

/// What holds of a run at every step: at most `limit` (one to forty) jobs
/// run at once, an account runs at most two jobs and at most one per
/// domain, each job of the run is waiting, running or finished exactly
/// once, the run's summary is the field-by-field sum of its finished jobs'
/// summaries, and while nothing runs the first waiting job may start.
pub proof fn lemma_sync_run_invariant(run: &SyncRun)
    requires
        run.wf(),
    ensures
        1 <= run.limit() <= 40,
        run.running_jobs().len() <= run.limit(),
        run.running_jobs().len() == run.tickets().len(),
        forall|k: u128| #[trigger] account_load(run.running_jobs(), k) <= MAX_JOBS_PER_ACCOUNT,
        forall|k: u128, s: u8| #[trigger] domain_load(run.running_jobs(), k, s) <= MAX_JOBS_PER_ACCOUNT_DOMAIN,
        (finished_jobs(run.finished()) + run.running_jobs() + run.pending()).to_multiset() == run.original().to_multiset(),
        run.summary_so_far() == total(run.finished()),
        run.running_jobs().len() == 0 && run.pending().len() > 0 ==> may_start(run.pending()[0], run.running_jobs()),
{
    let f = finished_jobs(run.done@);
    let i = run.in_flight@;
    let p = run.scheduler.pending@;
    assert((f + i + p).to_multiset() =~= f.to_multiset().add(i.to_multiset()).add(p.to_multiset())) by {
        vstd::seq_lib::lemma_multiset_commutative(f + i, p);
        vstd::seq_lib::lemma_multiset_commutative(f, i);
    }
    assert forall|k: u128| #[trigger] account_load(i, k) <= MAX_JOBS_PER_ACCOUNT by {
        assert(running(run.scheduler.active_by_account@, k) == account_load(i, k));
        if run.scheduler.active_by_account@.contains_key(k) {
            assert(run.scheduler.active_by_account@[k] <= MAX_JOBS_PER_ACCOUNT);
        }
    }
    assert forall|k: u128, s: u8| #[trigger] domain_load(i, k, s) <= MAX_JOBS_PER_ACCOUNT_DOMAIN by {
        if s > 2 {
            lemma_no_load_past_slots(i, k, s);
        } else {
            assert(run.scheduler.active_by_account_domain.running_in(k, s) == domain_load(i, k, s));
            if run.scheduler.active_by_account_domain.table(s).contains_key(k) {
                assert(run.scheduler.active_by_account_domain.table(s)[k] <= MAX_JOBS_PER_ACCOUNT_DOMAIN);
            }
        }
    }
    assert(run.tickets().len() == run.running@.len());
}

/// A run that has nothing running and nothing waiting ran each of its jobs
/// exactly once, and its summary adds up theirs.
pub proof fn lemma_sync_run_complete(run: &SyncRun)
    requires
        run.wf(),
        run.running_jobs().len() == 0,
        run.pending().len() == 0,
    ensures
        finished_jobs(run.finished()).to_multiset() == run.original().to_multiset(),
        run.summary_so_far() == total(run.finished()),
{
    lemma_sync_run_invariant(run);
    let f = finished_jobs(run.done@);
    assert(f + run.running_jobs() + run.pending() =~= f);
}

}
