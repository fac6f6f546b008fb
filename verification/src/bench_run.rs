//! One run of the benchmark: its budget of work, and what a worker does
//! next. The workers share one `BenchRun`; whoever holds it has it alone
//! for the length of one decision.

use crate::aggregate::{
    balanced, lemma_reported_all_counts, reported, reported_all, Aggregate,
};
use crate::counters::Outcome;
use crate::latency::SAMPLE_CAPACITY;
use crate::clock::{clock_elapsed, clock_now, duration_nanos, nanos_of};
use crate::metrics::{BenchRunMetrics, RequestStats};
use crate::rate_limiter::RateLimiter;
use crate::report::ExternalMetricsServiceReporter;
use std::sync::Arc;
use std::time::Duration;
use std::time::Instant;
use vstd::prelude::*;

verus! {

/// How much work a run may still begin.
#[derive(Clone, Copy, Debug, PartialEq, Eq, Structural)]
pub enum WorkBudget {
    /// So many calls may still begin.
    RemainingCount(usize),
    /// Calls may begin before this time, in nanoseconds since the run began.
    Deadline(u64),
}

impl WorkBudget {
    /// Whether a worker that asks at `now` may begin a call.
    pub open spec fn more_at(self, now: u64) -> bool {
        match self {
            WorkBudget::RemainingCount(remaining) => remaining > 0,
            WorkBudget::Deadline(deadline) => now < deadline,
        }
    }

    /// The budget after a worker asked: a count is one less, as long as
    /// it is not 0; a deadline stays.
    pub open spec fn after_check(self) -> WorkBudget {
        match self {
            WorkBudget::RemainingCount(remaining) => if remaining > 0 {
                WorkBudget::RemainingCount((remaining - 1) as usize)
            } else {
                WorkBudget::RemainingCount(0)
            },
            WorkBudget::Deadline(deadline) => WorkBudget::Deadline(deadline),
        }
    }

    /// The budget after `checks` workers asked.
    pub open spec fn after_checks(self, checks: nat) -> WorkBudget
        decreases checks,
    {
        if checks == 0 {
            self
        } else {
            self.after_checks((checks - 1) as nat).after_check()
        }
    }

    /// A budget that lets no call begin.
    pub open spec fn exhausted(self) -> WorkBudget {
        match self {
            WorkBudget::RemainingCount(_) => WorkBudget::RemainingCount(0),
            WorkBudget::Deadline(_) => WorkBudget::Deadline(0),
        }
    }

    /// Asks for one call at the time `now`: the answer says whether it may
    /// begin, and a count has one call less after it.
    pub fn has_more_work_at(&mut self, now: u64) -> (more: bool)
        ensures
            more == old(self).more_at(now),
            *final(self) == old(self).after_check(),
    {
        match *self {
            WorkBudget::RemainingCount(remaining) => {
                if remaining > 0 {
                    *self = WorkBudget::RemainingCount(remaining - 1);
                    true
                } else {
                    false
                }
            },
            WorkBudget::Deadline(deadline) => now < deadline,
        }
    }

    /// Lets no further call begin.
    pub fn exhaust(&mut self)
        ensures
            *final(self) == old(self).exhausted(),
            forall|now: u64| !final(self).more_at(now),
    {
        match *self {
            WorkBudget::RemainingCount(_) => {
                *self = WorkBudget::RemainingCount(0);
            },
            WorkBudget::Deadline(_) => {
                *self = WorkBudget::Deadline(0);
            },
        }
    }
}

/// A budget of `limit` calls lets exactly the first `limit` askers begin a
/// call, whenever they ask, and no one after them.
pub proof fn lemma_count_budget(limit: usize, checks: nat, now: u64)
    ensures
        WorkBudget::RemainingCount(limit).after_checks(checks) == WorkBudget::RemainingCount(
            if checks < limit {
                (limit - checks) as usize
            } else {
                0
            },
        ),
        WorkBudget::RemainingCount(limit).after_checks(checks).more_at(now) == (checks < limit),
    decreases checks,
{
    if checks > 0 {
        lemma_count_budget(limit, (checks - 1) as nat, now);
    }
}

/// Number of the first `checks` askers that a budget of `limit` calls lets
/// begin a call.
pub open spec fn granted(limit: usize, checks: nat) -> nat
    decreases checks,
{
    if checks == 0 {
        0
    } else {
        granted(limit, (checks - 1) as nat) + if WorkBudget::RemainingCount(limit).after_checks(
            (checks - 1) as nat,
        ).more_at(0) {
            1nat
        } else {
            0nat
        }
    }
}

/// A budget of `limit` calls lets as many askers begin a call as have
/// asked, up to `limit` of them and never one more.
pub proof fn lemma_granted(limit: usize, checks: nat)
    ensures
        granted(limit, checks) == if checks < limit {
            checks
        } else {
            limit as nat
        },
    decreases checks,
{
    if checks > 0 {
        lemma_granted(limit, (checks - 1) as nat);
        lemma_count_budget(limit, (checks - 1) as nat, 0);
    }
}

/// A run of `limit` calls that its workers have drained counts exactly
/// `limit` requests, however many workers there are and in whatever order
/// they take their turns. Each worker has the budget and the metrics alone
/// for the length of its turn, so the turns of all workers come one after
/// another: `checks` askers in all, the last of which was turned away, and
/// one outcome in `outcomes` from each asker that was let begin, in the
/// order in which they were handed in to metrics that had counted nothing.
pub proof fn lemma_drained_run_counts(
    limit: usize,
    checks: nat,
    metrics: Aggregate,
    outcomes: Seq<Outcome>,
)
    requires
        balanced(metrics),
        metrics.combined.total_requests == 0,
        limit <= SAMPLE_CAPACITY,
        checks >= 1,
        !WorkBudget::RemainingCount(limit).after_checks((checks - 1) as nat).more_at(0),
        outcomes.len() == granted(limit, checks),
    ensures
        outcomes.len() == limit,
        reported_all(metrics, outcomes, outcomes.len() as int).combined.total_requests == limit,
{
    lemma_granted(limit, checks);
    lemma_count_budget(limit, (checks - 1) as nat, 0);
    lemma_reported_all_counts(metrics, outcomes, outcomes.len() as int);
}

/// A budget of time lets a call begin at every time before the deadline
/// and at none from the deadline on, however many askers there were.
pub proof fn lemma_deadline_budget(deadline: u64, checks: nat, now: u64)
    ensures
        WorkBudget::Deadline(deadline).after_checks(checks) == WorkBudget::Deadline(deadline),
        WorkBudget::Deadline(deadline).after_checks(checks).more_at(now) == (now < deadline),
    decreases checks,
{
    if checks > 0 {
        lemma_deadline_budget(deadline, (checks - 1) as nat, now);
    }
}

/// How a run ended, or would end if it ended now.
#[derive(Clone, Copy, Debug, PartialEq, Eq, Structural)]
pub enum RunStatus {
    /// The budget was used up.
    Completed,
    /// A call reported a fatal error.
    Aborted,
}

/// What a worker does next.
#[derive(Clone, Copy, Debug, PartialEq, Eq, Structural)]
pub enum WorkerStep {
    /// The worker ends.
    Finish(RunStatus),
    /// The worker waits so many nanoseconds for its permit, makes one call,
    /// and hands in what the call came to.
    Call { wait_nanos: u64 },
}

/// `n` as a `u64`, or `u64::MAX` where it is larger.
pub open spec fn clock_value(n: nat) -> u64 {
    if n > u64::MAX {
        u64::MAX
    } else {
        n as u64
    }
}

/// The length of `duration` in whole nanoseconds, and `u64::MAX` for a
/// longer one than a `u64` holds.
pub fn whole_nanos(duration: &Duration) -> (nanos: u64)
    ensures
        nanos == clock_value(nanos_of(*duration)),
{
    let nanos = duration_nanos(duration);
    if nanos > u64::MAX as u128 {
        u64::MAX
    } else {
        nanos as u64
    }
}

/// One run of the benchmark.
pub struct BenchRun {
    index: usize,
    bench_begin: Instant,
    budget: WorkBudget,
    rate_limiter: RateLimiter,
    reporter: Option<Arc<dyn ExternalMetricsServiceReporter>>,
    aborted: bool,
}

impl BenchRun {
    /// The number of the run among the runs of one benchmark.
    pub closed spec fn run_index(&self) -> usize {
        self.index
    }

    /// The number of the run among the runs of one benchmark.
    pub fn index(&self) -> (index: usize)
        ensures
            index == self.run_index(),
    {
        self.index
    }

    /// The budget of the run.
    pub closed spec fn budget(&self) -> WorkBudget {
        self.budget
    }

    /// The rate limiter of the run.
    pub closed spec fn limiter(&self) -> RateLimiter {
        self.rate_limiter
    }

    /// Whether a call reported a fatal error.
    pub closed spec fn is_aborted(&self) -> bool {
        self.aborted
    }

    /// The reporter of the run, where it has one.
    pub closed spec fn reporter_of(&self) -> Option<Arc<dyn ExternalMetricsServiceReporter>> {
        self.reporter
    }

    /// Whether the run has a reporter.
    pub open spec fn has_reporter(&self) -> bool {
        self.reporter_of() is Some
    }

    /// A run of `max_requests` calls.
    pub fn from_request_limit(
        index: usize,
        max_requests: usize,
        rate_limiter: RateLimiter,
        reporter: Option<Arc<dyn ExternalMetricsServiceReporter>>,
    ) -> (run: Self)
        ensures
            run.run_index() == index,
            run.budget() == WorkBudget::RemainingCount(max_requests),
            run.limiter() == rate_limiter,
            run.has_reporter() == (reporter is Some),
            !run.is_aborted(),
    {
        BenchRun {
            index,
            bench_begin: clock_now(),
            budget: WorkBudget::RemainingCount(max_requests),
            rate_limiter,
            reporter,
            aborted: false,
        }
    }

    /// A run that begins calls for the length of `duration` from now on.
    pub fn from_duration_limit(
        index: usize,
        duration: Duration,
        rate_limiter: RateLimiter,
        reporter: Option<Arc<dyn ExternalMetricsServiceReporter>>,
    ) -> (run: Self)
        ensures
            run.run_index() == index,
            run.budget() == WorkBudget::Deadline(clock_value(nanos_of(duration))),
            run.limiter() == rate_limiter,
            run.has_reporter() == (reporter is Some),
            !run.is_aborted(),
    {
        let deadline = whole_nanos(&duration);
        BenchRun {
            index,
            bench_begin: clock_now(),
            budget: WorkBudget::Deadline(deadline),
            rate_limiter,
            reporter,
            aborted: false,
        }
    }

    /// The time since the run began as the clock gives it, in whole
    /// nanoseconds, and `u64::MAX` for a longer time than a `u64` holds.
    /// How long that time is, is the clock's to say.
    pub fn elapsed_nanos(&self) -> (now: u64)
        ensures
            exists|elapsed: Duration| now == clock_value(nanos_of(elapsed)),
    {
        let elapsed = clock_elapsed(&self.bench_begin);
        whole_nanos(&elapsed)
    }

    /// What a worker that asks at the time `now` does next. After a fatal
    /// error it ends, and so it does where the budget lets no call begin.
    /// Else it waits for its permit and calls.
    pub open spec fn step_at(&self, now: u64) -> WorkerStep {
        if self.is_aborted() {
            WorkerStep::Finish(RunStatus::Aborted)
        } else if !self.budget().more_at(now) {
            WorkerStep::Finish(RunStatus::Completed)
        } else {
            WorkerStep::Call { wait_nanos: self.limiter().wait_at(now) }
        }
    }

    /// `after` is the run after a worker asked for one call: the budget
    /// has answered one asker more, and nothing else has changed.
    pub open spec fn checked(&self, after: &BenchRun) -> bool {
        &&& after.budget() == self.budget().after_check()
        &&& after.limiter() == self.limiter()
        &&& after.is_aborted() == self.is_aborted()
        &&& after.has_reporter() == self.has_reporter()
        &&& after.run_index() == self.run_index()
    }

    /// `after` is the run after a worker asked at the time `now` what to do
    /// next: unless the run was aborted the budget has answered one asker
    /// more, and a worker that calls has taken its permit from the rate
    /// limiter.
    pub open spec fn stepped(&self, after: &BenchRun, now: u64) -> bool {
        &&& after.budget() == if self.is_aborted() {
            self.budget()
        } else {
            self.budget().after_check()
        }
        &&& after.limiter() == if self.step_at(now) is Call {
            self.limiter().after_grant(now)
        } else {
            self.limiter()
        }
        &&& after.is_aborted() == self.is_aborted()
        &&& after.has_reporter() == self.has_reporter()
        &&& after.run_index() == self.run_index()
    }

    /// Asks for one call at the time `now`, in nanoseconds since the run
    /// began.
    pub fn has_more_work_at(&mut self, now: u64) -> (more: bool)
        ensures
            more == old(self).budget().more_at(now),
            old(self).checked(final(self)),
    {
        self.budget.has_more_work_at(now)
    }

    /// Asks for one call at the time that the clock gives. With a budget
    /// of calls the answer does not depend on the time.
    pub fn has_more_work(&mut self) -> (more: bool)
        ensures
            exists|now: u64| more == old(self).budget().more_at(now),
            old(self).budget() is RemainingCount ==> more == (old(self).budget()->RemainingCount_0
                > 0),
            old(self).checked(final(self)),
    {
        let now = match self.budget {
            WorkBudget::RemainingCount(_) => 0,
            WorkBudget::Deadline(_) => self.elapsed_nanos(),
        };
        self.has_more_work_at(now)
    }

    /// Has a worker that asks at the time `now` take its next step: a call
    /// from the budget and a permit from the rate limiter, where the run
    /// goes on.
    pub fn next_step_at(&mut self, now: u64) -> (step: WorkerStep)
        ensures
            step == old(self).step_at(now),
            old(self).stepped(final(self), now),
    {
        if self.aborted {
            return WorkerStep::Finish(RunStatus::Aborted);
        }
        if !self.budget.has_more_work_at(now) {
            return WorkerStep::Finish(RunStatus::Completed);
        }
        let wait_nanos = self.rate_limiter.acquire_at(now);
        WorkerStep::Call { wait_nanos }
    }

    /// Has a worker take its next step at the time that the clock gives.
    pub fn next_step(&mut self) -> (step: WorkerStep)
        ensures
            exists|now: u64| step == old(self).step_at(now) && old(self).stepped(final(self), now),
    {
        let now = self.elapsed_nanos();
        self.next_step_at(now)
    }

    /// Takes in what a call came to: it goes into the metrics, and a fatal
    /// error ends the run for all workers: the budget lets no further call
    /// begin, and the run counts as aborted.
    pub fn complete_call(&mut self, metrics: &mut BenchRunMetrics, stats: RequestStats)
        requires
            old(metrics).wf(),
        ensures
            final(metrics).wf(),
            final(metrics)@ == reported(old(metrics)@, stats@),
            old(metrics).begins_kept(final(metrics)),
            final(self).is_aborted() == (old(self).is_aborted() || stats.fatal_error),
            final(self).budget() == if stats.fatal_error {
                old(self).budget().exhausted()
            } else {
                old(self).budget()
            },
            final(self).limiter() == old(self).limiter(),
            final(self).has_reporter() == old(self).has_reporter(),
            final(self).run_index() == old(self).run_index(),
            stats.fatal_error ==> forall|now: u64|
                final(self).step_at(now) == WorkerStep::Finish(RunStatus::Aborted),
    {
        if stats.fatal_error {
            self.aborted = true;
            self.budget.exhaust();
        }
        metrics.report_request(stats);
    }

    /// How the run ended, or would end if it ended now.
    pub fn status(&self) -> (status: RunStatus)
        ensures
            status == if self.is_aborted() {
                RunStatus::Aborted
            } else {
                RunStatus::Completed
            },
    {
        if self.aborted {
            RunStatus::Aborted
        } else {
            RunStatus::Completed
        }
    }

    /// Hands the metrics to the reporter of the run, and gives back the
    /// answer of the reporter to them. A run without a reporter has
    /// nothing to do, and that goes well.
    pub fn report(&self, metrics: &BenchRunMetrics) -> (done: std::io::Result<()>)
        ensures
            match self.reporter_of() {
                Some(reporter) => reporter.answers(metrics, done),
                None => done is Ok,
            },
    {
        match &self.reporter {
            Some(reporter) => reporter.report(metrics),
            None => Ok(()),
        }
    }

    /// The reporter of the run, where it has one.
    pub fn reporter(&self) -> (reporter: Option<&Arc<dyn ExternalMetricsServiceReporter>>)
        ensures
            match reporter {
                Some(held) => self.reporter_of() == Some(*held),
                None => self.reporter_of() is None,
            },
    {
        match &self.reporter {
            Some(held) => Some(held),
            None => None,
        }
    }
}

} // verus!
