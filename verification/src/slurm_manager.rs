//! The bounded-queue controller: it owns the three job partitions (open,
//! scheduled, finished), admits open jobs to the external scheduler up to the
//! admission bound, and reconciles the scheduled partition against the
//! scheduler's reported running set.  Scheduler answers enter as plain
//! values, so every decision here is verified; the process calls themselves
//! live outside the library.

use vstd::prelude::*;
use crate::job::SlurmJob;
use crate::job::same_job_data;
use crate::job_status::SlurmJobStatus;
use crate::text::after_last_space;
use crate::text::digits_val;
use crate::text::is_i32_numeral;
use crate::text::last_space_token;
use crate::text::parse_decimal_i32;
use crate::text::split_ch;
use crate::text::split_char;
use crate::text::str_views;
use crate::text::trim_whitespace;
use crate::text::trimmed;

verus! {

/// Failures of the interaction with the external scheduler.  All of them are
/// recoverable: the controller retries on the next cycle.
#[derive(Debug)]
pub enum SlurmInteractionError {
    /// The submit response did not end in a numeric job identifier.
    BadSbatchResponse(String),
    /// The scheduler process could not be launched or exited abnormally.
    SlurmUnresponsive(String),
    /// A row of the run-state listing did not have the expected shape.
    MalformedSqueueRow(String),
}

/// `a` is the same error as `b`, their texts compared by contents.
pub open spec fn same_error(a: SlurmInteractionError, b: SlurmInteractionError) -> bool {
    match (a, b) {
        (
            SlurmInteractionError::BadSbatchResponse(x),
            SlurmInteractionError::BadSbatchResponse(y),
        ) => x@ == y@,
        (
            SlurmInteractionError::SlurmUnresponsive(x),
            SlurmInteractionError::SlurmUnresponsive(y),
        ) => x@ == y@,
        (
            SlurmInteractionError::MalformedSqueueRow(x),
            SlurmInteractionError::MalformedSqueueRow(y),
        ) => x@ == y@,
        _ => false,
    }
}

impl Clone for SlurmInteractionError {
    /// The clone is the same error with the same text.
    fn clone(&self) -> (r: Self)
        ensures
            same_error(r, *self),
    {
        match self {
            SlurmInteractionError::BadSbatchResponse(s) => SlurmInteractionError::BadSbatchResponse(
                s.clone(),
            ),
            SlurmInteractionError::SlurmUnresponsive(s) => SlurmInteractionError::SlurmUnresponsive(
                s.clone(),
            ),
            SlurmInteractionError::MalformedSqueueRow(
                s,
            ) => SlurmInteractionError::MalformedSqueueRow(s.clone()),
        }
    }
}

/// Error lists match element for element.
pub open spec fn same_errors(a: Seq<SlurmInteractionError>, b: Seq<SlurmInteractionError>) -> bool {
    a.len() == b.len() && forall|i: int| 0 <= i < a.len() ==> same_error(a[i], b[i])
}

/// The events of one controller cycle: the scheduler's answer to the
/// run-state query, and the outcomes of the submission attempts the cycle
/// makes, in order.
pub struct SchedulerCycle {
    pub listing: Result<Vec<i32>, SlurmInteractionError>,
    pub submit_outcomes: Vec<Result<i32, SlurmInteractionError>>,
}

/// The admission bound as a count: a negative bound admits nothing.
pub open spec fn queue_cap(max_queue: i32) -> int {
    if max_queue >= 0 {
        max_queue as int
    } else {
        0
    }
}

/// The admission budget: how many submissions a cycle may attempt.  It is
/// never negative.
pub open spec fn spec_admission_budget(cap: int, scheduled_len: int) -> int {
    if cap > scheduled_len {
        cap - scheduled_len
    } else {
        0
    }
}

/// The verdict of a job's completion check, as a terminal status.
pub open spec fn job_verdict(j: SlurmJob) -> SlurmJobStatus {
    if j.on_finished.spec_verdict() {
        SlurmJobStatus::FINISHED
    } else {
        SlurmJobStatus::CRASHED
    }
}

/// The job once its completion check has run.
pub open spec fn finish_job(j: SlurmJob) -> SlurmJob {
    SlurmJob { status: job_verdict(j), ..j }
}

/// The job once the scheduler has accepted it under `number`.
pub open spec fn submitted_job(j: SlurmJob, number: i32) -> SlurmJob {
    SlurmJob { status: SlurmJobStatus::SUBMITTED, number: Some(number), ..j }
}

/// The scheduled jobs whose number the scheduler still reports as running,
/// in their original order.
pub open spec fn kept_jobs(scheduled: Seq<SlurmJob>, ids: Seq<i32>) -> Seq<SlurmJob>
    decreases scheduled.len(),
{
    if scheduled.len() == 0 {
        scheduled
    } else {
        let init = kept_jobs(scheduled.drop_last(), ids);
        if ids.contains(scheduled.last().number->0) {
            init.push(scheduled.last())
        } else {
            init
        }
    }
}

/// The scheduled jobs that left the running set, each with its completion
/// verdict applied, in their original order.
pub open spec fn completed_jobs(scheduled: Seq<SlurmJob>, ids: Seq<i32>) -> Seq<SlurmJob>
    decreases scheduled.len(),
{
    if scheduled.len() == 0 {
        scheduled
    } else {
        let init = completed_jobs(scheduled.drop_last(), ids);
        if ids.contains(scheduled.last().number->0) {
            init
        } else {
            init.push(finish_job(scheduled.last()))
        }
    }
}

/// How many submission attempts a cycle makes: the budget, bounded by the
/// open jobs and by the outcomes the environment provides.
pub open spec fn admit_count(cap: int, scheduled_len: int, open_len: int, outcomes_len: int) -> int {
    let budget = spec_admission_budget(cap, scheduled_len);
    let b1 = if budget <= open_len {
        budget
    } else {
        open_len
    };
    if b1 <= outcomes_len {
        b1
    } else {
        outcomes_len
    }
}

/// The jobs the first `k` submission attempts add to the scheduled
/// partition: attempts pop open jobs from the end, and an attempt whose
/// outcome is an error drops its job.
pub open spec fn admitted_jobs(
    open: Seq<SlurmJob>,
    outcomes: Seq<Result<i32, SlurmInteractionError>>,
    k: int,
) -> Seq<SlurmJob>
    decreases k,
{
    if k <= 0 {
        Seq::empty()
    } else {
        let pre = admitted_jobs(open, outcomes, k - 1);
        match outcomes[k - 1] {
            Ok(n) => pre.push(submitted_job(open[open.len() - k], n)),
            Err(_) => pre,
        }
    }
}

/// The errors among the first `k` submission outcomes, in order.
pub open spec fn admit_errors(outcomes: Seq<Result<i32, SlurmInteractionError>>, k: int) -> Seq<
    SlurmInteractionError,
>
    decreases k,
{
    if k <= 0 {
        Seq::empty()
    } else {
        let pre = admit_errors(outcomes, k - 1);
        match outcomes[k - 1] {
            Ok(_) => pre,
            Err(e) => pre.push(e),
        }
    }
}

/// Jobs waiting for admission: enqueued, not yet submitted.
pub open spec fn all_pending(s: Seq<SlurmJob>) -> bool {
    forall|i: int| 0 <= i < s.len() ==> s[i].status is PENDING && s[i].number is None
}

/// Jobs the scheduler has accepted: submitted, with a number.
pub open spec fn all_submitted(s: Seq<SlurmJob>) -> bool {
    forall|i: int|
        0 <= i < s.len() ==> s[i].status is SUBMITTED && s[i].number is Some
}

/// Jobs whose lifecycle has ended: terminal, with a number.
pub open spec fn all_terminal(s: Seq<SlurmJob>) -> bool {
    forall|i: int|
        0 <= i < s.len() ==> s[i].status.spec_is_terminal() && s[i].number is Some
}

/// Finished jobs whose completion check succeeded.
pub open spec fn count_finished(s: Seq<SlurmJob>) -> int
    decreases s.len(),
{
    if s.len() == 0 {
        0
    } else {
        count_finished(s.drop_last()) + if s.last().status is FINISHED {
            1int
        } else {
            0int
        }
    }
}

/// The controller.  Jobs move forward through the three partitions and never
/// backward; the scheduled partition never exceeds the admission bound.
pub struct SlurmManager {
    pub open_jobs: Vec<SlurmJob>,
    pub scheduled_jobs: Vec<SlurmJob>,
    pub finished_jobs: Vec<SlurmJob>,
    pub max_queue: i32,
}

/// The three partitions of a controller, as a single mathematical value.
pub ghost struct Partitions {
    pub open: Seq<SlurmJob>,
    pub scheduled: Seq<SlurmJob>,
    pub finished: Seq<SlurmJob>,
}

/// One reconciliation step: on a listing, the scheduled jobs that left the
/// running set move to finished with their verdicts; on a listing error
/// nothing changes.
pub open spec fn reconcile_parts(
    p: Partitions,
    listing: Result<Vec<i32>, SlurmInteractionError>,
) -> Partitions {
    match listing {
        Ok(ids) => Partitions {
            open: p.open,
            scheduled: kept_jobs(p.scheduled, ids@),
            finished: p.finished + completed_jobs(p.scheduled, ids@),
        },
        Err(_) => p,
    }
}

/// One admission step: up to the budget, open jobs are popped and submitted;
/// successes join the scheduled partition and failures are dropped.
pub open spec fn admit_parts(
    p: Partitions,
    outcomes: Seq<Result<i32, SlurmInteractionError>>,
    cap: int,
) -> Partitions {
    let k = admit_count(cap, p.scheduled.len() as int, p.open.len() as int, outcomes.len() as int);
    Partitions {
        open: p.open.take(p.open.len() - k),
        scheduled: p.scheduled + admitted_jobs(p.open, outcomes, k),
        finished: p.finished,
    }
}

/// No work is left: nothing open, nothing scheduled.
pub open spec fn drained(p: Partitions) -> bool {
    p.open.len() == 0 && p.scheduled.len() == 0
}

/// The controller state after running the cycles `events[i..]`, stopping
/// early once the work is drained.
pub open spec fn run_cycles(p: Partitions, events: Seq<SchedulerCycle>, i: int, cap: int) -> Partitions
    decreases events.len() - i,
{
    if i < 0 || i >= events.len() || drained(p) {
        p
    } else {
        run_cycles(
            admit_parts(reconcile_parts(p, events[i].listing), events[i].submit_outcomes@, cap),
            events,
            i + 1,
            cap,
        )
    }
}

/// Reconciliation splits the scheduled partition: the kept and the completed
/// jobs together account for every scheduled job, stay well formed, and the
/// completed ones carry their verdicts.
proof fn lemma_reconcile_wf(scheduled: Seq<SlurmJob>, ids: Seq<i32>)
    requires
        all_submitted(scheduled),
    ensures
        all_submitted(kept_jobs(scheduled, ids)),
        all_terminal(completed_jobs(scheduled, ids)),
        kept_jobs(scheduled, ids).len() + completed_jobs(scheduled, ids).len() == scheduled.len(),
    decreases scheduled.len(),
{
    if scheduled.len() > 0 {
        assert(all_submitted(scheduled.drop_last()));
        lemma_reconcile_wf(scheduled.drop_last(), ids);
    }
}

/// Admission adds at most one job per attempt.
proof fn lemma_admitted_len(
    open: Seq<SlurmJob>,
    outcomes: Seq<Result<i32, SlurmInteractionError>>,
    k: int,
)
    ensures
        admitted_jobs(open, outcomes, k).len() <= (if k >= 0 {
            k
        } else {
            0
        }),
    decreases k,
{
    if k > 0 {
        lemma_admitted_len(open, outcomes, k - 1);
    }
}

fn contains_i32(v: &Vec<i32>, x: i32) -> (r: bool)
    ensures
        r == v@.contains(x),
{
    let n = v.len();
    let mut i: usize = 0;
    while i < n
        invariant
            i <= n,
            n == v@.len(),
            forall|j: int| 0 <= j < i ==> v@[j] != x,
        decreases n - i,
    {
        if v[i] == x {
            return true;
        }
        i = i + 1;
    }
    false
}

impl SlurmManager {
    /// The partitions as one value.
    pub open spec fn parts(&self) -> Partitions {
        Partitions {
            open: self.open_jobs@,
            scheduled: self.scheduled_jobs@,
            finished: self.finished_jobs@,
        }
    }

    /// The controller's invariant: each partition holds jobs of its stage
    /// only, and the scheduled partition respects the admission bound.
    pub open spec fn wf(&self) -> bool {
        &&& all_pending(self.open_jobs@)
        &&& all_submitted(self.scheduled_jobs@)
        &&& all_terminal(self.finished_jobs@)
        &&& self.scheduled_jobs@.len() <= queue_cap(self.max_queue)
    }

    /// An empty controller with the given admission bound.
    pub fn new(max_queue: i32) -> (r: SlurmManager)
        ensures
            r.wf(),
            r.open_jobs@.len() == 0,
            r.scheduled_jobs@.len() == 0,
            r.finished_jobs@.len() == 0,
            r.max_queue == max_queue,
    {
        SlurmManager {
            open_jobs: Vec::new(),
            scheduled_jobs: Vec::new(),
            finished_jobs: Vec::new(),
            max_queue,
        }
    }

    /// Enqueues a copy of the job: the caller's instance is never touched
    /// again.  The copy enters the open partition as PENDING.
    pub fn add_job(&mut self, job: &SlurmJob)
        requires
            old(self).wf(),
            job.wf(),
            job.status is CREATED,
        ensures
            final(self).wf(),
            final(self).scheduled_jobs@ == old(self).scheduled_jobs@,
            final(self).finished_jobs@ == old(self).finished_jobs@,
            final(self).max_queue == old(self).max_queue,
            final(self).open_jobs@.len() == old(self).open_jobs@.len() + 1,
            forall|i: int|
                0 <= i < old(self).open_jobs@.len() ==> final(self).open_jobs@[i] == old(
                    self,
                ).open_jobs@[i],
            same_job_data(
                final(self).open_jobs@.last(),
                (SlurmJob { status: SlurmJobStatus::PENDING, ..*job }),
            ),
    {
        let mut cloned = job.clone();
        let _ = cloned.set_status(SlurmJobStatus::PENDING);
        self.open_jobs.push(cloned);
    }

    /// Enqueues a copy of every job in the list, in order.
    pub fn add_jobs(&mut self, jobs: Vec<SlurmJob>)
        requires
            old(self).wf(),
            forall|i: int| 0 <= i < jobs@.len() ==> jobs@[i].wf() && jobs@[i].status is CREATED,
        ensures
            final(self).wf(),
            final(self).scheduled_jobs@ == old(self).scheduled_jobs@,
            final(self).finished_jobs@ == old(self).finished_jobs@,
            final(self).max_queue == old(self).max_queue,
            final(self).open_jobs@.len() == old(self).open_jobs@.len() + jobs@.len(),
            forall|i: int|
                0 <= i < old(self).open_jobs@.len() ==> final(self).open_jobs@[i] == old(
                    self,
                ).open_jobs@[i],
            forall|i: int|
                0 <= i < jobs@.len() ==> same_job_data(
                    final(self).open_jobs@[old(self).open_jobs@.len() + i],
                    (SlurmJob { status: SlurmJobStatus::PENDING, ..#[trigger] jobs@[i] }),
                ),
    {
        let n = jobs.len();
        let mut i: usize = 0;
        while i < n
            invariant
                i <= n,
                n == jobs@.len(),
                forall|t: int| 0 <= t < n ==> jobs@[t].wf() && jobs@[t].status is CREATED,
                self.wf(),
                self.scheduled_jobs@ == old(self).scheduled_jobs@,
                self.finished_jobs@ == old(self).finished_jobs@,
                self.max_queue == old(self).max_queue,
                self.open_jobs@.len() == old(self).open_jobs@.len() + i,
                forall|t: int|
                    0 <= t < old(self).open_jobs@.len() ==> self.open_jobs@[t] == old(
                        self,
                    ).open_jobs@[t],
                forall|t: int|
                    0 <= t < i ==> same_job_data(
                        self.open_jobs@[old(self).open_jobs@.len() + t],
                        (SlurmJob { status: SlurmJobStatus::PENDING, ..#[trigger] jobs@[t] }),
                    ),
            decreases n - i,
        {
            self.add_job(&jobs[i]);
            i = i + 1;
        }
    }

    /// The number of finished jobs whose completion check succeeded.
    pub fn successful_jobs(&self) -> (r: i32)
        requires
            self.finished_jobs@.len() <= i32::MAX,
        ensures
            r == count_finished(self.finished_jobs@),
    {
        let n = self.finished_jobs.len();
        let mut count: i32 = 0;
        let mut i: usize = 0;
        while i < n
            invariant
                i <= n,
                n == self.finished_jobs@.len(),
                n <= i32::MAX,
                count == count_finished(self.finished_jobs@.take(i as int)),
                0 <= count <= i,
            decreases n - i,
        {
            proof {
                assert(self.finished_jobs@.take(i + 1).drop_last() =~= self.finished_jobs@.take(
                    i as int,
                ));
            }
            if matches!(self.finished_jobs[i].get_status(), SlurmJobStatus::FINISHED) {
                count = count + 1;
            }
            i = i + 1;
        }
        proof {
            assert(self.finished_jobs@.take(n as int) =~= self.finished_jobs@);
        }
        count
    }

    /// How many submissions the next admission step may attempt.  The budget
    /// is never negative.
    pub fn admission_budget(&self) -> (r: i32)
        requires
            self.wf(),
        ensures
            r >= 0,
            r as int == spec_admission_budget(
                queue_cap(self.max_queue),
                self.scheduled_jobs@.len() as int,
            ),
    {
        if self.max_queue >= 0 && (self.max_queue as usize) > self.scheduled_jobs.len() {
            self.max_queue - (self.scheduled_jobs.len() as i32)
        } else {
            0
        }
    }

    /// Removes the job that the next submission attempt would take: the most
    /// recently enqueued open job.
    pub fn take_next_open(&mut self) -> (r: Option<SlurmJob>)
        requires
            old(self).wf(),
        ensures
            final(self).wf(),
            final(self).scheduled_jobs@ == old(self).scheduled_jobs@,
            final(self).finished_jobs@ == old(self).finished_jobs@,
            final(self).max_queue == old(self).max_queue,
            old(self).open_jobs@.len() == 0 ==> r is None && final(self).open_jobs@ == old(self).open_jobs@,
            old(self).open_jobs@.len() > 0 ==> (r matches Some(j) && j == old(self).open_jobs@.last()
                && final(self).open_jobs@ == old(self).open_jobs@.drop_last()),
    {
        self.open_jobs.pop()
    }

    /// Records a successful submission: the job enters the scheduled
    /// partition as SUBMITTED under the scheduler's number.  The caller must
    /// respect the admission bound.
    pub fn record_submission(&mut self, job: SlurmJob, number: i32)
        requires
            old(self).wf(),
            job.status is PENDING,
            job.number is None,
            old(self).scheduled_jobs@.len() < queue_cap(old(self).max_queue),
        ensures
            final(self).wf(),
            final(self).open_jobs@ == old(self).open_jobs@,
            final(self).finished_jobs@ == old(self).finished_jobs@,
            final(self).max_queue == old(self).max_queue,
            final(self).scheduled_jobs@ == old(self).scheduled_jobs@.push(
                submitted_job(job, number),
            ),
    {
        let mut job = job;
        let _ = job.set_status(SlurmJobStatus::SUBMITTED);
        let _ = job.set_number(number);
        self.scheduled_jobs.push(job);
    }

    /// One reconciliation step.  On a listing, every scheduled job whose
    /// number is absent from it moves to the finished partition with its
    /// completion verdict, and the count of newly finished jobs is returned.
    /// On a listing error the controller is left exactly as it was and the
    /// error is handed back: the loop retries on the next cycle.
    pub fn check_on_jobs(&mut self, running: &Result<Vec<i32>, SlurmInteractionError>) -> (r:
        Result<i32, SlurmInteractionError>)
        requires
            old(self).wf(),
        ensures
            final(self).wf(),
            final(self).open_jobs@ == old(self).open_jobs@,
            final(self).max_queue == old(self).max_queue,
            final(self).parts() == reconcile_parts(old(self).parts(), *running),
            running matches Err(e) ==> *final(self) == *old(self) && (r matches Err(e2)
                && same_error(e2, *e)),
            running matches Ok(ids) ==> {
                &&& final(self).scheduled_jobs@ == kept_jobs(old(self).scheduled_jobs@, ids@)
                &&& final(self).finished_jobs@ == old(self).finished_jobs@ + completed_jobs(
                    old(self).scheduled_jobs@,
                    ids@,
                )
                &&& r matches Ok(c) && c as int == completed_jobs(old(self).scheduled_jobs@, ids@).len()
            },
    {
        let ids = match running {
            Ok(ids) => ids,
            Err(e) => {
                return Err(e.clone());
            },
        };
        let ghost orig = self.scheduled_jobs@;
        proof {
            lemma_reconcile_wf(orig, ids@);
        }
        let mut sched: Vec<SlurmJob> = Vec::new();
        core::mem::swap(&mut sched, &mut self.scheduled_jobs);
        let mut kept: Vec<SlurmJob> = Vec::new();
        let mut done: Vec<SlurmJob> = Vec::new();
        let n = sched.len();
        let mut i: usize = 0;
        while i < n
            invariant
                i <= n,
                n == orig.len(),
                sched@ == orig.skip(i as int),
                all_submitted(orig),
                kept@ == kept_jobs(orig.take(i as int), ids@),
                done@ == completed_jobs(orig.take(i as int), ids@),
            decreases n - i,
        {
            proof {
                assert(orig.take(i + 1).drop_last() =~= orig.take(i as int));
                assert(orig.take(i + 1).last() == orig[i as int]);
                assert(orig.skip(i as int)[0] == orig[i as int]);
                assert(orig.skip(i as int).remove(0) =~= orig.skip(i + 1));
            }
            let job = sched.remove(0);
            let number = job.get_number();
            if contains_i32(ids, number) {
                kept.push(job);
                proof {
                    assert(kept@ =~= kept_jobs(orig.take(i + 1), ids@));
                }
            } else {
                let status = job.run_post_processing();
                let mut job = job;
                let _ = job.set_status(status);
                done.push(job);
                proof {
                    assert(done@ =~= completed_jobs(orig.take(i + 1), ids@));
                }
            }
            i = i + 1;
        }
        proof {
            assert(orig.take(n as int) =~= orig);
        }
        let finished_count = done.len();
        self.scheduled_jobs = kept;
        self.finished_jobs.append(&mut done);
        Ok(finished_count as i32)
    }

    /// One admission step.  Up to the admission budget, open jobs are popped
    /// (most recently enqueued first) and matched with the given submission
    /// outcomes in order: a success places the job in the scheduled
    /// partition under the returned number, a failure drops the job and is
    /// collected.  Returns the number of admitted jobs, or the collected
    /// errors if there were any.
    pub fn fill_up_queue(&mut self, outcomes: &Vec<Result<i32, SlurmInteractionError>>) -> (r:
        Result<i32, Vec<SlurmInteractionError>>)
        requires
            old(self).wf(),
        ensures
            final(self).wf(),
            final(self).finished_jobs@ == old(self).finished_jobs@,
            final(self).max_queue == old(self).max_queue,
            final(self).parts() == admit_parts(old(self).parts(), outcomes@, queue_cap(old(self).max_queue)),
            final(self).scheduled_jobs@.len() <= queue_cap(old(self).max_queue),
            ({
                let k = admit_count(
                    queue_cap(old(self).max_queue),
                    old(self).scheduled_jobs@.len() as int,
                    old(self).open_jobs@.len() as int,
                    outcomes@.len() as int,
                );
                &&& final(self).open_jobs@ == old(self).open_jobs@.take(
                    old(self).open_jobs@.len() - k,
                )
                &&& final(self).scheduled_jobs@ == old(self).scheduled_jobs@ + admitted_jobs(
                    old(self).open_jobs@,
                    outcomes@,
                    k,
                )
                &&& admit_errors(outcomes@, k).len() == 0 ==> (r matches Ok(c) && c as int
                    == admitted_jobs(old(self).open_jobs@, outcomes@, k).len())
                &&& admit_errors(outcomes@, k).len() > 0 ==> (r matches Err(es) && same_errors(
                    es@,
                    admit_errors(outcomes@, k),
                ))
            }),
    {
        let ghost orig_open = self.open_jobs@;
        let ghost orig_sched = self.scheduled_jobs@;
        let ghost cap = queue_cap(self.max_queue);
        let budget = self.admission_budget();
        let mut errs: Vec<SlurmInteractionError> = Vec::new();
        let mut added: i32 = 0;
        let mut t: usize = 0;
        while t < (budget as usize) && self.open_jobs.len() > 0 && t < outcomes.len()
            invariant
                old(self).wf(),
                budget as int == spec_admission_budget(cap, orig_sched.len() as int),
                budget >= 0,
                cap == queue_cap(self.max_queue),
                cap <= i32::MAX,
                t <= budget as usize,
                t <= orig_open.len(),
                t <= outcomes@.len(),
                self.max_queue == old(self).max_queue,
                self.finished_jobs@ == old(self).finished_jobs@,
                self.open_jobs@ == orig_open.take(orig_open.len() - t),
                self.scheduled_jobs@ == orig_sched + admitted_jobs(orig_open, outcomes@, t as int),
                same_errors(errs@, admit_errors(outcomes@, t as int)),
                added as int == admitted_jobs(orig_open, outcomes@, t as int).len(),
                self.wf(),
            decreases (budget as usize) - t,
        {
            proof {
                lemma_admitted_len(orig_open, outcomes@, t as int);
                assert(self.open_jobs@.len() == orig_open.len() - t);
                assert(self.open_jobs@.last() == orig_open[orig_open.len() - (t + 1)]);
            }
            let job = match self.open_jobs.pop() {
                Some(job) => job,
                None => {
                    proof {
                        assert(false);
                    }
                    return Ok(0);
                },
            };
            proof {
                assert(self.open_jobs@ =~= orig_open.take(orig_open.len() - (t + 1)));
            }
            match &outcomes[t] {
                Ok(n) => {
                    proof {
                        // the scheduled partition stays under the bound
                        assert(orig_sched.len() + t < cap);
                    }
                    let mut job = job;
                    let _ = job.set_status(SlurmJobStatus::SUBMITTED);
                    let _ = job.set_number(*n);
                    self.scheduled_jobs.push(job);
                    added = added + 1;
                    proof {
                        assert(self.scheduled_jobs@ =~= orig_sched + admitted_jobs(
                            orig_open,
                            outcomes@,
                            t + 1,
                        ));
                    }
                },
                Err(e) => {
                    errs.push(e.clone());
                    proof {
                        assert(admit_errors(outcomes@, t + 1) =~= admit_errors(
                            outcomes@,
                            t as int,
                        ).push(outcomes@[t as int]->Err_0));
                    }
                },
            }
            t = t + 1;
        }
        proof {
            let k = admit_count(
                cap,
                orig_sched.len() as int,
                orig_open.len() as int,
                outcomes@.len() as int,
            );
            assert(t as int == k);
        }
        if errs.len() == 0 {
            Ok(added)
        } else {
            Err(errs)
        }
    }

    /// Nothing is left to do: the open and scheduled partitions are empty.
    pub fn is_drained(&self) -> (r: bool)
        ensures
            r == drained(self.parts()),
    {
        self.open_jobs.is_empty() && self.scheduled_jobs.is_empty()
    }

    /// The control loop over a finite sequence of cycle events; the events
    /// running out plays the role of the deadline.  Each cycle first
    /// reconciles against the cycle's listing, then admits open jobs with
    /// the cycle's submission outcomes; listing errors skip reconciliation
    /// for that cycle and never abort the loop.  Returns whether the open
    /// partition was empty at exit: whether every enqueued job was at least
    /// submitted.
    pub fn manage_jobs(&mut self, events: &Vec<SchedulerCycle>) -> (r: bool)
        requires
            old(self).wf(),
        ensures
            final(self).wf(),
            final(self).max_queue == old(self).max_queue,
            final(self).parts() == run_cycles(
                old(self).parts(),
                events@,
                0,
                queue_cap(old(self).max_queue),
            ),
            r == (final(self).open_jobs@.len() == 0),
    {
        let ghost cap = queue_cap(self.max_queue);
        let n = events.len();
        let mut i: usize = 0;
        while i < n && !(self.open_jobs.is_empty() && self.scheduled_jobs.is_empty())
            invariant
                i <= n,
                n == events@.len(),
                self.wf(),
                self.max_queue == old(self).max_queue,
                cap == queue_cap(self.max_queue),
                run_cycles(old(self).parts(), events@, 0, cap) == run_cycles(
                    self.parts(),
                    events@,
                    i as int,
                    cap,
                ),
            decreases n - i,
        {
            let ghost before = self.parts();
            let event = &events[i];
            let _ = self.check_on_jobs(&event.listing);
            let _ = self.fill_up_queue(&event.submit_outcomes);
            proof {
                assert(self.parts() == admit_parts(
                    reconcile_parts(before, event.listing),
                    event.submit_outcomes@,
                    cap,
                ));
            }
            i = i + 1;
        }
        self.open_jobs.is_empty()
    }
}

/// A run-state listing row in the expected shape: exactly 8 space-separated
/// fields, with a job number in the first and a node count in the seventh.
pub open spec fn squeue_row_ok(row: Seq<char>) -> bool {
    let f = split_ch(row, ' ');
    f.len() == 8 && is_i32_numeral(f[0]) && is_i32_numeral(f[6])
}

/// Every non-empty row has the expected shape.
pub open spec fn squeue_rows_ok(rows: Seq<Seq<char>>) -> bool {
    forall|i: int| 0 <= i < rows.len() ==> rows[i].len() == 0 || squeue_row_ok(#[trigger] rows[i])
}

/// The job numbers of the non-empty rows, in order.
pub open spec fn squeue_row_ids(rows: Seq<Seq<char>>) -> Seq<int>
    decreases rows.len(),
{
    if rows.len() == 0 {
        Seq::empty()
    } else {
        squeue_row_ids(rows.drop_last()) + (if rows.last().len() == 0 {
            Seq::<int>::empty()
        } else {
            seq![digits_val(split_ch(rows.last(), ' ')[0])]
        })
    }
}

impl SlurmManager {
    /// Parses one row of the run-state listing: 8 space-separated fields,
    /// field 0 the job number and field 6 the node count, both non-negative
    /// decimal numerals.  A row of any other shape is a recoverable
    /// `MalformedSqueueRow` carrying the row's text.
    pub fn parse_squeue_row(row: &str) -> (r: Result<
        (i32, String, String, String, String, String, i32, String),
        SlurmInteractionError,
    >)
        ensures
            r is Ok <==> squeue_row_ok(row@),
            r matches Ok(t) ==> {
                let f = split_ch(row@, ' ');
                &&& t.0 as int == digits_val(f[0])
                &&& t.1@ == f[1]
                &&& t.2@ == f[2]
                &&& t.3@ == f[3]
                &&& t.4@ == f[4]
                &&& t.5@ == f[5]
                &&& t.6 as int == digits_val(f[6])
                &&& t.7@ == f[7]
            },
            r matches Err(e) ==> (e matches SlurmInteractionError::MalformedSqueueRow(s) && s@
                == row@),
    {
        let fields = split_char(row, ' ');
        if fields.len() != 8 {
            return Err(SlurmInteractionError::MalformedSqueueRow(row.to_owned()));
        }
        let id = match parse_decimal_i32(fields[0].as_str()) {
            Some(n) => n,
            None => {
                return Err(SlurmInteractionError::MalformedSqueueRow(row.to_owned()));
            },
        };
        let nodes = match parse_decimal_i32(fields[6].as_str()) {
            Some(n) => n,
            None => {
                return Err(SlurmInteractionError::MalformedSqueueRow(row.to_owned()));
            },
        };
        Ok(
            (
                id,
                fields[1].clone(),
                fields[2].clone(),
                fields[3].clone(),
                fields[4].clone(),
                fields[5].clone(),
                nodes,
                fields[7].clone(),
            ),
        )
    }

    /// Parses the full run-state listing: the first row is the header and is
    /// skipped, empty rows are skipped, and every other row contributes the
    /// job number of its first field.  The first malformed row makes the
    /// whole listing a recoverable `MalformedSqueueRow` error.
    pub fn parse_squeue_output(out: &str) -> (r: Result<Vec<i32>, SlurmInteractionError>)
        ensures
            r is Ok <==> squeue_rows_ok(split_ch(out@, '\n').skip(1)),
            r matches Ok(ids) ==> ids@.map_values(|x: i32| x as int) == squeue_row_ids(
                split_ch(out@, '\n').skip(1),
            ),
            r matches Err(e) ==> (e matches SlurmInteractionError::MalformedSqueueRow(s) && {
                let rows = split_ch(out@, '\n').skip(1);
                exists|i: int|
                    0 <= i < rows.len() && (#[trigger] rows[i]).len() > 0 && !squeue_row_ok(rows[i])
                        && s@ == rows[i]
            }),
    {
        let rows = split_char(out, '\n');
        let ghost rseq = str_views(rows@).skip(1);
        let mut ids: Vec<i32> = Vec::new();
        let n = rows.len();
        let mut i: usize = 1;
        assert(rseq.take(0) =~~= Seq::<Seq<char>>::empty());
        while i < n
            invariant
                1 <= i <= n,
                n == rows@.len(),
                str_views(rows@) == split_ch(out@, '\n'),
                rseq == str_views(rows@).skip(1),
                n - 1 == rseq.len(),
                squeue_rows_ok(rseq.take(i - 1)),
                ids@.map_values(|x: i32| x as int) == squeue_row_ids(rseq.take(i - 1)),
            decreases n - i,
        {
            proof {
                assert(rseq.take(i as int).drop_last() =~= rseq.take(i - 1));
                assert(rseq.take(i as int).last() == rows@[i as int]@);
            }
            let row = &rows[i];
            if !row.as_str().is_empty() {
                match Self::parse_squeue_row(row.as_str()) {
                    Ok(parsed) => {
                        ids.push(parsed.0);
                        proof {
                            assert(ids@.map_values(|x: i32| x as int) =~= squeue_row_ids(
                                rseq.take(i as int),
                            ));
                        }
                    },
                    Err(e) => {
                        proof {
                            assert(split_ch(out@, '\n').skip(1) =~~= rseq);
                            assert(rseq[i - 1] == rows@[i as int]@);
                            assert(rseq[i - 1].len() > 0);
                            assert(!squeue_row_ok(rseq[i - 1]));
                            assert(!squeue_rows_ok(rseq)) by {
                                assert(0 <= i - 1 < rseq.len() && rseq[i - 1].len() > 0
                                    && !squeue_row_ok(rseq[i - 1]));
                            }
                        }
                        return Err(e);
                    },
                }
            }
            i = i + 1;
        }
        proof {
            assert(split_ch(out@, '\n').skip(1) =~~= rseq);
            assert(rseq.take(n - 1) =~~= rseq);
        }
        Ok(ids)
    }

    /// Parses the submit response: its last whitespace-delimited token must
    /// be the assigned job number, a non-negative decimal numeral.  Anything
    /// else is a recoverable `BadSbatchResponse` carrying the trimmed
    /// response.
    pub fn parse_sbatch_response(out: &str) -> (r: Result<i32, SlurmInteractionError>)
        ensures
            r is Ok <==> is_i32_numeral(after_last_space(trimmed(out@))),
            r matches Ok(n) ==> n as int == digits_val(after_last_space(trimmed(out@))),
            r matches Err(e) ==> (e matches SlurmInteractionError::BadSbatchResponse(s) && s@
                == trimmed(out@)),
    {
        let trimmed_out = trim_whitespace(out);
        let token = last_space_token(trimmed_out.as_str());
        match parse_decimal_i32(token.as_str()) {
            Some(n) => Ok(n),
            None => Err(SlurmInteractionError::BadSbatchResponse(trimmed_out)),
        }
    }
}

/// Every job the controller tracks has its external number exactly when its
/// status is SUBMITTED, FINISHED or CRASHED.
pub proof fn lemma_tracked_jobs_number_consistent(m: SlurmManager)
    requires
        m.wf(),
    ensures
        forall|i: int| 0 <= i < m.open_jobs@.len() ==> m.open_jobs@[i].wf(),
        forall|i: int| 0 <= i < m.scheduled_jobs@.len() ==> m.scheduled_jobs@[i].wf(),
        forall|i: int| 0 <= i < m.finished_jobs@.len() ==> m.finished_jobs@[i].wf(),
{
}

/// A job that leaves the running set takes the verdict of its completion
/// check: with a check that always succeeds it becomes FINISHED, never
/// CRASHED, and with one that always fails it becomes CRASHED, never
/// FINISHED.
pub proof fn lemma_completion_verdicts(scheduled: Seq<SlurmJob>, ids: Seq<i32>)
    ensures
        (forall|i: int| 0 <= i < scheduled.len() ==> scheduled[i].on_finished.rule is AlwaysTrue)
            ==> (forall|k: int|
            0 <= k < completed_jobs(scheduled, ids).len() ==> completed_jobs(scheduled, ids)[k].status
                is FINISHED),
        (forall|i: int| 0 <= i < scheduled.len() ==> scheduled[i].on_finished.rule is AlwaysFalse)
            ==> (forall|k: int|
            0 <= k < completed_jobs(scheduled, ids).len() ==> completed_jobs(scheduled, ids)[k].status
                is CRASHED),
    decreases scheduled.len(),
{
    if scheduled.len() > 0 {
        lemma_completion_verdicts(scheduled.drop_last(), ids);
        assert(forall|i: int|
            0 <= i < scheduled.drop_last().len() ==> scheduled.drop_last()[i]
                == scheduled[i]);
    }
}

} // verus!
