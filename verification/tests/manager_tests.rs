use slurm_jobs::job::SlurmJob;
use slurm_jobs::job_builder::SlurmJobBuilder;
use slurm_jobs::job_post_processing::CompletionRule;
use slurm_jobs::job_post_processing::SlurmJobPostProcessing;
use slurm_jobs::job_status::SlurmJobStatus;
use slurm_jobs::memory_size::Memory::MegaByte;
use slurm_jobs::slurm_manager::SchedulerCycle;
use slurm_jobs::slurm_manager::SlurmInteractionError;
use slurm_jobs::slurm_manager::SlurmManager;

fn sleep_job(wdir: Option<String>) -> SlurmJob {
    let job = SlurmJobBuilder::new(String::from("sleep 5"))
        .set_description(String::from("sleeps for 5 seconds"));
    match wdir {
        Some(dir) => job.set_working_directory(dir).build(),
        None => job.build(),
    }
}

fn generate_job() -> SlurmJob {
    SlurmJobBuilder::new("sleep 5".to_string())
        .set_working_directory("/home/user/".to_string())
        .set_cpus(1)
        .set_output_file("out.log".to_string())
        .set_error_file("error.log".to_string())
        .set_max_run_time(String::from("0-00:05:00"))
        .set_memory(MegaByte(100))
        .set_on_finished(SlurmJobPostProcessing::new(&[], CompletionRule::AlwaysTrue))
        .build()
}

#[test]
fn create_and_run_jobs() {
    let job = sleep_job(None);
    let mut manager = SlurmManager::new(2);
    manager.add_job(&job);
    let pre_start = manager
        .check_on_jobs(&Ok(Vec::new()))
        .expect("Should have checked no job");
    let scheduled = manager
        .fill_up_queue(&vec![Ok(7001)])
        .expect("Couldn't fill up queue");
    let running = SlurmManager::parse_squeue_output(
        "JOBID PARTITION NAME USER ST TIME NODES NODELIST\n7001 main sleep me R 0:01 1 node01\n",
    )
    .expect("get running jobs")
    .len();
    let done = manager.manage_jobs(&vec![
        SchedulerCycle { listing: Ok(vec![7001]), submit_outcomes: Vec::new() },
        SchedulerCycle { listing: Ok(Vec::new()), submit_outcomes: Vec::new() },
    ]);
    assert_eq!(pre_start, 0);
    assert_eq!(scheduled, 1);
    assert_eq!(running, 1);
    assert!(done);
}

#[test]
fn create_and_run_multiple_jobs() {
    let job_one = sleep_job(None);
    let job_two = sleep_job(None);
    let mut manager = SlurmManager::new(2);
    manager.add_jobs(Vec::from([job_one, job_two]));
    let pre_start = manager
        .check_on_jobs(&Ok(Vec::new()))
        .expect("Should have checked no job");
    let scheduled = manager
        .fill_up_queue(&vec![Ok(7001), Ok(7002)])
        .expect("Couldn't fill up queue");
    let running = SlurmManager::parse_squeue_output(
        "JOBID PARTITION NAME USER ST TIME NODES NODELIST\n7001 main sleep me R 0:01 1 node01\n7002 main sleep me R 0:01 1 node01\n",
    )
    .expect("get running jobs")
    .len();
    let done = manager.manage_jobs(&vec![
        SchedulerCycle { listing: Ok(vec![7001, 7002]), submit_outcomes: Vec::new() },
        SchedulerCycle { listing: Ok(Vec::new()), submit_outcomes: Vec::new() },
    ]);
    assert_eq!(pre_start, 0);
    assert_eq!(scheduled, 2);
    assert_eq!(running, 2);
    assert!(done);
}

#[test]
fn test_slurm_manager() {
    let mut manager: SlurmManager = SlurmManager::new(3);
    for _i in 0..5 {
        manager.add_job(&generate_job());
    }
    // every cycle: nothing reported running, every submission accepted
    let mut events: Vec<SchedulerCycle> = Vec::new();
    for c in 0..4 {
        events.push(SchedulerCycle {
            listing: Ok(Vec::new()),
            submit_outcomes: vec![Ok(100 + 3 * c), Ok(101 + 3 * c), Ok(102 + 3 * c)],
        });
    }
    let done = manager.manage_jobs(&events);
    assert!(done);
    assert_eq!(manager.successful_jobs(), 5);
}

// Controller with a bound of 2 and three jobs: the first cycle fills the
// queue and leaves one job open; the second cycle reconciles both submitted
// jobs away and admits the remaining one.
#[test]
fn scenario_bounded_admission() {
    let mut m = SlurmManager::new(2);
    m.add_job(&sleep_job(None));
    m.add_job(&sleep_job(None));
    m.add_job(&sleep_job(None));
    assert_eq!(m.admission_budget(), 2);

    // cycle 1: nothing scheduled yet, both submissions succeed
    assert_eq!(m.check_on_jobs(&Ok(Vec::new())).unwrap(), 0);
    assert_eq!(m.fill_up_queue(&vec![Ok(11), Ok(12)]).unwrap(), 2);
    assert_eq!(m.scheduled_jobs.len(), 2);
    assert_eq!(m.open_jobs.len(), 1);
    assert_eq!(m.admission_budget(), 0);

    // cycle 2: the scheduler no longer reports either job
    assert_eq!(m.check_on_jobs(&Ok(Vec::new())).unwrap(), 2);
    assert_eq!(m.finished_jobs.len(), 2);
    assert_eq!(m.fill_up_queue(&vec![Ok(13)]).unwrap(), 1);
    assert_eq!(m.scheduled_jobs.len(), 1);
    assert_eq!(m.open_jobs.len(), 0);
}

// An unresponsive scheduler on the listing call leaves the cycle without
// effect: no job moves, and the error comes back as a value.
#[test]
fn scenario_unresponsive_listing() {
    let mut m = SlurmManager::new(2);
    m.add_job(&sleep_job(None));
    m.add_job(&sleep_job(None));
    assert_eq!(m.fill_up_queue(&vec![Ok(21), Ok(22)]).unwrap(), 2);
    let before_scheduled = m.scheduled_jobs.len();
    let before_open = m.open_jobs.len();
    let r = m.check_on_jobs(&Err(SlurmInteractionError::SlurmUnresponsive(String::from(
        "could not launch squeue",
    ))));
    assert!(matches!(r, Err(SlurmInteractionError::SlurmUnresponsive(_))));
    assert_eq!(m.scheduled_jobs.len(), before_scheduled);
    assert_eq!(m.open_jobs.len(), before_open);
    assert_eq!(m.finished_jobs.len(), 0);
    // the loop survives an unresponsive cycle and finishes on the next ones
    let done = m.manage_jobs(&vec![
        SchedulerCycle {
            listing: Err(SlurmInteractionError::SlurmUnresponsive(String::from("still down"))),
            submit_outcomes: Vec::new(),
        },
        SchedulerCycle { listing: Ok(Vec::new()), submit_outcomes: Vec::new() },
    ]);
    assert!(done);
    assert_eq!(m.finished_jobs.len(), 2);
}

// The deadline (here: the events running out) with jobs still open makes the
// loop report unfinished work; a drained controller reports completion.
#[test]
fn scenario_deadline_vs_drained() {
    // a bound of zero admits nothing, so the open job outlives the events
    let mut m = SlurmManager::new(0);
    m.add_job(&sleep_job(None));
    let done = m.manage_jobs(&vec![
        SchedulerCycle { listing: Ok(Vec::new()), submit_outcomes: Vec::new() },
        SchedulerCycle { listing: Ok(Vec::new()), submit_outcomes: Vec::new() },
    ]);
    assert!(!done);
    assert_eq!(m.open_jobs.len(), 1);

    // with room in the queue the same work drains
    let mut m = SlurmManager::new(1);
    m.add_job(&sleep_job(None));
    let done = m.manage_jobs(&vec![
        SchedulerCycle { listing: Ok(Vec::new()), submit_outcomes: vec![Ok(31)] },
        SchedulerCycle { listing: Ok(Vec::new()), submit_outcomes: Vec::new() },
    ]);
    assert!(done);
    assert_eq!(m.finished_jobs.len(), 1);
    assert_eq!(m.successful_jobs(), 1);
}

// With an always-true completion check every reconciled job finishes; with
// an always-false one every reconciled job crashes.
#[test]
fn scenario_completion_verdicts() {
    let mut m = SlurmManager::new(2);
    let ok_job = sleep_job(None);
    let bad_job = SlurmJobBuilder::new(String::from("false"))
        .set_on_finished(SlurmJobPostProcessing::new(&[], CompletionRule::AlwaysFalse))
        .build();
    m.add_job(&ok_job);
    m.add_job(&bad_job);
    assert_eq!(m.fill_up_queue(&vec![Ok(41), Ok(42)]).unwrap(), 2);
    assert_eq!(m.check_on_jobs(&Ok(Vec::new())).unwrap(), 2);
    assert_eq!(m.finished_jobs.len(), 2);
    // the always-false job crashed, the always-true one finished
    let statuses: Vec<SlurmJobStatus> = m.finished_jobs.iter().map(|j| j.get_status()).collect();
    assert!(statuses.contains(&SlurmJobStatus::FINISHED));
    assert!(statuses.contains(&SlurmJobStatus::CRASHED));
    assert_eq!(m.successful_jobs(), 1);
}

// A failed submission consumes its budget slot and drops the job, as the
// admission step documents.
#[test]
fn scenario_failed_submission_drops_job() {
    let mut m = SlurmManager::new(2);
    m.add_job(&sleep_job(None));
    m.add_job(&sleep_job(None));
    let r = m.fill_up_queue(&vec![
        Ok(51),
        Err(SlurmInteractionError::BadSbatchResponse(String::from("gibberish"))),
    ]);
    match r {
        Err(errors) => {
            assert_eq!(errors.len(), 1);
            assert!(matches!(
                errors[0],
                SlurmInteractionError::BadSbatchResponse(_)
            ));
        }
        Ok(_) => panic!("a failed submission must surface its error"),
    }
    assert_eq!(m.scheduled_jobs.len(), 1);
    assert_eq!(m.open_jobs.len(), 0);
}

// The admission budget is never negative, also under a negative bound.
#[test]
fn admission_budget_is_never_negative() {
    let m = SlurmManager::new(-5);
    assert_eq!(m.admission_budget(), 0);
    let mut m = SlurmManager::new(1);
    m.add_job(&sleep_job(None));
    assert_eq!(m.admission_budget(), 1);
    assert_eq!(m.fill_up_queue(&vec![Ok(61)]).unwrap(), 1);
    assert_eq!(m.admission_budget(), 0);
}

// Submitted jobs carry their number and status; the enqueued copies leave
// the caller's instance untouched.
#[test]
fn enqueue_clones_and_submission_numbers() {
    let job = sleep_job(None);
    let mut m = SlurmManager::new(1);
    m.add_job(&job);
    assert_eq!(job.get_status(), SlurmJobStatus::CREATED);
    assert_eq!(m.open_jobs[0].get_status(), SlurmJobStatus::PENDING);
    assert_eq!(m.fill_up_queue(&vec![Ok(71)]).unwrap(), 1);
    assert_eq!(m.scheduled_jobs[0].get_status(), SlurmJobStatus::SUBMITTED);
    assert_eq!(m.scheduled_jobs[0].get_number(), 71);
}
