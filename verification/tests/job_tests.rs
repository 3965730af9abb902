use slurm_jobs::job::SlurmJobError;
use slurm_jobs::job_builder::SlurmJobBuilder;
use slurm_jobs::job_post_processing::CompletionRule;
use slurm_jobs::job_post_processing::SlurmJobPostProcessing;
use slurm_jobs::job_status::SlurmJobStatus;
use slurm_jobs::memory_size::Memory;

#[test]
fn set_number_once_then_readable() {
    let mut job = SlurmJobBuilder::new(String::from("true")).build();
    assert!(job.set_number(42).is_ok());
    assert_eq!(job.get_number(), 42);
    // a second assignment fails fatally and changes nothing
    assert!(matches!(
        job.set_number(43),
        Err(SlurmJobError::DuplicateNumberAssignment)
    ));
    assert_eq!(job.get_number(), 42);
}

#[test]
fn status_transitions_are_forward_only() {
    let mut job = SlurmJobBuilder::new(String::from("true")).build();
    assert_eq!(job.get_status(), SlurmJobStatus::CREATED);
    // skipping a state is rejected
    assert!(matches!(
        job.set_status(SlurmJobStatus::SUBMITTED),
        Err(SlurmJobError::InvalidTransition)
    ));
    assert!(job.set_status(SlurmJobStatus::PENDING).is_ok());
    // going backward is rejected
    assert!(matches!(
        job.set_status(SlurmJobStatus::CREATED),
        Err(SlurmJobError::InvalidTransition)
    ));
    assert!(job.set_status(SlurmJobStatus::SUBMITTED).is_ok());
    assert!(job.set_status(SlurmJobStatus::FINISHED).is_ok());
    // terminal states are final
    assert!(matches!(
        job.set_status(SlurmJobStatus::CRASHED),
        Err(SlurmJobError::InvalidTransition)
    ));
}

#[test]
fn builder_defaults_and_setters() {
    let job = SlurmJobBuilder::new(String::from("echo hi")).build();
    assert_eq!(job.command, "echo hi");
    assert_eq!(job.cpus, 1);
    assert_eq!(job.memory, Memory::MegaByte(100));
    assert_eq!(job.output_file, Some(String::from("/dev/null")));
    assert_eq!(job.error_file, Some(String::from("/dev/null")));
    assert_eq!(job.working_directory, None);
    assert_eq!(job.max_run_time, None);
    assert_eq!(job.number, None);
    assert_eq!(job.get_status(), SlurmJobStatus::CREATED);

    let job = SlurmJobBuilder::new(String::from("echo hi"))
        .set_cpus(8)
        .set_memory(Memory::GigaByte(4))
        .set_description(String::from("demo"))
        .set_max_run_time(String::from("1-00:00:00"))
        .set_on_finished(SlurmJobPostProcessing::new(&[], CompletionRule::AlwaysFalse))
        .build();
    assert_eq!(job.cpus, 8);
    assert_eq!(job.memory, Memory::GigaByte(4));
    assert_eq!(job.description, "demo");
    assert_eq!(job.max_run_time, Some(String::from("1-00:00:00")));
    assert!(!job.on_finished.check());
}

#[test]
fn add_env_replaces_existing_key() {
    let builder = SlurmJobBuilder::new(String::from("true"))
        .add_env(String::from("A"), String::from("1"))
        .add_env(String::from("B"), String::from("2"))
        .add_env(String::from("A"), String::from("3"));
    let job = builder.build();
    assert_eq!(
        job.env,
        vec![
            (String::from("A"), String::from("3")),
            (String::from("B"), String::from("2"))
        ]
    );
}

#[test]
fn completion_check_verdicts() {
    let ok = SlurmJobPostProcessing::new(&[], CompletionRule::AlwaysTrue);
    let bad = SlurmJobPostProcessing::new(
        &[(String::from("report"), String::from("none"))],
        CompletionRule::AlwaysFalse,
    );
    assert!(ok.check());
    assert!(!bad.check());
    assert!(SlurmJobPostProcessing::do_nothing().check());

    let job = SlurmJobBuilder::new(String::from("true")).build();
    assert_eq!(job.run_post_processing(), SlurmJobStatus::FINISHED);
    let job = SlurmJobBuilder::new(String::from("true")).set_on_finished(bad).build();
    assert_eq!(job.run_post_processing(), SlurmJobStatus::CRASHED);
}
