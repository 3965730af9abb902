use slurm_jobs::job::SlurmJob;
use slurm_jobs::job_builder::SlurmJobBuilder;

fn sleep_job(wdir: Option<String>) -> SlurmJob {
    let job = SlurmJobBuilder::new(String::from("sleep 5"))
        .set_description(String::from("sleeps for 5 seconds"));
    match wdir {
        Some(dir) => job.set_working_directory(dir).build(),
        None => job.build(),
    }
}

#[test]
fn generate_job_command() {
    let job = sleep_job(None);
    assert_eq!(job.generate_slurm_commands(), "sleep 5\n");
}

#[test]
fn generate_job_command_wdir() {
    let job = sleep_job(Some("/tmp/".parse().unwrap()));
    assert_eq!(
        job.generate_slurm_commands(),
        r"pushd /tmp/
sleep 5
popd
"
    );
}

#[test]
fn generate_full_script() {
    let job = sleep_job(None);
    let mut expected: String = String::from("#!/bin/bash\n");
    expected += format!("#SBATCH --job-name={}\n", job.get_id()).as_str();
    expected += "#SBATCH --output=/dev/null\n";
    expected += "#SBATCH --error=/dev/null\n";
    expected += "#SBATCH --cpus-per-task=1\n";
    expected += "#SBATCH --mem=100M\n";
    expected += "\n\n";
    expected += "echo START: `date +%Y-%m-%dT%H:%M:%S%z`\n";
    expected += "sleep 5\n";
    expected += "\necho END: `date +%Y-%m-%dT%H:%M:%S%z`\n";
    assert_eq!(job.generate_slurm_script(), expected);
}

#[test]
fn generate_full_script_all_directives() {
    let job = SlurmJobBuilder::new(String::from("./run"))
        .set_working_directory(String::from("/work"))
        .set_cpus(4)
        .set_memory(slurm_jobs::memory_size::Memory::GigaByte(2))
        .set_max_run_time(String::from("0-00:05:00"))
        .set_output_file(String::from("out.log"))
        .set_error_file(String::from("error.log"))
        .build();
    let mut expected: String = String::from("#!/bin/bash\n");
    expected += format!("#SBATCH --job-name={}\n", job.get_id()).as_str();
    expected += "#SBATCH --output=out.log\n";
    expected += "#SBATCH --error=error.log\n";
    expected += "#SBATCH --cpus-per-task=4\n";
    expected += "#SBATCH --mem=2G\n";
    expected += "#SBATCH --time=0-00:05:00\n";
    expected += "\n\n";
    expected += "echo START: `date +%Y-%m-%dT%H:%M:%S%z`\n";
    expected += "pushd /work\n./run\npopd\n";
    expected += "\necho END: `date +%Y-%m-%dT%H:%M:%S%z`\n";
    assert_eq!(job.generate_slurm_script(), expected);
}

#[test]
fn job_identifiers_are_uuid_shaped() {
    let a = sleep_job(None);
    let b = sleep_job(None);
    assert_eq!(a.get_id().len(), 36);
    assert_eq!(b.get_id().len(), 36);
    assert_ne!(a.get_id(), b.get_id());
}
