//! A fluent builder for job records.

use vstd::prelude::*;
use crate::job::SlurmJob;
use crate::job::fresh_job_id;
use crate::job_post_processing::SlurmJobPostProcessing;
use crate::job_status::SlurmJobStatus;
use crate::memory_size::Memory;
use crate::params::clone_string_pairs;
use crate::params::kv_insert;
use crate::params::kv_keys_unique;
use crate::params::kv_upsert;
use crate::params::lemma_kv_upsert_unique;

verus! {

/// Assembles the immutable description of a job; `build` stamps it with a
/// fresh identifier and the CREATED status.
pub struct SlurmJobBuilder {
    pub command: String,
    pub working_directory: Option<String>,
    pub env: Vec<(String, String)>,
    pub description: String,
    pub max_run_time: Option<String>,
    pub output_file: Option<String>,
    pub error_file: Option<String>,
    pub on_finished: SlurmJobPostProcessing,
    pub memory: Memory,
    pub cpus: usize,
}

impl SlurmJobBuilder {
    /// The environment never carries a key twice.
    pub open spec fn wf(&self) -> bool {
        kv_keys_unique(self.env@)
    }

    /// A builder with the given command and the defaults: one CPU, 100
    /// megabytes, output and error streams captured to `/dev/null`, and a no-op
    /// completion check.
    pub fn new(command: String) -> (r: SlurmJobBuilder)
        ensures
            r.wf(),
            r.command == command,
            r.working_directory is None,
            r.env@ == Seq::<(String, String)>::empty(),
            r.description@ == Seq::<char>::empty(),
            r.max_run_time is None,
            r.output_file matches Some(f) && f@ == "/dev/null"@,
            r.error_file matches Some(f) && f@ == "/dev/null"@,
            r.on_finished.rule is AlwaysTrue,
            r.memory == Memory::MegaByte(100),
            r.cpus == 1,
    {
        SlurmJobBuilder {
            command,
            working_directory: None,
            env: Vec::new(),
            description: String::new(),
            max_run_time: None,
            output_file: Some(String::from_str("/dev/null")),
            error_file: Some(String::from_str("/dev/null")),
            on_finished: SlurmJobPostProcessing::do_nothing(),
            memory: Memory::MegaByte(100),
            cpus: 1,
        }
    }

    pub fn set_memory(self, memory: Memory) -> (r: SlurmJobBuilder)
        ensures
            r == (SlurmJobBuilder { memory, ..self }),
    {
        SlurmJobBuilder { memory, ..self }
    }

    pub fn set_working_directory(self, dir: String) -> (r: SlurmJobBuilder)
        ensures
            r == (SlurmJobBuilder { working_directory: Some(dir), ..self }),
    {
        SlurmJobBuilder { working_directory: Some(dir), ..self }
    }

    /// Adds one environment entry; an entry with the same key is replaced.
    pub fn add_env(self, key: String, value: String) -> (r: SlurmJobBuilder)
        ensures
            r.env@ == kv_upsert(self.env@, (key, value)),
            self.wf() ==> r.wf(),
            r == (SlurmJobBuilder { env: r.env, ..self }),
    {
        proof {
            if self.wf() {
                lemma_kv_upsert_unique(self.env@, (key, value));
            }
        }
        let mut env = self.env;
        kv_insert(&mut env, key, value);
        SlurmJobBuilder { env, ..self }
    }

    pub fn set_description(self, desc: String) -> (r: SlurmJobBuilder)
        ensures
            r == (SlurmJobBuilder { description: desc, ..self }),
    {
        SlurmJobBuilder { description: desc, ..self }
    }

    /// The permissive pattern check of the run-time form: every pattern is
    /// accepted.
    fn check_max_runtime_pattern(_pattern: &String) -> (r: bool)
        ensures
            r,
    {
        true
    }

    pub fn set_max_run_time(self, max_run_time: String) -> (r: SlurmJobBuilder)
        ensures
            r == (SlurmJobBuilder { max_run_time: Some(max_run_time), ..self }),
    {
        let _accepted = Self::check_max_runtime_pattern(&max_run_time);
        SlurmJobBuilder { max_run_time: Some(max_run_time), ..self }
    }

    pub fn set_output_file(self, output_file: String) -> (r: SlurmJobBuilder)
        ensures
            r == (SlurmJobBuilder { output_file: Some(output_file), ..self }),
    {
        SlurmJobBuilder { output_file: Some(output_file), ..self }
    }

    pub fn set_error_file(self, error_file: String) -> (r: SlurmJobBuilder)
        ensures
            r == (SlurmJobBuilder { error_file: Some(error_file), ..self }),
    {
        SlurmJobBuilder { error_file: Some(error_file), ..self }
    }

    pub fn set_on_finished(self, finished: SlurmJobPostProcessing) -> (r: SlurmJobBuilder)
        ensures
            r == (SlurmJobBuilder { on_finished: finished, ..self }),
    {
        SlurmJobBuilder { on_finished: finished, ..self }
    }

    pub fn set_cpus(self, cpus: usize) -> (r: SlurmJobBuilder)
        ensures
            r == (SlurmJobBuilder { cpus, ..self }),
    {
        SlurmJobBuilder { cpus, ..self }
    }

    /// A fresh job with this builder's attributes: CREATED, no external
    /// number, and a new process-unique identifier.
    pub fn build(&self) -> (r: SlurmJob)
        ensures
            r.wf(),
            r.status is CREATED,
            r.number is None,
            r.id@.len() == 36,
            r.command == self.command,
            r.working_directory == self.working_directory,
            r.env@ == self.env@,
            r.description == self.description,
            r.max_run_time == self.max_run_time,
            r.output_file == self.output_file,
            r.error_file == self.error_file,
            r.on_finished.rule == self.on_finished.rule,
            r.on_finished.param@ == self.on_finished.param@,
            r.memory == self.memory,
            r.cpus == self.cpus,
    {
        SlurmJob {
            id: fresh_job_id(),
            number: None,
            command: self.command.clone(),
            working_directory: crate::job::clone_opt_string(&self.working_directory),
            env: clone_string_pairs(&self.env),
            description: self.description.clone(),
            status: SlurmJobStatus::CREATED,
            max_run_time: crate::job::clone_opt_string(&self.max_run_time),
            output_file: crate::job::clone_opt_string(&self.output_file),
            error_file: crate::job::clone_opt_string(&self.error_file),
            on_finished: self.on_finished.clone(),
            memory: self.memory,
            cpus: self.cpus,
        }
    }
}

} // verus!
