//! The job record: identity, execution attributes, resource request,
//! lifecycle status, and its rendering into SLURM's script format.

use vstd::prelude::*;
use vstd::string::StringExecFns;
use crate::job_post_processing::SlurmJobPostProcessing;
use crate::params::clone_string_pairs;
use crate::job_status::SlurmJobStatus;
use crate::memory_size::Memory;
use crate::text::dec_rep;
use crate::text::u64_to_string;

verus! {

/// Violations of the job's own contracts.  These indicate a controller bug,
/// never bad scheduler input.
#[derive(Clone, Copy, PartialEq, Eq, Structural, Debug)]
pub enum SlurmJobError {
    /// A second external number was assigned to a job that already has one.
    DuplicateNumberAssignment,
    /// A status change that the lifecycle state machine does not allow.
    InvalidTransition,
}

/// A batch job: an immutable description plus the mutable lifecycle pair of
/// status and external number.
pub struct SlurmJob {
    /// Process-unique identifier, assigned at creation.
    pub id: String,
    /// The external scheduler's number, assigned exactly once at submission.
    pub number: Option<i32>,
    pub command: String,
    pub working_directory: Option<String>,
    pub env: Vec<(String, String)>,
    pub description: String,
    pub status: SlurmJobStatus,
    /// Maximal run time, in SLURM's day-hour:minute:second form.
    pub max_run_time: Option<String>,
    pub output_file: Option<String>,
    pub error_file: Option<String>,
    pub on_finished: SlurmJobPostProcessing,
    pub memory: Memory,
    pub cpus: usize,
}

/// `a` carries the same data as `b`; the list-valued fields are compared by
/// their contents.
pub open spec fn same_job_data(a: SlurmJob, b: SlurmJob) -> bool {
    &&& a.id == b.id
    &&& a.number == b.number
    &&& a.command == b.command
    &&& a.working_directory == b.working_directory
    &&& a.env@ == b.env@
    &&& a.description == b.description
    &&& a.status == b.status
    &&& a.max_run_time == b.max_run_time
    &&& a.output_file == b.output_file
    &&& a.error_file == b.error_file
    &&& a.on_finished.rule == b.on_finished.rule
    &&& a.on_finished.param@ == b.on_finished.param@
    &&& a.memory == b.memory
    &&& a.cpus == b.cpus
}

pub(crate) fn clone_opt_string(o: &Option<String>) -> (r: Option<String>)
    ensures
        r == *o,
{
    match o {
        Some(s) => Some(s.clone()),
        None => None,
    }
}

impl Clone for SlurmJob {
    /// The clone carries the same data, status and number included.
    fn clone(&self) -> (r: Self)
        ensures
            same_job_data(r, *self),
    {
        SlurmJob {
            id: self.id.clone(),
            number: self.number,
            command: self.command.clone(),
            working_directory: clone_opt_string(&self.working_directory),
            env: clone_string_pairs(&self.env),
            description: self.description.clone(),
            status: self.status,
            max_run_time: clone_opt_string(&self.max_run_time),
            output_file: clone_opt_string(&self.output_file),
            error_file: clone_opt_string(&self.error_file),
            on_finished: self.on_finished.clone(),
            memory: self.memory,
            cpus: self.cpus,
        }
    }
}

/// Relies on `uuid::Uuid::new_v4` and its `Display` impl: a random
/// version-4 UUID rendered in the hyphenated form, which is always 36
/// characters long.  The value is random, so nothing more is assumed of it.
#[verifier::external_body]
pub(crate) fn fresh_job_id() -> (r: String)
    ensures
        r@.len() == 36,
{
    uuid::Uuid::new_v4().to_string()
}

impl SlurmJob {
    /// The external number is present exactly in the states at or after
    /// submission.
    pub open spec fn wf(&self) -> bool {
        self.number is Some <==> self.status.spec_has_number()
    }

    /// The command section of the job's script: the command on a line of its
    /// own, wrapped in a `pushd`/`popd` pair when a working directory is set.
    pub open spec fn spec_commands(&self) -> Seq<char> {
        match self.working_directory {
            Some(d) => "pushd "@ + d@ + "\n"@ + self.command@ + "\n"@ + "popd\n"@,
            None => self.command@ + "\n"@,
        }
    }

    /// The full job script: shebang, resource directives, a blank separator,
    /// and the command section bracketed by timestamp markers.
    pub open spec fn spec_script(&self) -> Seq<char> {
        "#!/bin/bash\n"@ + "#SBATCH --job-name="@ + self.id@ + "\n"@ + (match self.output_file {
            Some(f) => "#SBATCH --output="@ + f@ + "\n"@,
            None => Seq::<char>::empty(),
        }) + (match self.error_file {
            Some(f) => "#SBATCH --error="@ + f@ + "\n"@,
            None => Seq::<char>::empty(),
        }) + "#SBATCH --cpus-per-task="@ + dec_rep(self.cpus as int) + "\n"@ + (match self.memory {
            Memory::MegaByte(m) => "#SBATCH --mem="@ + dec_rep(m as int) + "M\n"@,
            Memory::GigaByte(g) => "#SBATCH --mem="@ + dec_rep(g as int) + "G\n"@,
        }) + (match self.max_run_time {
            Some(t) => "#SBATCH --time="@ + t@ + "\n"@,
            None => Seq::<char>::empty(),
        }) + "\n\n"@ + "echo START: `date +%Y-%m-%dT%H:%M:%S%z`\n"@ + self.spec_commands()
            + "\necho END: `date +%Y-%m-%dT%H:%M:%S%z`\n"@
    }

    /// A new job with a fresh identifier, default resources (one CPU, 100
    /// megabytes), and no optional attributes.
    pub fn new(command: String, description: String, on_finished: SlurmJobPostProcessing) -> (r:
        SlurmJob)
        ensures
            r.wf(),
            r.status is CREATED,
            r.number is None,
            r.command == command,
            r.working_directory is None,
            r.env@ == Seq::<(String, String)>::empty(),
            r.description == description,
            r.max_run_time is None,
            r.output_file is None,
            r.error_file is None,
            r.on_finished == on_finished,
            r.memory == Memory::MegaByte(100),
            r.cpus == 1,
            r.id@.len() == 36,
    {
        SlurmJob {
            id: fresh_job_id(),
            number: None,
            command,
            working_directory: None,
            env: Vec::new(),
            description,
            status: SlurmJobStatus::CREATED,
            max_run_time: None,
            output_file: None,
            error_file: None,
            on_finished,
            memory: Memory::MegaByte(100),
            cpus: 1,
        }
    }

    pub fn get_status(&self) -> (r: SlurmJobStatus)
        ensures
            r == self.status,
    {
        self.status
    }

    pub fn get_id(&self) -> (r: &String)
        ensures
            *r == self.id,
    {
        &self.id
    }

    /// Evaluates the completion check: FINISHED on success, CRASHED on
    /// failure.
    pub fn run_post_processing(&self) -> (r: SlurmJobStatus)
        ensures
            r == (if self.on_finished.spec_verdict() {
                SlurmJobStatus::FINISHED
            } else {
                SlurmJobStatus::CRASHED
            }),
    {
        if self.on_finished.check() {
            SlurmJobStatus::FINISHED
        } else {
            SlurmJobStatus::CRASHED
        }
    }

    /// Assigns the external number.  Assigning succeeds exactly once: a
    /// second assignment is a contract violation and leaves the job
    /// unchanged.
    pub fn set_number(&mut self, number: i32) -> (r: Result<(), SlurmJobError>)
        ensures
            old(self).number is None ==> r is Ok && *final(self) == (SlurmJob {
                number: Some(number),
                ..*old(self)
            }),
            old(self).number is Some ==> r == Result::<(), SlurmJobError>::Err(
                SlurmJobError::DuplicateNumberAssignment,
            ) && *final(self) == *old(self),
    {
        match self.number {
            Some(_) => Err(SlurmJobError::DuplicateNumberAssignment),
            None => {
                self.number = Some(number);
                Ok(())
            },
        }
    }

    /// Moves the job to a new lifecycle state.  Only the forward transitions
    /// of the state machine are allowed; any other change is rejected and
    /// leaves the job unchanged.
    pub fn set_status(&mut self, status: SlurmJobStatus) -> (r: Result<(), SlurmJobError>)
        ensures
            old(self).status.spec_can_step_to(&status) ==> r is Ok && *final(self) == (SlurmJob {
                status,
                ..*old(self)
            }),
            !old(self).status.spec_can_step_to(&status) ==> r == Result::<(), SlurmJobError>::Err(
                SlurmJobError::InvalidTransition,
            ) && *final(self) == *old(self),
    {
        if self.status.can_step_to(&status) {
            self.status = status;
            Ok(())
        } else {
            Err(SlurmJobError::InvalidTransition)
        }
    }

    /// The assigned external number.
    pub fn get_number(&self) -> (r: i32)
        requires
            self.number is Some,
        ensures
            r == self.number->0,
    {
        match self.number {
            Some(n) => n,
            None => unreached(),
        }
    }

    /// Renders the command section of the script.
    pub fn generate_slurm_commands(&self) -> (r: String)
        ensures
            r@ == self.spec_commands(),
            self.working_directory is None ==> r@ == self.command@ + "\n"@,
            self.working_directory matches Some(d) ==> r@ == "pushd "@ + d@ + "\n"@
                + self.command@ + "\n"@ + "popd\n"@,
    {
        let mut ret = String::new();
        match &self.working_directory {
            Some(working_directory) => {
                ret.append("pushd ");
                ret.append(working_directory.as_str());
                ret.append("\n");
            },
            None => {},
        }
        ret.append(self.command.as_str());
        ret.append("\n");
        if self.working_directory.is_some() {
            ret.append("popd\n");
        }
        proof {
            assert(ret@ =~= self.spec_commands());
        }
        ret
    }

    /// Renders the full job script.
    #[verifier::rlimit(100)]
    pub fn generate_slurm_script(&self) -> (r: String)
        ensures
            r@ == self.spec_script(),
    {
        let mut ret = String::from_str("#!/bin/bash\n");
        ret.append("#SBATCH --job-name=");
        ret.append(self.id.as_str());
        ret.append("\n");
        match &self.output_file {
            Some(output_file) => {
                ret.append("#SBATCH --output=");
                ret.append(output_file.as_str());
                ret.append("\n");
            },
            None => {},
        }
        match &self.error_file {
            Some(error_file) => {
                ret.append("#SBATCH --error=");
                ret.append(error_file.as_str());
                ret.append("\n");
            },
            None => {},
        }
        ret.append("#SBATCH --cpus-per-task=");
        let cpus_dec = u64_to_string(self.cpus as u64);
        ret.append(cpus_dec.as_str());
        ret.append("\n");
        match self.memory {
            Memory::MegaByte(m) => {
                ret.append("#SBATCH --mem=");
                let mem_dec = u64_to_string(m);
                ret.append(mem_dec.as_str());
                ret.append("M\n");
            },
            Memory::GigaByte(g) => {
                ret.append("#SBATCH --mem=");
                let mem_dec = u64_to_string(g);
                ret.append(mem_dec.as_str());
                ret.append("G\n");
            },
        }
        match &self.max_run_time {
            Some(max_run_time) => {
                ret.append("#SBATCH --time=");
                ret.append(max_run_time.as_str());
                ret.append("\n");
            },
            None => {},
        }
        ret.append("\n\n");
        ret.append("echo START: `date +%Y-%m-%dT%H:%M:%S%z`\n");
        let commands = self.generate_slurm_commands();
        ret.append(commands.as_str());
        ret.append("\necho END: `date +%Y-%m-%dT%H:%M:%S%z`\n");
        proof {
            assert(ret@ =~= self.spec_script());
        }
        ret
    }
}

} // verus!
