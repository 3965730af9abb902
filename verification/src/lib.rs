//! A bounded-queue controller for batch jobs submitted to the SLURM workload
//! manager.  Jobs are described by [`job::SlurmJob`] values, rendered into
//! SLURM's script format, and tracked through a lifecycle state machine by
//! [`slurm_manager::SlurmManager`], which enforces an admission bound and
//! reconciles the set of submitted jobs against the scheduler's reported
//! running set.  All scheduler input and output crosses the crate boundary as
//! plain values, so every decision the controller takes is verified.

pub mod job;
pub mod job_builder;
pub mod job_post_processing;
pub mod job_status;
pub mod memory_size;
pub mod params;
pub mod slurm_manager;
pub mod text;
