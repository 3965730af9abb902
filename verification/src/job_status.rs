//! The lifecycle states of a job and the transitions the controller allows.

use vstd::prelude::*;

verus! {

/// Lifecycle state of a job.  A job is constructed CREATED, becomes PENDING
/// when it is enqueued into the controller, SUBMITTED once the external
/// scheduler has accepted it and assigned it a number, and finally FINISHED
/// or CRASHED depending on the verdict of its completion check.
#[derive(Clone, Copy, PartialEq, Eq, Structural, Debug)]
pub enum SlurmJobStatus {
    CREATED,
    PENDING,
    SUBMITTED,
    FINISHED,
    CRASHED,
}

impl SlurmJobStatus {
    /// FINISHED and CRASHED are terminal: no transition leaves them.
    pub open spec fn spec_is_terminal(&self) -> bool {
        self is FINISHED || self is CRASHED
    }

    #[verifier::when_used_as_spec(spec_is_terminal)]
    pub fn is_terminal(&self) -> (r: bool)
        ensures
            r == self.spec_is_terminal(),
    {
        match self {
            SlurmJobStatus::FINISHED => true,
            SlurmJobStatus::CRASHED => true,
            _ => false,
        }
    }

    /// States in which a job carries an external scheduler number.
    pub open spec fn spec_has_number(&self) -> bool {
        self is SUBMITTED || self is FINISHED || self is CRASHED
    }

    /// The transitions of the lifecycle state machine.  Transitions are
    /// strictly forward and never skip a state: a job must pass through
    /// SUBMITTED before it can reach a terminal state.
    pub open spec fn spec_can_step_to(&self, to: &SlurmJobStatus) -> bool {
        ||| (self is CREATED && to is PENDING)
        ||| (self is PENDING && to is SUBMITTED)
        ||| (self is SUBMITTED && to.spec_is_terminal())
    }

    #[verifier::when_used_as_spec(spec_can_step_to)]
    pub fn can_step_to(&self, to: &SlurmJobStatus) -> (r: bool)
        ensures
            r == self.spec_can_step_to(to),
    {
        match (self, to) {
            (SlurmJobStatus::CREATED, SlurmJobStatus::PENDING) => true,
            (SlurmJobStatus::PENDING, SlurmJobStatus::SUBMITTED) => true,
            (SlurmJobStatus::SUBMITTED, SlurmJobStatus::FINISHED) => true,
            (SlurmJobStatus::SUBMITTED, SlurmJobStatus::CRASHED) => true,
            _ => false,
        }
    }
}

} // verus!
