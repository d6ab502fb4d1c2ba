use vstd::prelude::*;

verus! {

/// The status of a workflow.
#[derive(Debug, Clone, Copy, PartialEq, Eq, Structural)]
pub enum WorkflowStatus {
    /// Not started yet.
    Pending,
    /// Started, steps are being executed.
    Running,
    /// Started, at least one active step waits for outside input.
    WaitingForInput,
    /// Every step completed or was skipped, none failed.
    Completed,
    /// At least one step failed.
    Failed,
    /// Cancelled before it finished.
    Cancelled,
}

/// The status of a workflow step.
#[derive(Debug, Clone, Copy, PartialEq, Eq, Structural)]
pub enum StepStatus {
    /// Not started yet.
    Pending,
    /// Being executed.
    Running,
    /// Waits for outside input before it can finish.
    WaitingForInput,
    /// Finished successfully.
    Completed,
    /// Finished with an error.
    Failed,
    /// Not executed because a prerequisite did not complete.
    Skipped,
}

impl WorkflowStatus {
    /// A terminal status admits no further transition.
    pub open spec fn spec_is_terminal(&self) -> bool {
        self is Completed || self is Failed || self is Cancelled
    }

    /// Whether no transition leaves this status.
    #[verifier::when_used_as_spec(spec_is_terminal)]
    pub fn is_terminal(&self) -> (r: bool)
        ensures
            r == self.spec_is_terminal(),
    {
        match self {
            WorkflowStatus::Completed | WorkflowStatus::Failed | WorkflowStatus::Cancelled => true,
            _ => false,
        }
    }
}

impl StepStatus {
    /// A terminal status is the last one a step takes.
    pub open spec fn spec_is_terminal(&self) -> bool {
        self is Completed || self is Failed || self is Skipped
    }

    /// Whether the step has finished, one way or another.
    #[verifier::when_used_as_spec(spec_is_terminal)]
    pub fn is_terminal(&self) -> (r: bool)
        ensures
            r == self.spec_is_terminal(),
    {
        match self {
            StepStatus::Completed | StepStatus::Failed | StepStatus::Skipped => true,
            _ => false,
        }
    }
}

} // verus!
