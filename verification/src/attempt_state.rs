//! The states of an Attempt, as far as the Job and report stores read them.
use vstd::prelude::*;

verus! {

/// The states of the normative Attempt state table that the stores meet.
#[derive(Debug, Clone, Copy, PartialEq, Eq, Structural)]
pub enum AttemptState {
    Created,
    Starting,
    Running,
    Completed,
    Failed,
    Cancelled,
    Canonical,
    Superseded,
}

/// The attempt has ended: nothing more will come from it.
pub open spec fn attempt_finished(s: AttemptState) -> bool {
    match s {
        AttemptState::Completed | AttemptState::Failed | AttemptState::Cancelled | AttemptState::Canonical
        | AttemptState::Superseded => true,
        _ => false,
    }
}

pub fn is_attempt_finished(s: AttemptState) -> (r: bool)
    ensures
        r == attempt_finished(s),
{
    match s {
        AttemptState::Completed | AttemptState::Failed | AttemptState::Cancelled | AttemptState::Canonical
        | AttemptState::Superseded => true,
        _ => false,
    }
}

impl AttemptState {
    /// The variant's name, as `{:?}` writes it.
    pub open spec fn debug_name(self) -> Seq<char> {
        match self {
            AttemptState::Created => "Created"@,
            AttemptState::Starting => "Starting"@,
            AttemptState::Running => "Running"@,
            AttemptState::Completed => "Completed"@,
            AttemptState::Failed => "Failed"@,
            AttemptState::Cancelled => "Cancelled"@,
            AttemptState::Canonical => "Canonical"@,
            AttemptState::Superseded => "Superseded"@,
        }
    }

    /// See `debug_name`.
    pub fn name(&self) -> (r: &'static str)
        ensures
            r@ == self.debug_name(),
    {
        match self {
            AttemptState::Created => "Created",
            AttemptState::Starting => "Starting",
            AttemptState::Running => "Running",
            AttemptState::Completed => "Completed",
            AttemptState::Failed => "Failed",
            AttemptState::Cancelled => "Cancelled",
            AttemptState::Canonical => "Canonical",
            AttemptState::Superseded => "Superseded",
        }
    }
}



} // verus!
