//! The exit code of each outcome of a command.
use crate::domain::error::StateError;
use crate::domain::validation::ValidationError;
use crate::ports::git::GitError;
use vstd::prelude::*;

verus! {

/// The process exit codes callers rely on.
#[derive(Debug, Clone, Copy, PartialEq, Eq, Structural)]
pub enum ExitCode {
    Success,
    Internal,
    Precondition,
    Git,
    /// The base's pull request was closed unmerged: a human decides.
    AbandonedBase,
}

/// The raw number of each exit code.
pub open spec fn spec_code(c: ExitCode) -> i32 {
    match c {
        ExitCode::Success => 0,
        ExitCode::Internal => 1,
        ExitCode::Precondition => 2,
        ExitCode::Git => 3,
        ExitCode::AbandonedBase => 5,
    }
}

/// The exit code of a state-store failure: a missing, already existing or
/// unparseable state is a precondition; an unreadable one is internal.
pub open spec fn state_error_exit(e: &StateError) -> ExitCode {
    match e {
        StateError::Missing => ExitCode::Precondition,
        StateError::AlreadyExists => ExitCode::Precondition,
        StateError::Unreadable(_) => ExitCode::Internal,
        StateError::Unparseable(_) => ExitCode::Precondition,
    }
}

/// The exit code of a validation failure: a bad path is a precondition,
/// anything else is internal.
pub open spec fn validation_error_exit(e: &ValidationError) -> ExitCode {
    match e {
        ValidationError::PathNotAbsolute { .. } => ExitCode::Precondition,
        ValidationError::PathOutsideProject { .. } => ExitCode::Precondition,
        ValidationError::Other(_) => ExitCode::Internal,
    }
}

impl ExitCode {
    /// The raw process exit code.
    pub fn code(self) -> (r: i32)
        ensures
            r == spec_code(self),
    {
        match self {
            ExitCode::Success => 0,
            ExitCode::Internal => 1,
            ExitCode::Precondition => 2,
            ExitCode::Git => 3,
            ExitCode::AbandonedBase => 5,
        }
    }

    /// The exit code of a state-store failure.
    pub fn from_state_error(e: &StateError) -> (r: ExitCode)
        ensures
            r == state_error_exit(e),
    {
        match e {
            StateError::Missing => ExitCode::Precondition,
            StateError::AlreadyExists => ExitCode::Precondition,
            StateError::Unreadable(_) => ExitCode::Internal,
            StateError::Unparseable(_) => ExitCode::Precondition,
        }
    }

    /// The exit code of a git failure: always `Git`.
    pub fn from_git_error(e: &GitError) -> (r: ExitCode)
        ensures
            r == ExitCode::Git,
    {
        ExitCode::Git
    }

    /// The exit code of a validation failure.
    pub fn from_validation_error(e: &ValidationError) -> (r: ExitCode)
        ensures
            r == validation_error_exit(e),
    {
        match e {
            ValidationError::PathNotAbsolute { .. } => ExitCode::Precondition,
            ValidationError::PathOutsideProject { .. } => ExitCode::Precondition,
            ValidationError::Other(_) => ExitCode::Internal,
        }
    }
}

impl<'a> From<&'a ValidationError> for ExitCode {
    fn from(e: &'a ValidationError) -> (r: ExitCode) {
        ExitCode::from_validation_error(e)
    }
}

impl<'a> vstd::std_specs::convert::FromSpecImpl<&'a ValidationError> for ExitCode {
    open spec fn obeys_from_spec() -> bool {
        true
    }

    open spec fn from_spec(e: &'a ValidationError) -> ExitCode {
        validation_error_exit(e)
    }
}

} // verus!
