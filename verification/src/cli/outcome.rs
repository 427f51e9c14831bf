//! The exit code of each command's outcome.
use crate::app::base::{BaseResolution, ResolveError};
use crate::app::begin::BeginError;
use crate::app::doctor::ToolStatus;
use crate::app::list::ListError;
use crate::app::review::SelectError;
use crate::app::score::{CheckError, RecordError, WaveError};
use crate::app::state::{GetError, IncrError, InitError, SetError};
use crate::app::sync::{SyncAction, SyncError};
use crate::app::worktree::{AddError, CleanupError, CleanupOutcome, RemoveError};
use crate::cli::exit_code::{state_error_exit, validation_error_exit, ExitCode};
use crate::domain::validation::ValidationError;
use vstd::prelude::*;

verus! {

pub open spec fn spec_init_exit(e: &InitError) -> ExitCode {
    match e {
        InitError::InvalidSlug(_) => ExitCode::Precondition,
        InitError::Init(s) => state_error_exit(s),
    }
}

/// `state init`: an invalid slug is a precondition, a store failure maps
/// as the store's errors do.
pub fn init_exit(e: &InitError) -> (r: ExitCode)
    ensures
        r == spec_init_exit(e),
{
    match e {
        InitError::InvalidSlug(_) => ExitCode::Precondition,
        InitError::Init(s) => ExitCode::from_state_error(s),
    }
}

pub open spec fn spec_get_exit(e: &GetError) -> ExitCode {
    match e {
        GetError::Load(s) => state_error_exit(s),
        GetError::Field(_) => ExitCode::Precondition,
    }
}

/// `state get`: an unknown field is a precondition.
pub fn get_exit(e: &GetError) -> (r: ExitCode)
    ensures
        r == spec_get_exit(e),
{
    match e {
        GetError::Load(s) => ExitCode::from_state_error(s),
        GetError::Field(_) => ExitCode::Precondition,
    }
}

pub open spec fn spec_set_exit(e: &SetError) -> ExitCode {
    match e {
        SetError::Field(_) => ExitCode::Precondition,
        SetError::Load(s) => state_error_exit(s),
        SetError::Save(s) => state_error_exit(s),
    }
}

/// `state set` (and the field steps of `begin`): a refused value is a
/// precondition.
pub fn set_error_exit(e: &SetError) -> (r: ExitCode)
    ensures
        r == spec_set_exit(e),
{
    match e {
        SetError::Field(_) => ExitCode::Precondition,
        SetError::Load(s) => ExitCode::from_state_error(s),
        SetError::Save(s) => ExitCode::from_state_error(s),
    }
}

pub open spec fn spec_incr_exit(e: &IncrError) -> ExitCode {
    match e {
        IncrError::Field(_) => ExitCode::Precondition,
        IncrError::Load(s) => state_error_exit(s),
        IncrError::Save(s) => state_error_exit(s),
    }
}

/// `state incr`: a field that cannot be incremented is a precondition.
pub fn incr_exit(e: &IncrError) -> (r: ExitCode)
    ensures
        r == spec_incr_exit(e),
{
    match e {
        IncrError::Field(_) => ExitCode::Precondition,
        IncrError::Load(s) => ExitCode::from_state_error(s),
        IncrError::Save(s) => ExitCode::from_state_error(s),
    }
}

pub open spec fn spec_add_exit(e: &AddError) -> ExitCode {
    match e {
        AddError::NoState => ExitCode::Precondition,
        AddError::Naming(_) => ExitCode::Precondition,
        AddError::Fs(_) => ExitCode::Internal,
        AddError::Git(_) => ExitCode::Git,
        AddError::Load(s) => state_error_exit(s),
        AddError::Save(s) => state_error_exit(s),
        AddError::BaseImmutable { .. } => ExitCode::Precondition,
    }
}

/// `worktree add` (and the worktree step of `begin`).
pub fn add_error_exit(e: &AddError) -> (r: ExitCode)
    ensures
        r == spec_add_exit(e),
{
    match e {
        AddError::NoState => ExitCode::Precondition,
        AddError::Naming(_) => ExitCode::Precondition,
        AddError::Fs(_) => ExitCode::Internal,
        AddError::Git(_) => ExitCode::Git,
        AddError::Load(s) => ExitCode::from_state_error(s),
        AddError::Save(s) => ExitCode::from_state_error(s),
        AddError::BaseImmutable { .. } => ExitCode::Precondition,
    }
}

pub open spec fn spec_remove_exit(e: &RemoveError) -> ExitCode {
    match e {
        RemoveError::NoState => ExitCode::Precondition,
        RemoveError::Naming(_) => ExitCode::Precondition,
        RemoveError::NotMerged { .. } => ExitCode::Precondition,
        RemoveError::Git(_) => ExitCode::Git,
        RemoveError::Load(s) => state_error_exit(s),
        RemoveError::Save(s) => state_error_exit(s),
    }
}

/// `worktree remove`: an unmerged branch is a precondition.
pub fn remove_exit(e: &RemoveError) -> (r: ExitCode)
    ensures
        r == spec_remove_exit(e),
{
    match e {
        RemoveError::NoState => ExitCode::Precondition,
        RemoveError::Naming(_) => ExitCode::Precondition,
        RemoveError::NotMerged { .. } => ExitCode::Precondition,
        RemoveError::Git(_) => ExitCode::Git,
        RemoveError::Load(s) => ExitCode::from_state_error(s),
        RemoveError::Save(s) => ExitCode::from_state_error(s),
    }
}

pub open spec fn any_failed(v: Seq<CleanupOutcome>) -> bool {
    exists|i: int| 0 <= i < v.len() && (#[trigger] v[i]) is Failed
}

/// `worktree cleanup` after a sweep: `Git` when any worktree failed, else
/// success.
pub fn cleanup_exit(outcomes: &Vec<CleanupOutcome>) -> (r: ExitCode)
    ensures
        r == if any_failed(outcomes@) {
            ExitCode::Git
        } else {
            ExitCode::Success
        },
{
    let mut i: usize = 0;
    while i < outcomes.len()
        invariant
            i <= outcomes.len(),
            forall|k: int| 0 <= k < i ==> !((#[trigger] outcomes@[k]) is Failed),
        decreases outcomes.len() - i,
    {
        if let CleanupOutcome::Failed { .. } = &outcomes[i] {
            return ExitCode::Git;
        }
        i += 1;
    }
    ExitCode::Success
}

/// `worktree cleanup` when the sweep could not start.
pub fn cleanup_error_exit(e: &CleanupError) -> (r: ExitCode)
    ensures
        r == match e {
            CleanupError::Fs(_) => ExitCode::Internal,
            CleanupError::Git(_) => ExitCode::Git,
        },
{
    match e {
        CleanupError::Fs(_) => ExitCode::Internal,
        CleanupError::Git(_) => ExitCode::Git,
    }
}

/// `validation check`: covered is success, not covered a precondition.
pub fn validation_check_exit(r: &Result<bool, ValidationError>) -> (c: ExitCode)
    ensures
        c == match r {
            Ok(true) => ExitCode::Success,
            Ok(false) => ExitCode::Precondition,
            Err(e) => validation_error_exit(e),
        },
{
    match r {
        Ok(true) => ExitCode::Success,
        Ok(false) => ExitCode::Precondition,
        Err(e) => ExitCode::from_validation_error(e),
    }
}

pub open spec fn spec_select_exit(e: &SelectError) -> ExitCode {
    match e {
        SelectError::NoState => ExitCode::Precondition,
        SelectError::NoBranch => ExitCode::Precondition,
        SelectError::InvalidSlug(_) => ExitCode::Precondition,
        SelectError::Load(s) => state_error_exit(s),
        SelectError::NoRemoteDefault(_) => ExitCode::Precondition,
        SelectError::Git(_) => ExitCode::Git,
    }
}

/// `review select`.
pub fn select_exit(e: &SelectError) -> (r: ExitCode)
    ensures
        r == spec_select_exit(e),
{
    match e {
        SelectError::NoState => ExitCode::Precondition,
        SelectError::NoBranch => ExitCode::Precondition,
        SelectError::InvalidSlug(_) => ExitCode::Precondition,
        SelectError::Load(s) => ExitCode::from_state_error(s),
        SelectError::NoRemoteDefault(_) => ExitCode::Precondition,
        SelectError::Git(_) => ExitCode::Git,
    }
}

/// `list`.
pub fn list_exit(e: &ListError) -> (r: ExitCode)
    ensures
        r == match e {
            ListError::ListSlugs(s) => state_error_exit(s),
            ListError::Load { error, .. } => state_error_exit(error),
        },
{
    match e {
        ListError::ListSlugs(s) => ExitCode::from_state_error(s),
        ListError::Load { error, .. } => ExitCode::from_state_error(error),
    }
}

/// `doctor`: success only when every tool is available.
pub fn doctor_exit(statuses: &Vec<ToolStatus>) -> (r: ExitCode)
    ensures
        r == if forall|i: int| 0 <= i < statuses@.len() ==> (#[trigger] statuses@[i]).available {
            ExitCode::Success
        } else {
            ExitCode::Precondition
        },
{
    let mut i: usize = 0;
    while i < statuses.len()
        invariant
            i <= statuses.len(),
            forall|k: int| 0 <= k < i ==> (#[trigger] statuses@[k]).available,
        decreases statuses.len() - i,
    {
        if !statuses[i].available {
            return ExitCode::Precondition;
        }
        i += 1;
    }
    ExitCode::Success
}

pub open spec fn spec_resolve_error_exit(e: &ResolveError) -> ExitCode {
    match e {
        ResolveError::NoState => ExitCode::Precondition,
        ResolveError::Load(s) => state_error_exit(s),
        ResolveError::InvalidStoredBase(_) => ExitCode::Precondition,
        ResolveError::RefMissingWithOpenPr { .. } => ExitCode::Precondition,
        ResolveError::RefMissingNoPr { .. } => ExitCode::Precondition,
        ResolveError::Ambiguous { .. } => ExitCode::Precondition,
        ResolveError::VerificationFailed { .. } => ExitCode::Git,
    }
}

/// A base that could not be resolved: a failed verification is a git
/// failure, everything else a precondition or the store's mapping.
pub fn resolve_error_exit(e: &ResolveError) -> (r: ExitCode)
    ensures
        r == spec_resolve_error_exit(e),
{
    match e {
        ResolveError::NoState => ExitCode::Precondition,
        ResolveError::Load(s) => ExitCode::from_state_error(s),
        ResolveError::InvalidStoredBase(_) => ExitCode::Precondition,
        ResolveError::RefMissingWithOpenPr { .. } => ExitCode::Precondition,
        ResolveError::RefMissingNoPr { .. } => ExitCode::Precondition,
        ResolveError::Ambiguous { .. } => ExitCode::Precondition,
        ResolveError::VerificationFailed { .. } => ExitCode::Git,
    }
}

/// `base`: an abandoned base is a precondition.
pub fn base_exit(r: &Result<BaseResolution, ResolveError>) -> (c: ExitCode)
    ensures
        c == match r {
            Ok(BaseResolution::Abandoned { .. }) => ExitCode::Precondition,
            Ok(_) => ExitCode::Success,
            Err(e) => spec_resolve_error_exit(e),
        },
{
    match r {
        Ok(BaseResolution::Abandoned { .. }) => ExitCode::Precondition,
        Ok(_) => ExitCode::Success,
        Err(e) => resolve_error_exit(e),
    }
}

pub open spec fn spec_sync_exit(r: &Result<SyncAction, SyncError>) -> ExitCode {
    match r {
        Ok(_) => ExitCode::Success,
        Err(SyncError::FetchFailed(_)) => ExitCode::Git,
        Err(SyncError::Abandoned { .. }) => ExitCode::AbandonedBase,
        Err(SyncError::NotSetUp) => ExitCode::Precondition,
        Err(SyncError::WrongCheckout { .. }) => ExitCode::Precondition,
        Err(SyncError::Git(_)) => ExitCode::Git,
        Err(SyncError::InvalidComposedRef(_)) => ExitCode::Precondition,
        Err(SyncError::Resolve(e)) => spec_resolve_error_exit(e),
    }
}

/// `sync`: an abandoned base halts with its own exit code.
pub fn sync_exit(r: &Result<SyncAction, SyncError>) -> (c: ExitCode)
    ensures
        c == spec_sync_exit(r),
{
    match r {
        Ok(_) => ExitCode::Success,
        Err(SyncError::FetchFailed(_)) => ExitCode::Git,
        Err(SyncError::Abandoned { .. }) => ExitCode::AbandonedBase,
        Err(SyncError::NotSetUp) => ExitCode::Precondition,
        Err(SyncError::WrongCheckout { .. }) => ExitCode::Precondition,
        Err(SyncError::Git(_)) => ExitCode::Git,
        Err(SyncError::InvalidComposedRef(_)) => ExitCode::Precondition,
        Err(SyncError::Resolve(e)) => resolve_error_exit(e),
    }
}

/// `begin`: a collision or invalid slug is a precondition; a failed step
/// maps as its own command does.
pub fn begin_exit(e: &BeginError) -> (r: ExitCode)
    ensures
        r == match e {
            BeginError::InvalidSlug(_) => ExitCode::Precondition,
            BeginError::Collision(_) => ExitCode::Precondition,
            BeginError::Probe(_) => ExitCode::Git,
            BeginError::Init(s) => state_error_exit(s),
            BeginError::State { error, .. } => spec_set_exit(error),
            BeginError::Worktree { error, .. } => spec_add_exit(error),
        },
{
    match e {
        BeginError::InvalidSlug(_) => ExitCode::Precondition,
        BeginError::Collision(_) => ExitCode::Precondition,
        BeginError::Probe(_) => ExitCode::Git,
        BeginError::Init(s) => ExitCode::from_state_error(s),
        BeginError::State { error, .. } => set_error_exit(error),
        BeginError::Worktree { error, .. } => add_error_exit(error),
    }
}

/// `score check`: a store read failure is internal, the rest preconditions.
pub fn check_exit(e: &CheckError) -> (r: ExitCode)
    ensures
        r == match e {
            CheckError::Io(_) => ExitCode::Internal,
            _ => ExitCode::Precondition,
        },
{
    match e {
        CheckError::Io(_) => ExitCode::Internal,
        _ => ExitCode::Precondition,
    }
}

/// `score record`.
pub fn record_exit(e: &RecordError) -> (r: ExitCode)
    ensures
        r == match e {
            RecordError::Io(_) => ExitCode::Internal,
            RecordError::Save(s) => state_error_exit(s),
            _ => ExitCode::Precondition,
        },
{
    match e {
        RecordError::Io(_) => ExitCode::Internal,
        RecordError::Save(s) => ExitCode::from_state_error(s),
        _ => ExitCode::Precondition,
    }
}

/// `score wave`.
pub fn wave_exit(e: &WaveError) -> (r: ExitCode)
    ensures
        r == match e {
            WaveError::Io(_) => ExitCode::Internal,
            _ => ExitCode::Precondition,
        },
{
    match e {
        WaveError::Io(_) => ExitCode::Internal,
        _ => ExitCode::Precondition,
    }
}

} // verus!
