//! `sync`: bring a heist's branch up to date with its base.
use crate::app::base::{origin_ref, resolve, BaseResolution, ResolveError};
use crate::domain::error::ValueError;
use crate::domain::value::{RefValue, SlugValue};
use crate::ports::git::{changes_view, GitChangeView, GitError, GitRepository};
use crate::ports::state_repository::StateRepository;
use crate::text::{owned, str_eq};
use vstd::prelude::*;

verus! {

/// Why `sync` did nothing.
#[derive(Debug)]
pub enum SyncError {
    Resolve(ResolveError),
    Abandoned { base_ref: String },
    NotSetUp,
    WrongCheckout { expected: String, actual: String },
    FetchFailed(GitError),
    InvalidComposedRef(ValueError),
    Git(GitError),
}

/// What `sync` did.
#[derive(Debug)]
pub enum SyncAction {
    RebasedOntoMain { onto: String },
    MergedBase { base_ref: String },
    MergedMainBaseMerged { onto: String },
}

/// The change a sync action made.
pub open spec fn action_change(a: SyncAction) -> GitChangeView {
    match a {
        SyncAction::RebasedOntoMain { onto } => GitChangeView::Rebase { onto: onto@ },
        SyncAction::MergedBase { base_ref } => GitChangeView::Merge { other: base_ref@ },
        SyncAction::MergedMainBaseMerged { onto } => GitChangeView::Merge { other: onto@ },
    }
}

/// Brings the branch checked out at `repo_root` up to date according to the
/// base's resolution: with no base, rebase onto `origin/<main>`; with a live
/// base, merge it; with an expired base, merge `origin/<main>`; an abandoned
/// base is refused and nothing is run. A failed rebase or merge is a `Git`
/// error.
pub fn perform<G: GitRepository>(
    repo_root: &str,
    git: &mut G,
    main_branch: &str,
    resolution: &BaseResolution,
) -> (r: Result<SyncAction, SyncError>)
    ensures
        resolution matches BaseResolution::Abandoned { base_ref: b } ==> (r matches Err(
            SyncError::Abandoned { base_ref: x },
        ) && x@ == b@),
        resolution is Null ==> (r matches Ok(SyncAction::RebasedOntoMain { onto }) && onto@
            == "origin/"@ + main_branch@) || r matches Err(SyncError::Git(_)),
        resolution matches BaseResolution::Live { base_ref: b } ==> (r matches Ok(
            SyncAction::MergedBase { base_ref: x },
        ) && x@ == b@) || r matches Err(SyncError::Git(_)),
        resolution is Expired ==> (r matches Ok(SyncAction::MergedMainBaseMerged { onto }) && onto@
            == "origin/"@ + main_branch@) || r matches Err(SyncError::Git(_)),
        resolution is Abandoned ==> changes_view(final(git).changes()@) == changes_view(
            old(git).changes()@,
        ),
        resolution is Null ==> changes_view(final(git).changes()@) == changes_view(
            old(git).changes()@,
        ).push((GitChangeView::Rebase { onto: "origin/"@ + main_branch@ }, r is Ok)),
        resolution matches BaseResolution::Live { base_ref: b } ==> changes_view(
            final(git).changes()@,
        ) == changes_view(old(git).changes()@).push(
            (GitChangeView::Merge { other: b@ }, r is Ok),
        ),
        resolution is Expired ==> changes_view(final(git).changes()@) == changes_view(
            old(git).changes()@,
        ).push((GitChangeView::Merge { other: "origin/"@ + main_branch@ }, r is Ok)),
{
    match resolution {
        BaseResolution::Null => {
            let onto = origin_ref(main_branch);
            match git.rebase(repo_root, &onto) {
                Ok(()) => Ok(SyncAction::RebasedOntoMain { onto: onto.to_owned_string() }),
                Err(e) => Err(SyncError::Git(e)),
            }
        },
        BaseResolution::Live { base_ref } => {
            let base = match RefValue::try_from_raw(base_ref.as_str()) {
                Ok(r) => r,
                Err(e) => return Err(SyncError::InvalidComposedRef(e)),
            };
            match git.merge(repo_root, &base) {
                Ok(()) => Ok(SyncAction::MergedBase { base_ref: base_ref.to_owned_string() }),
                Err(e) => Err(SyncError::Git(e)),
            }
        },
        BaseResolution::Expired { .. } => {
            let onto = origin_ref(main_branch);
            match git.merge(repo_root, &onto) {
                Ok(()) => Ok(SyncAction::MergedMainBaseMerged { onto: onto.to_owned_string() }),
                Err(e) => Err(SyncError::Git(e)),
            }
        },
        BaseResolution::Abandoned { base_ref } => Err(
            SyncError::Abandoned { base_ref: base_ref.to_owned_string() },
        ),
    }
}

/// Syncs heist `slug`'s worktree: it must be set up (worktree and branch
/// recorded), have its branch checked out, and fetch `origin` before the
/// base is resolved and acted on.
pub fn sync<R: StateRepository, G: GitRepository>(
    state_repo: &mut R,
    git: &mut G,
    slug: &SlugValue,
) -> (r: Result<SyncAction, SyncError>)
    ensures
        !(r matches Err(SyncError::InvalidComposedRef(_))),
        r matches Ok(SyncAction::RebasedOntoMain { onto }) ==> exists|m: Seq<char>|
            onto@ == #[trigger] ("origin/"@ + m),
        r matches Ok(SyncAction::MergedMainBaseMerged { onto }) ==> exists|m: Seq<char>|
            onto@ == #[trigger] ("origin/"@ + m),
        r matches Ok(a) ==> changes_view(final(git).changes()@) == changes_view(
            old(git).changes()@,
        ).push((GitChangeView::Fetch { remote: "origin"@ }, true)).push((action_change(a), true)),
{
    if !state_repo.has_state(slug) {
        return Err(SyncError::Resolve(ResolveError::NoState));
    }
    let state = match state_repo.load(slug) {
        Ok(s) => s,
        Err(e) => return Err(SyncError::Resolve(ResolveError::Load(e))),
    };
    let (worktree, branch) = match (&state.worktree, &state.branch) {
        (Some(w), Some(b)) => (w, b),
        _ => return Err(SyncError::NotSetUp),
    };
    let worktree_path = worktree.as_str();
    match git.current_branch(worktree_path) {
        Ok(Some(current)) => {
            if !str_eq(current.as_str(), branch.as_str()) {
                return Err(
                    SyncError::WrongCheckout { expected: branch.to_owned_string(), actual: current },
                );
            }
        },
        Ok(None) => {
            return Err(
                SyncError::WrongCheckout {
                    expected: branch.to_owned_string(),
                    actual: owned("(detached HEAD)"),
                },
            );
        },
        Err(e) => return Err(SyncError::Git(e)),
    }
    if let Err(e) = git.fetch(worktree_path, "origin") {
        return Err(SyncError::FetchFailed(e));
    }
    let resolution = match resolve(worktree_path, state_repo, git, slug) {
        Ok(r) => r,
        Err(e) => return Err(SyncError::Resolve(e)),
    };
    let main_branch = git.default_branch(worktree_path);
    let ghost c1 = changes_view(git.changes()@);
    let r = perform(worktree_path, git, main_branch.as_str(), &resolution);
    assert(r matches Ok(a) ==> changes_view(git.changes()@) == c1.push((action_change(a), true)));
    assert(r matches Ok(SyncAction::RebasedOntoMain { onto }) ==> onto@ == "origin/"@
        + main_branch@);
    assert(r matches Ok(SyncAction::MergedMainBaseMerged { onto }) ==> onto@ == "origin/"@
        + main_branch@);
    r
}

} // verus!
