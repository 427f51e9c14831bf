//! `begin`: start a heist in one step (state, mode, worktree, stage), and
//! undo what was done when a step fails.
use crate::app::state::{init, InitError, SetError};
use crate::app::worktree::AddError;
use crate::domain::error::{StateError, ValueError};
use crate::domain::state::{mode_name, Mode};
use crate::domain::value::{invalid_value, is_valid_slug, BranchValue, NonBlankValue, RefValue, SlugValue};
use crate::domain::worktree::{branch_name, spec_worktree_path, worktree_path};
use crate::ports::clock::Clock;
use crate::ports::git::{changes_view, GitChangeView, GitError, GitRepository};
use crate::ports::heist_dir_repository::HeistDirRepository;
use crate::ports::state_repository::{writes_view, StateRepository};
use crate::ports::worktree_fs::WorktreeFs;
use crate::text::{push_str, string_from};
use vstd::prelude::*;

verus! {

/// What already exists for a slug.
#[derive(Debug, Clone, Copy, PartialEq, Eq, Structural)]
pub enum CollisionArtifact {
    State,
    Worktree,
    Branch,
}

pub open spec fn spec_describe(a: CollisionArtifact, slug: Seq<char>) -> Seq<char> {
    match a {
        CollisionArtifact::State => ".heist/"@ + slug + "/"@,
        CollisionArtifact::Worktree => ".worktrees/"@ + slug,
        CollisionArtifact::Branch => "branch heist/"@ + slug,
    }
}

impl CollisionArtifact {
    /// What exists, for slug `slug`, as it is shown to users.
    pub fn describe(&self, slug: &str) -> (r: String)
        ensures
            r@ == spec_describe(*self, slug@),
    {
        let mut m: Vec<char> = Vec::new();
        match self {
            CollisionArtifact::State => {
                push_str(&mut m, ".heist/");
                push_str(&mut m, slug);
                push_str(&mut m, "/");
            },
            CollisionArtifact::Worktree => {
                push_str(&mut m, ".worktrees/");
                push_str(&mut m, slug);
            },
            CollisionArtifact::Branch => {
                push_str(&mut m, "branch heist/");
                push_str(&mut m, slug);
            },
        }
        proof {
            assert(m@ =~= spec_describe(*self, slug@));
        }
        string_from(&m)
    }
}

/// A step of the rollback that failed.
#[derive(Debug)]
pub enum RollbackFailure {
    WorktreeProbe(GitError),
    WorktreeRemove(GitError),
    BranchProbe(GitError),
    BranchDelete(GitError),
    HeistDirRemove(StateError),
}

/// Why `begin` stopped.
#[derive(Debug)]
pub enum BeginError {
    InvalidSlug(ValueError),
    Collision(CollisionArtifact),
    /// An inconclusive probe (not a confirmed absence): never safe to go on.
    Probe(GitError),
    Init(StateError),
    State { error: SetError, rollback_errors: Vec<RollbackFailure> },
    Worktree { error: AddError, rollback_errors: Vec<RollbackFailure> },
}

/// How an `init` failure is reported by `begin`: only a lost race on the
/// state directory is a collision.
pub fn init_failure(e: InitError) -> (r: BeginError)
    ensures
        e matches InitError::InvalidSlug(x) ==> (r matches BeginError::InvalidSlug(y) && y@ == x@),
        e matches InitError::Init(StateError::AlreadyExists) ==> r == BeginError::Collision(
            CollisionArtifact::State,
        ),
        (e matches InitError::Init(x) && !(x is AlreadyExists)) ==> r is Init,
{
    match e {
        InitError::InvalidSlug(x) => BeginError::InvalidSlug(x),
        InitError::Init(StateError::AlreadyExists) => BeginError::Collision(CollisionArtifact::State),
        InitError::Init(x) => BeginError::Init(x),
    }
}

/// Refuses a slug that is invalid or already has a state, a worktree or a
/// branch; returns the branch the heist will use.
fn check_preconditions<R: StateRepository, G: GitRepository>(
    repo_root: &str,
    state_repo: &mut R,
    git: &mut G,
    slug: &SlugValue,
) -> (r: Result<BranchValue, BeginError>)
    ensures
        r matches Ok(b) ==> b@ == crate::domain::worktree::spec_branch_name(slug@),
        !(r matches Err(BeginError::InvalidSlug(_))),
        !(r matches Err(BeginError::Init(_))),
        !(r matches Err(BeginError::State { .. })),
        !(r matches Err(BeginError::Worktree { .. })),
        changes_view(final(git).changes()@) == changes_view(old(git).changes()@),
        writes_view(final(state_repo).writes()@) == writes_view(old(state_repo).writes()@),
{
    if state_repo.has_state(slug) {
        return Err(BeginError::Collision(CollisionArtifact::State));
    }
    match git.worktree_exists(repo_root, slug) {
        Ok(true) => return Err(BeginError::Collision(CollisionArtifact::Worktree)),
        Ok(false) => {},
        Err(e) => return Err(BeginError::Probe(e)),
    }
    let branch = match branch_name(slug.as_str()) {
        Ok(b) => b,
        Err(e) => return Err(BeginError::InvalidSlug(e)),
    };
    match git.branch_exists(repo_root, &branch) {
        Ok(true) => Err(BeginError::Collision(CollisionArtifact::Branch)),
        Ok(false) => Ok(branch),
        Err(e) => Err(BeginError::Probe(e)),
    }
}

/// The step of the rollback a failure belongs to: the worktree, then the
/// branch, then the heist directory.
pub open spec fn rollback_step(f: RollbackFailure) -> int {
    match f {
        RollbackFailure::WorktreeProbe(_) => 0,
        RollbackFailure::WorktreeRemove(_) => 0,
        RollbackFailure::BranchProbe(_) => 1,
        RollbackFailure::BranchDelete(_) => 1,
        RollbackFailure::HeistDirRemove(_) => 2,
    }
}

/// The changes a rollback asked of git, and the failures it reported:
/// at most a removal of the worktree at `path`, then a deletion of
/// `branch`; a removal or deletion failure is reported exactly when that
/// change failed.
pub open spec fn rollback_log(
    n: Seq<(GitChangeView, bool)>,
    path: Seq<char>,
    branch: Seq<char>,
    r: Seq<RollbackFailure>,
) -> bool {
    &&& n.len() <= 2
    &&& forall|k: int|
        0 <= k < n.len() ==> (#[trigger] n[k]).0 == (GitChangeView::RemoveWorktree { path })
            || n[k].0 == (GitChangeView::DeleteBranch { branch })
    &&& n.len() == 2 ==> n[0].0 == (GitChangeView::RemoveWorktree { path }) && n[1].0 == (
    GitChangeView::DeleteBranch { branch })
    &&& (exists|i: int| 0 <= i < r.len() && #[trigger] r[i] is WorktreeRemove) <==> (exists|k: int|
        0 <= k < n.len() && #[trigger] n[k] == (GitChangeView::RemoveWorktree { path }, false))
    &&& (exists|i: int| 0 <= i < r.len() && #[trigger] r[i] is BranchDelete) <==> (exists|k: int|
        0 <= k < n.len() && #[trigger] n[k] == (GitChangeView::DeleteBranch { branch }, false))
}

/// Undoes what `begin` may have created: the worktree, the branch and the
/// heist directory, each only when present; returns the steps that failed.
pub fn rollback<H: HeistDirRepository, G: GitRepository>(
    repo_root: &str,
    heist_dir_repo: &mut H,
    git: &mut G,
    slug: &SlugValue,
    branch: &BranchValue,
) -> (r: Vec<RollbackFailure>)
    ensures
        r@.len() <= 3,
        forall|i: int, j: int|
            0 <= i < j < r@.len() ==> rollback_step(#[trigger] r@[i]) < rollback_step(
                #[trigger] r@[j],
            ),
        changes_view(final(git).changes()@).len() >= changes_view(old(git).changes()@).len(),
        changes_view(final(git).changes()@).take(changes_view(old(git).changes()@).len() as int)
            == changes_view(old(git).changes()@),
        rollback_log(
            changes_view(final(git).changes()@).skip(changes_view(old(git).changes()@).len() as int),
            spec_worktree_path(repo_root@, slug@),
            branch@,
            r@,
        ),
{
    let ghost c0 = changes_view(git.changes()@);
    let ghost path_v = spec_worktree_path(repo_root@, slug@);
    let mut errors: Vec<RollbackFailure> = Vec::new();
    let ghost mut rm: Option<bool> = None;
    match git.worktree_exists(repo_root, slug) {
        Ok(true) => {
            let path = worktree_path(repo_root, slug.as_str());
            let removed = git.remove_worktree(repo_root, path.as_str());
            proof {
                rm = Some(removed is Ok);
            }
            if let Err(e) = removed {
                errors.push(RollbackFailure::WorktreeRemove(e));
            }
        },
        Ok(false) => {},
        Err(e) => errors.push(RollbackFailure::WorktreeProbe(e)),
    }
    let ghost c1 = changes_view(git.changes()@);
    let ghost e1 = errors@;
    proof {
        match rm {
            None => assert(c1 =~= c0),
            Some(ok) => assert(c1 =~= c0.push((GitChangeView::RemoveWorktree { path: path_v }, ok))),
        }
        assert(errors@.len() <= 1);
        assert(forall|i: int| 0 <= i < errors@.len() ==> rollback_step(#[trigger] errors@[i]) == 0);
        assert((exists|i: int| 0 <= i < e1.len() && #[trigger] e1[i] is WorktreeRemove) <==> rm
            == Some(false)) by {
            if rm == Some(false) {
                assert(e1[0] is WorktreeRemove);
            }
        }
    }
    let ghost mut del: Option<bool> = None;
    match git.branch_exists(repo_root, branch) {
        Ok(true) => {
            let deleted = git.delete_branch(repo_root, branch);
            proof {
                del = Some(deleted is Ok);
            }
            if let Err(e) = deleted {
                errors.push(RollbackFailure::BranchDelete(e));
            }
        },
        Ok(false) => {},
        Err(e) => errors.push(RollbackFailure::BranchProbe(e)),
    }
    let ghost c2 = changes_view(git.changes()@);
    let ghost e2 = errors@;
    proof {
        match del {
            None => assert(c2 =~= c1),
            Some(ok) => assert(c2 =~= c1.push((GitChangeView::DeleteBranch { branch: branch@ }, ok))),
        }
        assert(errors@.len() <= 2);
        assert(forall|i: int| 0 <= i < errors@.len() ==> rollback_step(#[trigger] errors@[i]) <= 1);
        assert(forall|i: int| 0 <= i < e1.len() ==> e2[i] == e1[i]);
        assert(e2.len() > e1.len() ==> (e2.last() is BranchDelete <==> del == Some(false)));
        assert(e2.len() == e1.len() ==> del != Some(false));
    }
    if let Err(e) = heist_dir_repo.remove(slug) {
        errors.push(RollbackFailure::HeistDirRemove(e));
    }
    proof {
        let n = c2.skip(c0.len() as int);
        let r = errors@;
        assert(c2.take(c0.len() as int) =~= c0);
        assert(forall|i: int| 0 <= i < e2.len() ==> r[i] == e2[i]);
        let rmv = GitChangeView::RemoveWorktree { path: path_v };
        let dlv = GitChangeView::DeleteBranch { branch: branch@ };
        match (rm, del) {
            (None, None) => {
                assert(n =~= Seq::<(GitChangeView, bool)>::empty());
            },
            (Some(a), None) => {
                assert(n =~= seq![(rmv, a)]);
            },
            (None, Some(b)) => {
                assert(n =~= seq![(dlv, b)]);
            },
            (Some(a), Some(b)) => {
                assert(n =~= seq![(rmv, a), (dlv, b)]);
            },
        }
        assert((exists|i: int| 0 <= i < r.len() && #[trigger] r[i] is WorktreeRemove) <==> rm
            == Some(false)) by {
            if rm == Some(false) {
                let i = choose|i: int| 0 <= i < e1.len() && #[trigger] e1[i] is WorktreeRemove;
                assert(r[i] is WorktreeRemove);
            }
            if exists|i: int| 0 <= i < r.len() && #[trigger] r[i] is WorktreeRemove {
                let i = choose|i: int| 0 <= i < r.len() && #[trigger] r[i] is WorktreeRemove;
                assert(rollback_step(r[i]) == 0);
                assert(i < e1.len());
                assert(e1[i] is WorktreeRemove);
            }
        }
        assert((exists|i: int| 0 <= i < r.len() && #[trigger] r[i] is BranchDelete) <==> del
            == Some(false)) by {
            if del == Some(false) {
                assert(r[e2.len() - 1] is BranchDelete);
            }
            if exists|i: int| 0 <= i < r.len() && #[trigger] r[i] is BranchDelete {
                let i = choose|i: int| 0 <= i < r.len() && #[trigger] r[i] is BranchDelete;
                assert(i < e2.len());
                if i < e1.len() {
                    assert(e1[i] is BranchDelete);
                    assert(rollback_step(e1[i]) == 0);
                }
                assert(i == e2.len() - 1);
            }
        }
        assert((exists|k: int| 0 <= k < n.len() && #[trigger] n[k] == (rmv, false)) <==> rm
            == Some(false)) by {
            if rm == Some(false) {
                assert(n[0] == (rmv, false));
            }
        }
        assert((exists|k: int| 0 <= k < n.len() && #[trigger] n[k] == (dlv, false)) <==> del
            == Some(false)) by {
            if del == Some(false) {
                assert(n[n.len() - 1] == (dlv, false));
            }
        }
    }
    errors
}

fn set_field_or_rollback<H: HeistDirRepository, R: StateRepository, G: GitRepository, C: Clock>(
    repo_root: &str,
    heist_dir_repo: &mut H,
    state_repo: &mut R,
    git: &mut G,
    clock: &mut C,
    slug: &SlugValue,
    branch: &BranchValue,
    field: &str,
    value: &str,
) -> (r: Result<(), BeginError>)
    ensures
        r matches Err(e) ==> e is State,
        r is Ok ==> exists|s: crate::domain::state::StateView, t: Seq<char>|
            #[trigger] crate::app::state::spec_apply_set(s, field@, value@, t) is Ok,
        r matches Err(BeginError::State { rollback_errors: v, .. }) ==> forall|i: int, j: int|
            0 <= i < j < v@.len() ==> rollback_step(#[trigger] v@[i]) < rollback_step(
                #[trigger] v@[j],
            ),
{
    if let Err(error) = crate::app::state::set(state_repo, clock, slug, field, value) {
        let rollback_errors = rollback(repo_root, heist_dir_repo, git, slug, branch);
        return Err(BeginError::State { error, rollback_errors });
    }
    Ok(())
}

/// Starts heist `slug`: refuses an invalid slug or one that collides,
/// creates its state, sets its mode, creates its worktree (from `base` or
/// `origin/<main>`) and advances it to `planning`. When setting a field or
/// creating the worktree fails, what was created is rolled back. Returns the
/// worktree's path.
pub fn begin<H: HeistDirRepository, R: StateRepository, G: GitRepository, F: WorktreeFs, C: Clock>(
    repo_root: &str,
    heist_dir_repo: &mut H,
    state_repo: &mut R,
    git: &mut G,
    fs: &mut F,
    clock: &mut C,
    slug: &str,
    mode: Mode,
    base: Option<&RefValue>,
) -> (r: Result<NonBlankValue, BeginError>)
    ensures
        !is_valid_slug(slug@) ==> (r matches Err(BeginError::InvalidSlug(e)) && e@ == invalid_value(
            "slug"@,
            slug@,
            "kebab-case: lowercase letters, digits, single hyphens"@,
        )),
        is_valid_slug(slug@) ==> !(r matches Err(BeginError::InvalidSlug(_))),
        (r matches Err(BeginError::InvalidSlug(_))) || (r matches Err(BeginError::Probe(_))) || (
        r matches Err(BeginError::Collision(_))) ==> changes_view(final(git).changes()@)
            == changes_view(old(git).changes()@),
{
    let slug_value = match SlugValue::parse(slug) {
        Ok(s) => s,
        Err(e) => return Err(BeginError::InvalidSlug(e)),
    };
    let branch = check_preconditions(repo_root, state_repo, git, &slug_value)?;
    if let Err(e) = init(heist_dir_repo, state_repo, clock, slug) {
        return Err(init_failure(e));
    }
    set_field_or_rollback(
        repo_root,
        heist_dir_repo,
        state_repo,
        git,
        clock,
        &slug_value,
        &branch,
        "mode",
        mode.as_str(),
    )?;
    let base_text: Option<&str> = match base {
        Some(b) => Some(b.as_str()),
        None => None,
    };
    let worktree_value = match crate::app::worktree::add(
        repo_root,
        state_repo,
        git,
        fs,
        clock,
        &slug_value,
        base_text,
    ) {
        Ok(v) => v,
        Err(error) => {
            let rollback_errors = rollback(repo_root, heist_dir_repo, git, &slug_value, &branch);
            return Err(BeginError::Worktree { error, rollback_errors });
        },
    };
    set_field_or_rollback(
        repo_root,
        heist_dir_repo,
        state_repo,
        git,
        clock,
        &slug_value,
        &branch,
        "stage",
        "planning",
    )?;
    Ok(worktree_value)
}

} // verus!
