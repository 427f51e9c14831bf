use crate::domain::value::{BranchValue, RefValue, SlugValue};
use crate::text::{push_all, push_str, string_chars, string_from};
use vstd::prelude::*;

verus! {

/// A worktree as `git worktree list` reports it.
#[derive(Debug, Clone, PartialEq, Eq)]
pub struct WorktreeInfo {
    pub path: String,
    pub branch: Option<String>,
}

pub open spec fn opt_string_view(o: Option<String>) -> Option<Seq<char>> {
    match o {
        Some(s) => Some(s@),
        None => None,
    }
}

impl WorktreeInfo {
    /// A copy.
    pub fn duplicate(&self) -> (r: WorktreeInfo)
        ensures
            r.path@ == self.path@,
            opt_string_view(r.branch) == opt_string_view(self.branch),
    {
        WorktreeInfo {
            path: copy(&self.path),
            branch: match &self.branch {
                Some(b) => Some(copy(b)),
                None => None,
            },
        }
    }
}

impl MergeCheck {
    /// A copy.
    pub fn duplicate(&self) -> (r: MergeCheck)
        ensures
            (r is Merged) == (self is Merged),
            r matches MergeCheck::NotMerged { verification_error: e } ==> (
            self matches MergeCheck::NotMerged { verification_error: f } && opt_string_view(e)
                == opt_string_view(*f)),
    {
        match self {
            MergeCheck::Merged => MergeCheck::Merged,
            MergeCheck::NotMerged { verification_error } => MergeCheck::NotMerged {
                verification_error: match verification_error {
                    Some(m) => Some(copy(m)),
                    None => None,
                },
            },
        }
    }
}

/// The outcome of asking whether a branch is merged.
#[derive(Debug, Clone, PartialEq, Eq)]
pub enum MergeCheck {
    Merged,
    /// `verification_error` is `Some` when a secondary check could not run
    /// (missing tooling, no auth, no remote configured) rather than having
    /// confirmed that the branch is unmerged.
    NotMerged { verification_error: Option<String> },
}

/// The state of the pull request whose head is a given ref.
#[derive(Debug, Clone, Copy, PartialEq, Eq, Structural)]
pub enum PrState {
    NoPr,
    Open,
    Merged,
    ClosedUnmerged,
}

/// A change asked of a repository.
#[derive(Debug, Clone, PartialEq, Eq)]
pub enum GitChange {
    Fetch { remote: String },
    AddWorktree { path: String, branch: String, start_point: String },
    RemoveWorktree { path: String },
    DeleteBranch { branch: String },
    Rebase { onto: String },
    Merge { other: String },
}

/// The mathematical value of a [`GitChange`].
pub enum GitChangeView {
    Fetch { remote: Seq<char> },
    AddWorktree { path: Seq<char>, branch: Seq<char>, start_point: Seq<char> },
    RemoveWorktree { path: Seq<char> },
    DeleteBranch { branch: Seq<char> },
    Rebase { onto: Seq<char> },
    Merge { other: Seq<char> },
}

impl View for GitChange {
    type V = GitChangeView;

    open spec fn view(&self) -> GitChangeView {
        match self {
            GitChange::Fetch { remote } => GitChangeView::Fetch { remote: remote@ },
            GitChange::AddWorktree { path, branch, start_point } => GitChangeView::AddWorktree {
                path: path@,
                branch: branch@,
                start_point: start_point@,
            },
            GitChange::RemoveWorktree { path } => GitChangeView::RemoveWorktree { path: path@ },
            GitChange::DeleteBranch { branch } => GitChangeView::DeleteBranch { branch: branch@ },
            GitChange::Rebase { onto } => GitChangeView::Rebase { onto: onto@ },
            GitChange::Merge { other } => GitChangeView::Merge { other: other@ },
        }
    }
}

/// The changes of a log, each with whether it succeeded.
pub open spec fn changes_view(v: Seq<(GitChange, bool)>) -> Seq<(GitChangeView, bool)> {
    v.map_values(|c: (GitChange, bool)| (c.0@, c.1))
}

/// A worktree list as plain values: each path and branch.
pub open spec fn listing_view(v: Seq<WorktreeInfo>) -> Seq<(Seq<char>, Option<Seq<char>>)> {
    v.map_values(|w: WorktreeInfo| (w.path@, opt_string_view(w.branch)))
}

/// The worktree lists of a log.
pub open spec fn listings_view(v: Seq<Vec<WorktreeInfo>>) -> Seq<Seq<(Seq<char>, Option<Seq<char>>)>> {
    v.map_values(|l: Vec<WorktreeInfo>| listing_view(l@))
}

/// Git operations the library needs. Each implementation keeps the log of
/// the changes it was asked to make (fetch, add or remove a worktree,
/// delete a branch, rebase, merge), each with whether it succeeded, and of
/// the worktree lists it gave; the other operations only read.
pub trait GitRepository {
    /// The changes asked so far, in order.
    spec fn changes(&self) -> Vec<(GitChange, bool)>;

    /// The worktree lists given so far, in order.
    spec fn listings(&self) -> Vec<Vec<WorktreeInfo>>;

    fn default_branch(&mut self, repo_root: &str) -> (r: String)
        ensures
            changes_view(final(self).changes()@) == changes_view(old(self).changes()@),
            listings_view(final(self).listings()@) == listings_view(old(self).listings()@),
    ;

    fn current_branch(&mut self, repo_root: &str) -> (r: Result<Option<String>, GitError>)
        ensures
            changes_view(final(self).changes()@) == changes_view(old(self).changes()@),
            listings_view(final(self).listings()@) == listings_view(old(self).listings()@),
    ;

    fn fetch(&mut self, repo_root: &str, remote: &str) -> (r: Result<(), GitError>)
        ensures
            changes_view(final(self).changes()@) == changes_view(old(self).changes()@).push(
                (GitChangeView::Fetch { remote: remote@ }, r is Ok),
            ),
            listings_view(final(self).listings()@) == listings_view(old(self).listings()@),
    ;

    fn is_branch_merged(&mut self, repo_root: &str, branch: &BranchValue, into: &str) -> (r: Result<
        MergeCheck,
        GitError,
    >)
        ensures
            changes_view(final(self).changes()@) == changes_view(old(self).changes()@),
            listings_view(final(self).listings()@) == listings_view(old(self).listings()@),
    ;

    fn delete_branch(&mut self, repo_root: &str, branch: &BranchValue) -> (r: Result<(), GitError>)
        ensures
            changes_view(final(self).changes()@) == changes_view(old(self).changes()@).push(
                (GitChangeView::DeleteBranch { branch: branch@ }, r is Ok),
            ),
            listings_view(final(self).listings()@) == listings_view(old(self).listings()@),
    ;

    fn worktree_exists(&mut self, repo_root: &str, slug: &SlugValue) -> (r: Result<bool, GitError>)
        ensures
            changes_view(final(self).changes()@) == changes_view(old(self).changes()@),
            listings_view(final(self).listings()@) == listings_view(old(self).listings()@),
    ;

    fn branch_exists(&mut self, repo_root: &str, branch: &BranchValue) -> (r: Result<bool, GitError>)
        ensures
            changes_view(final(self).changes()@) == changes_view(old(self).changes()@),
            listings_view(final(self).listings()@) == listings_view(old(self).listings()@),
    ;

    fn add_worktree(
        &mut self,
        repo_root: &str,
        path: &str,
        branch: &BranchValue,
        start_point: &RefValue,
    ) -> (r: Result<(), GitError>)
        ensures
            changes_view(final(self).changes()@) == changes_view(old(self).changes()@).push(
                (GitChangeView::AddWorktree { path: path@, branch: branch@, start_point: start_point@ }, r is Ok),
            ),
            listings_view(final(self).listings()@) == listings_view(old(self).listings()@),
    ;

    fn remove_worktree(&mut self, repo_root: &str, path: &str) -> (r: Result<(), GitError>)
        ensures
            changes_view(final(self).changes()@) == changes_view(old(self).changes()@).push(
                (GitChangeView::RemoveWorktree { path: path@ }, r is Ok),
            ),
            listings_view(final(self).listings()@) == listings_view(old(self).listings()@),
    ;

    fn list_worktrees(&mut self, repo_root: &str) -> (r: Result<Vec<WorktreeInfo>, GitError>)
        ensures
            changes_view(final(self).changes()@) == changes_view(old(self).changes()@),
            r matches Ok(v) ==> listings_view(final(self).listings()@) == listings_view(
                old(self).listings()@,
            ).push(listing_view(v@)),
            r is Err ==> listings_view(final(self).listings()@) == listings_view(old(self).listings()@),
    ;

    /// Checks that `origin/<main_branch>` resolves to a commit.
    fn remote_default_resolves(&mut self, repo_root: &str, main_branch: &str) -> (r: Result<
        (),
        GitError,
    >)
        ensures
            changes_view(final(self).changes()@) == changes_view(old(self).changes()@),
            listings_view(final(self).listings()@) == listings_view(old(self).listings()@),
    ;

    /// Resolves `ref_spec` verbatim; existence only.
    fn resolve_ref(&mut self, repo_root: &str, ref_spec: &RefValue) -> (r: Result<(), GitError>)
        ensures
            changes_view(final(self).changes()@) == changes_view(old(self).changes()@),
            listings_view(final(self).listings()@) == listings_view(old(self).listings()@),
    ;

    fn changed_paths(&mut self, repo_root: &str, base_branch: &str, head_ref: &RefValue) -> (r:
        Result<Vec<String>, GitError>)
        ensures
            changes_view(final(self).changes()@) == changes_view(old(self).changes()@),
            listings_view(final(self).listings()@) == listings_view(old(self).listings()@),
    ;

    fn read_file_at(&mut self, repo_root: &str, rev: &RefValue, path: &str) -> (r: Result<
        Option<String>,
        GitError,
    >)
        ensures
            changes_view(final(self).changes()@) == changes_view(old(self).changes()@),
            listings_view(final(self).listings()@) == listings_view(old(self).listings()@),
    ;

    /// True if `ancestor_ref` is reachable from `descendant_ref`, or equal.
    fn is_ancestor(
        &mut self,
        repo_root: &str,
        ancestor_ref: &RefValue,
        descendant_ref: &RefValue,
    ) -> (r: Result<bool, GitError>)
        ensures
            changes_view(final(self).changes()@) == changes_view(old(self).changes()@),
            listings_view(final(self).listings()@) == listings_view(old(self).listings()@),
    ;

    fn pr_state(&mut self, repo_root: &str, base_ref: &RefValue) -> (r: Result<PrState, GitError>)
        ensures
            changes_view(final(self).changes()@) == changes_view(old(self).changes()@),
            listings_view(final(self).listings()@) == listings_view(old(self).listings()@),
    ;

    fn rebase(&mut self, repo_root: &str, onto: &RefValue) -> (r: Result<(), GitError>)
        ensures
            changes_view(final(self).changes()@) == changes_view(old(self).changes()@).push(
                (GitChangeView::Rebase { onto: onto@ }, r is Ok),
            ),
            listings_view(final(self).listings()@) == listings_view(old(self).listings()@),
    ;

    fn merge(&mut self, repo_root: &str, other_ref: &RefValue) -> (r: Result<(), GitError>)
        ensures
            changes_view(final(self).changes()@) == changes_view(old(self).changes()@).push(
                (GitChangeView::Merge { other: other_ref@ }, r is Ok),
            ),
            listings_view(final(self).listings()@) == listings_view(old(self).listings()@),
    ;
}

/// Why a git operation failed.
#[derive(Debug)]
pub enum GitError {
    WorktreeAdd { subtype: String, message: String },
    WorktreeRemove { message: String },
    BranchDelete { message: String },
    MergeCheck { message: String },
    RefResolve { ref_spec: String, message: String },
    CommandFailed { command: String, message: String },
    Diff { message: String },
    Rebase { message: String },
    Merge { message: String },
}

/// The mathematical value of a [`GitError`].
pub enum GitErrorView {
    WorktreeAdd { subtype: Seq<char>, message: Seq<char> },
    WorktreeRemove { message: Seq<char> },
    BranchDelete { message: Seq<char> },
    MergeCheck { message: Seq<char> },
    RefResolve { ref_spec: Seq<char>, message: Seq<char> },
    CommandFailed { command: Seq<char>, message: Seq<char> },
    Diff { message: Seq<char> },
    Rebase { message: Seq<char> },
    Merge { message: Seq<char> },
}

impl View for GitError {
    type V = GitErrorView;

    open spec fn view(&self) -> GitErrorView {
        match self {
            GitError::WorktreeAdd { subtype, message } => GitErrorView::WorktreeAdd {
                subtype: subtype@,
                message: message@,
            },
            GitError::WorktreeRemove { message } => GitErrorView::WorktreeRemove {
                message: message@,
            },
            GitError::BranchDelete { message } => GitErrorView::BranchDelete { message: message@ },
            GitError::MergeCheck { message } => GitErrorView::MergeCheck { message: message@ },
            GitError::RefResolve { ref_spec, message } => GitErrorView::RefResolve {
                ref_spec: ref_spec@,
                message: message@,
            },
            GitError::CommandFailed { command, message } => GitErrorView::CommandFailed {
                command: command@,
                message: message@,
            },
            GitError::Diff { message } => GitErrorView::Diff { message: message@ },
            GitError::Rebase { message } => GitErrorView::Rebase { message: message@ },
            GitError::Merge { message } => GitErrorView::Merge { message: message@ },
        }
    }
}

/// The user-facing message of a git error.
pub open spec fn git_error_message(e: GitErrorView) -> Seq<char> {
    match e {
        GitErrorView::WorktreeAdd { subtype, message } => subtype + ": "@ + message,
        GitErrorView::WorktreeRemove { message } => "worktree-removal-failed: "@ + message,
        GitErrorView::BranchDelete { message } => "branch-deletion-failed: "@ + message,
        GitErrorView::MergeCheck { message } => "failed to check merged branches: "@ + message,
        GitErrorView::RefResolve { ref_spec, message } => "base ref '"@ + ref_spec
            + "' not found: "@ + message,
        GitErrorView::CommandFailed { command, message } => "failed to run "@ + command + ": "@
            + message,
        GitErrorView::Diff { message } => "failed to compute changed paths: "@ + message,
        GitErrorView::Rebase { message } => "rebase failed: "@ + message,
        GitErrorView::Merge { message } => "merge failed: "@ + message,
    }
}

/// An owned copy of a `String`.
fn copy(s: &String) -> (r: String)
    ensures
        r@ == s@,
{
    string_from(&string_chars(s))
}

impl GitError {
    /// The error's message, as it is shown to users.
    pub fn message(&self) -> (r: String)
        ensures
            r@ == git_error_message(self@),
    {
        let mut m: Vec<char> = Vec::new();
        match self {
            GitError::WorktreeAdd { subtype, message } => {
                push_all(&mut m, &string_chars(subtype));
                push_str(&mut m, ": ");
                push_all(&mut m, &string_chars(message));
            },
            GitError::WorktreeRemove { message } => {
                push_str(&mut m, "worktree-removal-failed: ");
                push_all(&mut m, &string_chars(message));
            },
            GitError::BranchDelete { message } => {
                push_str(&mut m, "branch-deletion-failed: ");
                push_all(&mut m, &string_chars(message));
            },
            GitError::MergeCheck { message } => {
                push_str(&mut m, "failed to check merged branches: ");
                push_all(&mut m, &string_chars(message));
            },
            GitError::RefResolve { ref_spec, message } => {
                push_str(&mut m, "base ref '");
                push_all(&mut m, &string_chars(ref_spec));
                push_str(&mut m, "' not found: ");
                push_all(&mut m, &string_chars(message));
            },
            GitError::CommandFailed { command, message } => {
                push_str(&mut m, "failed to run ");
                push_all(&mut m, &string_chars(command));
                push_str(&mut m, ": ");
                push_all(&mut m, &string_chars(message));
            },
            GitError::Diff { message } => {
                push_str(&mut m, "failed to compute changed paths: ");
                push_all(&mut m, &string_chars(message));
            },
            GitError::Rebase { message } => {
                push_str(&mut m, "rebase failed: ");
                push_all(&mut m, &string_chars(message));
            },
            GitError::Merge { message } => {
                push_str(&mut m, "merge failed: ");
                push_all(&mut m, &string_chars(message));
            },
        }
        proof {
            assert(m@ =~= git_error_message(self@));
        }
        string_from(&m)
    }

    /// A copy of the error.
    pub fn duplicate(&self) -> (r: GitError)
        ensures
            r@ == self@,
    {
        match self {
            GitError::WorktreeAdd { subtype, message } => GitError::WorktreeAdd {
                subtype: copy(subtype),
                message: copy(message),
            },
            GitError::WorktreeRemove { message } => GitError::WorktreeRemove {
                message: copy(message),
            },
            GitError::BranchDelete { message } => GitError::BranchDelete { message: copy(message) },
            GitError::MergeCheck { message } => GitError::MergeCheck { message: copy(message) },
            GitError::RefResolve { ref_spec, message } => GitError::RefResolve {
                ref_spec: copy(ref_spec),
                message: copy(message),
            },
            GitError::CommandFailed { command, message } => GitError::CommandFailed {
                command: copy(command),
                message: copy(message),
            },
            GitError::Diff { message } => GitError::Diff { message: copy(message) },
            GitError::Rebase { message } => GitError::Rebase { message: copy(message) },
            GitError::Merge { message } => GitError::Merge { message: copy(message) },
        }
    }

    /// The exit code of a failed git operation: always `Git`.
    pub fn exit_code(&self) -> (r: crate::cli::exit_code::ExitCode)
        ensures
            r == crate::cli::exit_code::ExitCode::Git,
    {
        crate::cli::exit_code::ExitCode::Git
    }
}

} // verus!
