//! In-memory implementations of the ports, for exercising the commands.
use crate::domain::error::StateError;
use crate::domain::state::State;
use crate::domain::tool::Tool;
use crate::domain::value::{is_valid_slug, BranchValue, DateValue, RefValue, SlugValue};
use crate::ports::clock::Clock;
use crate::ports::git::{
    changes_view, listing_view, listings_view, opt_string_view, GitChange, GitError, GitErrorView, GitRepository, MergeCheck, PrState, WorktreeInfo,
};
use crate::ports::heist_dir_repository::HeistDirRepository;
use crate::ports::score_repository::ScoreRepository;
use crate::ports::state_repository::{loads_view, writes_view, StateRepository};
use crate::ports::tool_probe::ToolProbe;
use crate::ports::validation_source::{read_result_view, reads_view, ValidationSource};
use crate::ports::worktree_fs::WorktreeFs;
use crate::text::{chars_of, last_segment, last_segment_exec, owned, str_eq, string_chars, string_from, text_less, text_less_exec};
use vstd::prelude::*;

verus! {

pub open spec fn strs(v: Seq<String>) -> Seq<Seq<char>> {
    v.map_values(|s: String| s@)
}

pub proof fn lemma_strs_push(v: Seq<String>, s: String)
    ensures
        strs(v.push(s)) == strs(v).push(s@),
{
    assert(strs(v.push(s)) =~= strs(v).push(s@));
}

fn push_copy(v: &mut Vec<String>, s: &str)
    ensures
        strs(final(v)@) == strs(old(v)@).push(s@),
{
    let c = owned(s);
    proof {
        lemma_strs_push(v@, c);
    }
    v.push(c);
}

fn copy(s: &String) -> (r: String)
    ensures
        r@ == s@,
{
    string_from(&string_chars(s))
}

fn contains_str(v: &Vec<String>, s: &str) -> (r: bool)
    ensures
        r == strs(v@).contains(s@),
{
    let mut i: usize = 0;
    while i < v.len()
        invariant
            i <= v.len(),
            forall|k: int| 0 <= k < i ==> (#[trigger] v@[k])@ != s@,
        decreases v.len() - i,
    {
        if str_eq(v[i].as_str(), s) {
            assert(strs(v@)[i as int] == s@);
            return true;
        }
        i += 1;
    }
    proof {
        if strs(v@).contains(s@) {
            let k = choose|k: int| 0 <= k < strs(v@).len() && strs(v@)[k] == s@;
            assert(v@[k]@ == s@);
        }
    }
    false
}

fn copy_strs(v: &Vec<String>) -> (r: Vec<String>)
    ensures
        strs(r@) == strs(v@),
{
    let mut out: Vec<String> = Vec::new();
    let mut i: usize = 0;
    while i < v.len()
        invariant
            i <= v.len(),
            strs(out@) == strs(v@).take(i as int),
        decreases v.len() - i,
    {
        let c = copy(&v[i]);
        proof {
            lemma_strs_push(out@, c);
        }
        out.push(c);
        assert(strs(v@).take(i as int).push(c@) =~= strs(v@).take(i + 1));
        i += 1;
    }
    assert(strs(v@).take(i as int) =~= strs(v@));
    out
}

fn dup_error(e: &Option<GitError>) -> (r: Option<GitError>)
    ensures
        r matches Some(x) ==> (e matches Some(y) && x@ == y@),
        r is None ==> e is None,
{
    match e {
        Some(x) => Some(x.duplicate()),
        None => None,
    }
}

// ---------------------------------------------------------------------------
// clock, worktree fs, tool probe
// ---------------------------------------------------------------------------

/// A clock that always reads the same date.
pub struct FixedClock(pub DateValue);

impl Clock for FixedClock {
    fn today(&mut self) -> (r: DateValue)
        ensures
            r@ == old(self).0@,
    {
        self.0.duplicate()
    }
}

/// A worktree file system with no file system: nothing to ignore, links
/// succeed, every path is its own canonical form.
pub struct FakeWorktreeFs;

impl WorktreeFs for FakeWorktreeFs {
    fn ensure_worktrees_ignored(&mut self, repo_root: &str) -> (r: Result<bool, String>)
        ensures
            r == Ok::<bool, String>(false),
    {
        Ok(false)
    }

    fn link_heist_dir(&mut self, repo_root: &str, worktree_path: &str, slug: &str) -> (r: Result<
        (),
        String,
    >)
        ensures
            r is Ok,
    {
        Ok(())
    }

    fn canonicalize(&mut self, path: &str) -> (r: Result<String, String>)
        ensures
            r matches Ok(p) && p@ == path@,
    {
        Ok(owned(path))
    }
}

/// A tool probe that reports a tool available only once registered.
pub struct FakeToolProbe {
    available: Vec<Tool>,
    answered: Vec<(Tool, bool)>,
}

impl View for FakeToolProbe {
    type V = Seq<Tool>;

    closed spec fn view(&self) -> Seq<Tool> {
        self.available@
    }
}

impl FakeToolProbe {
    /// No tool available.
    pub fn new() -> (r: FakeToolProbe)
        ensures
            r@.len() == 0,
            r.answers()@.len() == 0,
    {
        FakeToolProbe { available: Vec::new(), answered: Vec::new() }
    }

    /// `tool` available too.
    pub fn with_available(self, tool: Tool) -> (r: FakeToolProbe)
        ensures
            r@ == self@.push(tool),
            r.answers()@ == self.answers()@,
    {
        let mut s = self;
        s.available.push(tool);
        s
    }
}

impl ToolProbe for FakeToolProbe {
    closed spec fn answers(&self) -> Vec<(Tool, bool)> {
        self.answered
    }

    fn is_available(&mut self, tool: Tool) -> (r: bool)
        ensures
            r == old(self)@.contains(tool),
            final(self)@ == old(self)@,
    {
        let mut found = false;
        let mut i: usize = 0;
        while i < self.available.len()
            invariant
                i <= self.available.len(),
                self@ == old(self)@,
                self.answered@ == old(self).answered@,
                found == exists|k: int| 0 <= k < i && self.available@[k] == tool,
            decreases self.available.len() - i,
        {
            if self.available[i] == tool {
                found = true;
            }
            i += 1;
        }
        self.answered.push((tool, found));
        found
    }
}

// ---------------------------------------------------------------------------
// git
// ---------------------------------------------------------------------------

pub open spec fn err_view(e: Option<GitError>) -> Option<GitErrorView> {
    match e {
        Some(x) => Some(x@),
        None => None,
    }
}

pub open spec fn keyed_err_view(e: Option<(String, GitError)>) -> Option<(Seq<char>, GitErrorView)> {
    match e {
        Some(x) => Some((x.0@, x.1@)),
        None => None,
    }
}

pub open spec fn pairs_view(v: Seq<(String, String)>) -> Seq<(Seq<char>, Seq<char>)> {
    v.map_values(|p: (String, String)| (p.0@, p.1@))
}

pub open spec fn infos_view(v: Seq<WorktreeInfo>) -> Seq<(Seq<char>, Option<Seq<char>>)> {
    v.map_values(|w: WorktreeInfo| (w.path@, opt_string_view(w.branch)))
}

pub open spec fn pr_states_view(v: Seq<(String, PrState)>) -> Seq<(Seq<char>, PrState)> {
    v.map_values(|p: (String, PrState)| (p.0@, p.1))
}

/// The mathematical value of a [`FakeGit`]: what it was set up with and
/// what it has recorded.
pub struct FakeGitView {
    pub default_branch: Seq<char>,
    pub merged_branches: Seq<Seq<char>>,
    pub worktrees: Seq<Seq<char>>,
    pub branches: Seq<Seq<char>>,
    pub worktree_infos: Seq<(Seq<char>, Option<Seq<char>>)>,
    pub add_error: Option<GitErrorView>,
    pub remove_error: Option<GitErrorView>,
    pub delete_error: Option<GitErrorView>,
    pub merge_check_error_for: Option<(Seq<char>, GitErrorView)>,
    pub verification_error_for: Option<(Seq<char>, Seq<char>)>,
    pub remote_default_resolve_error: Option<GitErrorView>,
    pub resolve_ref_error_for: Option<(Seq<char>, GitErrorView)>,
    pub removed_worktree_paths: Seq<Seq<char>>,
    pub deleted_branch_names: Seq<Seq<char>>,
    pub add_worktree_start_points: Seq<Seq<char>>,
    pub changed_paths: Seq<Seq<char>>,
    pub changed_paths_error: Option<GitErrorView>,
    pub file_contents: Seq<(Seq<char>, Seq<char>)>,
    pub ancestors: Seq<(Seq<char>, Seq<char>)>,
    pub pr_states: Seq<(Seq<char>, PrState)>,
    pub pr_state_error_for: Option<(Seq<char>, GitErrorView)>,
    pub is_ancestor_calls: u32,
    pub rebase_calls: Seq<Seq<char>>,
    pub merge_calls: Seq<Seq<char>>,
    pub failing_rebase: Option<GitErrorView>,
    pub failing_merge: Option<GitErrorView>,
    pub current_branch: Option<Seq<char>>,
    pub fetch_calls: Seq<Seq<char>>,
    pub fetch_error: Option<GitErrorView>,
    pub call_log: Seq<Seq<char>>,
}

/// In-memory git: answers from what it was set up with and records the
/// calls that change a repository.
pub struct FakeGit {
    changes: Vec<(GitChange, bool)>,
    listed: Vec<Vec<WorktreeInfo>>,
    default_branch: String,
    merged_branches: Vec<String>,
    worktrees: Vec<String>,
    branches: Vec<String>,
    worktree_infos: Vec<WorktreeInfo>,
    add_error: Option<GitError>,
    remove_error: Option<GitError>,
    delete_error: Option<GitError>,
    merge_check_error_for: Option<(String, GitError)>,
    verification_error_for: Option<(String, String)>,
    remote_default_resolve_error: Option<GitError>,
    resolve_ref_error_for: Option<(String, GitError)>,
    removed_worktree_paths: Vec<String>,
    deleted_branch_names: Vec<String>,
    add_worktree_start_points: Vec<String>,
    changed_paths: Vec<String>,
    changed_paths_error: Option<GitError>,
    file_contents: Vec<(String, String)>,
    ancestors: Vec<(String, String)>,
    pr_states: Vec<(String, PrState)>,
    pr_state_error_for: Option<(String, GitError)>,
    is_ancestor_calls: u32,
    rebase_calls: Vec<String>,
    merge_calls: Vec<String>,
    failing_rebase: Option<GitError>,
    failing_merge: Option<GitError>,
    current_branch: Option<String>,
    fetch_calls: Vec<String>,
    fetch_error: Option<GitError>,
    call_log: Vec<String>,
}

impl View for FakeGit {
    type V = FakeGitView;

    closed spec fn view(&self) -> FakeGitView {
        FakeGitView {
            default_branch: self.default_branch@,
            merged_branches: strs(self.merged_branches@),
            worktrees: strs(self.worktrees@),
            branches: strs(self.branches@),
            worktree_infos: infos_view(self.worktree_infos@),
            add_error: err_view(self.add_error),
            remove_error: err_view(self.remove_error),
            delete_error: err_view(self.delete_error),
            merge_check_error_for: keyed_err_view(self.merge_check_error_for),
            verification_error_for: match self.verification_error_for {
                Some(p) => Some((p.0@, p.1@)),
                None => None,
            },
            remote_default_resolve_error: err_view(self.remote_default_resolve_error),
            resolve_ref_error_for: keyed_err_view(self.resolve_ref_error_for),
            removed_worktree_paths: strs(self.removed_worktree_paths@),
            deleted_branch_names: strs(self.deleted_branch_names@),
            add_worktree_start_points: strs(self.add_worktree_start_points@),
            changed_paths: strs(self.changed_paths@),
            changed_paths_error: err_view(self.changed_paths_error),
            file_contents: pairs_view(self.file_contents@),
            ancestors: pairs_view(self.ancestors@),
            pr_states: pr_states_view(self.pr_states@),
            pr_state_error_for: keyed_err_view(self.pr_state_error_for),
            is_ancestor_calls: self.is_ancestor_calls,
            rebase_calls: strs(self.rebase_calls@),
            merge_calls: strs(self.merge_calls@),
            failing_rebase: err_view(self.failing_rebase),
            failing_merge: err_view(self.failing_merge),
            current_branch: opt_string_view(self.current_branch),
            fetch_calls: strs(self.fetch_calls@),
            fetch_error: err_view(self.fetch_error),
            call_log: strs(self.call_log@),
        }
    }
}

impl FakeGit {
    /// A repository whose default branch is `main`, with no branch,
    /// worktree, pull request or failure set up, and nothing recorded.
    pub fn new() -> (r: FakeGit)
        ensures
            r@.default_branch == "main"@,
            r@.merged_branches.len() == 0,
            r@.worktrees.len() == 0,
            r@.branches.len() == 0,
            r@.worktree_infos.len() == 0,
            r@.add_error is None,
            r@.remove_error is None,
            r@.delete_error is None,
            r@.merge_check_error_for is None,
            r@.verification_error_for is None,
            r@.remote_default_resolve_error is None,
            r@.resolve_ref_error_for is None,
            r@.removed_worktree_paths.len() == 0,
            r@.deleted_branch_names.len() == 0,
            r@.add_worktree_start_points.len() == 0,
            r@.changed_paths.len() == 0,
            r@.changed_paths_error is None,
            r@.file_contents.len() == 0,
            r@.ancestors.len() == 0,
            r@.pr_states.len() == 0,
            r@.pr_state_error_for is None,
            r@.is_ancestor_calls == 0,
            r@.rebase_calls.len() == 0,
            r@.merge_calls.len() == 0,
            r@.failing_rebase is None,
            r@.failing_merge is None,
            r@.current_branch is None,
            r@.fetch_calls.len() == 0,
            r@.fetch_error is None,
            r@.call_log.len() == 0,
            r.changes()@.len() == 0,
            r.listings()@.len() == 0,
    {
        FakeGit {
            changes: Vec::new(),
            listed: Vec::new(),
            default_branch: owned("main"),
            merged_branches: Vec::new(),
            worktrees: Vec::new(),
            branches: Vec::new(),
            worktree_infos: Vec::new(),
            add_error: None,
            remove_error: None,
            delete_error: None,
            merge_check_error_for: None,
            verification_error_for: None,
            remote_default_resolve_error: None,
            resolve_ref_error_for: None,
            removed_worktree_paths: Vec::new(),
            deleted_branch_names: Vec::new(),
            add_worktree_start_points: Vec::new(),
            changed_paths: Vec::new(),
            changed_paths_error: None,
            file_contents: Vec::new(),
            ancestors: Vec::new(),
            pr_states: Vec::new(),
            pr_state_error_for: None,
            is_ancestor_calls: 0,
            rebase_calls: Vec::new(),
            merge_calls: Vec::new(),
            failing_rebase: None,
            failing_merge: None,
            current_branch: None,
            fetch_calls: Vec::new(),
            fetch_error: None,
            call_log: Vec::new(),
        }
    }

    /// The default branch is `branch`.
    pub fn with_default_branch(self, branch: &str) -> (r: FakeGit)
        ensures
            r@ == (FakeGitView { default_branch: branch@, ..self@ }),
    {
        let mut g = self;
        g.default_branch = owned(branch);
        g
    }

    /// `branch` counts as merged.
    pub fn with_merged_branch(self, branch: &str) -> (r: FakeGit)
        ensures
            r@ == (FakeGitView { merged_branches: self@.merged_branches.push(branch@), ..self@ }),
    {
        let mut g = self;
        push_copy(&mut g.merged_branches, branch);
        g
    }

    /// `branch` exists.
    pub fn with_branch(self, branch: &str) -> (r: FakeGit)
        ensures
            r@ == (FakeGitView { branches: self@.branches.push(branch@), ..self@ }),
    {
        let mut g = self;
        push_copy(&mut g.branches, branch);
        g
    }

    /// The worktree of `slug` exists.
    pub fn with_existing_worktree(self, slug: &str) -> (r: FakeGit)
        ensures
            r@ == (FakeGitView { worktrees: self@.worktrees.push(slug@), ..self@ }),
    {
        let mut g = self;
        push_copy(&mut g.worktrees, slug);
        g
    }

    /// `list_worktrees` reports a worktree at `path` with `branch`.
    pub fn with_worktree_info(self, path: &str, branch: Option<&str>) -> (r: FakeGit)
        ensures
            r@ == (FakeGitView {
                worktree_infos: self@.worktree_infos.push(
                    (
                        path@,
                        match branch {
                            Some(b) => Some(b@),
                            None => None,
                        },
                    ),
                ),
                ..self@
            }),
    {
        let mut g = self;
        let info = WorktreeInfo {
            path: owned(path),
            branch: match branch {
                Some(b) => Some(owned(b)),
                None => None,
            },
        };
        let ghost before = g.worktree_infos@;
        g.worktree_infos.push(info);
        assert(infos_view(g.worktree_infos@) =~= infos_view(before).push(
            (info.path@, opt_string_view(info.branch)),
        ));
        g
    }

    /// `add_worktree` fails with `error`.
    pub fn failing_add(self, error: GitError) -> (r: FakeGit)
        ensures
            r@ == (FakeGitView { add_error: Some(error@), ..self@ }),
    {
        let mut g = self;
        g.add_error = Some(error);
        g
    }

    /// `remove_worktree` fails with `error` (after recording the path).
    pub fn failing_remove(self, error: GitError) -> (r: FakeGit)
        ensures
            r@ == (FakeGitView { remove_error: Some(error@), ..self@ }),
    {
        let mut g = self;
        g.remove_error = Some(error);
        g
    }

    /// `delete_branch` fails with `error` (after recording the branch).
    pub fn failing_delete(self, error: GitError) -> (r: FakeGit)
        ensures
            r@ == (FakeGitView { delete_error: Some(error@), ..self@ }),
    {
        let mut g = self;
        g.delete_error = Some(error);
        g
    }

    /// The merge check fails with `error` for `branch` only.
    pub fn failing_merge_check_for(self, branch: &str, error: GitError) -> (r: FakeGit)
        ensures
            r@ == (FakeGitView { merge_check_error_for: Some((branch@, error@)), ..self@ }),
    {
        let mut g = self;
        g.merge_check_error_for = Some((owned(branch), error));
        g
    }

    /// The merge check of `branch` reports it unmerged with a verification
    /// error carrying `message`, unless it is set up as merged.
    pub fn failing_verification_for(self, branch: &str, message: &str) -> (r: FakeGit)
        ensures
            r@ == (FakeGitView { verification_error_for: Some((branch@, message@)), ..self@ }),
    {
        let mut g = self;
        g.verification_error_for = Some((owned(branch), owned(message)));
        g
    }

    /// The `origin/<default>` probe fails with `error`.
    pub fn failing_remote_default_resolve(self, error: GitError) -> (r: FakeGit)
        ensures
            r@ == (FakeGitView { remote_default_resolve_error: Some(error@), ..self@ }),
    {
        let mut g = self;
        g.remote_default_resolve_error = Some(error);
        g
    }

    /// Resolving `ref_spec` fails with `error`.
    pub fn failing_resolve_ref_for(self, ref_spec: &str, error: GitError) -> (r: FakeGit)
        ensures
            r@ == (FakeGitView { resolve_ref_error_for: Some((ref_spec@, error@)), ..self@ }),
    {
        let mut g = self;
        g.resolve_ref_error_for = Some((owned(ref_spec), error));
        g
    }

    /// `changed_paths` reports `paths`.
    pub fn with_changed_paths(self, paths: &[&str]) -> (r: FakeGit)
        ensures
            r@.changed_paths.len() == paths@.len(),
            forall|i: int| 0 <= i < paths@.len() ==> r@.changed_paths[i] == (#[trigger] paths@[i])@,
            r@ == (FakeGitView { changed_paths: r@.changed_paths, ..self@ }),
    {
        let mut g = self;
        let mut v: Vec<String> = Vec::new();
        let mut i: usize = 0;
        while i < paths.len()
            invariant
                i <= paths@.len(),
                strs(v@).len() == i,
                forall|k: int| 0 <= k < i ==> strs(v@)[k] == (#[trigger] paths@[k])@,
            decreases paths.len() - i,
        {
            push_copy(&mut v, paths[i]);
            i += 1;
        }
        g.changed_paths = v;
        g
    }

    /// `changed_paths` fails with `error`.
    pub fn failing_changed_paths(self, error: GitError) -> (r: FakeGit)
        ensures
            r@ == (FakeGitView { changed_paths_error: Some(error@), ..self@ }),
    {
        let mut g = self;
        g.changed_paths_error = Some(error);
        g
    }

    /// The file at `path` holds `content` (at every revision).
    pub fn with_file_content(self, path: &str, content: &str) -> (r: FakeGit)
        ensures
            r@ == (FakeGitView {
                file_contents: self@.file_contents.push((path@, content@)),
                ..self@
            }),
    {
        let mut g = self;
        let ghost before = g.file_contents@;
        let e = (owned(path), owned(content));
        g.file_contents.push(e);
        assert(pairs_view(g.file_contents@) =~= pairs_view(before).push((e.0@, e.1@)));
        g
    }

    /// `ancestor` is an ancestor of `descendant`.
    pub fn with_ancestor(self, ancestor: &str, descendant: &str) -> (r: FakeGit)
        ensures
            r@ == (FakeGitView {
                ancestors: self@.ancestors.push((ancestor@, descendant@)),
                ..self@
            }),
    {
        let mut g = self;
        let ghost before = g.ancestors@;
        let e = (owned(ancestor), owned(descendant));
        g.ancestors.push(e);
        assert(pairs_view(g.ancestors@) =~= pairs_view(before).push((e.0@, e.1@)));
        g
    }

    /// The pull request of `branch` is in `state`.
    pub fn with_pr_state(self, branch: &str, state: PrState) -> (r: FakeGit)
        ensures
            r@ == (FakeGitView { pr_states: self@.pr_states.push((branch@, state)), ..self@ }),
    {
        let mut g = self;
        let ghost before = g.pr_states@;
        let e = (owned(branch), state);
        g.pr_states.push(e);
        assert(pr_states_view(g.pr_states@) =~= pr_states_view(before).push((e.0@, e.1)));
        g
    }

    /// Asking for the pull request of `branch` fails with `error`.
    pub fn failing_pr_state_for(self, branch: &str, error: GitError) -> (r: FakeGit)
        ensures
            r@ == (FakeGitView { pr_state_error_for: Some((branch@, error@)), ..self@ }),
    {
        let mut g = self;
        g.pr_state_error_for = Some((owned(branch), error));
        g
    }

    /// How many times `is_ancestor` was asked.
    pub fn is_ancestor_call_count(&self) -> (r: u32)
        ensures
            r == self@.is_ancestor_calls,
    {
        self.is_ancestor_calls
    }

    /// The paths `remove_worktree` was asked to remove, in order.
    pub fn removed_worktree_paths(&self) -> (r: Vec<String>)
        ensures
            strs(r@) == self@.removed_worktree_paths,
    {
        copy_strs(&self.removed_worktree_paths)
    }

    /// The branches `delete_branch` was asked to delete, in order.
    pub fn deleted_branch_names(&self) -> (r: Vec<String>)
        ensures
            strs(r@) == self@.deleted_branch_names,
    {
        copy_strs(&self.deleted_branch_names)
    }

    /// The start points of the worktrees added, in order.
    pub fn add_worktree_start_points(&self) -> (r: Vec<String>)
        ensures
            strs(r@) == self@.add_worktree_start_points,
    {
        copy_strs(&self.add_worktree_start_points)
    }

    /// The revisions rebased onto, in order.
    pub fn rebase_calls(&self) -> (r: Vec<String>)
        ensures
            strs(r@) == self@.rebase_calls,
    {
        copy_strs(&self.rebase_calls)
    }

    /// The revisions merged, in order.
    pub fn merge_calls(&self) -> (r: Vec<String>)
        ensures
            strs(r@) == self@.merge_calls,
    {
        copy_strs(&self.merge_calls)
    }

    /// `rebase` fails with `error` (after recording the call).
    pub fn failing_rebase(self, error: GitError) -> (r: FakeGit)
        ensures
            r@ == (FakeGitView { failing_rebase: Some(error@), ..self@ }),
    {
        let mut g = self;
        g.failing_rebase = Some(error);
        g
    }

    /// `merge` fails with `error` (after recording the call).
    pub fn failing_merge(self, error: GitError) -> (r: FakeGit)
        ensures
            r@ == (FakeGitView { failing_merge: Some(error@), ..self@ }),
    {
        let mut g = self;
        g.failing_merge = Some(error);
        g
    }

    /// `branch` is checked out.
    pub fn with_current_branch(self, branch: &str) -> (r: FakeGit)
        ensures
            r@ == (FakeGitView { current_branch: Some(branch@), ..self@ }),
    {
        let mut g = self;
        g.current_branch = Some(owned(branch));
        g
    }

    /// `fetch` fails with `error` (after recording the call).
    pub fn failing_fetch(self, error: GitError) -> (r: FakeGit)
        ensures
            r@ == (FakeGitView { fetch_error: Some(error@), ..self@ }),
    {
        let mut g = self;
        g.fetch_error = Some(error);
        g
    }

    /// The remotes fetched, in order.
    pub fn fetch_calls(&self) -> (r: Vec<String>)
        ensures
            strs(r@) == self@.fetch_calls,
    {
        copy_strs(&self.fetch_calls)
    }

    /// The fetches, rebases and merges, in the order they were asked for.
    pub fn call_log(&self) -> (r: Vec<String>)
        ensures
            strs(r@) == self@.call_log,
    {
        copy_strs(&self.call_log)
    }
}

/// `p` is set up for the key `k`.
pub open spec fn keyed_for<T>(p: Option<(Seq<char>, T)>, k: Seq<char>) -> bool {
    p matches Some(q) && q.0 == k
}

/// The note set up for `branch`, if any.
pub open spec fn verification_note(
    p: Option<(Seq<char>, Seq<char>)>,
    branch: Seq<char>,
) -> Option<Seq<char>> {
    match p {
        Some(q) => if q.0 == branch {
            Some(q.1)
        } else {
            None
        },
        None => None,
    }
}

/// The pull-request state recorded last for `r`, `NoPr` when none is.
pub open spec fn recorded_pr_state(s: Seq<(Seq<char>, PrState)>, r: Seq<char>) -> PrState
    decreases s.len(),
{
    if s.len() == 0 {
        PrState::NoPr
    } else if s.last().0 == r {
        s.last().1
    } else {
        recorded_pr_state(s.drop_last(), r)
    }
}

/// The value stored last under a key equal to `k`, the keys compared as
/// paths.
pub open spec fn stored_last(s: Seq<(Seq<char>, Seq<char>)>, k: Seq<char>) -> Option<Seq<char>>
    decreases s.len(),
{
    if s.len() == 0 {
        None
    } else if crate::pathname::path_eq(s.last().0, k) {
        Some(s.last().1)
    } else {
        stored_last(s.drop_last(), k)
    }
}

/// The value stored last under a key equal to `k`.
fn last_for_key(v: &Vec<(String, String)>, k: &str) -> (r: Option<String>)
    ensures
        opt_string_view(r) == stored_last(pairs_view(v@), k@),
{
    let ghost pv = pairs_view(v@);
    assert(pv.take(v@.len() as int) =~= pv);
    let mut i: usize = v.len();
    while i > 0
        invariant
            i <= v.len(),
            pv == pairs_view(v@),
            stored_last(pv, k@) == stored_last(pv.take(i as int), k@),
        decreases i,
    {
        let ghost t = pv.take(i as int);
        assert(t.last() == pv[i - 1]);
        assert(t.drop_last() =~= pv.take(i - 1));
        if crate::pathname::same_path(v[i - 1].0.as_str(), k) {
            return Some(copy(&v[i - 1].1));
        }
        i -= 1;
    }
    None
}

impl FakeGit {
    /// Records that change `c` was asked, and whether it succeeded.
    fn log_change(&mut self, c: GitChange, ok: bool)
        ensures
            final(self)@ == old(self)@,
            changes_view(final(self).changes@) == changes_view(old(self).changes@).push((c@, ok)),
            final(self).listed == old(self).listed,
    {
        let ghost before = self.changes@;
        self.changes.push((c, ok));
        assert(changes_view(self.changes@) =~= changes_view(before).push((c@, ok)));
    }
}

impl GitRepository for FakeGit {
    closed spec fn changes(&self) -> Vec<(GitChange, bool)> {
        self.changes
    }

    closed spec fn listings(&self) -> Vec<Vec<WorktreeInfo>> {
        self.listed
    }

    fn default_branch(&mut self, repo_root: &str) -> (r: String)
        ensures
            r@ == old(self)@.default_branch,
            final(self)@ == old(self)@,
    {
        copy(&self.default_branch)
    }

    fn current_branch(&mut self, repo_root: &str) -> (r: Result<Option<String>, GitError>)
        ensures
            r matches Ok(b) && opt_string_view(b) == old(self)@.current_branch,
            final(self)@ == old(self)@,
    {
        match &self.current_branch {
            Some(b) => Ok(Some(copy(b))),
            None => Ok(None),
        }
    }

    fn fetch(&mut self, repo_root: &str, remote: &str) -> (r: Result<(), GitError>)
        ensures
            final(self)@ == (FakeGitView {
                fetch_calls: old(self)@.fetch_calls.push(remote@),
                call_log: old(self)@.call_log.push("fetch"@),
                ..old(self)@
            }),
            r is Ok <==> old(self)@.fetch_error is None,
    {
        push_copy(&mut self.fetch_calls, remote);
        push_copy(&mut self.call_log, "fetch");
        let r = match &self.fetch_error {
            Some(e) => Err(e.duplicate()),
            None => Ok(()),
        };
        self.log_change(GitChange::Fetch { remote: owned(remote) }, r.is_ok());
        r
    }

    fn is_branch_merged(&mut self, repo_root: &str, branch: &BranchValue, into: &str) -> (r:
        Result<MergeCheck, GitError>)
        ensures
            final(self)@ == old(self)@,
            keyed_for(old(self)@.merge_check_error_for, branch@) ==> (r matches Err(e) && old(
                self,
            )@.merge_check_error_for == Some((branch@, e@))),
            !keyed_for(old(self)@.merge_check_error_for, branch@) && old(
                self,
            )@.merged_branches.contains(branch@) ==> r matches Ok(MergeCheck::Merged),
            !keyed_for(old(self)@.merge_check_error_for, branch@) && !old(
                self,
            )@.merged_branches.contains(branch@) ==> (r matches Ok(
                MergeCheck::NotMerged { verification_error: v },
            ) && opt_string_view(v) == verification_note(
                old(self)@.verification_error_for,
                branch@,
            )),
    {
        if let Some((failing, e)) = &self.merge_check_error_for {
            if str_eq(failing.as_str(), branch.as_str()) {
                return Err(e.duplicate());
            }
        }
        if contains_str(&self.merged_branches, branch.as_str()) {
            return Ok(MergeCheck::Merged);
        }
        if let Some((failing, message)) = &self.verification_error_for {
            if str_eq(failing.as_str(), branch.as_str()) {
                return Ok(MergeCheck::NotMerged { verification_error: Some(copy(message)) });
            }
        }
        Ok(MergeCheck::NotMerged { verification_error: None })
    }

    fn delete_branch(&mut self, repo_root: &str, branch: &BranchValue) -> (r: Result<(), GitError>)
        ensures
            final(self)@ == (FakeGitView {
                deleted_branch_names: old(self)@.deleted_branch_names.push(branch@),
                ..old(self)@
            }),
            r is Ok <==> old(self)@.delete_error is None,
    {
        push_copy(&mut self.deleted_branch_names, branch.as_str());
        let r = match &self.delete_error {
            Some(e) => Err(e.duplicate()),
            None => Ok(()),
        };
        self.log_change(GitChange::DeleteBranch { branch: owned(branch.as_str()) }, r.is_ok());
        r
    }

    fn worktree_exists(&mut self, repo_root: &str, slug: &SlugValue) -> (r: Result<bool, GitError>)
        ensures
            r == Ok::<bool, GitError>(old(self)@.worktrees.contains(slug@)),
            final(self)@ == old(self)@,
    {
        Ok(contains_str(&self.worktrees, slug.as_str()))
    }

    fn branch_exists(&mut self, repo_root: &str, branch: &BranchValue) -> (r: Result<
        bool,
        GitError,
    >)
        ensures
            r == Ok::<bool, GitError>(old(self)@.branches.contains(branch@)),
            final(self)@ == old(self)@,
    {
        Ok(contains_str(&self.branches, branch.as_str()))
    }

    fn add_worktree(
        &mut self,
        repo_root: &str,
        path: &str,
        branch: &BranchValue,
        start_point: &RefValue,
    ) -> (r: Result<(), GitError>)
        ensures
            old(self)@.add_error is Some ==> r is Err && final(self)@ == old(self)@,
            old(self)@.add_error is None ==> r is Ok && final(self)@ == (FakeGitView {
                add_worktree_start_points: old(self)@.add_worktree_start_points.push(
                    start_point@,
                ),
                worktrees: old(self)@.worktrees.push(last_segment(branch@)),
                branches: old(self)@.branches.push(branch@),
                ..old(self)@
            }),
    {
        let change = GitChange::AddWorktree {
            path: owned(path),
            branch: owned(branch.as_str()),
            start_point: owned(start_point.as_str()),
        };
        if let Some(e) = &self.add_error {
            let r = Err(e.duplicate());
            self.log_change(change, false);
            return r;
        }
        push_copy(&mut self.add_worktree_start_points, start_point.as_str());
        let slug = last_segment_exec(branch.as_str());
        push_copy(&mut self.worktrees, slug.as_str());
        push_copy(&mut self.branches, branch.as_str());
        self.log_change(change, true);
        Ok(())
    }

    fn remove_worktree(&mut self, repo_root: &str, path: &str) -> (r: Result<(), GitError>)
        ensures
            final(self)@ == (FakeGitView {
                removed_worktree_paths: old(self)@.removed_worktree_paths.push(path@),
                ..old(self)@
            }),
            r is Ok <==> old(self)@.remove_error is None,
    {
        push_copy(&mut self.removed_worktree_paths, path);
        let r = match &self.remove_error {
            Some(e) => Err(e.duplicate()),
            None => Ok(()),
        };
        self.log_change(GitChange::RemoveWorktree { path: owned(path) }, r.is_ok());
        r
    }

    fn list_worktrees(&mut self, repo_root: &str) -> (r: Result<Vec<WorktreeInfo>, GitError>)
        ensures
            r matches Ok(v) && infos_view(v@) == old(self)@.worktree_infos,
            final(self)@ == old(self)@,
    {
        let mut out: Vec<WorktreeInfo> = Vec::new();
        let mut kept: Vec<WorktreeInfo> = Vec::new();
        let mut i: usize = 0;
        while i < self.worktree_infos.len()
            invariant
                i <= self.worktree_infos.len(),
                infos_view(out@) == infos_view(self.worktree_infos@).take(i as int),
                infos_view(kept@) == infos_view(out@),
                self@ == old(self)@,
                self.changes == old(self).changes,
                self.listed == old(self).listed,
            decreases self.worktree_infos.len() - i,
        {
            let w = self.worktree_infos[i].duplicate();
            let w2 = self.worktree_infos[i].duplicate();
            let ghost before = out@;
            let ghost before2 = kept@;
            out.push(w);
            kept.push(w2);
            assert(infos_view(out@) =~= infos_view(before).push(
                (w.path@, opt_string_view(w.branch)),
            ));
            assert(infos_view(kept@) =~= infos_view(before2).push(
                (w2.path@, opt_string_view(w2.branch)),
            ));
            assert(infos_view(out@) =~= infos_view(self.worktree_infos@).take(i + 1));
            i += 1;
        }
        assert(infos_view(self.worktree_infos@).take(i as int) =~= infos_view(
            self.worktree_infos@,
        ));
        let ghost before = self.listed@;
        self.listed.push(kept);
        proof {
            assert(infos_view(kept@) == listing_view(kept@));
            assert(infos_view(out@) == listing_view(out@));
            assert(listings_view(self.listed@) =~= listings_view(before).push(listing_view(out@)));
        }
        Ok(out)
    }

    fn remote_default_resolves(&mut self, repo_root: &str, main_branch: &str) -> (r: Result<
        (),
        GitError,
    >)
        ensures
            r is Ok <==> old(self)@.remote_default_resolve_error is None,
            final(self)@ == old(self)@,
    {
        match &self.remote_default_resolve_error {
            Some(e) => Err(e.duplicate()),
            None => Ok(()),
        }
    }

    fn resolve_ref(&mut self, repo_root: &str, ref_spec: &RefValue) -> (r: Result<(), GitError>)
        ensures
            r is Err <==> (old(self)@.resolve_ref_error_for matches Some(p) && p.0 == ref_spec@),
            final(self)@ == old(self)@,
    {
        if let Some((name, e)) = &self.resolve_ref_error_for {
            if str_eq(name.as_str(), ref_spec.as_str()) {
                return Err(e.duplicate());
            }
        }
        Ok(())
    }

    fn changed_paths(&mut self, repo_root: &str, base_branch: &str, head_ref: &RefValue) -> (r:
        Result<Vec<String>, GitError>)
        ensures
            old(self)@.changed_paths_error is Some ==> r is Err,
            old(self)@.changed_paths_error is None ==> (r matches Ok(v) && strs(v@) == old(
                self,
            )@.changed_paths),
            final(self)@ == old(self)@,
    {
        match &self.changed_paths_error {
            Some(e) => Err(e.duplicate()),
            None => Ok(copy_strs(&self.changed_paths)),
        }
    }

    fn read_file_at(&mut self, repo_root: &str, rev: &RefValue, path: &str) -> (r: Result<
        Option<String>,
        GitError,
    >)
        ensures
            r matches Ok(c) && opt_string_view(c) == stored_last(
                old(self)@.file_contents,
                path@,
            ),
            final(self)@ == old(self)@,
    {
        Ok(last_for_key(&self.file_contents, path))
    }

    fn is_ancestor(
        &mut self,
        repo_root: &str,
        ancestor_ref: &RefValue,
        descendant_ref: &RefValue,
    ) -> (r: Result<bool, GitError>)
        ensures
            r == Ok::<bool, GitError>(ancestor_ref@ == descendant_ref@ || old(
                self,
            )@.ancestors.contains((ancestor_ref@, descendant_ref@))),
            final(self)@ == (FakeGitView {
                is_ancestor_calls: if old(self)@.is_ancestor_calls < u32::MAX {
                    (old(self)@.is_ancestor_calls + 1) as u32
                } else {
                    u32::MAX
                },
                ..old(self)@
            }),
    {
        self.is_ancestor_calls = self.is_ancestor_calls.saturating_add(1);
        if str_eq(ancestor_ref.as_str(), descendant_ref.as_str()) {
            return Ok(true);
        }
        let ghost av = pairs_view(self.ancestors@);
        let mut i: usize = 0;
        while i < self.ancestors.len()
            invariant
                av == pairs_view(self.ancestors@),
                av == old(self)@.ancestors,
                self@ == (FakeGitView {
                    is_ancestor_calls: if old(self)@.is_ancestor_calls < u32::MAX {
                        (old(self)@.is_ancestor_calls + 1) as u32
                    } else {
                        u32::MAX
                    },
                    ..old(self)@
                }),
                ancestor_ref@ != descendant_ref@,
                self.changes == old(self).changes,
                self.listed == old(self).listed,
                i <= self.ancestors.len(),
                forall|k: int| 0 <= k < i ==> av[k] != (ancestor_ref@, descendant_ref@),
            decreases self.ancestors.len() - i,
        {
            let e = &self.ancestors[i];
            assert(av[i as int] == (e.0@, e.1@));
            if str_eq(e.0.as_str(), ancestor_ref.as_str()) && str_eq(
                e.1.as_str(),
                descendant_ref.as_str(),
            ) {
                assert(av[i as int] == (ancestor_ref@, descendant_ref@));
                return Ok(true);
            }
            i += 1;
        }
        Ok(false)
    }

    fn pr_state(&mut self, repo_root: &str, base_ref: &RefValue) -> (r: Result<PrState, GitError>)
        ensures
            r is Err <==> (old(self)@.pr_state_error_for matches Some(p) && p.0 == base_ref@),
            r matches Ok(s) ==> s == recorded_pr_state(old(self)@.pr_states, base_ref@),
            final(self)@ == old(self)@,
    {
        if let Some((name, e)) = &self.pr_state_error_for {
            if str_eq(name.as_str(), base_ref.as_str()) {
                return Err(e.duplicate());
            }
        }
        let mut i: usize = self.pr_states.len();
        assert(self@.pr_states.take(i as int) =~= self@.pr_states);
        while i > 0
            invariant
                i <= self.pr_states.len(),
                self@ == old(self)@,
                !(old(self)@.pr_state_error_for matches Some(p) && p.0 == base_ref@),
                recorded_pr_state(self@.pr_states, base_ref@) == recorded_pr_state(
                    self@.pr_states.take(i as int),
                    base_ref@,
                ),
            decreases i,
        {
            proof {
                let t = self@.pr_states.take(i as int);
                assert(t.last() == self@.pr_states[i - 1]);
                assert(t.drop_last() =~= self@.pr_states.take(i - 1));
                assert(self@.pr_states[i - 1].0 == self.pr_states@[i - 1].0@);
            }
            if str_eq(self.pr_states[i - 1].0.as_str(), base_ref.as_str()) {
                return Ok(self.pr_states[i - 1].1);
            }
            i -= 1;
        }
        Ok(PrState::NoPr)
    }

    fn rebase(&mut self, repo_root: &str, onto: &RefValue) -> (r: Result<(), GitError>)
        ensures
            final(self)@ == (FakeGitView {
                rebase_calls: old(self)@.rebase_calls.push(onto@),
                call_log: old(self)@.call_log.push("rebase"@),
                ..old(self)@
            }),
            r is Ok <==> old(self)@.failing_rebase is None,
    {
        push_copy(&mut self.rebase_calls, onto.as_str());
        push_copy(&mut self.call_log, "rebase");
        let r = match &self.failing_rebase {
            Some(e) => Err(e.duplicate()),
            None => Ok(()),
        };
        self.log_change(GitChange::Rebase { onto: owned(onto.as_str()) }, r.is_ok());
        r
    }

    fn merge(&mut self, repo_root: &str, other_ref: &RefValue) -> (r: Result<(), GitError>)
        ensures
            final(self)@ == (FakeGitView {
                merge_calls: old(self)@.merge_calls.push(other_ref@),
                call_log: old(self)@.call_log.push("merge"@),
                ..old(self)@
            }),
            r is Ok <==> old(self)@.failing_merge is None,
    {
        push_copy(&mut self.merge_calls, other_ref.as_str());
        push_copy(&mut self.call_log, "merge");
        let r = match &self.failing_merge {
            Some(e) => Err(e.duplicate()),
            None => Ok(()),
        };
        self.log_change(GitChange::Merge { other: owned(other_ref.as_str()) }, r.is_ok());
        r
    }
}

// ---------------------------------------------------------------------------
// state and heist directories
// ---------------------------------------------------------------------------

/// The first index at or after `i` whose key does not sort before `k`.
pub open spec fn key_slot(keys: Seq<Seq<char>>, k: Seq<char>, i: int) -> int
    decreases keys.len() - i,
{
    if i < 0 || i >= keys.len() {
        keys.len() as int
    } else if !text_less(keys[i], k) {
        i
    } else {
        key_slot(keys, k, i + 1)
    }
}

proof fn lemma_key_slot(keys: Seq<Seq<char>>, k: Seq<char>, i: int)
    requires
        0 <= i <= keys.len(),
    ensures
        i <= key_slot(keys, k, i) <= keys.len(),
    decreases keys.len() - i,
{
    if i < keys.len() && text_less(keys[i], k) {
        lemma_key_slot(keys, k, i + 1);
    }
}

pub open spec fn states_view(v: Seq<(SlugValue, State)>) -> Seq<
    (Seq<char>, crate::domain::state::StateView),
> {
    v.map_values(|p: (SlugValue, State)| (p.0@, p.1@))
}

pub open spec fn state_keys(v: Seq<(Seq<char>, crate::domain::state::StateView)>) -> Seq<Seq<char>> {
    v.map_values(|p: (Seq<char>, crate::domain::state::StateView)| p.0)
}

/// Stores `st` under `k` in a list kept in key order: replaces an equal key's
/// state, else goes before the first key that does not sort before it.
pub open spec fn store_state(
    v: Seq<(Seq<char>, crate::domain::state::StateView)>,
    k: Seq<char>,
    st: crate::domain::state::StateView,
) -> Seq<(Seq<char>, crate::domain::state::StateView)> {
    let j = key_slot(state_keys(v), k, 0);
    if 0 <= j < v.len() && v[j].0 == k {
        v.update(j, (k, st))
    } else {
        v.insert(j, (k, st))
    }
}

/// The mathematical value of an [`InMemoryStateRepository`].
pub struct InMemoryStateView {
    pub states: Seq<(Seq<char>, crate::domain::state::StateView)>,
    pub load_errors: Seq<Seq<char>>,
    pub load_error_values: Seq<StateError>,
    pub scores: Seq<(Seq<char>, Seq<char>)>,
    pub score_errors: Seq<(Seq<char>, Seq<char>)>,
}

/// An in-memory state store, which also serves the scores.
pub struct InMemoryStateRepository {
    write_log: Vec<(String, State, bool)>,
    load_log: Vec<(String, Option<State>)>,
    states: Vec<(SlugValue, State)>,
    /// Slug -> error to return from `load`, once.
    load_errors: Vec<(String, StateError)>,
    scores: Vec<(String, String)>,
    score_errors: Vec<(String, String)>,
}

impl View for InMemoryStateRepository {
    type V = InMemoryStateView;

    closed spec fn view(&self) -> InMemoryStateView {
        InMemoryStateView {
            states: states_view(self.states@),
            load_errors: self.load_errors@.map_values(|p: (String, StateError)| p.0@),
            load_error_values: self.load_errors@.map_values(|p: (String, StateError)| p.1),
            scores: pairs_view(self.scores@),
            score_errors: pairs_view(self.score_errors@),
        }
    }
}

fn find_key(v: &Vec<(String, String)>, k: &str) -> (r: Option<usize>)
    ensures
        r matches Some(i) ==> i < v@.len() && v@[i as int].0@ == k@ && forall|j: int|
            0 <= j < i ==> (#[trigger] v@[j]).0@ != k@,
        r is None ==> forall|i: int| 0 <= i < v@.len() ==> (#[trigger] v@[i]).0@ != k@,
{
    let mut i: usize = 0;
    while i < v.len()
        invariant
            i <= v.len(),
            forall|j: int| 0 <= j < i ==> (#[trigger] v@[j]).0@ != k@,
        decreases v.len() - i,
    {
        if str_eq(v[i].0.as_str(), k) {
            return Some(i);
        }
        i += 1;
    }
    None
}

/// `v` with `value` stored under `k`: in place of the first entry with
/// that key, else at the end.
fn put(v: &mut Vec<(String, String)>, k: &str, value: &str)
    ensures
        lookup_pair(pairs_view(final(v)@), k@) == Some(value@),
{
    match find_key(v, k) {
        Some(i) => {
            let ghost before = v@;
            v.set(i, (owned(k), owned(value)));
            proof {
                assert forall|j: int| 0 <= j < i implies (#[trigger] pairs_view(v@)[j]).0 != k@ by {
                    assert(v@[j] == before[j]);
                }
                lemma_first_key_at(pairs_view(v@), k@, i as int, 0);
            }
        },
        None => {
            v.push((owned(k), owned(value)));
            proof {
                lemma_first_key_at(pairs_view(v@), k@, v@.len() - 1, 0);
            }
        },
    }
}

impl InMemoryStateRepository {
    /// No state, no score, no failure.
    pub fn new() -> (r: InMemoryStateRepository)
        ensures
            r@.states.len() == 0,
            r@.load_errors.len() == 0,
            r@.load_error_values.len() == 0,
            r@.scores.len() == 0,
            r@.score_errors.len() == 0,
            r.writes()@.len() == 0,
            r.loads()@.len() == 0,
    {
        InMemoryStateRepository {
            write_log: Vec::new(),
            load_log: Vec::new(),
            states: Vec::new(),
            load_errors: Vec::new(),
            scores: Vec::new(),
            score_errors: Vec::new(),
        }
    }

    fn store(&mut self, slug: SlugValue, state: State)
        ensures
            final(self)@ == (InMemoryStateView {
                states: store_state(old(self)@.states, slug@, state@),
                ..old(self)@
            }),
            final(self).write_log == old(self).write_log,
            final(self).load_log == old(self).load_log,
    {
        let ghost keys = state_keys(states_view(self.states@));
        let kv = string_chars(&slug.to_owned_string());
        let mut j: usize = 0;
        while j < self.states.len() && text_less_exec(
            &string_chars(&self.states[j].0.to_owned_string()),
            &kv,
        )
            invariant
                self.write_log == old(self).write_log,
                self.load_log == old(self).load_log,
                keys == state_keys(states_view(self.states@)),
                kv@ == slug@,
                j <= self.states.len(),
                key_slot(keys, slug@, 0) == key_slot(keys, slug@, j as int),
            decreases self.states.len() - j,
        {
            assert(keys[j as int] == self.states@[j as int].0@);
            j += 1;
        }
        proof {
            lemma_key_slot(keys, slug@, 0);
            if j < self.states.len() {
                assert(keys[j as int] == self.states@[j as int].0@);
            }
        }
        let ghost before = self.states@;
        if j < self.states.len() && str_eq(self.states[j].0.as_str(), slug.as_str()) {
            self.states.set(j, (slug, state));
        } else {
            self.states.insert(j, (slug, state));
        }
        assert(states_view(self.states@) =~= store_state(states_view(before), slug@, state@));
        assert(self@.load_errors =~= old(self)@.load_errors);
    }

    /// The state of `slug` is `state`.
    pub fn with_state(self, slug: &str, state: State) -> (r: InMemoryStateRepository)
        requires
            is_valid_slug(slug@),
        ensures
            r@ == (InMemoryStateView {
                states: store_state(self@.states, slug@, state@),
                ..self@
            }),
    {
        let mut s = self;
        let key = crate::domain::testing::valid::slug(slug);
        s.store(key, state);
        s
    }

    /// `slug` counts as present, but loading it fails once with `error`.
    pub fn with_load_error(self, slug: &str, error: StateError) -> (r: InMemoryStateRepository)
        ensures
            r@ == (InMemoryStateView {
                load_errors: self@.load_errors.push(slug@),
                load_error_values: self@.load_error_values.push(error),
                ..self@
            }),
    {
        let mut s = self;
        let ghost before = s.load_errors@;
        let ghost ge = error;
        let e = (owned(slug), error);
        s.load_errors.push(e);
        assert(s@.load_errors =~= self@.load_errors.push(slug@));
        assert(s@.load_error_values =~= self@.load_error_values.push(ge));
        s
    }

    /// The score of `slug` holds `content`.
    pub fn with_score(self, slug: &str, content: &str) -> (r: InMemoryStateRepository)
        ensures
            r@ == (InMemoryStateView { scores: r@.scores, ..self@ }),
            lookup_pair(r@.scores, slug@) == Some(content@),
    {
        let mut s = self;
        put(&mut s.scores, slug, content);
        s
    }

    /// Reading the score of `slug` fails with `message`.
    pub fn with_score_io_error(self, slug: &str, message: &str) -> (r: InMemoryStateRepository)
        ensures
            r@ == (InMemoryStateView { score_errors: r@.score_errors, ..self@ }),
            lookup_pair(r@.score_errors, slug@) == Some(message@),
    {
        let mut s = self;
        put(&mut s.score_errors, slug, message);
        s
    }

    /// The state stored under `slug`.
    pub fn get(&self, slug: &str) -> (r: Option<State>)
        ensures
            r matches Some(st) ==> exists|i: int|
                0 <= i < self@.states.len() && (#[trigger] self@.states[i]).0 == slug@
                    && self@.states[i].1 == st@,
            r is None <==> forall|i: int|
                0 <= i < self@.states.len() ==> (#[trigger] self@.states[i]).0 != slug@,
    {
        let mut i: usize = 0;
        while i < self.states.len()
            invariant
                i <= self.states.len(),
                forall|j: int| 0 <= j < i ==> (#[trigger] self@.states[j]).0 != slug@,
            decreases self.states.len() - i,
        {
            assert(self@.states[i as int].0 == self.states@[i as int].0@);
            if str_eq(self.states[i].0.as_str(), slug) {
                assert(self@.states[i as int] == (self.states@[i as int].0@, self.states@[
                    i as int
                ].1@));
                return Some(self.states[i].1.duplicate());
            }
            i += 1;
        }
        None
    }
}

/// The index of the first entry at or after `i` with key `k`.
pub open spec fn first_key(v: Seq<(Seq<char>, Seq<char>)>, k: Seq<char>, i: int) -> Option<int>
    decreases v.len() - i,
{
    if i < 0 || i >= v.len() {
        None
    } else if v[i].0 == k {
        Some(i)
    } else {
        first_key(v, k, i + 1)
    }
}

/// The value stored under the first key equal to `k`.
pub open spec fn lookup_pair(v: Seq<(Seq<char>, Seq<char>)>, k: Seq<char>) -> Option<Seq<char>> {
    match first_key(v, k, 0) {
        Some(i) => Some(v[i].1),
        None => None,
    }
}

proof fn lemma_first_key_at(v: Seq<(Seq<char>, Seq<char>)>, k: Seq<char>, i: int, from: int)
    requires
        0 <= from <= i < v.len(),
        v[i].0 == k,
        forall|j: int| from <= j < i ==> (#[trigger] v[j]).0 != k,
    ensures
        first_key(v, k, from) == Some(i),
    decreases i - from,
{
    if from < i {
        lemma_first_key_at(v, k, i, from + 1);
    }
}

impl InMemoryStateRepository {
    /// Records that `slug`'s state `state` was written, and whether it was.
    fn note_write(&mut self, slug: &SlugValue, state: &State, ok: bool)
        ensures
            final(self)@ == old(self)@,
            writes_view(final(self).write_log@) == writes_view(old(self).write_log@).push(
                (slug@, state@, ok),
            ),
            final(self).load_log == old(self).load_log,
    {
        let ghost before = self.write_log@;
        self.write_log.push((owned(slug.as_str()), state.duplicate(), ok));
        assert(writes_view(self.write_log@) =~= writes_view(before).push((slug@, state@, ok)));
    }

    /// Records what loading `slug` gave.
    fn note_load(&mut self, slug: &SlugValue, r: &Result<State, StateError>)
        ensures
            final(self)@ == old(self)@,
            loads_view(final(self).load_log@) == loads_view(old(self).load_log@).push(
                (
                    slug@,
                    match r {
                        Ok(s) => Some(s@),
                        Err(_) => None,
                    },
                ),
            ),
            final(self).write_log == old(self).write_log,
    {
        let ghost before = self.load_log@;
        let entry = match r {
            Ok(s) => Some(s.duplicate()),
            Err(_) => None,
        };
        self.load_log.push((owned(slug.as_str()), entry));
        assert(loads_view(self.load_log@) =~= loads_view(before).push(
            (
                slug@,
                match r {
                    Ok(s) => Some(s@),
                    Err(_) => None,
                },
            ),
        ));
    }
}

impl StateRepository for InMemoryStateRepository {
    closed spec fn writes(&self) -> Vec<(String, State, bool)> {
        self.write_log
    }

    closed spec fn loads(&self) -> Vec<(String, Option<State>)> {
        self.load_log
    }

    fn has_state(&mut self, slug: &SlugValue) -> (r: bool)
        ensures
            r == (state_keys(old(self)@.states).contains(slug@) || old(
                self,
            )@.load_errors.contains(slug@)),
            final(self)@ == old(self)@,
    {
        let ghost keys = state_keys(self@.states);
        let mut i: usize = 0;
        while i < self.states.len()
            invariant
                keys == state_keys(self@.states),
                self@ == old(self)@,
                self.write_log == old(self).write_log,
                self.load_log == old(self).load_log,
                i <= self.states.len(),
                forall|k: int| 0 <= k < i ==> keys[k] != slug@,
            decreases self.states.len() - i,
        {
            assert(keys[i as int] == self.states@[i as int].0@);
            if str_eq(self.states[i].0.as_str(), slug.as_str()) {
                return true;
            }
            i += 1;
        }
        let ghost errs = self@.load_errors;
        let mut j: usize = 0;
        while j < self.load_errors.len()
            invariant
                errs == self@.load_errors,
                self@ == old(self)@,
                self.write_log == old(self).write_log,
                self.load_log == old(self).load_log,
                j <= self.load_errors.len(),
                forall|k: int| 0 <= k < keys.len() ==> keys[k] != slug@,
                keys == state_keys(self@.states),
                forall|k: int| 0 <= k < j ==> errs[k] != slug@,
            decreases self.load_errors.len() - j,
        {
            assert(errs[j as int] == self.load_errors@[j as int].0@);
            if str_eq(self.load_errors[j].0.as_str(), slug.as_str()) {
                return true;
            }
            j += 1;
        }
        false
    }

    fn load(&mut self, slug: &SlugValue) -> (r: Result<State, StateError>)
        ensures
            r matches Ok(st) ==> exists|i: int|
                0 <= i < old(self)@.states.len() && (#[trigger] old(self)@.states[i]).0 == slug@
                    && old(self)@.states[i].1 == st@,
            old(self)@.load_errors.contains(slug@) ==> exists|j: int|
                0 <= j < old(self)@.load_errors.len() && (#[trigger] old(
                    self,
                )@.load_errors[j]) == slug@ && (forall|k: int|
                    0 <= k < j ==> old(self)@.load_errors[k] != slug@) && r == Err::<
                    State,
                    StateError,
                >(old(self)@.load_error_values[j]) && final(self)@ == (InMemoryStateView {
                    load_errors: old(self)@.load_errors.remove(j),
                    load_error_values: old(self)@.load_error_values.remove(j),
                    ..old(self)@
                }),
            !old(self)@.load_errors.contains(slug@) ==> final(self)@ == old(self)@,
            !old(self)@.load_errors.contains(slug@) ==> (r is Ok <==> exists|i: int|
                0 <= i < old(self)@.states.len() && (#[trigger] old(self)@.states[i]).0
                    == slug@),
            !old(self)@.load_errors.contains(slug@) && r is Err ==> r matches Err(
                StateError::Missing,
            ),
    {
        let mut j: usize = 0;
        while j < self.load_errors.len()
            invariant
                j <= self.load_errors.len(),
                self@ == old(self)@,
                self.write_log == old(self).write_log,
                self.load_log == old(self).load_log,
                forall|k: int| 0 <= k < j ==> (#[trigger] self@.load_errors[k]) != slug@,
            decreases self.load_errors.len() - j,
        {
            assert(self@.load_errors[j as int] == self.load_errors@[j as int].0@);
            if str_eq(self.load_errors[j].0.as_str(), slug.as_str()) {
                let ghost before = self.load_errors@;
                let (_, e) = self.load_errors.remove(j);
                proof {
                    assert(self.load_errors@.map_values(|p: (String, StateError)| p.1)
                        =~= before.map_values(|p: (String, StateError)| p.1).remove(j as int));
                    assert(e == before[j as int].1);
                    assert(self.load_errors@.map_values(|p: (String, StateError)| p.0@)
                        =~= before.map_values(|p: (String, StateError)| p.0@).remove(j as int));
                    assert(old(self)@.load_errors.contains(slug@));
                }
                let r = Err(e);
                self.note_load(slug, &r);
                return r;
            }
            j += 1;
        }
        assert(!old(self)@.load_errors.contains(slug@));
        let mut i: usize = 0;
        while i < self.states.len()
            invariant
                i <= self.states.len(),
                self@ == old(self)@,
                self.write_log == old(self).write_log,
                self.load_log == old(self).load_log,
                !old(self)@.load_errors.contains(slug@),
                forall|k: int| 0 <= k < i ==> (#[trigger] self@.states[k]).0 != slug@,
            decreases self.states.len() - i,
        {
            assert(self@.states[i as int].0 == self.states@[i as int].0@);
            if str_eq(self.states[i].0.as_str(), slug.as_str()) {
                assert(self@.states[i as int] == (self.states@[i as int].0@, self.states@[
                    i as int
                ].1@));
                let r = Ok(self.states[i].1.duplicate());
                self.note_load(slug, &r);
                return r;
            }
            i += 1;
        }
        let r = Err(StateError::Missing);
        self.note_load(slug, &r);
        r
    }

    fn init(&mut self, slug: &SlugValue, state: &State) -> (r: Result<(), StateError>)
        ensures
            r is Ok,
            final(self)@ == (InMemoryStateView {
                states: store_state(old(self)@.states, slug@, state@),
                ..old(self)@
            }),
    {
        self.store(slug.duplicate(), state.duplicate());
        self.note_write(slug, state, true);
        Ok(())
    }

    fn save(&mut self, slug: &SlugValue, state: &State) -> (r: Result<(), StateError>)
        ensures
            r is Ok,
            final(self)@ == (InMemoryStateView {
                states: store_state(old(self)@.states, slug@, state@),
                ..old(self)@
            }),
    {
        self.store(slug.duplicate(), state.duplicate());
        self.note_write(slug, state, true);
        Ok(())
    }

    fn list_slugs(&mut self) -> (r: Result<Vec<SlugValue>, StateError>)
        ensures
            r matches Ok(v) && v@.len() == old(self)@.states.len() && forall|i: int|
                0 <= i < v@.len() ==> (#[trigger] v@[i])@ == old(self)@.states[i].0,
            final(self)@ == old(self)@,
    {
        let mut out: Vec<SlugValue> = Vec::new();
        let mut i: usize = 0;
        while i < self.states.len()
            invariant
                self@ == old(self)@,
                self.write_log == old(self).write_log,
                self.load_log == old(self).load_log,
                i <= self.states.len(),
                out@.len() == i,
                forall|k: int| 0 <= k < i ==> (#[trigger] out@[k])@ == self@.states[k].0,
            decreases self.states.len() - i,
        {
            assert(self@.states[i as int].0 == self.states@[i as int].0@);
            out.push(self.states[i].0.duplicate());
            i += 1;
        }
        Ok(out)
    }
}

impl ScoreRepository for InMemoryStateRepository {
    fn load_score(&mut self, slug: &SlugValue) -> (r: Result<Option<String>, String>)
        ensures
            final(self)@ == old(self)@,
            lookup_pair(old(self)@.score_errors, slug@) matches Some(m) ==> (r matches Err(e)
                && e@ == m),
            lookup_pair(old(self)@.score_errors, slug@) is None ==> (r matches Ok(o)
                && opt_string_view(o) == lookup_pair(old(self)@.scores, slug@)),
    {
        match find_key(&self.score_errors, slug.as_str()) {
            Some(i) => {
                proof {
                    lemma_first_key_at(self@.score_errors, slug@, i as int, 0);
                }
                return Err(copy(&self.score_errors[i].1));
            },
            None => {
                proof {
                    lemma_first_key_none(self@.score_errors, slug@, 0);
                }
            },
        }
        match find_key(&self.scores, slug.as_str()) {
            Some(i) => {
                proof {
                    lemma_first_key_at(self@.scores, slug@, i as int, 0);
                }
                Ok(Some(copy(&self.scores[i].1)))
            },
            None => {
                proof {
                    lemma_first_key_none(self@.scores, slug@, 0);
                }
                Ok(None)
            },
        }
    }
}

proof fn lemma_first_key_none(v: Seq<(Seq<char>, Seq<char>)>, k: Seq<char>, from: int)
    requires
        0 <= from <= v.len(),
        forall|j: int| 0 <= j < v.len() ==> (#[trigger] v[j]).0 != k,
    ensures
        first_key(v, k, from) is None,
    decreases v.len() - from,
{
    if from < v.len() {
        lemma_first_key_none(v, k, from + 1);
    }
}

/// An in-memory set of heist directories.
pub struct InMemoryHeistDirRepository {
    dirs: Vec<String>,
}

impl View for InMemoryHeistDirRepository {
    type V = Seq<Seq<char>>;

    closed spec fn view(&self) -> Seq<Seq<char>> {
        strs(self.dirs@)
    }
}

impl InMemoryHeistDirRepository {
    /// No directory.
    pub fn new() -> (r: InMemoryHeistDirRepository)
        ensures
            r@.len() == 0,
    {
        InMemoryHeistDirRepository { dirs: Vec::new() }
    }

    /// The directory of `slug` exists.
    pub fn with_dir(self, slug: &str) -> (r: InMemoryHeistDirRepository)
        ensures
            r@ == self@.push(slug@),
    {
        let mut s = self;
        push_copy(&mut s.dirs, slug);
        s
    }

    /// Whether the directory of `slug` exists.
    pub fn has_dir(&self, slug: &str) -> (r: bool)
        ensures
            r == self@.contains(slug@),
    {
        contains_str(&self.dirs, slug)
    }
}

impl HeistDirRepository for InMemoryHeistDirRepository {
    fn create(&mut self, slug: &SlugValue) -> (r: Result<(), StateError>)
        ensures
            old(self)@.contains(slug@) ==> (r matches Err(StateError::AlreadyExists)
                && final(self)@ == old(self)@),
            !old(self)@.contains(slug@) ==> r is Ok && final(self)@ == old(self)@.push(slug@),
    {
        if contains_str(&self.dirs, slug.as_str()) {
            return Err(StateError::AlreadyExists);
        }
        push_copy(&mut self.dirs, slug.as_str());
        Ok(())
    }

    fn remove(&mut self, slug: &SlugValue) -> (r: Result<(), StateError>)
        ensures
            r is Ok,
            !final(self)@.contains(slug@),
    {
        let mut kept: Vec<String> = Vec::new();
        let mut i: usize = 0;
        while i < self.dirs.len()
            invariant
                i <= self.dirs.len(),
                !strs(kept@).contains(slug@),
            decreases self.dirs.len() - i,
        {
            if !str_eq(self.dirs[i].as_str(), slug.as_str()) {
                let c = copy(&self.dirs[i]);
                proof {
                    lemma_strs_push(kept@, c);
                }
                kept.push(c);
            }
            i += 1;
        }
        self.dirs = kept;
        Ok(())
    }
}

// ---------------------------------------------------------------------------
// validation files
// ---------------------------------------------------------------------------

/// An in-memory validation source: a fixed repository root and the
/// `validation.md` contents of some directories. File system questions are
/// answered without a file system: every path exists and is its own
/// canonical form, and a directory is one that holds a `validation.md`.
pub struct InMemoryValidationSource {
    repo_root: String,
    files: Vec<(String, String)>,
    read_log: Vec<(String, Result<Option<String>, String>)>,
}

impl View for InMemoryValidationSource {
    type V = (Seq<char>, Seq<(Seq<char>, Seq<char>)>);

    closed spec fn view(&self) -> (Seq<char>, Seq<(Seq<char>, Seq<char>)>) {
        (self.repo_root@, pairs_view(self.files@))
    }
}

impl InMemoryValidationSource {
    /// A source rooted at `repo_root`, with no file.
    pub fn new(repo_root: &str) -> (r: InMemoryValidationSource)
        ensures
            r@.0 == repo_root@,
            r@.1.len() == 0,
            r.reads()@.len() == 0,
    {
        InMemoryValidationSource {
            repo_root: owned(repo_root),
            files: Vec::new(),
            read_log: Vec::new(),
        }
    }

    /// `dir/validation.md` holds `contents`.
    pub fn with_validation(self, dir: &str, contents: &str) -> (r: InMemoryValidationSource)
        ensures
            r@ == (self@.0, self@.1.push((dir@, contents@))),
    {
        let mut s = self;
        let ghost before = s.files@;
        let e = (owned(dir), owned(contents));
        s.files.push(e);
        assert(pairs_view(s.files@) =~= pairs_view(before).push((e.0@, e.1@)));
        s
    }
}

impl ValidationSource for InMemoryValidationSource {
    closed spec fn reads(&self) -> Vec<(String, Result<Option<String>, String>)> {
        self.read_log
    }

    fn repo_root(&mut self) -> (r: Result<String, String>)
        ensures
            r matches Ok(p) && p@ == old(self)@.0,
    {
        Ok(copy(&self.repo_root))
    }

    fn read_validation(&mut self, dir: &str) -> (r: Result<Option<String>, String>)
        ensures
            r matches Ok(c) && opt_string_view(c) == stored_last(old(self)@.1, dir@),
            final(self)@ == old(self)@,
    {
        let found = last_for_key(&self.files, dir);
        let entry = match &found {
            Some(t) => Ok(Some(copy(t))),
            None => Ok(None),
        };
        let ghost before = self.read_log@;
        let ghost ev = read_result_view(entry);
        self.read_log.push((owned(dir), entry));
        assert(reads_view(self.read_log@) =~= reads_view(before).push((dir@, ev)));
        Ok(found)
    }

    fn path_exists(&mut self, path: &str) -> (r: bool)
        ensures
            r,
    {
        true
    }

    fn is_dir(&mut self, path: &str) -> (r: bool)
        ensures
            r == stored_last(old(self)@.1, path@) is Some,
            final(self)@ == old(self)@,
    {
        last_for_key(&self.files, path).is_some()
    }

    fn canonicalize(&mut self, path: &str) -> (r: Result<String, String>)
        ensures
            r matches Ok(p) && p@ == path@,
    {
        Ok(owned(path))
    }
}

} // verus!
