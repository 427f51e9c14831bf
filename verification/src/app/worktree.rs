//! `worktree` commands: create a heist's worktree, remove it once merged,
//! and sweep every merged heist worktree.
use crate::domain::error::{StateError, ValueError};
use crate::domain::state::{Stage, StateView};
use crate::domain::value::{NonBlankValue, RefValue, SlugValue};
use crate::domain::worktree::{branch_name, heist_entries, heist_worktrees, info_views, spec_branch_name, spec_worktree_path, worktree_path, HeistWorktree};
use crate::ports::clock::Clock;
use crate::ports::git::{changes_view, git_error_message, GitChangeView, listing_view, listings_view, opt_string_view, GitError, GitRepository, MergeCheck};
use crate::ports::state_repository::{loads_view, writes_view, StateRepository};
use crate::ports::worktree_fs::WorktreeFs;
use crate::text::{owned, push_all, push_str, str_eq, string_chars, string_from, text_less, text_less_exec};
use vstd::prelude::*;

verus! {

// ---------------------------------------------------------------------------
// add
// ---------------------------------------------------------------------------

/// Why `add` failed.
#[derive(Debug)]
pub enum AddError {
    NoState,
    Naming(ValueError),
    Fs(String),
    Git(GitError),
    Load(StateError),
    Save(StateError),
    BaseImmutable { existing: Option<String>, requested: String },
}

/// A `--base` takes effect only when the worktree is created: for an
/// existing worktree the requested base must be the one recorded.
pub fn check_base_unchanged(existing: &Option<NonBlankValue>, requested: &str) -> (r: Result<
    (),
    AddError,
>)
    ensures
        (existing matches Some(e) && e@ == requested@) ==> r is Ok,
        !(existing matches Some(e) && e@ == requested@) ==> (r matches Err(
            AddError::BaseImmutable { existing: x, requested: q },
        ) && q@ == requested@ && opt_string_view(x) == crate::domain::state::opt_view(*existing)),
{
    match existing {
        Some(e) => {
            if str_eq(e.as_str(), requested) {
                Ok(())
            } else {
                Err(
                    AddError::BaseImmutable {
                        existing: Some(e.to_owned_string()),
                        requested: owned(requested),
                    },
                )
            }
        },
        None => Err(AddError::BaseImmutable { existing: None, requested: owned(requested) }),
    }
}

/// Creates (or reuses) heist `slug`'s worktree at `.worktrees/<slug>` on
/// branch `heist/<slug>`, starting from `base` or `origin/<main>`, links its
/// `.heist/<slug>` back to the main one, and records the worktree, branch
/// and base in the state. Returns the worktree's canonical path.
pub fn add<R: StateRepository, G: GitRepository, F: WorktreeFs, C: Clock>(
    repo_root: &str,
    state_repo: &mut R,
    git: &mut G,
    fs: &mut F,
    clock: &mut C,
    slug: &SlugValue,
    base: Option<&str>,
) -> (r: Result<NonBlankValue, AddError>)
    ensures
        r matches Ok(v) ==> crate::domain::value::is_non_blank(v@),
        base matches Some(b) && !crate::domain::value::is_non_blank(b@) ==> r is Err,
        r matches Err(AddError::BaseImmutable { requested: q, .. }) ==> (base matches Some(b)
            && q@ == b@),
{
    if !state_repo.has_state(slug) {
        return Err(AddError::NoState);
    }
    let base_ref: Option<RefValue> = match base {
        Some(b) => {
            let r = match RefValue::try_from_raw(b) {
                Ok(r) => r,
                Err(e) => return Err(AddError::Naming(e)),
            };
            if let Err(e) = git.resolve_ref(repo_root, &r) {
                return Err(AddError::Git(e));
            }
            Some(r)
        },
        None => None,
    };
    let main_branch = git.default_branch(repo_root);
    if let Err(e) = fs.ensure_worktrees_ignored(repo_root) {
        return Err(AddError::Fs(e));
    }
    let path = worktree_path(repo_root, slug.as_str());
    let branch = match branch_name(slug.as_str()) {
        Ok(b) => b,
        Err(e) => return Err(AddError::Naming(e)),
    };
    let start_point = match &base_ref {
        Some(r) => r.duplicate(),
        None => crate::app::base::origin_ref(main_branch.as_str()),
    };
    let exists = match git.worktree_exists(repo_root, slug) {
        Ok(x) => x,
        Err(e) => return Err(AddError::Git(e)),
    };
    if exists {
        if let Some(requested) = base {
            let existing = match state_repo.load(slug) {
                Ok(s) => s.base,
                Err(e) => return Err(AddError::Load(e)),
            };
            check_base_unchanged(&existing, requested)?;
        }
    } else {
        if let Err(e) = git.add_worktree(repo_root, path.as_str(), &branch, &start_point) {
            return Err(AddError::Git(e));
        }
    }
    if let Err(e) = fs.link_heist_dir(repo_root, path.as_str(), slug.as_str()) {
        return Err(AddError::Fs(e));
    }
    let absolute = match fs.canonicalize(path.as_str()) {
        Ok(p) => p,
        Err(e) => return Err(AddError::Fs(e)),
    };
    let worktree_value = match NonBlankValue::parse("worktree", absolute.as_str()) {
        Ok(v) => v,
        Err(e) => return Err(AddError::Naming(e)),
    };
    let mut state = match state_repo.load(slug) {
        Ok(s) => s,
        Err(e) => return Err(AddError::Load(e)),
    };
    state.worktree = Some(worktree_value.duplicate());
    state.branch = Some(branch.to_non_blank());
    if let Some(b) = base {
        match NonBlankValue::parse("base", b) {
            Ok(v) => {
                state.base = Some(v);
            },
            Err(e) => return Err(AddError::Naming(e)),
        }
    }
    state.updated = clock.today();
    if let Err(e) = state_repo.save(slug, &state) {
        return Err(AddError::Save(e));
    }
    let _ = worktree_value.as_str();
    Ok(worktree_value)
}

// ---------------------------------------------------------------------------
// remove
// ---------------------------------------------------------------------------

/// Why `remove` failed.
#[derive(Debug)]
pub enum RemoveError {
    NoState,
    Naming(ValueError),
    Git(GitError),
    NotMerged { branch: String, main_branch: String, verification_error: Option<String> },
    Load(StateError),
    Save(StateError),
}

/// A worktree is removed only once its branch is merged: an unmerged branch
/// is refused with the check's verification error, a failed check is a git
/// error.
pub fn merge_gate(check: Result<MergeCheck, GitError>, branch: &str, main_branch: &str) -> (r:
    Result<(), RemoveError>)
    ensures
        check matches Ok(MergeCheck::Merged) ==> r is Ok,
        check matches Ok(MergeCheck::NotMerged { verification_error: v }) ==> (r matches Err(
            RemoveError::NotMerged { branch: b, main_branch: m, verification_error: w },
        ) && b@ == branch@ && m@ == main_branch@ && opt_string_view(w) == opt_string_view(v)),
        check matches Err(e) ==> (r matches Err(RemoveError::Git(x)) && x@ == e@),
{
    match check {
        Ok(MergeCheck::Merged) => Ok(()),
        Ok(MergeCheck::NotMerged { verification_error }) => Err(
            RemoveError::NotMerged {
                branch: owned(branch),
                main_branch: owned(main_branch),
                verification_error,
            },
        ),
        Err(e) => Err(RemoveError::Git(e)),
    }
}

/// Removes heist `slug`'s worktree and branch once the branch is merged
/// into the default branch, and marks the heist done.
pub fn remove<R: StateRepository, G: GitRepository, C: Clock>(
    repo_root: &str,
    state_repo: &mut R,
    git: &mut G,
    clock: &mut C,
    slug: &SlugValue,
) -> (r: Result<(), RemoveError>)
    ensures
        !(r matches Err(RemoveError::Naming(_))),
        r matches Err(RemoveError::NotMerged { branch: b, .. }) ==> b@ == spec_branch_name(
            slug@,
        ),
        (r matches Err(RemoveError::NotMerged { .. })) || (r matches Err(RemoveError::NoState))
            ==> changes_view(final(git).changes()@) == changes_view(old(git).changes()@)
            && writes_view(final(state_repo).writes()@) == writes_view(old(state_repo).writes()@),
        r is Ok ==> changes_view(final(git).changes()@) == changes_view(old(git).changes()@).push(
            (GitChangeView::RemoveWorktree { path: spec_worktree_path(repo_root@, slug@) }, true),
        ).push((GitChangeView::DeleteBranch { branch: spec_branch_name(slug@) }, true)),
        r is Ok ==> marked_done(
            loads_view(old(state_repo).loads()@),
            loads_view(final(state_repo).loads()@),
            writes_view(old(state_repo).writes()@),
            writes_view(final(state_repo).writes()@),
            slug@,
        ),
{
    let ghost l0 = loads_view(state_repo.loads()@);
    let ghost w0 = writes_view(state_repo.writes()@);
    if !state_repo.has_state(slug) {
        return Err(RemoveError::NoState);
    }
    let main_branch = git.default_branch(repo_root);
    let branch = match branch_name(slug.as_str()) {
        Ok(b) => b,
        Err(e) => return Err(RemoveError::Naming(e)),
    };
    let check = git.is_branch_merged(repo_root, &branch, main_branch.as_str());
    merge_gate(check, branch.as_str(), main_branch.as_str())?;
    let path = worktree_path(repo_root, slug.as_str());
    if let Err(e) = git.remove_worktree(repo_root, path.as_str()) {
        return Err(RemoveError::Git(e));
    }
    if let Err(e) = git.delete_branch(repo_root, &branch) {
        return Err(RemoveError::Git(e));
    }
    let mut state = match state_repo.load(slug) {
        Ok(s) => s,
        Err(e) => return Err(RemoveError::Load(e)),
    };
    let ghost loaded = state@;
    proof {
        assert(loads_view(state_repo.loads()@).drop_last() =~= l0);
    }
    state.stage = Stage::Done;
    state.updated = clock.today();
    let saved = state_repo.save(slug, &state);
    proof {
        assert(writes_view(state_repo.writes()@).drop_last() =~= w0);
        assert(state@ == (StateView { stage: Stage::Done, updated: state@.updated, ..loaded }));
    }
    match saved {
        Ok(()) => Ok(()),
        Err(e) => Err(RemoveError::Save(e)),
    }
}

/// `l1` is `l0` with one load of `slug`, which succeeded, and `w1` is `w0`
/// with one write of `slug`'s loaded state marked done (and stamped with
/// some date), which succeeded.
pub open spec fn marked_done(
    l0: Seq<(Seq<char>, Option<StateView>)>,
    l1: Seq<(Seq<char>, Option<StateView>)>,
    w0: Seq<(Seq<char>, StateView, bool)>,
    w1: Seq<(Seq<char>, StateView, bool)>,
    slug: Seq<char>,
) -> bool {
    &&& l1.len() == l0.len() + 1 && l1.drop_last() == l0 && l1.last().0 == slug
    &&& l1.last().1 matches Some(s) && w1.len() == w0.len() + 1 && w1.drop_last() == w0
        && w1.last() == (slug, StateView { stage: Stage::Done, updated: w1.last().1.updated, ..s }, true)
}

// ---------------------------------------------------------------------------
// cleanup
// ---------------------------------------------------------------------------

/// What `cleanup` did with one heist worktree.
#[derive(Debug, PartialEq, Eq)]
pub enum CleanupOutcome {
    Removed(SlugValue),
    Skipped { slug: SlugValue, verification_error: Option<String> },
    WouldRemove(SlugValue),
    Failed { slug: SlugValue, reason: String },
}

/// The slug an outcome is about.
pub open spec fn outcome_slug(o: CleanupOutcome) -> Seq<char> {
    match o {
        CleanupOutcome::Removed(s) => s@,
        CleanupOutcome::Skipped { slug, .. } => slug@,
        CleanupOutcome::WouldRemove(s) => s@,
        CleanupOutcome::Failed { slug, .. } => slug@,
    }
}

impl CleanupOutcome {
    /// The slug the outcome is about.
    pub fn slug(&self) -> (r: &SlugValue)
        ensures
            r@ == outcome_slug(*self),
    {
        match self {
            CleanupOutcome::Removed(s) => s,
            CleanupOutcome::Skipped { slug, .. } => slug,
            CleanupOutcome::WouldRemove(s) => s,
            CleanupOutcome::Failed { slug, .. } => slug,
        }
    }
}

/// Why `cleanup` stopped before sweeping.
#[derive(Debug)]
pub enum CleanupError {
    Fs(String),
    Git(GitError),
}

/// What a sweep may report: a dry run removes nothing and a real run
/// never only reports what it would remove.
pub open spec fn fits_run(o: CleanupOutcome, dry_run: bool) -> bool {
    if dry_run {
        !(o is Removed)
    } else {
        !(o is WouldRemove)
    }
}

/// Outcomes in the order of their slugs (by code point), equal slugs in the
/// order they came.
pub open spec fn sorted_by_slug(v: Seq<CleanupOutcome>) -> bool {
    forall|i: int, j: int|
        0 <= i < j < v.len() ==> !text_less(outcome_slug(#[trigger] v[j]), outcome_slug(
            #[trigger] v[i],
        ))
}

fn failure_with_branch_kept(branch: &str, e: &GitError) -> (r: String)
    ensures
        r@ == "worktree removed but branch "@ + branch@ + " not deleted: "@ + git_error_message(
            e@,
        ),
{
    let mut m: Vec<char> = Vec::new();
    push_str(&mut m, "worktree removed but branch ");
    push_str(&mut m, branch);
    push_str(&mut m, " not deleted: ");
    push_all(&mut m, &string_chars(&e.message()));
    proof {
        assert(m@ =~= "worktree removed but branch "@ + branch@ + " not deleted: "@
            + git_error_message(e@));
    }
    string_from(&m)
}

/// `o` is what sweeping the worktree of `slug` on branch `branch` reports,
/// from what each step gave (`None` for a step not taken): a failed merge
/// check fails, an unmerged branch is skipped with the check's note, a
/// merged one is only reported on a dry run; otherwise the worktree is
/// removed, then the branch deleted, then the state marked done, and the
/// first of these that fails is reported, else the worktree is removed.
pub open spec fn is_sweep(
    o: CleanupOutcome,
    slug: Seq<char>,
    branch: Seq<char>,
    merge: Result<MergeCheck, GitError>,
    dry_run: bool,
    removed: Option<Result<(), GitError>>,
    deleted: Option<Result<(), GitError>>,
    saved: Option<Result<(), StateError>>,
) -> bool {
    match merge {
        Err(e) => o matches CleanupOutcome::Failed { slug: s, reason: m } && s@ == slug && m@
            == git_error_message(e@),
        Ok(MergeCheck::NotMerged { verification_error: v }) => o matches CleanupOutcome::Skipped {
            slug: s,
            verification_error: w,
        } && s@ == slug && opt_string_view(w) == opt_string_view(v),
        Ok(MergeCheck::Merged) => if dry_run {
            o matches CleanupOutcome::WouldRemove(s) && s@ == slug
        } else {
            match removed {
                Some(Err(e)) => o matches CleanupOutcome::Failed { slug: s, reason: m } && s@
                    == slug && m@ == git_error_message(e@),
                Some(Ok(())) => match deleted {
                    Some(Err(e)) => o matches CleanupOutcome::Failed { slug: s, reason: m } && s@
                        == slug && m@ == "worktree removed but branch "@ + branch
                        + " not deleted: "@ + git_error_message(e@),
                    Some(Ok(())) => match saved {
                        Some(Err(e)) => o matches CleanupOutcome::Failed { slug: s, reason: m }
                            && s@ == slug && m@ == crate::domain::error::state_error_message(&e),
                        Some(Ok(())) => o matches CleanupOutcome::Removed(s) && s@ == slug,
                        None => false,
                    },
                    None => false,
                },
                None => false,
            }
        },
    }
}

/// `raw` holds, for each heist-owned worktree in `entries`, in order, what
/// sweeping it reports.
pub open spec fn sweeps_of(
    raw: Seq<CleanupOutcome>,
    entries: Seq<(Seq<char>, Seq<char>)>,
    dry_run: bool,
) -> bool {
    raw.len() == entries.len() && forall|k: int|
        0 <= k < raw.len() ==> swept(#[trigger] raw[k], entries[k].1, dry_run)
}

/// `o` is what sweeping the worktree of `slug` reports, for some results of
/// its steps.
pub open spec fn swept(o: CleanupOutcome, slug: Seq<char>, dry_run: bool) -> bool {
    exists|
        merge: Result<MergeCheck, GitError>,
        removed: Option<Result<(), GitError>>,
        deleted: Option<Result<(), GitError>>,
        saved: Option<Result<(), StateError>>,
    |
        #![trigger is_sweep(o, slug, spec_branch_name(slug), merge, dry_run, removed, deleted, saved)]
        is_sweep(o, slug, spec_branch_name(slug), merge, dry_run, removed, deleted, saved)
}

/// What sweeping one worktree reports, from what each step gave; a step is
/// given exactly when the one before it succeeded.
pub fn sweep_outcome(
    slug: SlugValue,
    branch: &str,
    merge: Result<MergeCheck, GitError>,
    dry_run: bool,
    removed: Option<Result<(), GitError>>,
    deleted: Option<Result<(), GitError>>,
    saved: Option<Result<(), StateError>>,
) -> (r: CleanupOutcome)
    requires
        merge matches Ok(MergeCheck::Merged) && !dry_run ==> removed is Some,
        removed matches Some(Ok(())) ==> deleted is Some,
        deleted matches Some(Ok(())) ==> saved is Some,
    ensures
        is_sweep(r, slug@, branch@, merge, dry_run, removed, deleted, saved),
{
    match merge {
        Err(e) => CleanupOutcome::Failed { slug, reason: e.message() },
        Ok(MergeCheck::NotMerged { verification_error }) => CleanupOutcome::Skipped {
            slug,
            verification_error,
        },
        Ok(MergeCheck::Merged) => {
            if dry_run {
                return CleanupOutcome::WouldRemove(slug);
            }
            match removed {
                Some(Err(e)) => CleanupOutcome::Failed { slug, reason: e.message() },
                Some(Ok(())) => match deleted {
                    Some(Err(e)) => CleanupOutcome::Failed {
                        slug,
                        reason: failure_with_branch_kept(branch, &e),
                    },
                    Some(Ok(())) => match saved {
                        Some(Err(e)) => CleanupOutcome::Failed { slug, reason: e.message() },
                        Some(Ok(())) => CleanupOutcome::Removed(slug),
                        None => vstd::pervasive::unreached(),
                    },
                    None => vstd::pervasive::unreached(),
                },
                None => vstd::pervasive::unreached(),
            }
        },
    }
}

/// Marks heist `slug`'s state done, when it has one.
fn save_done<R: StateRepository, C: Clock>(state_repo: &mut R, clock: &mut C, slug: &SlugValue) -> (r:
    Result<(), StateError>) {
    if state_repo.has_state(slug) {
        let mut state = state_repo.load(slug)?;
        state.stage = Stage::Done;
        state.updated = clock.today();
        state_repo.save(slug, &state)
    } else {
        Ok(())
    }
}

/// Sweeps one heist worktree: skipped unless merged, only reported on a dry
/// run, else its worktree and branch removed and its state marked done.
fn sweep_one<R: StateRepository, G: GitRepository, C: Clock>(
    repo_root: &str,
    state_repo: &mut R,
    git: &mut G,
    clock: &mut C,
    main_branch: &str,
    hw: &HeistWorktree,
    dry_run: bool,
) -> (r: CleanupOutcome)
    requires
        hw.branch@ == spec_branch_name(hw.slug@),
    ensures
        outcome_slug(r) == hw.slug@,
        fits_run(r, dry_run),
        swept(r, hw.slug@, dry_run),
        listings_view(final(git).listings()@) == listings_view(old(git).listings()@),
        dry_run ==> changes_view(final(git).changes()@) == changes_view(old(git).changes()@),
        dry_run ==> writes_view(final(state_repo).writes()@) == writes_view(
            old(state_repo).writes()@,
        ),
{
    let merge = git.is_branch_merged(repo_root, &hw.branch, main_branch);
    let proceed = !dry_run && match &merge {
        Ok(MergeCheck::Merged) => true,
        _ => false,
    };
    let removed: Option<Result<(), GitError>> = if proceed {
        Some(git.remove_worktree(repo_root, hw.path.as_str()))
    } else {
        None
    };
    let deleted: Option<Result<(), GitError>> = match &removed {
        Some(Ok(())) => Some(git.delete_branch(repo_root, &hw.branch)),
        _ => None,
    };
    let saved: Option<Result<(), StateError>> = match &deleted {
        Some(Ok(())) => Some(save_done(state_repo, clock, &hw.slug)),
        _ => None,
    };
    let ghost (gm, grm, gdl, gsv) = (merge, removed, deleted, saved);
    let r = sweep_outcome(
        hw.slug.duplicate(),
        hw.branch.as_str(),
        merge,
        dry_run,
        removed,
        deleted,
        saved,
    );
    assert(is_sweep(r, hw.slug@, spec_branch_name(hw.slug@), gm, dry_run, grm, gdl, gsv));
    r
}

/// Inserts `o` after every outcome whose slug does not sort after its own.
fn insert_sorted(v: &mut Vec<CleanupOutcome>, o: CleanupOutcome, Ghost(dry_run): Ghost<bool>)
    requires
        sorted_by_slug(old(v)@),
        forall|i: int| 0 <= i < old(v)@.len() ==> fits_run(#[trigger] old(v)@[i], dry_run),
        fits_run(o, dry_run),
    ensures
        sorted_by_slug(final(v)@),
        forall|i: int| 0 <= i < final(v)@.len() ==> fits_run(#[trigger] final(v)@[i], dry_run),
        final(v)@.len() == old(v)@.len() + 1,
        final(v)@.to_multiset() == old(v)@.to_multiset().insert(o),
{
    let key = string_chars(&o.slug().to_owned_string());
    let mut j: usize = 0;
    while j < v.len() && !text_less_exec(&key, &string_chars(&v[j].slug().to_owned_string()))
        invariant
            j <= v.len(),
            key@ == outcome_slug(o),
            forall|i: int| 0 <= i < j ==> !text_less(outcome_slug(o), outcome_slug(#[trigger] v@[i])),
        decreases v.len() - j,
    {
        j += 1;
    }
    let ghost before = v@;
    let ghost go = o;
    v.insert(j, o);
    proof {
        broadcast use vstd::seq_lib::group_to_multiset_ensures;
        assert(v@.remove(j as int) =~= before);
        assert(v@[j as int] == go);
        assert(before.to_multiset() == v@.to_multiset().remove(go));
        assert(v@.to_multiset().count(go) > 0);
        assert(v@.to_multiset() =~= before.to_multiset().insert(go));
        assert forall|a: int, b: int| 0 <= a < b < v@.len() implies !text_less(
            outcome_slug(#[trigger] v@[b]),
            outcome_slug(#[trigger] v@[a]),
        ) by {
            if b < j {
                assert(v@[a] == before[a] && v@[b] == before[b]);
            } else if b == j {
                assert(v@[a] == before[a]);
            } else if a == j {
                assert(v@[b] == before[b - 1]);
                assert(text_less(outcome_slug(o), outcome_slug(before[j as int])));
                if j < b - 1 {
                    assert(!text_less(outcome_slug(before[b - 1]), outcome_slug(before[j as int])));
                }
                if text_less(outcome_slug(before[b - 1]), outcome_slug(o)) {
                    crate::text::lemma_text_less_transitive(
                        outcome_slug(before[b - 1]),
                        outcome_slug(o),
                        outcome_slug(before[j as int]),
                    );
                    if j == b - 1 {
                        crate::text::lemma_text_less_irreflexive(outcome_slug(before[j as int]));
                    }
                }
            } else if a < j {
                assert(v@[a] == before[a] && v@[b] == before[b - 1]);
            } else {
                assert(v@[a] == before[a - 1] && v@[b] == before[b - 1]);
            }
        }
        assert forall|i: int| 0 <= i < v@.len() implies fits_run(#[trigger] v@[i], dry_run) by {
            if i < j {
                assert(v@[i] == before[i]);
            } else if i > j {
                assert(v@[i] == before[i - 1]);
            }
        }
    }
}

/// Sweeps every heist worktree: those whose branch is merged into the
/// default branch are removed (or, on a dry run, reported), the others
/// skipped; per-worktree failures are reported and do not stop the sweep.
/// The outcomes come sorted by slug.
pub fn cleanup<R: StateRepository, G: GitRepository, F: WorktreeFs, C: Clock>(
    repo_root: &str,
    state_repo: &mut R,
    git: &mut G,
    fs: &mut F,
    clock: &mut C,
    dry_run: bool,
) -> (r: Result<Vec<CleanupOutcome>, CleanupError>)
    ensures
        r matches Ok(v) ==> sorted_by_slug(v@) && forall|i: int|
            0 <= i < v@.len() ==> fits_run(#[trigger] v@[i], dry_run),
        r matches Ok(v) ==> listings_view(final(git).listings()@).len() == listings_view(
            old(git).listings()@,
        ).len() + 1,
        r matches Ok(v) ==> exists|root: Seq<char>, raw: Seq<CleanupOutcome>|
            #![trigger heist_entries(listings_view(final(git).listings()@).last(), root), raw.to_multiset()]
            sweeps_of(raw, heist_entries(listings_view(final(git).listings()@).last(), root), dry_run)
                && v@.to_multiset() == raw.to_multiset(),
        dry_run ==> changes_view(final(git).changes()@) == changes_view(old(git).changes()@),
        dry_run ==> writes_view(final(state_repo).writes()@) == writes_view(
            old(state_repo).writes()@,
        ),
{
    let canonical_root = match fs.canonicalize(repo_root) {
        Ok(p) => p,
        Err(e) => return Err(CleanupError::Fs(e)),
    };
    let main_branch = git.default_branch(repo_root);
    if let Err(e) = git.remote_default_resolves(repo_root, main_branch.as_str()) {
        return Err(CleanupError::Git(e));
    }
    let infos = match git.list_worktrees(repo_root) {
        Ok(v) => v,
        Err(e) => return Err(CleanupError::Git(e)),
    };
    let ghost lv1 = listings_view(git.listings()@);
    assert(lv1.last() == listing_view(infos@));
    assert(info_views(infos@) == listing_view(infos@));
    let hws = heist_worktrees(&infos, canonical_root.as_str());
    let ghost entries = heist_entries(info_views(infos@), canonical_root@);
    let ghost mut raw: Seq<CleanupOutcome> = Seq::empty();
    let mut outcomes: Vec<CleanupOutcome> = Vec::new();
    let mut i: usize = 0;
    while i < hws.len()
        invariant
            i <= hws.len(),
            hws@.len() == entries.len(),
            forall|k: int|
                0 <= k < hws@.len() ==> (#[trigger] hws@[k]).slug@ == entries[k].1
                    && hws@[k].branch@ == spec_branch_name(hws@[k].slug@),
            raw.len() == i,
            forall|k: int| 0 <= k < i ==> swept(#[trigger] raw[k], entries[k].1, dry_run),
            outcomes@.to_multiset() == raw.to_multiset(),
            sorted_by_slug(outcomes@),
            forall|k: int| 0 <= k < outcomes@.len() ==> fits_run(#[trigger] outcomes@[k], dry_run),
            dry_run ==> changes_view(git.changes()@) == changes_view(old(git).changes()@),
            dry_run ==> writes_view(state_repo.writes()@) == writes_view(old(state_repo).writes()@),
            listings_view(git.listings()@) == lv1,
        decreases hws.len() - i,
    {
        let o = sweep_one(repo_root, state_repo, git, clock, main_branch.as_str(), &hws[i], dry_run);
        let ghost go = o;
        insert_sorted(&mut outcomes, o, Ghost(dry_run));
        proof {
            broadcast use vstd::seq_lib::group_to_multiset_ensures;
            let old_raw = raw;
            raw = raw.push(go);
            assert(raw.to_multiset() =~= old_raw.to_multiset().insert(go));
            assert forall|k: int| 0 <= k < i + 1 implies swept(#[trigger] raw[k], entries[k].1, dry_run) by {
                if k < i {
                    assert(raw[k] == old_raw[k]);
                }
            }
        }
        i += 1;
    }
    assert(sweeps_of(raw, entries, dry_run));
    Ok(outcomes)
}

} // verus!
