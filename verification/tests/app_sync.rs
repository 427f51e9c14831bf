use heist_cli::adapters::testing::{FakeGit, InMemoryStateRepository};
use heist_cli::app::base::ResolveError;
use heist_cli::app::sync::{sync, SyncAction, SyncError};
use heist_cli::domain::state::State;
use heist_cli::domain::testing::valid;
use heist_cli::domain::value::SlugValue;
use heist_cli::ports::git::{GitError, PrState};


/// A fully set-up heist state: worktree + branch recorded, so the sync
/// guard passes. `base` is left for the caller to set.
fn set_up_state(slug: &SlugValue) -> State {
    let today = valid::date("2026-01-01");
    let mut state = State::new(slug, today).expect("valid slug");
    state.worktree = Some(valid::worktree("/tmp/wt"));
    state.branch = Some(valid::branch(&format!("heist/{}", slug.as_str())));
    state
}

fn git_on_branch(slug: &SlugValue) -> FakeGit {
    FakeGit::new()
        .with_default_branch("main")
        .with_current_branch(&format!("heist/{}", slug.as_str()))
}

#[test]
fn sync_with_null_base_rebases_origin_default() {
    let slug = valid::slug("foo");
    let mut repo = InMemoryStateRepository::new().with_state("foo", set_up_state(&slug));
    let mut git = git_on_branch(&slug);

    let result = sync(&mut repo, &mut git, &slug);

    assert!(result.is_ok());
    assert_eq!(git.rebase_calls(), vec!["origin/main".to_string()]);
    assert!(git.merge_calls().is_empty());
}

#[test]
fn sync_with_live_base_merges_base_ref_not_origin_default() {
    let slug = valid::slug("foo");
    let mut state = set_up_state(&slug);
    state.base = Some(valid::base("heist/piece-01"));

    let mut repo = InMemoryStateRepository::new().with_state("foo", state);
    let mut git = git_on_branch(&slug).with_pr_state("heist/piece-01", PrState::Open);

    let result = sync(&mut repo, &mut git, &slug);

    assert!(result.is_ok());
    assert_eq!(git.merge_calls(), vec!["heist/piece-01".to_string()]);
    assert!(git.rebase_calls().is_empty());
}

#[test]
fn sync_with_expired_base_merges_origin_default() {
    let slug = valid::slug("foo");
    let mut state = set_up_state(&slug);
    state.base = Some(valid::base("heist/piece-01"));

    let mut repo = InMemoryStateRepository::new().with_state("foo", state);
    let mut git = git_on_branch(&slug).with_pr_state("heist/piece-01", PrState::Merged);

    let result = sync(&mut repo, &mut git, &slug);

    assert!(result.is_ok());
    assert_eq!(git.merge_calls(), vec!["origin/main".to_string()]);
    assert!(git.rebase_calls().is_empty());
}

#[test]
fn sync_with_abandoned_base_refuses_without_touching_git() {
    let slug = valid::slug("foo");
    let mut state = set_up_state(&slug);
    state.base = Some(valid::base("heist/piece-01"));

    let mut repo = InMemoryStateRepository::new().with_state("foo", state);
    let mut git = git_on_branch(&slug).with_pr_state("heist/piece-01", PrState::ClosedUnmerged);

    let result = sync(&mut repo, &mut git, &slug);

    assert!(matches!(result, Err(SyncError::Abandoned { .. })));
    assert!(git.rebase_calls().is_empty());
    assert!(git.merge_calls().is_empty());
}

#[test]
fn sync_halts_without_touching_git_when_base_pr_state_unverifiable() {
    let slug = valid::slug("foo");
    let mut state = set_up_state(&slug);
    state.base = Some(valid::base("heist/piece-01"));

    let mut repo = InMemoryStateRepository::new().with_state("foo", state);
    let mut git = git_on_branch(&slug).failing_pr_state_for(
        "heist/piece-01",
        GitError::CommandFailed {
            command: "gh pr list".into(),
            message: "gh not found".into(),
        },
    );

    let result = sync(&mut repo, &mut git, &slug);

    assert!(matches!(
        result,
        Err(SyncError::Resolve(ResolveError::VerificationFailed { .. }))
    ));
    assert!(git.rebase_calls().is_empty());
    assert!(git.merge_calls().is_empty());
}

#[test]
fn sync_refuses_when_worktree_on_wrong_branch() {
    let slug = valid::slug("foo");
    let mut repo = InMemoryStateRepository::new().with_state("foo", set_up_state(&slug));
    // Worktree reports being on `main`, not `heist/foo`.
    let mut git = FakeGit::new()
        .with_default_branch("main")
        .with_current_branch("main");

    let result = sync(&mut repo, &mut git, &slug);

    assert!(matches!(result, Err(SyncError::WrongCheckout { .. })));
    assert!(git.rebase_calls().is_empty());
    assert!(git.merge_calls().is_empty());
}

#[test]
fn sync_refuses_when_head_detached() {
    let slug = valid::slug("foo");
    let mut repo = InMemoryStateRepository::new().with_state("foo", set_up_state(&slug));
    // No current branch configured => detached HEAD.
    let mut git = FakeGit::new().with_default_branch("main");

    let result = sync(&mut repo, &mut git, &slug);

    match result {
        Err(SyncError::WrongCheckout { actual, .. }) => {
            assert_eq!(actual, "(detached HEAD)");
        }
        _ => panic!("expected WrongCheckout for detached HEAD"),
    }
    assert!(git.rebase_calls().is_empty());
    assert!(git.merge_calls().is_empty());
}

#[test]
fn sync_without_worktree_is_not_set_up() {
    let slug = valid::slug("foo");
    let today = valid::date("2026-01-01");
    let state = State::new(&slug, today).expect("valid slug");
    let mut repo = InMemoryStateRepository::new().with_state("foo", state);
    let mut git = git_on_branch(&slug);

    let result = sync(&mut repo, &mut git, &slug);

    assert!(matches!(result, Err(SyncError::NotSetUp)));
}

#[test]
fn sync_fetches_origin_before_any_rebase_or_merge() {
    let slug = valid::slug("foo");
    let mut repo = InMemoryStateRepository::new().with_state("foo", set_up_state(&slug));
    let mut git = git_on_branch(&slug);

    let result = sync(&mut repo, &mut git, &slug);

    assert!(result.is_ok());
    assert_eq!(git.fetch_calls(), vec!["origin".to_string()]);
    let log = git.call_log();
    let fetch_pos = log.iter().position(|c| c == "fetch");
    let rebase_pos = log.iter().position(|c| c == "rebase");
    assert!(
        fetch_pos < rebase_pos,
        "fetch must be recorded before rebase, got {:?}",
        log
    );
}

#[test]
fn sync_fails_without_touching_git_when_fetch_fails() {
    let slug = valid::slug("foo");
    let mut repo = InMemoryStateRepository::new().with_state("foo", set_up_state(&slug));
    let mut git = git_on_branch(&slug).failing_fetch(GitError::CommandFailed {
        command: "git fetch".into(),
        message: "network down".into(),
    });

    let result = sync(&mut repo, &mut git, &slug);

    assert!(matches!(result, Err(SyncError::FetchFailed(_))));
    assert!(git.rebase_calls().is_empty());
    assert!(git.merge_calls().is_empty());
}

#[test]
fn sync_reports_action_taken() {
    let slug = valid::slug("foo");
    let mut repo = InMemoryStateRepository::new().with_state("foo", set_up_state(&slug));
    let mut git = git_on_branch(&slug);

    let Ok(action) = sync(&mut repo, &mut git, &slug) else {
        panic!("sync should succeed");
    };

    assert!(matches!(action, SyncAction::RebasedOntoMain { .. }));
}

