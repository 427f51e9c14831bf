use heist_cli::adapters::testing::{FakeGit, FakeWorktreeFs, FixedClock, InMemoryStateRepository};
use heist_cli::app::worktree::{cleanup, AddError, CleanupError, CleanupOutcome};
use heist_cli::domain::state::{Stage, State};
use heist_cli::domain::value::{DateValue, NonBlankValue, SlugValue};
use heist_cli::ports::git::GitError;


fn fixed_clock() -> FixedClock {
    FixedClock(DateValue::parse("today", "2026-01-01").expect("valid date"))
}

#[test]
fn cleanup_returns_empty_outcomes_when_no_worktrees() {
    let mut repo = InMemoryStateRepository::new();
    let mut git = FakeGit::new().with_default_branch("main");

    let outcomes = cleanup(
        ".",
        &mut repo,
        &mut git,
        &mut FakeWorktreeFs,
        &mut fixed_clock(),
        false,
    )
    .expect("cleanup should succeed");

    assert!(outcomes.is_empty());
}

#[test]
fn cleanup_aborts_when_origin_default_unresolvable() {
    let mut repo = InMemoryStateRepository::new();
    let mut git = FakeGit::new()
        .with_default_branch("main")
        .failing_remote_default_resolve(GitError::MergeCheck {
            message: "cannot find remote ref origin/main".into(),
        });

    let result = cleanup(
        ".",
        &mut repo,
        &mut git,
        &mut FakeWorktreeFs,
        &mut fixed_clock(),
        false,
    );

    assert!(matches!(result, Err(CleanupError::Git(_))));
}

#[test]
fn cleanup_ignores_non_heist_owned_worktree() {
    let mut repo = InMemoryStateRepository::new();
    let mut git = FakeGit::new()
        .with_default_branch("main")
        .with_worktree_info("/repo/.worktrees/scratch", Some("some-other-branch"));

    let outcomes = cleanup(
        "/repo",
        &mut repo,
        &mut git,
        &mut FakeWorktreeFs,
        &mut fixed_clock(),
        false,
    )
    .expect("cleanup should succeed");

    assert!(outcomes.is_empty());
}

#[test]
fn cleanup_skips_unmerged_heist_owned_worktree() {
    let mut repo = InMemoryStateRepository::new();
    // No merged branch configured, so heist/foo is treated as unmerged.
    let mut git = FakeGit::new()
        .with_default_branch("main")
        .with_worktree_info("/repo/.worktrees/foo", Some("heist/foo"));

    let outcomes = cleanup(
        "/repo",
        &mut repo,
        &mut git,
        &mut FakeWorktreeFs,
        &mut fixed_clock(),
        false,
    )
    .expect("cleanup should succeed");

    assert_eq!(
        outcomes,
        vec![CleanupOutcome::Skipped {
            slug: SlugValue::parse("foo").expect("valid slug"),
            verification_error: None,
        }]
    );
    assert!(git.removed_worktree_paths().is_empty());
    assert!(git.deleted_branch_names().is_empty());
}

#[test]
fn cleanup_skips_with_verification_error_when_github_check_is_inconclusive() {
    let mut repo = InMemoryStateRepository::new();
    let mut git = FakeGit::new()
        .with_default_branch("main")
        .with_worktree_info("/repo/.worktrees/foo", Some("heist/foo"))
        .failing_verification_for("heist/foo", "gh: command not found");

    let outcomes = cleanup(
        "/repo",
        &mut repo,
        &mut git,
        &mut FakeWorktreeFs,
        &mut fixed_clock(),
        false,
    )
    .expect("cleanup should succeed");

    assert_eq!(
        outcomes,
        vec![CleanupOutcome::Skipped {
            slug: SlugValue::parse("foo").expect("valid slug"),
            verification_error: Some("gh: command not found".to_string()),
        }]
    );
    assert!(git.removed_worktree_paths().is_empty());
}

#[test]
fn cleanup_reports_failed_when_one_items_merge_check_errors_but_others_proceed() {
    // The top-level `origin/<default>` probe succeeds (only "main" is
    // configured to fail), so this exercises the per-item merge-check
    // error arm distinctly from the top-level abort path.
    let mut repo = InMemoryStateRepository::new();
    let mut git = FakeGit::new()
        .with_default_branch("main")
        .with_merged_branch("heist/bar")
        .with_worktree_info("/repo/.worktrees/foo", Some("heist/foo"))
        .with_worktree_info("/repo/.worktrees/bar", Some("heist/bar"))
        .failing_merge_check_for(
            "heist/foo",
            GitError::MergeCheck {
                message: "bad ref".into(),
            },
        );

    let outcomes = cleanup(
        "/repo",
        &mut repo,
        &mut git,
        &mut FakeWorktreeFs,
        &mut fixed_clock(),
        false,
    )
    .expect("cleanup should surface per-item failures, not error out");

    assert_eq!(
        outcomes,
        vec![
            CleanupOutcome::Removed(SlugValue::parse("bar").expect("valid slug")),
            CleanupOutcome::Failed {
                slug: SlugValue::parse("foo").expect("valid slug"),
                reason: "failed to check merged branches: bad ref".to_string(),
            },
        ]
    );
    assert_eq!(
        git.removed_worktree_paths(),
        vec!["/repo/.worktrees/bar".to_string()]
    );
}

#[test]
fn cleanup_removes_merged_heist_owned_worktree() {
    let mut repo = InMemoryStateRepository::new();
    let mut git = FakeGit::new()
        .with_default_branch("main")
        .with_merged_branch("heist/foo")
        .with_worktree_info("/repo/.worktrees/foo", Some("heist/foo"));

    let outcomes = cleanup(
        "/repo",
        &mut repo,
        &mut git,
        &mut FakeWorktreeFs,
        &mut fixed_clock(),
        false,
    )
    .expect("cleanup should succeed");

    assert_eq!(
        outcomes,
        vec![CleanupOutcome::Removed(
            SlugValue::parse("foo").expect("valid slug")
        )]
    );
    assert_eq!(
        git.removed_worktree_paths(),
        vec!["/repo/.worktrees/foo".to_string()]
    );
    assert_eq!(git.deleted_branch_names(), vec!["heist/foo".to_string()]);
}

#[test]
fn cleanup_dry_run_previews_without_mutating() {
    let mut repo = InMemoryStateRepository::new();
    let mut git = FakeGit::new()
        .with_default_branch("main")
        .with_merged_branch("heist/foo")
        .with_worktree_info("/repo/.worktrees/foo", Some("heist/foo"));

    let outcomes = cleanup(
        "/repo",
        &mut repo,
        &mut git,
        &mut FakeWorktreeFs,
        &mut fixed_clock(),
        true,
    )
    .expect("cleanup should succeed");

    assert_eq!(
        outcomes,
        vec![CleanupOutcome::WouldRemove(
            SlugValue::parse("foo").expect("valid slug")
        )]
    );
    assert!(git.removed_worktree_paths().is_empty());
    assert!(git.deleted_branch_names().is_empty());
}

#[test]
fn cleanup_marks_existing_state_done() {
    let mut repo = InMemoryStateRepository::new().with_state(
        "foo",
        State::new(
            &SlugValue::parse("foo").expect("valid slug"),
            DateValue::parse("today", "2025-01-01").expect("valid date"),
        )
        .expect("valid slug"),
    );
    let mut git = FakeGit::new()
        .with_default_branch("main")
        .with_merged_branch("heist/foo")
        .with_worktree_info("/repo/.worktrees/foo", Some("heist/foo"));

    let outcomes = cleanup(
        "/repo",
        &mut repo,
        &mut git,
        &mut FakeWorktreeFs,
        &mut fixed_clock(),
        false,
    )
    .expect("cleanup should succeed");

    assert_eq!(
        outcomes,
        vec![CleanupOutcome::Removed(
            SlugValue::parse("foo").expect("valid slug")
        )]
    );
    let state = repo.get("foo").expect("state should still exist");
    assert_eq!(state.stage, Stage::Done);
    assert_eq!(
        state.updated,
        DateValue::parse("today", "2026-01-01").expect("valid date")
    );
}

#[test]
fn cleanup_removes_orphan_worktree_without_state() {
    let mut repo = InMemoryStateRepository::new(); // no state for "foo"
    let mut git = FakeGit::new()
        .with_default_branch("main")
        .with_merged_branch("heist/foo")
        .with_worktree_info("/repo/.worktrees/foo", Some("heist/foo"));

    let outcomes = cleanup(
        "/repo",
        &mut repo,
        &mut git,
        &mut FakeWorktreeFs,
        &mut fixed_clock(),
        false,
    )
    .expect("cleanup should succeed even without a state entry");

    assert_eq!(
        outcomes,
        vec![CleanupOutcome::Removed(
            SlugValue::parse("foo").expect("valid slug")
        )]
    );
    assert_eq!(repo.get("foo"), None);
}

#[test]
fn cleanup_reports_failed_when_remove_worktree_fails() {
    let mut repo = InMemoryStateRepository::new().with_state(
        "foo",
        State::new(
            &SlugValue::parse("foo").expect("valid slug"),
            DateValue::parse("today", "2025-01-01").expect("valid date"),
        )
        .expect("valid slug"),
    );
    let mut git = FakeGit::new()
        .with_default_branch("main")
        .with_merged_branch("heist/foo")
        .with_worktree_info("/repo/.worktrees/foo", Some("heist/foo"))
        .failing_remove(GitError::WorktreeRemove {
            message: "worktree is dirty".into(),
        });

    let outcomes = cleanup(
        "/repo",
        &mut repo,
        &mut git,
        &mut FakeWorktreeFs,
        &mut fixed_clock(),
        false,
    )
    .expect("cleanup should surface per-item failures, not error out");

    match &outcomes[..] {
        [CleanupOutcome::Failed { slug, reason }] => {
            assert_eq!(slug.as_str(), "foo");
            assert!(reason.contains("worktree is dirty"));
        }
        other => panic!("expected a single Failed outcome, got {:?}", other),
    }
    assert!(git.deleted_branch_names().is_empty());
    let state = repo.get("foo").expect("state should still exist");
    assert_eq!(state.stage, Stage::Casing);
}

#[test]
fn cleanup_reports_orphaned_branch_when_delete_fails() {
    let mut repo = InMemoryStateRepository::new().with_state(
        "foo",
        State::new(
            &SlugValue::parse("foo").expect("valid slug"),
            DateValue::parse("today", "2025-01-01").expect("valid date"),
        )
        .expect("valid slug"),
    );
    let mut git = FakeGit::new()
        .with_default_branch("main")
        .with_merged_branch("heist/foo")
        .with_worktree_info("/repo/.worktrees/foo", Some("heist/foo"))
        .failing_delete(GitError::BranchDelete {
            message: "not fully merged".into(),
        });

    let outcomes = cleanup(
        "/repo",
        &mut repo,
        &mut git,
        &mut FakeWorktreeFs,
        &mut fixed_clock(),
        false,
    )
    .expect("cleanup should surface per-item failures, not error out");

    match &outcomes[..] {
        [CleanupOutcome::Failed { slug, reason }] => {
            assert_eq!(slug.as_str(), "foo");
            assert!(reason.contains("worktree removed but branch heist/foo not deleted"));
            assert!(reason.contains("not fully merged"));
        }
        other => panic!("expected a single Failed outcome, got {:?}", other),
    }
    // The worktree removal did happen before the branch-delete failure.
    assert_eq!(
        git.removed_worktree_paths(),
        vec!["/repo/.worktrees/foo".to_string()]
    );
    let state = repo.get("foo").expect("state should still exist");
    assert_eq!(state.stage, Stage::Casing);
}

#[test]
fn cleanup_sorts_outcomes_by_slug() {
    let mut repo = InMemoryStateRepository::new();
    let mut git = FakeGit::new()
        .with_default_branch("main")
        .with_merged_branch("heist/zeta")
        .with_merged_branch("heist/alpha")
        .with_worktree_info("/repo/.worktrees/zeta", Some("heist/zeta"))
        .with_worktree_info("/repo/.worktrees/alpha", Some("heist/alpha"));

    let outcomes = cleanup(
        "/repo",
        &mut repo,
        &mut git,
        &mut FakeWorktreeFs,
        &mut fixed_clock(),
        false,
    )
    .expect("cleanup should succeed");

    assert_eq!(
        outcomes,
        vec![
            CleanupOutcome::Removed(SlugValue::parse("alpha").expect("valid slug")),
            CleanupOutcome::Removed(SlugValue::parse("zeta").expect("valid slug")),
        ]
    );
}

#[test]
fn add_with_base_validates_ref_before_creating_worktree_or_state() {
    let mut repo = InMemoryStateRepository::new().with_state(
        "foo",
        State::new(
            &SlugValue::parse("foo").expect("valid slug"),
            DateValue::parse("today", "2025-01-01").expect("valid date"),
        )
        .expect("valid slug"),
    );
    let mut git = FakeGit::new()
        .with_default_branch("main")
        .failing_resolve_ref_for(
            "heist/piece-01",
            GitError::MergeCheck {
                message: "bad ref".into(),
            },
        );

    let result = heist_cli::app::worktree::add(
        ".",
        &mut repo,
        &mut git,
        &mut FakeWorktreeFs,
        &mut fixed_clock(),
        &SlugValue::parse("foo").expect("valid slug"),
        Some("heist/piece-01"),
    );

    assert!(matches!(result, Err(AddError::Git(_))));
    assert!(repo
        .get("foo")
        .expect("foo state should exist")
        .worktree
        .is_none());
}

#[test]
fn add_with_base_uses_verbatim_ref_as_start_point_and_persists_base_field() {
    let mut repo = InMemoryStateRepository::new().with_state(
        "foo",
        State::new(
            &SlugValue::parse("foo").expect("valid slug"),
            DateValue::parse("today", "2025-01-01").expect("valid date"),
        )
        .expect("valid slug"),
    );
    let mut git = FakeGit::new().with_default_branch("main");

    let result = heist_cli::app::worktree::add(
        ".",
        &mut repo,
        &mut git,
        &mut FakeWorktreeFs,
        &mut fixed_clock(),
        &SlugValue::parse("foo").expect("valid slug"),
        Some("heist/piece-01"),
    );

    assert!(result.is_ok());
    assert_eq!(
        git.add_worktree_start_points(),
        vec!["heist/piece-01".to_string()]
    );
    let saved_state = repo.get("foo").expect("foo state should exist");
    assert_eq!(
        saved_state.base,
        Some(NonBlankValue::parse("base", "heist/piece-01").expect("valid base"))
    );
}

#[test]
fn add_without_base_preserves_previously_persisted_base() {
    let mut state = State::new(
        &SlugValue::parse("foo").expect("valid slug"),
        DateValue::parse("today", "2025-01-01").expect("valid date"),
    )
    .expect("valid slug");
    state.base = Some(NonBlankValue::parse("base", "heist/piece-01").expect("valid base"));
    let mut repo = InMemoryStateRepository::new().with_state("foo", state);
    let mut git = FakeGit::new().with_default_branch("main");

    let result = heist_cli::app::worktree::add(
        ".",
        &mut repo,
        &mut git,
        &mut FakeWorktreeFs,
        &mut fixed_clock(),
        &SlugValue::parse("foo").expect("valid slug"),
        None,
    );

    assert!(result.is_ok());
    let saved_state = repo.get("foo").expect("foo state should exist");
    assert_eq!(
        saved_state.base,
        Some(NonBlankValue::parse("base", "heist/piece-01").expect("valid base")),
        "re-running `heist worktree add` without --base must not null an already-persisted base"
    );
}

#[test]
fn add_with_differing_base_on_existing_worktree_is_refused_and_state_unchanged() {
    let mut state = State::new(
        &SlugValue::parse("foo").expect("valid slug"),
        DateValue::parse("today", "2025-01-01").expect("valid date"),
    )
    .expect("valid slug");
    state.base = Some(NonBlankValue::parse("base", "heist/piece-01").expect("valid base"));
    let mut repo = InMemoryStateRepository::new().with_state("foo", state);
    // Worktree already exists, created from heist/piece-01.
    let mut git = FakeGit::new()
        .with_default_branch("main")
        .with_existing_worktree("foo");

    let result = heist_cli::app::worktree::add(
        ".",
        &mut repo,
        &mut git,
        &mut FakeWorktreeFs,
        &mut fixed_clock(),
        &SlugValue::parse("foo").expect("valid slug"),
        Some("heist/piece-02"),
    );

    assert!(matches!(result, Err(AddError::BaseImmutable { .. })));
    let saved_state = repo.get("foo").expect("foo state should exist");
    assert_eq!(
        saved_state.base,
        Some(NonBlankValue::parse("base", "heist/piece-01").expect("valid base")),
        "a refused re-add must not rewrite the persisted base"
    );
}

#[test]
fn add_with_same_base_on_existing_worktree_is_idempotent() {
    let mut state = State::new(
        &SlugValue::parse("foo").expect("valid slug"),
        DateValue::parse("today", "2025-01-01").expect("valid date"),
    )
    .expect("valid slug");
    state.base = Some(NonBlankValue::parse("base", "heist/piece-01").expect("valid base"));
    let mut repo = InMemoryStateRepository::new().with_state("foo", state);
    let mut git = FakeGit::new()
        .with_default_branch("main")
        .with_existing_worktree("foo");

    let result = heist_cli::app::worktree::add(
        ".",
        &mut repo,
        &mut git,
        &mut FakeWorktreeFs,
        &mut fixed_clock(),
        &SlugValue::parse("foo").expect("valid slug"),
        Some("heist/piece-01"),
    );

    assert!(result.is_ok());
}

#[test]
fn add_without_base_uses_origin_default_start_point() {
    let mut repo = InMemoryStateRepository::new().with_state(
        "foo",
        State::new(
            &SlugValue::parse("foo").expect("valid slug"),
            DateValue::parse("today", "2025-01-01").expect("valid date"),
        )
        .expect("valid slug"),
    );
    let mut git = FakeGit::new().with_default_branch("main");

    let result = heist_cli::app::worktree::add(
        ".",
        &mut repo,
        &mut git,
        &mut FakeWorktreeFs,
        &mut fixed_clock(),
        &SlugValue::parse("foo").expect("valid slug"),
        None,
    );

    assert!(result.is_ok());
    assert_eq!(
        git.add_worktree_start_points(),
        vec!["origin/main".to_string()]
    );
}

