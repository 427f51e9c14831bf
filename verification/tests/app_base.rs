use heist_cli::adapters::testing::{FakeGit, InMemoryStateRepository};
use heist_cli::app::base::{resolve, BaseResolution, ResolveError};
use heist_cli::domain::state::State;
use heist_cli::domain::value::{DateValue, NonBlankValue, SlugValue};
use heist_cli::ports::git::{GitError, PrState};


fn test_state(slug: &SlugValue) -> State {
    let today = DateValue::parse("today", "2026-01-01").expect("valid date");
    State::new(slug, today).expect("valid slug")
}

#[test]
fn resolve_skips_ancestry_check_when_ref_missing_and_asks_gh_directly() {
    let mut state = test_state(&SlugValue::parse("foo").expect("valid slug"));
    state.base = Some(NonBlankValue::parse("base", "heist/piece-01").expect("valid base"));

    let mut repo = InMemoryStateRepository::new().with_state("foo", state);
    let mut git = FakeGit::new()
        .failing_resolve_ref_for(
            "heist/piece-01",
            GitError::MergeCheck {
                message: "missing".into(),
            },
        )
        .with_pr_state("heist/piece-01", PrState::Merged);

    let result = resolve(
        ".",
        &mut repo,
        &mut git,
        &SlugValue::parse("foo").expect("valid slug"),
    );

    assert!(matches!(result, Ok(BaseResolution::Expired { .. })));
    assert_eq!(git.is_ancestor_call_count(), 0);
}

#[test]
fn resolve_returns_null_when_state_base_is_none() {
    let state = test_state(&SlugValue::parse("foo").expect("valid slug"));
    let mut repo = InMemoryStateRepository::new().with_state("foo", state);
    let mut git = FakeGit::new();

    let result = resolve(
        ".",
        &mut repo,
        &mut git,
        &SlugValue::parse("foo").expect("valid slug"),
    );

    assert!(matches!(result, Ok(BaseResolution::Null)));
}

#[test]
fn resolve_returns_expired_when_ref_resolves_and_is_ancestor_of_main() {
    let mut state = test_state(&SlugValue::parse("foo").expect("valid slug"));
    state.base = Some(NonBlankValue::parse("base", "heist/piece-01").expect("valid base"));

    let mut repo = InMemoryStateRepository::new().with_state("foo", state);
    let mut git = FakeGit::new()
        .with_default_branch("main")
        .with_ancestor("heist/piece-01", "origin/main");

    let result = resolve(
        ".",
        &mut repo,
        &mut git,
        &SlugValue::parse("foo").expect("valid slug"),
    );

    assert!(matches!(result, Ok(BaseResolution::Expired { .. })));
}

#[test]
fn resolve_returns_expired_when_gh_reports_merged() {
    let mut state = test_state(&SlugValue::parse("foo").expect("valid slug"));
    state.base = Some(NonBlankValue::parse("base", "heist/piece-01").expect("valid base"));

    let mut repo = InMemoryStateRepository::new().with_state("foo", state);
    let mut git = FakeGit::new().with_pr_state("heist/piece-01", PrState::Merged);

    let result = resolve(
        ".",
        &mut repo,
        &mut git,
        &SlugValue::parse("foo").expect("valid slug"),
    );

    assert!(matches!(result, Ok(BaseResolution::Expired { .. })));
}

#[test]
fn resolve_returns_abandoned_when_gh_reports_closed_unmerged() {
    let mut state = test_state(&SlugValue::parse("foo").expect("valid slug"));
    state.base = Some(NonBlankValue::parse("base", "heist/piece-01").expect("valid base"));

    let mut repo = InMemoryStateRepository::new().with_state("foo", state);
    let mut git = FakeGit::new().with_pr_state("heist/piece-01", PrState::ClosedUnmerged);

    let result = resolve(
        ".",
        &mut repo,
        &mut git,
        &SlugValue::parse("foo").expect("valid slug"),
    );

    assert!(matches!(result, Ok(BaseResolution::Abandoned { .. })));
}

#[test]
fn resolve_returns_live_when_ref_resolves_and_gh_reports_open() {
    let mut state = test_state(&SlugValue::parse("foo").expect("valid slug"));
    state.base = Some(NonBlankValue::parse("base", "heist/piece-01").expect("valid base"));

    let mut repo = InMemoryStateRepository::new().with_state("foo", state);
    let mut git = FakeGit::new().with_pr_state("heist/piece-01", PrState::Open);

    let result = resolve(
        ".",
        &mut repo,
        &mut git,
        &SlugValue::parse("foo").expect("valid slug"),
    );

    assert!(matches!(result, Ok(BaseResolution::Live { .. })));
}

#[test]
fn resolve_errors_ref_missing_with_open_pr() {
    let mut state = test_state(&SlugValue::parse("foo").expect("valid slug"));
    state.base = Some(NonBlankValue::parse("base", "heist/piece-01").expect("valid base"));

    let mut repo = InMemoryStateRepository::new().with_state("foo", state);
    let mut git = FakeGit::new()
        .failing_resolve_ref_for(
            "heist/piece-01",
            GitError::MergeCheck {
                message: "missing".into(),
            },
        )
        .with_pr_state("heist/piece-01", PrState::Open);

    let result = resolve(
        ".",
        &mut repo,
        &mut git,
        &SlugValue::parse("foo").expect("valid slug"),
    );

    assert!(matches!(
        result,
        Err(ResolveError::RefMissingWithOpenPr { .. })
    ));
}

#[test]
fn resolve_errors_ref_missing_no_pr_when_ref_gone_and_no_pr_exists() {
    let mut state = test_state(&SlugValue::parse("foo").expect("valid slug"));
    state.base = Some(NonBlankValue::parse("base", "heist/piece-01").expect("valid base"));

    let mut repo = InMemoryStateRepository::new().with_state("foo", state);
    // Ref does not resolve, and no PR was ever found (FakeGit's default
    // pr_state is `None`).
    let mut git = FakeGit::new().failing_resolve_ref_for(
        "heist/piece-01",
        GitError::RefResolve {
            ref_spec: "heist/piece-01".into(),
            message: "not found".into(),
        },
    );

    let result = resolve(
        ".",
        &mut repo,
        &mut git,
        &SlugValue::parse("foo").expect("valid slug"),
    );

    assert!(matches!(result, Err(ResolveError::RefMissingNoPr { .. })));
}

#[test]
fn resolve_errors_verification_failed_when_gh_fails_even_if_ref_exists() {
    let mut state = test_state(&SlugValue::parse("foo").expect("valid slug"));
    state.base = Some(NonBlankValue::parse("base", "heist/piece-01").expect("valid base"));

    let mut repo = InMemoryStateRepository::new().with_state("foo", state);
    let mut git = FakeGit::new().failing_pr_state_for(
        "heist/piece-01",
        GitError::CommandFailed {
            command: "gh pr list".into(),
            message: "gh not found".into(),
        },
    );

    let result = resolve(
        ".",
        &mut repo,
        &mut git,
        &SlugValue::parse("foo").expect("valid slug"),
    );

    match result {
        Err(ResolveError::VerificationFailed { base_ref, message }) => {
            assert_eq!(base_ref, "heist/piece-01");
            assert!(
                message.contains("gh not found"),
                "expected message to mention the underlying failure, got: {}",
                message
            );
        }
        _ => panic!("expected VerificationFailed"),
    }
}

#[test]
fn resolve_errors_ambiguous_when_ref_missing_and_gh_unavailable() {
    let mut state = test_state(&SlugValue::parse("foo").expect("valid slug"));
    state.base = Some(NonBlankValue::parse("base", "heist/piece-01").expect("valid base"));

    let mut repo = InMemoryStateRepository::new().with_state("foo", state);
    let mut git = FakeGit::new()
        .failing_resolve_ref_for(
            "heist/piece-01",
            GitError::MergeCheck {
                message: "missing".into(),
            },
        )
        .failing_pr_state_for(
            "heist/piece-01",
            GitError::CommandFailed {
                command: "gh pr list".into(),
                message: "gh not found".into(),
            },
        );

    let result = resolve(
        ".",
        &mut repo,
        &mut git,
        &SlugValue::parse("foo").expect("valid slug"),
    );

    assert!(matches!(result, Err(ResolveError::Ambiguous { .. })));
}

