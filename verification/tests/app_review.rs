use heist_cli::adapters::testing::{FakeGit, InMemoryStateRepository};
use heist_cli::app::review::{select, SelectError};
use heist_cli::domain::error::StateError;
use heist_cli::domain::review::Lane;
use heist_cli::domain::state::State;
use heist_cli::domain::value::{DateValue, NonBlankValue, SlugValue};
use heist_cli::ports::git::GitError;


fn fixed_date() -> DateValue {
    DateValue::parse("today", "2026-01-01").expect("valid date")
}

#[test]
fn missing_state_is_no_state_error() {
    let mut repo = InMemoryStateRepository::new();
    let mut git = FakeGit::new();

    let err =
        select(".", &mut repo, &mut git, &SlugValue::parse("foo").expect("valid slug")).expect_err("should fail without state");
    assert!(matches!(err, SelectError::NoState));
}

#[test]
fn state_without_branch_is_no_branch_error() {
    let mut repo = InMemoryStateRepository::new()
        .with_state("foo", State::new(&SlugValue::parse("foo").expect("valid slug"), fixed_date()).expect("valid slug"));
    let mut git = FakeGit::new();

    let err =
        select(".", &mut repo, &mut git, &SlugValue::parse("foo").expect("valid slug")).expect_err("should fail without branch");
    assert!(matches!(err, SelectError::NoBranch));
}

#[test]
fn no_changed_files_selects_intent_only() {
    let mut state = State::new(&SlugValue::parse("foo").expect("valid slug"), fixed_date()).expect("valid slug");
    state.branch = Some(NonBlankValue::parse("branch", "heist/foo").expect("valid branch"));
    let mut repo = InMemoryStateRepository::new().with_state("foo", state);
    let mut git = FakeGit::new().with_default_branch("main");

    let lanes = select(".", &mut repo, &mut git, &SlugValue::parse("foo").expect("valid slug")).expect("select should succeed");
    assert_eq!(lanes, vec![Lane::Intent]);
}

#[test]
fn rust_file_change_selects_all_gated_lanes() {
    let mut state = State::new(&SlugValue::parse("foo").expect("valid slug"), fixed_date()).expect("valid slug");
    state.branch = Some(NonBlankValue::parse("branch", "heist/foo").expect("valid branch"));
    let mut repo = InMemoryStateRepository::new().with_state("foo", state);
    let mut git = FakeGit::new()
        .with_default_branch("main")
        .with_changed_paths(&["src/lib.rs"]);

    let lanes = select(".", &mut repo, &mut git, &SlugValue::parse("foo").expect("valid slug")).expect("select should succeed");
    assert_eq!(
        lanes,
        vec![
            Lane::Intent,
            Lane::Coverage,
            Lane::Quality,
            Lane::Simplicity,
            Lane::Rust
        ]
    );
}

#[test]
fn corrupt_state_is_load_error() {
    let mut repo = InMemoryStateRepository::new()
        .with_load_error("foo", StateError::Unparseable("expected value at line 1 column 1".to_string()));
    let mut git = FakeGit::new();

    let err =
        select(".", &mut repo, &mut git, &SlugValue::parse("foo").expect("valid slug")).expect_err("should fail to load state");
    assert!(matches!(err, SelectError::Load(StateError::Unparseable(_))));
}


#[test]
fn unresolvable_remote_default_is_no_remote_default_error() {
    let mut state = State::new(&SlugValue::parse("foo").expect("valid slug"), fixed_date()).expect("valid slug");
    state.branch = Some(NonBlankValue::parse("branch", "heist/foo").expect("valid branch"));
    let mut repo = InMemoryStateRepository::new().with_state("foo", state);
    let mut git = FakeGit::new()
        .with_default_branch("main")
        .failing_remote_default_resolve(GitError::MergeCheck {
            message: "no origin/main".into(),
        });

    let err = select(".", &mut repo, &mut git, &SlugValue::parse("foo").expect("valid slug"))
        .expect_err("should fail when origin/<default> doesn't resolve");
    assert!(matches!(err, SelectError::NoRemoteDefault(_)));
}

#[test]
fn git_failure_propagates_as_git_error() {
    let mut state = State::new(&SlugValue::parse("foo").expect("valid slug"), fixed_date()).expect("valid slug");
    state.branch = Some(NonBlankValue::parse("branch", "heist/foo").expect("valid branch"));
    let mut repo = InMemoryStateRepository::new().with_state("foo", state);
    let mut git = FakeGit::new()
        .with_default_branch("main")
        .failing_changed_paths(GitError::Diff {
            message: "bad ref".into(),
        });

    let err =
        select(".", &mut repo, &mut git, &SlugValue::parse("foo").expect("valid slug")).expect_err("should propagate git error");
    assert!(matches!(err, SelectError::Git(_)));
}

