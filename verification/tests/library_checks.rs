use heist_cli::adapters::testing::{
    FakeGit, FixedClock, InMemoryStateRepository, InMemoryValidationSource,
};
use heist_cli::app::base::{classify_pr, BaseResolution, ResolveError};
use heist_cli::app::state::apply_incr;
use heist_cli::app::sync::{perform, SyncAction, SyncError};
use heist_cli::app::worktree::{check_base_unchanged, merge_gate, AddError, RemoveError};
use heist_cli::cli::exit_code::ExitCode;
use heist_cli::cli::outcome::{doctor_exit, sync_exit};
use heist_cli::app::doctor::ToolStatus;
use heist_cli::domain::error::StateError;
use heist_cli::domain::state::State;
use heist_cli::domain::testing::valid;
use heist_cli::domain::tool::Tool;
use heist_cli::domain::validation::{
    check_validation_exists, dirs_below, parse_sections, resolve_validation, resolve_validations,
    ParseError, ValidationError,
};
use heist_cli::domain::value::{DateValue, NonBlankValue, SlugValue};
use heist_cli::domain::worktree::{branch_name, worktree_path};
use heist_cli::ports::git::{GitError, GitRepository, MergeCheck, PrState};
use heist_cli::ports::state_repository::StateRepository;

const ROOT_VALIDATION: &str = "## Build\nroot build\n\n## Lint\nroot lint\n\n## Test\nroot test\n";
const LEAF_VALIDATION: &str = "## build\nleaf build\n";

fn source() -> InMemoryValidationSource {
    InMemoryValidationSource::new("/repo")
        .with_validation("/repo", ROOT_VALIDATION)
        .with_validation("/repo/sub", LEAF_VALIDATION)
}

#[test]
fn worktree_paths_and_branches_are_named_after_the_slug() {
    assert_eq!(worktree_path("/repo", "foo"), "/repo/.worktrees/foo");
    assert_eq!(branch_name("foo").unwrap().as_str(), "heist/foo");
}

#[test]
fn candidate_directories_run_from_the_root_down() {
    let dirs = dirs_below("/repo", "/repo/a/b", "/repo/a/b/x.md").unwrap();
    assert_eq!(dirs, vec!["/repo", "/repo/a", "/repo/a/b"]);
    match dirs_below("/repo", "/elsewhere", "/elsewhere/x.md") {
        Err(ValidationError::PathOutsideProject { requested, project_root }) => {
            assert_eq!(requested, "/elsewhere/x.md");
            assert_eq!(project_root, "/repo");
        }
        other => panic!("expected PathOutsideProject, got {:?}", other),
    }
}

#[test]
fn one_path_renders_the_merged_sections_in_order() {
    let mut src = source();
    let out = resolve_validation(&mut src, "/repo/sub/file.rs").unwrap();
    assert_eq!(out, "## Build\nleaf build\n\n## Lint\nroot lint\n\n## Test\nroot test\n");
}

#[test]
fn several_paths_render_one_block_per_scope_sorted_by_scope() {
    let mut src = source();
    let paths = vec!["/repo/sub/file.rs".to_string(), "/repo/top.rs".to_string()];
    let out = resolve_validations(&mut src, &paths).unwrap();
    assert_eq!(
        out,
        "### .\n\n## Build\nroot build\n\n## Lint\nroot lint\n\n## Test\nroot test\n\n\
### sub\n\n## Build\nleaf build\n\n## Lint\nroot lint\n\n## Test\nroot test\n\n"
    );
}

#[test]
fn a_chain_without_required_sections_or_files_is_refused() {
    let mut src = InMemoryValidationSource::new("/repo").with_validation("/repo", "## Notes\nn\n");
    match resolve_validation(&mut src, "/repo/x.rs") {
        Err(ValidationError::Other(m)) => assert_eq!(m, "missing required section(s): Build, Lint, Test"),
        other => panic!("expected a missing-sections error, got {:?}", other),
    }
    let mut empty = InMemoryValidationSource::new("/repo");
    match resolve_validation(&mut empty, "/repo/x.rs") {
        Err(ValidationError::Other(m)) => assert_eq!(m, "no validation.md files found"),
        other => panic!("expected no files found, got {:?}", other),
    }
    assert_eq!(check_validation_exists(&mut empty, "/repo/x.rs").unwrap(), false);
    assert_eq!(check_validation_exists(&mut source(), "/repo/sub/x.rs").unwrap(), true);
}

#[test]
fn headings_and_bullets_are_normalized() {
    let s = parse_sections("## BUILD\nfirst\n  * item\n##   notes  \nsee\n").unwrap();
    assert_eq!(s.keys(), vec!["Build".to_string(), "Notes".to_string()]);
    assert_eq!(s.get("Build").unwrap(), "first\n  - item");
    assert_eq!(s.get("Notes").unwrap(), "see");
    let err = parse_sections("##Build\n").unwrap_err();
    assert_eq!(err.message(), "malformed heading on line 1: ##Build");
    assert_eq!(ParseError::new("boom").message(), "boom");
}

#[test]
fn error_messages_name_their_inputs() {
    assert_eq!(
        GitError::RefResolve { ref_spec: "x".into(), message: "gone".into() }.message(),
        "base ref 'x' not found: gone"
    );
    assert_eq!(
        GitError::WorktreeAdd { subtype: "exists".into(), message: "m".into() }.message(),
        "exists: m"
    );
    assert_eq!(
        ValidationError::PathNotAbsolute { path: "a/b".into() }.message(),
        "path a/b must be absolute"
    );
    assert_eq!(StateError::Missing.message(), "state file missing");
    assert_eq!(GitError::Diff { message: "d".into() }.exit_code(), ExitCode::Git);
}

#[test]
fn exit_codes_have_their_numbers() {
    assert_eq!(ExitCode::Success.code(), 0);
    assert_eq!(ExitCode::Internal.code(), 1);
    assert_eq!(ExitCode::Precondition.code(), 2);
    assert_eq!(ExitCode::Git.code(), 3);
    assert_eq!(ExitCode::AbandonedBase.code(), 5);
    let abandoned: Result<SyncAction, SyncError> = Err(SyncError::Abandoned { base_ref: "b".into() });
    assert_eq!(sync_exit(&abandoned), ExitCode::AbandonedBase);
    let statuses = vec![
        ToolStatus { tool: Tool::Git, available: true },
        ToolStatus { tool: Tool::Gh, available: false },
    ];
    assert_eq!(doctor_exit(&statuses), ExitCode::Precondition);
    assert_eq!(doctor_exit(&vec![]), ExitCode::Success);
}

#[test]
fn pull_request_state_decides_the_base() {
    let base = || NonBlankValue::parse("base", "heist/p").unwrap();
    assert!(matches!(classify_pr(base(), true, Ok(PrState::Merged)), Ok(BaseResolution::Expired { .. })));
    assert!(matches!(classify_pr(base(), false, Ok(PrState::ClosedUnmerged)), Ok(BaseResolution::Abandoned { .. })));
    assert!(matches!(classify_pr(base(), true, Ok(PrState::NoPr)), Ok(BaseResolution::Live { .. })));
    assert!(matches!(classify_pr(base(), false, Ok(PrState::Open)), Err(ResolveError::RefMissingWithOpenPr { .. })));
    let failed = || Err(GitError::CommandFailed { command: "gh".into(), message: "down".into() });
    match classify_pr(base(), true, failed()) {
        Err(ResolveError::VerificationFailed { base_ref, message }) => {
            assert_eq!(base_ref, "heist/p");
            assert_eq!(message, "failed to run gh: down");
        }
        _ => panic!("expected VerificationFailed"),
    }
    assert!(matches!(classify_pr(base(), false, failed()), Err(ResolveError::Ambiguous { .. })));
}

#[test]
fn perform_runs_the_one_git_step_its_resolution_calls_for() {
    let mut git = FakeGit::new().with_default_branch("trunk");
    let action = perform(".", &mut git, "trunk", &BaseResolution::Null).unwrap();
    assert!(matches!(action, SyncAction::RebasedOntoMain { ref onto } if onto == "origin/trunk"));
    let live = BaseResolution::Live { base_ref: NonBlankValue::parse("base", "heist/p").unwrap() };
    perform(".", &mut git, "trunk", &live).unwrap();
    assert_eq!(git.rebase_calls(), vec!["origin/trunk".to_string()]);
    assert_eq!(git.merge_calls(), vec!["heist/p".to_string()]);
    assert_eq!(git.call_log(), vec!["rebase".to_string(), "merge".to_string()]);
    let mut failing = FakeGit::new().failing_merge(GitError::Merge { message: "conflict".into() });
    let expired = BaseResolution::Expired { base_ref: NonBlankValue::parse("base", "heist/p").unwrap() };
    assert!(matches!(perform(".", &mut failing, "main", &expired), Err(SyncError::Git(_))));
}

#[test]
fn gates_of_add_and_remove() {
    let existing = Some(NonBlankValue::parse("base", "heist/a").unwrap());
    assert!(check_base_unchanged(&existing, "heist/a").is_ok());
    match check_base_unchanged(&existing, "heist/b") {
        Err(AddError::BaseImmutable { existing, requested }) => {
            assert_eq!(existing, Some("heist/a".to_string()));
            assert_eq!(requested, "heist/b");
        }
        _ => panic!("expected BaseImmutable"),
    }
    assert!(merge_gate(Ok(MergeCheck::Merged), "heist/a", "main").is_ok());
    match merge_gate(Ok(MergeCheck::NotMerged { verification_error: None }), "heist/a", "main") {
        Err(RemoveError::NotMerged { branch, main_branch, verification_error }) => {
            assert_eq!(branch, "heist/a");
            assert_eq!(main_branch, "main");
            assert_eq!(verification_error, None);
        }
        _ => panic!("expected NotMerged"),
    }
}

#[test]
fn incrementing_reads_back_the_next_number() {
    let slug = SlugValue::parse("foo").unwrap();
    let mut state = State::new(&slug, valid::date("2026-01-01")).unwrap();
    state.set_field("fence_rounds", "4").unwrap();
    apply_incr(&mut state, "fence_rounds", valid::date("2026-01-03")).unwrap();
    assert_eq!(state.get_field("fence_rounds").unwrap(), "5");
    assert_eq!(state.get_field("updated").unwrap(), "2026-01-03");
}

#[test]
fn dates_follow_the_calendar() {
    assert!(DateValue::parse("d", "2026-02-28").is_ok());
    assert!(DateValue::parse("d", "2026-02-30").is_err());
    assert!(valid::date_if_valid("2026-13-01").is_none());
}

#[test]
fn in_memory_repositories_answer_from_what_they_hold() {
    let mut repo = InMemoryStateRepository::new()
        .with_state("zeta", State::new(&SlugValue::parse("zeta").unwrap(), valid::date("2026-01-01")).unwrap())
        .with_state("alpha", State::new(&SlugValue::parse("alpha").unwrap(), valid::date("2026-01-01")).unwrap());
    let slugs: Vec<String> = repo.list_slugs().unwrap().iter().map(|s| s.to_owned_string()).collect();
    assert_eq!(slugs, vec!["alpha".to_string(), "zeta".to_string()]);
    assert!(matches!(repo.load(&SlugValue::parse("ghost").unwrap()), Err(StateError::Missing)));

    let mut git = FakeGit::new().with_ancestor("a", "b").with_pr_state("x", PrState::Open);
    let a = valid::ref_value("a");
    let b = valid::ref_value("b");
    assert_eq!(git.is_ancestor(".", &a, &b).unwrap(), true);
    assert_eq!(git.is_ancestor(".", &b, &a).unwrap(), false);
    assert_eq!(git.is_ancestor_call_count(), 2);
    assert_eq!(git.pr_state(".", &valid::ref_value("x")).unwrap(), PrState::Open);
    assert_eq!(git.pr_state(".", &valid::ref_value("y")).unwrap(), PrState::NoPr);
    let _clock = FixedClock(valid::date("2026-01-01"));
}

#[test]
fn first_form_state_starts_at_casing() {
    let s = heist_cli::state::State::new("my-slug", "2026-01-01");
    assert_eq!(s.schema_version, 1);
    assert_eq!(s.stage.as_str(), "casing");
    assert_eq!(heist_cli::state::Stage::FenceReview.as_str(), "fence_review");
    assert_eq!(s.created, "2026-01-01");
}
