use heist_cli::adapters::testing::{
    FakeGit, FakeWorktreeFs, FixedClock, InMemoryHeistDirRepository, InMemoryStateRepository,
};
use heist_cli::app::begin::{begin, BeginError, CollisionArtifact};
use heist_cli::domain::error::StateError;
use heist_cli::domain::state::{Mode, Stage, State};
use heist_cli::domain::value::{DateValue, SlugValue};
use heist_cli::ports::state_repository::StateRepository;
use heist_cli::ports::worktree_fs::WorktreeFs;

fn fixed_clock() -> FixedClock {
    FixedClock(DateValue::parse("today", "2026-01-01").expect("valid date"))
}

/// Fails the fourth write (init, mode set, worktree add, stage set), so the
/// rollback after the trailing stage set is exercised.
struct FailAfterModeStateRepository {
    inner: InMemoryStateRepository,
    set_calls: u32,
    writes: Vec<(String, State, bool)>,
    loads: Vec<(String, Option<State>)>,
}

impl FailAfterModeStateRepository {
    fn count(&mut self) -> u32 {
        let call = self.set_calls;
        self.set_calls = call + 1;
        call
    }
}

impl StateRepository for FailAfterModeStateRepository {
    fn writes(&self) -> Vec<(String, State, bool)> {
        self.writes.iter().map(|(s, st, ok)| (s.clone(), st.duplicate(), *ok)).collect()
    }
    fn loads(&self) -> Vec<(String, Option<State>)> {
        self.loads.iter().map(|(s, st)| (s.clone(), st.as_ref().map(State::duplicate))).collect()
    }
    fn has_state(&mut self, slug: &SlugValue) -> bool {
        self.inner.has_state(slug)
    }
    fn init(&mut self, slug: &SlugValue, state: &State) -> Result<(), StateError> {
        self.count();
        let r = self.inner.init(slug, state);
        self.writes.push((slug.as_str().to_string(), state.duplicate(), r.is_ok()));
        r
    }
    fn load(&mut self, slug: &SlugValue) -> Result<State, StateError> {
        let r = self.inner.load(slug);
        self.loads.push((slug.as_str().to_string(), r.as_ref().ok().map(State::duplicate)));
        r
    }
    fn save(&mut self, slug: &SlugValue, state: &State) -> Result<(), StateError> {
        let r = if self.count() == 3 {
            Err(StateError::Unreadable("simulated stage-save failure".to_string()))
        } else {
            self.inner.save(slug, state)
        };
        self.writes.push((slug.as_str().to_string(), state.duplicate(), r.is_ok()));
        r
    }
    fn list_slugs(&mut self) -> Result<Vec<SlugValue>, StateError> {
        self.inner.list_slugs()
    }
}

struct FailingLinkFs;

impl WorktreeFs for FailingLinkFs {
    fn ensure_worktrees_ignored(&mut self, _repo_root: &str) -> Result<bool, String> {
        Ok(false)
    }
    fn link_heist_dir(&mut self, _repo_root: &str, _worktree_path: &str, _slug: &str) -> Result<(), String> {
        Err("link failed".to_string())
    }
    fn canonicalize(&mut self, path: &str) -> Result<String, String> {
        Ok(path.to_string())
    }
}

#[test]
fn begin_happy_path_composes_init_mode_worktree_and_stage() {
    let mut heist_dir_repo = InMemoryHeistDirRepository::new();
    let mut repo = InMemoryStateRepository::new();
    let mut git = FakeGit::new().with_default_branch("main");

    let result = begin(
        ".",
        &mut heist_dir_repo,
        &mut repo,
        &mut git,
        &mut FakeWorktreeFs,
        &mut fixed_clock(),
        "my-slug",
        Mode::Medium,
        None,
    );

    assert!(result.is_ok(), "begin should succeed");
    let state = repo.get("my-slug").expect("state should exist");
    assert_eq!(state.mode, Mode::Medium);
    assert_eq!(state.stage, Stage::Planning);
    assert!(state.worktree.is_some());
    assert!(state.branch.is_some());
}

#[test]
fn begin_rejects_malformed_slug_before_any_mutation() {
    let mut heist_dir_repo = InMemoryHeistDirRepository::new();
    let mut repo = InMemoryStateRepository::new();
    let mut git = FakeGit::new().with_default_branch("main");

    let result = begin(
        ".",
        &mut heist_dir_repo,
        &mut repo,
        &mut git,
        &mut FakeWorktreeFs,
        &mut fixed_clock(),
        "Not A Slug",
        Mode::Heavy,
        None,
    );

    assert!(matches!(result, Err(BeginError::InvalidSlug(_))));
    assert!(repo.get("Not A Slug").is_none());
    assert!(!heist_dir_repo.has_dir("Not A Slug"));
}

#[test]
fn begin_rejects_precheck_collision_for_existing_state_worktree_or_branch() {
    let mut repo_with_state = InMemoryStateRepository::new().with_state(
        "foo",
        State::new(
            &SlugValue::parse("foo").expect("valid slug"),
            DateValue::parse("today", "2026-01-01").expect("valid date"),
        )
        .expect("valid slug"),
    );
    let mut heist_dir_repo = InMemoryHeistDirRepository::new();
    let mut git = FakeGit::new().with_default_branch("main");
    let result = begin(
        ".",
        &mut heist_dir_repo,
        &mut repo_with_state,
        &mut git,
        &mut FakeWorktreeFs,
        &mut fixed_clock(),
        "foo",
        Mode::Heavy,
        None,
    );
    assert!(matches!(
        result,
        Err(BeginError::Collision(CollisionArtifact::State))
    ));

    let mut repo_no_state = InMemoryStateRepository::new();
    let mut git_worktree_collision = FakeGit::new()
        .with_default_branch("main")
        .with_existing_worktree("bar");
    let result = begin(
        ".",
        &mut heist_dir_repo,
        &mut repo_no_state,
        &mut git_worktree_collision,
        &mut FakeWorktreeFs,
        &mut fixed_clock(),
        "bar",
        Mode::Heavy,
        None,
    );
    assert!(matches!(
        result,
        Err(BeginError::Collision(CollisionArtifact::Worktree))
    ));

    let mut git_branch_collision = FakeGit::new()
        .with_default_branch("main")
        .with_branch("heist/baz");
    let result = begin(
        ".",
        &mut heist_dir_repo,
        &mut repo_no_state,
        &mut git_branch_collision,
        &mut FakeWorktreeFs,
        &mut fixed_clock(),
        "baz",
        Mode::Heavy,
        None,
    );
    assert!(matches!(
        result,
        Err(BeginError::Collision(CollisionArtifact::Branch))
    ));
}

#[test]
fn begin_rolls_back_state_dir_when_stage_set_fails_after_worktree_creation() {
    let mut heist_dir_repo = InMemoryHeistDirRepository::new();
    let mut repo = FailAfterModeStateRepository {
        inner: InMemoryStateRepository::new(),
        set_calls: 0,
        writes: Vec::new(),
        loads: Vec::new(),
    };
    let mut git = FakeGit::new().with_default_branch("main");

    let result = begin(
        ".",
        &mut heist_dir_repo,
        &mut repo,
        &mut git,
        &mut FakeWorktreeFs,
        &mut fixed_clock(),
        "foo",
        Mode::Heavy,
        None,
    );

    assert!(matches!(result, Err(BeginError::State { .. })));
    assert!(
        !heist_dir_repo.has_dir("foo"),
        "heist dir should be rolled back"
    );
    assert_eq!(
        git.removed_worktree_paths().len(),
        1,
        "worktree created before the stage-set failure must be rolled back"
    );
    assert_eq!(git.deleted_branch_names(), vec!["heist/foo".to_string()]);
}

#[test]
fn begin_rolls_back_worktree_and_branch_when_a_later_step_fails() {
    let mut heist_dir_repo = InMemoryHeistDirRepository::new();
    let mut repo = InMemoryStateRepository::new();
    let mut git = FakeGit::new().with_default_branch("main");

    let result = begin(
        ".",
        &mut heist_dir_repo,
        &mut repo,
        &mut git,
        &mut FailingLinkFs,
        &mut fixed_clock(),
        "foo",
        Mode::Heavy,
        None,
    );

    assert!(matches!(result, Err(BeginError::Worktree { .. })));
    assert_eq!(git.removed_worktree_paths().len(), 1);
    assert_eq!(git.deleted_branch_names(), vec!["heist/foo".to_string()]);
    assert!(
        !heist_dir_repo.has_dir("foo"),
        "heist dir should be rolled back"
    );
}

#[test]
fn collision_artifacts_describe_what_exists() {
    assert_eq!(CollisionArtifact::State.describe("foo"), ".heist/foo/");
    assert_eq!(CollisionArtifact::Worktree.describe("foo"), ".worktrees/foo");
    assert_eq!(CollisionArtifact::Branch.describe("foo"), "branch heist/foo");
}
