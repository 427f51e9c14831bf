use heist_cli::adapters::testing::{FixedClock, InMemoryHeistDirRepository, InMemoryStateRepository};
use heist_cli::app::state::{get, incr, init, GetError, IncrError, InitError, SetError};
use heist_cli::domain::error::{StateError, ValueError};
use heist_cli::domain::state::{Stage, State};
use heist_cli::domain::value::{DateValue, ScoreWave, SlugValue};

fn created_date() -> DateValue {
    DateValue::parse("today", "2026-01-01").expect("valid date")
}

fn today_date() -> DateValue {
    DateValue::parse("today", "2026-01-02").expect("valid date")
}

fn foo() -> SlugValue {
    SlugValue::parse("foo").expect("valid slug")
}

#[test]
fn incr_increments_numeric_field_and_bumps_updated() {
    let mut repo = InMemoryStateRepository::new().with_state(
        "foo",
        State::new(&foo(), created_date()).expect("valid slug"),
    );
    let mut clock = FixedClock(today_date());

    incr(&mut repo, &mut clock, &foo(), "score_wave").expect("incr should succeed");

    let state = repo.get("foo").expect("state should exist");
    assert_eq!(state.score_wave, ScoreWave::new(1));
    assert_eq!(state.updated, today_date());
}

#[test]
fn incr_rejects_non_numeric_field() {
    let mut repo = InMemoryStateRepository::new().with_state(
        "foo",
        State::new(&foo(), created_date()).expect("valid slug"),
    );
    let mut clock = FixedClock(today_date());

    let err = incr(&mut repo, &mut clock, &foo(), "stage").expect_err("should reject non-numeric field");
    match err {
        IncrError::Field(ValueError::NotIncrementable(field)) => assert_eq!(field, "stage"),
        _ => panic!("expected IncrError::Field(NotIncrementable), got a different variant"),
    }
}

#[test]
fn incr_rejects_unknown_field() {
    let mut repo = InMemoryStateRepository::new().with_state(
        "foo",
        State::new(&foo(), created_date()).expect("valid slug"),
    );
    let mut clock = FixedClock(today_date());

    let err =
        incr(&mut repo, &mut clock, &foo(), "bogus_field").expect_err("should reject unknown field");
    match err {
        IncrError::Field(ValueError::Unknown(field)) => assert_eq!(field, "bogus_field"),
        _ => panic!("expected IncrError::Field(Unknown), got a different variant"),
    }
}

#[test]
fn incr_rejects_overflow_at_u32_max() {
    let mut state = State::new(&foo(), created_date()).expect("valid slug");
    state
        .set_field("score_wave", &u32::MAX.to_string())
        .expect("u32::MAX is a valid score_wave value");
    let mut repo = InMemoryStateRepository::new().with_state("foo", state);
    let mut clock = FixedClock(today_date());

    let err = incr(&mut repo, &mut clock, &foo(), "score_wave")
        .expect_err("should reject increment past u32::MAX");
    match err {
        IncrError::Field(ValueError::InvalidNumeric { field, value }) => {
            assert_eq!(field, "score_wave");
            assert_eq!(value, u32::MAX.to_string());
        }
        _ => panic!("expected IncrError::Field(InvalidNumeric), got a different variant"),
    }

    let state = repo.get("foo").expect("state should exist");
    assert_eq!(
        state.score_wave,
        ScoreWave::new(u32::MAX),
        "state must be unchanged on overflow rejection"
    );
}

#[test]
fn init_creates_the_directory_and_a_fresh_state() {
    let mut dirs = InMemoryHeistDirRepository::new();
    let mut repo = InMemoryStateRepository::new();
    let mut clock = FixedClock(created_date());

    init(&mut dirs, &mut repo, &mut clock, "foo").expect("init should succeed");

    assert!(dirs.has_dir("foo"));
    let state = repo.get("foo").expect("state should exist");
    assert_eq!(state.stage, Stage::Casing);
    assert_eq!(state.created, created_date());
}

#[test]
fn init_refuses_an_existing_directory_and_an_invalid_slug() {
    let mut dirs = InMemoryHeistDirRepository::new().with_dir("foo");
    let mut repo = InMemoryStateRepository::new();
    let mut clock = FixedClock(created_date());

    let err = init(&mut dirs, &mut repo, &mut clock, "foo").expect_err("directory exists");
    assert!(matches!(err, InitError::Init(StateError::AlreadyExists)));
    assert!(repo.get("foo").is_none());

    let err = init(&mut dirs, &mut repo, &mut clock, "Bad Slug").expect_err("invalid slug");
    assert!(matches!(err, InitError::InvalidSlug(ValueError::InvalidValue { .. })));
}

#[test]
fn set_then_get_reads_back_the_value() {
    let mut repo = InMemoryStateRepository::new().with_state(
        "foo",
        State::new(&foo(), created_date()).expect("valid slug"),
    );
    let mut clock = FixedClock(today_date());

    heist_cli::app::state::set(&mut repo, &mut clock, &foo(), "stage", "forging").expect("set should succeed");
    assert_eq!(get(&mut repo, &foo(), "stage").expect("get"), "forging");
    assert_eq!(get(&mut repo, &foo(), "updated").expect("get"), "2026-01-02");

    let err = heist_cli::app::state::set(&mut repo, &mut clock, &foo(), "fence_rounds", "many").expect_err("not a number");
    assert!(matches!(err, SetError::Field(ValueError::InvalidNumeric { .. })));
    assert_eq!(get(&mut repo, &foo(), "fence_rounds").expect("get"), "0");

    let err = get(&mut repo, &foo(), "nope").expect_err("unknown field");
    assert!(matches!(err, GetError::Field(ValueError::Unknown(_))));

    let err = get(&mut repo, &SlugValue::parse("ghost").unwrap(), "stage").expect_err("no state");
    assert!(matches!(err, GetError::Load(StateError::Missing)));
}
