use heist_cli::adapters::testing::{FixedClock, InMemoryStateRepository};
use heist_cli::app::score::{check, record, wave, CheckError, WaveError};
use heist_cli::domain::state::State;
use heist_cli::domain::value::{DateValue, SlugValue};

const VALID_SCORE: &str = "\
## Wave 1

### Step 1: add widget
- **Wave**: 1
- **Files**: /tmp/a.rs
- **Change**: add widget.
- **Verify**: cargo build
- Depends on: none
";

const MALFORMED_SCORE: &str = "\
## Wave 1

### Step 1: add widget
- **Wave**: 1
- **Change**: add widget.
- **Verify**: cargo build
- Depends on: none
";

fn fixed_date() -> DateValue {
    DateValue::parse("today", "2026-01-01").expect("valid date")
}

fn foo() -> SlugValue {
    SlugValue::parse("foo").expect("valid slug")
}

fn states() -> InMemoryStateRepository {
    InMemoryStateRepository::new().with_state("foo", State::new(&foo(), fixed_date()).expect("valid slug"))
}

#[test]
fn check_returns_steps_and_waves_for_a_valid_score() {
    let mut repo = states();
    let mut scores = InMemoryStateRepository::new().with_score("foo", VALID_SCORE);

    let outcome = check(&mut repo, &mut scores, &foo()).expect("should check ok");
    assert_eq!(outcome.steps, 1);
    assert_eq!(outcome.waves, 1);
}

#[test]
fn check_returns_findings_for_a_malformed_score() {
    let mut repo = states();
    let mut scores = InMemoryStateRepository::new().with_score("foo", MALFORMED_SCORE);

    let err = check(&mut repo, &mut scores, &foo()).expect_err("should fail");
    match err {
        CheckError::Findings(findings) => assert!(!findings.is_empty()),
        _ => panic!("expected CheckError::Findings"),
    }
}

#[test]
fn record_persists_totals_and_bumps_updated() {
    let mut repo = states();
    let mut scores = InMemoryStateRepository::new().with_score("foo", VALID_SCORE);
    let today = DateValue::parse("today", "2026-01-02").expect("valid date");
    let mut clock = FixedClock(DateValue::parse("today", "2026-01-02").expect("valid date"));

    let outcome = record(&mut repo, &mut scores, &mut clock, &foo()).expect("should record ok");
    assert_eq!(outcome.steps, 1);
    assert_eq!(outcome.waves, 1);

    let saved = repo.get("foo").expect("state should exist");
    assert_eq!(saved.score_steps_total.into_inner().to_string(), "1");
    assert_eq!(saved.score_waves_total.into_inner().to_string(), "1");
    assert_eq!(saved.updated, today);
}

const TWO_WAVE_SCORE: &str = "\
## Wave 1

### Step 1: add widget
- **Wave**: 1
- **Files**: /tmp/a.rs
- **Change**: add widget.
- **Verify**: cargo build
- Depends on: none

## Wave 2

### Step 2: wire widget
- **Wave**: 2
- **Files**: /tmp/b.rs
- **Change**: wire widget.
- **Verify**: cargo build
- Depends on: step 1
";

#[test]
fn wave_returns_numbered_blocks_and_no_such_wave_error() {
    let mut repo = states();
    let mut scores = InMemoryStateRepository::new().with_score("foo", TWO_WAVE_SCORE);

    let blocks = wave(&mut repo, &mut scores, &foo(), 1).expect("wave 1 should exist");
    assert_eq!(blocks.len(), 1);
    assert_eq!(blocks[0].0, 1);
    assert!(blocks[0].1.starts_with("### Step 1: add widget"));

    let err = wave(&mut repo, &mut scores, &foo(), 3).expect_err("wave 3 should not exist");
    match err {
        WaveError::NoSuchWave(3) => {}
        _ => panic!("expected WaveError::NoSuchWave(3)"),
    }
}

#[test]
fn score_commands_report_missing_state_score_and_read_failures() {
    let mut empty = InMemoryStateRepository::new();
    let mut scores = InMemoryStateRepository::new().with_score("foo", VALID_SCORE);
    assert!(matches!(check(&mut empty, &mut scores, &foo()), Err(CheckError::NoState)));

    let mut repo = states();
    let mut no_scores = InMemoryStateRepository::new();
    assert!(matches!(check(&mut repo, &mut no_scores, &foo()), Err(CheckError::NoScore)));

    let mut failing = InMemoryStateRepository::new().with_score_io_error("foo", "disk on fire");
    match check(&mut repo, &mut failing, &foo()) {
        Err(CheckError::Io(m)) => assert_eq!(m, "disk on fire"),
        _ => panic!("expected CheckError::Io"),
    }
}
