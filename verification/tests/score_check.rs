
use heist_cli::domain::score::{check, Score, Shape, Step};


fn valid_change_step(number: u32, wave: u32, enclosing_wave: u32, file: &str) -> Step {
    Step {
        number,
        title: format!("step {}", number),
        wave,
        enclosing_wave,
        files: vec![file.to_string()],
        shape: Shape::Change {
            change: "do the thing.".to_string(),
            verify: "cargo build".to_string(),
        },
        depends_on: Vec::new(),
        raw: format!("### Step {}: step {}\n", number, number),
    }
}

#[test]
fn check_check_flags_non_ascending_wave_headers() {
    let score = Score {
        steps: vec![
            valid_change_step(1, 2, 2, "/tmp/a.rs"),
            valid_change_step(2, 1, 1, "/tmp/b.rs"),
        ],
    };
    let findings = check(&score);
    assert!(
        findings.iter().any(|f| f.step == 2
            && f.message.to_lowercase().contains("wave")
            && f.message.to_lowercase().contains("ascending")),
        "expected a non-ascending-wave-header finding anchored to step 2, got: {:?}",
        findings
    );
}

#[test]
fn check_check_flags_wave_number_gap() {
    // Waves 1 and 3 present, wave 2 missing: `wheelman.md` loops
    // `1..=M` off the distinct-wave count, so a gap would make it
    // request a wave that doesn't exist.
    let score = Score {
        steps: vec![
            valid_change_step(1, 1, 1, "/tmp/a.rs"),
            valid_change_step(2, 3, 3, "/tmp/b.rs"),
        ],
    };
    let findings = check(&score);
    assert!(
        findings.iter().any(|f| f.step == 2
            && f.message.contains('2')
            && f.message.to_lowercase().contains("contiguous")),
        "expected a wave-gap finding anchored to step 2, got: {:?}",
        findings
    );
}

#[test]
fn check_check_flags_wave_numbering_not_starting_at_one() {
    let score = Score {
        steps: vec![valid_change_step(1, 2, 2, "/tmp/a.rs")],
    };
    let findings = check(&score);
    assert!(
        findings.iter().any(|f| f.step == 1
            && f.message.to_lowercase().contains("start")
            && f.message.to_lowercase().contains("wave")),
        "expected a wave-must-start-at-1 finding, got: {:?}",
        findings
    );
}

#[test]
fn check_check_flags_wave_field_mismatch_with_enclosing_header() {
    let score = Score {
        steps: vec![valid_change_step(1, 1, 2, "/tmp/a.rs")],
    };
    let findings = check(&score);
    assert!(
        findings.iter().any(|f| f.step == 1
            && f.message.contains('1')
            && f.message.contains('2')
            && f.message.to_lowercase().contains("wave")),
        "expected a Wave-field-mismatch finding for step 1 (wave=1, enclosing_wave=2), got: {:?}",
        findings
    );
}

#[test]
fn check_check_flags_duplicate_step_numbers() {
    let score = Score {
        steps: vec![
            valid_change_step(3, 1, 1, "/tmp/a.rs"),
            valid_change_step(3, 1, 1, "/tmp/b.rs"),
        ],
    };
    let findings = check(&score);
    assert!(
        findings
            .iter()
            .any(|f| f.step == 3 && f.message.to_lowercase().contains("duplicate")),
        "expected a duplicate-step-number finding, got: {:?}",
        findings
    );
}

#[test]
fn check_check_flags_dependency_on_nonexistent_step() {
    let mut step = valid_change_step(1, 1, 1, "/tmp/a.rs");
    step.depends_on = vec![99];
    let score = Score { steps: vec![step] };
    let findings = check(&score);
    assert!(
        findings.iter().any(|f| f.step == 1
            && f.message.contains("99")
            && f.message.to_lowercase().contains("not exist")),
        "expected a nonexistent-dependency finding, got: {:?}",
        findings
    );
}

#[test]
fn check_check_flags_dependency_not_in_strictly_lower_wave() {
    let mut first = valid_change_step(1, 2, 2, "/tmp/a.rs");
    let mut second = valid_change_step(2, 2, 2, "/tmp/b.rs");
    second.depends_on = vec![1];
    first.depends_on = Vec::new();
    let score = Score {
        steps: vec![first, second],
    };
    let findings = check(&score);
    assert!(
        findings.iter().any(|f| f.step == 2
            && f.message.contains('1')
            && f.message.to_lowercase().contains("lower")),
        "expected a not-strictly-lower-wave dependency finding, got: {:?}",
        findings
    );
}

#[test]
fn check_check_flags_shared_file_within_same_wave() {
    let mut first = valid_change_step(1, 1, 1, "/tmp/shared.rs");
    let mut second = valid_change_step(2, 1, 1, "/tmp/shared.rs");
    first.files = vec!["/tmp/shared.rs".to_string()];
    second.files = vec!["/tmp/shared.rs".to_string()];
    let score = Score {
        steps: vec![first, second],
    };
    let findings = check(&score);
    assert!(
        findings.iter().any(|f| f.step == 2
            && f.message.contains("/tmp/shared.rs")
            && f.message.contains('1')),
        "expected a file-disjointness finding naming the shared path and the other step, got: {:?}",
        findings
    );
}

#[test]
fn check_check_allows_shared_file_across_different_waves() {
    let mut first = valid_change_step(1, 1, 1, "/tmp/shared.rs");
    let mut second = valid_change_step(2, 2, 2, "/tmp/shared.rs");
    first.files = vec!["/tmp/shared.rs".to_string()];
    second.files = vec!["/tmp/shared.rs".to_string()];
    let score = Score {
        steps: vec![first, second],
    };
    let findings = check(&score);
    assert!(
        !findings
            .iter()
            .any(|f| f.message.contains("/tmp/shared.rs")),
        "a file shared across different waves must not be flagged, got: {:?}",
        findings
    );
}
