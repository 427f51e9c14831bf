
use heist_cli::domain::score::{check, parse, wave_blocks, NoSuchWave, Score, Shape, Step};


#[test]
fn score_parse_ignores_unfenced_near_miss_header_lines_inside_field_text() {
    // Regression test: a line that merely *starts with* "## Wave " or
    // "### Step "/"## Step " but doesn't satisfy the full anchored
    // grammar (digits-only wave number; digits+": " step header) must
    // not be treated as a boundary token, even outside a fence.
    let text = "\
## Wave 1

### Step 1: document the grammar
- **Wave**: 1
- **Files**: /tmp/a.rs
- **Change**: see the note below.
  ## Wave 99 is not a real header here, just prose.
  ### Step abc: not a real step header either.
  more change text.
- **Verify**: cargo build
- Depends on: none
";
    let score = parse(text).expect("should parse");
    assert_eq!(
        score.steps.len(),
        1,
        "near-miss header-like lines must not split the step"
    );
    match &score.steps[0].shape {
        Shape::Change { change, verify } => {
            assert!(
                change.contains("## Wave 99 is not a real header here"),
                "near-miss line must survive verbatim inside the Change field, got: {:?}",
                change
            );
            assert_eq!(verify.trim(), "cargo build");
        }
        other => panic!("expected Change shape, got {:?}", other),
    }
}

#[test]
fn score_parse_flags_malformed_step_header_instead_of_dropping_the_step() {
    let text = "\
## Wave 1

### Step abc: add widget
- **Wave**: 1
- **Files**: /tmp/a.rs
- **Change**: add widget.
- **Verify**: cargo build
- Depends on: none
";
    let findings = parse(text).expect_err("should fail to parse");
    assert!(
        findings.iter().any(|f| f.message.contains("abc")
            && f.message.to_lowercase().contains("step")
            && f.message.to_lowercase().contains("malformed")),
        "expected a malformed-step-header finding naming the bad id, got: {:?}",
        findings
    );
}

#[test]
fn score_parse_flags_malformed_wave_header_directly() {
    let text = "\
## Wave one

### Step 1: add widget
- **Wave**: 1
- **Files**: /tmp/a.rs
- **Change**: add widget.
- **Verify**: cargo build
- Depends on: none
";
    let findings = parse(text).expect_err("should fail to parse");
    assert!(
        findings.iter().any(|f| f.message.contains("one")
            && f.message.to_lowercase().contains("wave")
            && f.message.to_lowercase().contains("malformed")),
        "expected a malformed-Wave-header finding naming the bad token, got: {:?}",
        findings
    );
}

#[test]
fn score_parse_single_red_green_step_under_one_wave() {
    let text = "\
# Score: demo

## Wave 1

### Step 1: add widget
- **Wave**: 1
- **Files**: /tmp/a.rs
- **Red**: write test for widget.
- **Green**: minimal change to add widget.
- **Verify**: cargo test -- --exact widget_test
- Depends on: none
";
    let score = parse(text).expect("should parse");
    assert_eq!(score.steps.len(), 1);
    let step = &score.steps[0];
    assert_eq!(step.number, 1);
    assert_eq!(step.title, "add widget");
    assert_eq!(step.wave, 1);
    assert_eq!(step.enclosing_wave, 1);
    assert_eq!(step.files, vec!["/tmp/a.rs".to_string()]);
    assert_eq!(step.depends_on, Vec::<u32>::new());
    match &step.shape {
        Shape::RedGreen { red, green, verify } => {
            assert_eq!(red.trim(), "write test for widget.");
            assert_eq!(green.trim(), "minimal change to add widget.");
            assert_eq!(verify.trim(), "cargo test -- --exact widget_test");
        }
        other => panic!("expected RedGreen shape, got {:?}", other),
    }
}

#[test]
fn score_parse_change_shape_step() {
    let text = "\
## Wave 1

### Step 1: wire config
- **Wave**: 1
- **Files**: /tmp/a.rs
- **Change**: wire the config loader.
- **Verify**: cargo build
- Depends on: none
";
    let score = parse(text).expect("should parse");
    match &score.steps[0].shape {
        Shape::Change { change, verify } => {
            assert_eq!(change.trim(), "wire the config loader.");
            assert_eq!(verify.trim(), "cargo build");
        }
        other => panic!("expected Change shape, got {:?}", other),
    }
}

#[test]
fn score_parse_flags_unknown_shape_when_neither_red_green_nor_change_present() {
    let text = "\
## Wave 1

### Step 1: mystery step
- **Wave**: 1
- **Files**: /tmp/a.rs
- **Verify**: cargo build
- Depends on: none
";
    let findings = parse(text).expect_err("should fail to parse");
    assert!(
        findings
            .iter()
            .any(|f| f.step == 1 && f.message.to_lowercase().contains("shape")),
        "expected a shape-related finding, got: {:?}",
        findings
    );
}

#[test]
fn score_parse_flags_duplicate_step_number() {
    let text = "\
## Wave 1

### Step 1: add widget
- **Wave**: 1
- **Files**: /tmp/a.rs
- **Change**: add widget.
- **Verify**: cargo build
- Depends on: none

### Step 1: add widget again
- **Wave**: 1
- **Files**: /tmp/b.rs
- **Change**: add widget again.
- **Verify**: cargo build
- Depends on: none
";
    let findings = parse(text).expect_err("should fail to parse");
    assert!(
        findings
            .iter()
            .any(|f| f.step == 1 && f.message.to_lowercase().contains("duplicate")),
        "expected a duplicate-step-number finding, got: {:?}",
        findings
    );
}

#[test]
fn score_parse_flags_missing_wave_field() {
    let text = "\
## Wave 1

### Step 1: add widget
- **Files**: /tmp/a.rs
- **Change**: add widget.
- **Verify**: cargo build
- Depends on: none
";
    let findings = parse(text).expect_err("should fail to parse");
    assert!(
        findings.iter().any(|f| f.step == 1
            && f.message.to_lowercase().contains("wave")
            && f.message.to_lowercase().contains("missing")),
        "expected a missing-Wave-field finding, got: {:?}",
        findings
    );
}

#[test]
fn score_parse_flags_missing_files_field() {
    let text = "\
## Wave 1

### Step 1: add widget
- **Wave**: 1
- **Change**: add widget.
- **Verify**: cargo build
- Depends on: none
";
    let findings = parse(text).expect_err("should fail to parse");
    assert!(
        findings.iter().any(|f| f.step == 1
            && f.message.to_lowercase().contains("files")
            && f.message.to_lowercase().contains("missing")),
        "expected a missing-Files-field finding, got: {:?}",
        findings
    );
}

#[test]
fn score_parse_flags_blank_entry_in_files_line() {
    let text = "\
## Wave 1

### Step 1: add widget
- **Wave**: 1
- **Files**: /tmp/a.rs, , /tmp/b.rs
- **Change**: add widget.
- **Verify**: cargo build
- Depends on: none
";
    let findings = parse(text).expect_err("should fail to parse");
    assert!(
        findings
            .iter()
            .any(|f| f.step == 1 && f.message.to_lowercase().contains("blank")),
        "expected a blank-Files-entry finding, got: {:?}",
        findings
    );
}

#[test]
fn score_parse_flags_missing_green_for_red_green_shape() {
    let text = "\
## Wave 1

### Step 1: add widget
- **Wave**: 1
- **Files**: /tmp/a.rs
- **Red**: write test for widget.
- **Verify**: cargo test -- --exact widget_test
- Depends on: none
";
    let findings = parse(text).expect_err("should fail to parse");
    assert!(
        findings.iter().any(|f| f.step == 1
            && f.message.contains("Green")
            && f.message.to_lowercase().contains("red-green")),
        "expected a missing-Green-field finding, got: {:?}",
        findings
    );
}

#[test]
fn score_parse_flags_missing_verify_for_change_shape() {
    let text = "\
## Wave 1

### Step 1: wire config
- **Wave**: 1
- **Files**: /tmp/a.rs
- **Change**: wire the config loader.
- Depends on: none
";
    let findings = parse(text).expect_err("should fail to parse");
    assert!(
        findings.iter().any(|f| f.step == 1
            && f.message.contains("Verify")
            && f.message.to_lowercase().contains("change")),
        "expected a missing-Verify-field finding, got: {:?}",
        findings
    );
}

#[test]
fn score_parse_depends_on_none_and_multi_dep() {
    let text = "\
## Wave 1

### Step 1: add widget
- **Wave**: 1
- **Files**: /tmp/a.rs
- **Change**: add widget.
- **Verify**: cargo build
- Depends on: none

### Step 2: add gadget
- **Wave**: 1
- **Files**: /tmp/b.rs
- **Change**: add gadget.
- **Verify**: cargo build
- Depends on: step 1

## Wave 2

### Step 3: combine
- **Wave**: 2
- **Files**: /tmp/c.rs
- **Change**: combine widget and gadget.
- **Verify**: cargo build
- Depends on: step 1, step 2
";
    let score = parse(text).expect("should parse");
    assert_eq!(score.steps[0].depends_on, Vec::<u32>::new());
    assert_eq!(score.steps[1].depends_on, vec![1]);
    assert_eq!(score.steps[2].depends_on, vec![1, 2]);
}

#[test]
fn score_parse_flags_malformed_depends_on_syntax() {
    let text = "\
## Wave 1

### Step 1: add widget
- **Wave**: 1
- **Files**: /tmp/a.rs
- **Change**: add widget.
- **Verify**: cargo build
- Depends on: whatever
";
    let findings = parse(text).expect_err("should fail to parse");
    assert!(
        findings.iter().any(|f| f.step == 1
            && f.message.to_lowercase().contains("depends on")
            && f.message.to_lowercase().contains("malformed")),
        "expected a malformed-Depends-on finding, got: {:?}",
        findings
    );
}

#[test]
fn score_parse_accepts_flat_step_header_level() {
    let text = "\
## Wave 1

## Step 1: add widget
- **Wave**: 1
- **Files**: /tmp/a.rs
- **Change**: add widget.
- **Verify**: cargo build
- Depends on: none
";
    let score = parse(text).expect("should parse");
    assert_eq!(score.steps.len(), 1);
    assert_eq!(score.steps[0].number, 1);
    assert_eq!(score.steps[0].title, "add widget");
}

#[test]
fn score_parse_ignores_headers_and_field_bullets_inside_a_fenced_example() {
    let text = "\
## Wave 1

### Step 1: document the grammar
- **Wave**: 1
- **Files**: /tmp/a.rs
- **Change**: add an example block:
~~~markdown
## Wave 99
### Step 99: fake step
- **Files**: should not be parsed
~~~
end of example.
- **Verify**: cargo build
- Depends on: none
";
    let score = parse(text).expect("should parse");
    assert_eq!(
        score.steps.len(),
        1,
        "the fenced ## Wave 99 / ### Step 99 lines must not be treated as real tokens"
    );
    match &score.steps[0].shape {
        Shape::Change { change, .. } => {
            assert!(
                change.contains("## Wave 99"),
                "the fenced example text must survive verbatim inside the Change field, got: {:?}",
                change
            );
        }
        other => panic!("expected Change shape, got {:?}", other),
    }
}

#[test]
fn score_parse_captures_raw_verbatim_step_slice() {
    let text = "\
## Wave 1

### Step 1: add widget
- **Wave**: 1
- **Files**: /tmp/a.rs
- **Change**: add widget.
- **Verify**: cargo build
- Depends on: none

### Step 2: add gadget
- **Wave**: 1
- **Files**: /tmp/b.rs
- **Change**: add gadget.
- **Verify**: cargo build
- Depends on: none
";
    let score = parse(text).expect("should parse");
    assert!(
        score.steps[0].raw.starts_with("### Step 1: add widget"),
        "raw should start at the step's own header line, got: {:?}",
        score.steps[0].raw
    );
    assert!(
        !score.steps[0].raw.contains("### Step 2"),
        "raw must stop before the next step's header, got: {:?}",
        score.steps[0].raw
    );
    assert!(score.steps[1].raw.starts_with("### Step 2: add gadget"));
}

fn valid_change_step(number: u32, wave: u32, enclosing_wave: u32, file: &str) -> Step {
    Step {
        number,
        title: format!("step {}", number),
        wave,
        enclosing_wave,
        files: vec![file.to_string()],
        shape: Shape::Change {
            change: "do the thing.".to_string(),
            verify: "cargo build".to_string(),
        },
        depends_on: Vec::new(),
        raw: format!("### Step {}: step {}\n", number, number),
    }
}

#[test]
fn score_check_flags_non_ascending_wave_headers() {
    let score = Score {
        steps: vec![
            valid_change_step(1, 2, 2, "/tmp/a.rs"),
            valid_change_step(2, 1, 1, "/tmp/b.rs"),
        ],
    };
    let findings = check(&score);
    assert!(
        findings.iter().any(|f| f.step == 2
            && f.message.to_lowercase().contains("wave")
            && f.message.to_lowercase().contains("ascending")),
        "expected a non-ascending-wave-header finding anchored to step 2, got: {:?}",
        findings
    );
}

#[test]
fn score_check_flags_wave_number_gap() {
    // Waves 1 and 3 present, wave 2 missing: `wheelman.md` loops
    // `1..=M` off the distinct-wave count, so a gap would make it
    // request a wave that doesn't exist.
    let score = Score {
        steps: vec![
            valid_change_step(1, 1, 1, "/tmp/a.rs"),
            valid_change_step(2, 3, 3, "/tmp/b.rs"),
        ],
    };
    let findings = check(&score);
    assert!(
        findings.iter().any(|f| f.step == 2
            && f.message.contains('2')
            && f.message.to_lowercase().contains("contiguous")),
        "expected a wave-gap finding anchored to step 2, got: {:?}",
        findings
    );
}

#[test]
fn score_check_flags_wave_numbering_not_starting_at_one() {
    let score = Score {
        steps: vec![valid_change_step(1, 2, 2, "/tmp/a.rs")],
    };
    let findings = check(&score);
    assert!(
        findings.iter().any(|f| f.step == 1
            && f.message.to_lowercase().contains("start")
            && f.message.to_lowercase().contains("wave")),
        "expected a wave-must-start-at-1 finding, got: {:?}",
        findings
    );
}

#[test]
fn score_check_flags_wave_field_mismatch_with_enclosing_header() {
    let score = Score {
        steps: vec![valid_change_step(1, 1, 2, "/tmp/a.rs")],
    };
    let findings = check(&score);
    assert!(
        findings.iter().any(|f| f.step == 1
            && f.message.contains('1')
            && f.message.contains('2')
            && f.message.to_lowercase().contains("wave")),
        "expected a Wave-field-mismatch finding for step 1 (wave=1, enclosing_wave=2), got: {:?}",
        findings
    );
}

#[test]
fn score_check_flags_duplicate_step_numbers() {
    let score = Score {
        steps: vec![
            valid_change_step(3, 1, 1, "/tmp/a.rs"),
            valid_change_step(3, 1, 1, "/tmp/b.rs"),
        ],
    };
    let findings = check(&score);
    assert!(
        findings
            .iter()
            .any(|f| f.step == 3 && f.message.to_lowercase().contains("duplicate")),
        "expected a duplicate-step-number finding, got: {:?}",
        findings
    );
}

#[test]
fn score_check_flags_dependency_on_nonexistent_step() {
    let mut step = valid_change_step(1, 1, 1, "/tmp/a.rs");
    step.depends_on = vec![99];
    let score = Score { steps: vec![step] };
    let findings = check(&score);
    assert!(
        findings.iter().any(|f| f.step == 1
            && f.message.contains("99")
            && f.message.to_lowercase().contains("not exist")),
        "expected a nonexistent-dependency finding, got: {:?}",
        findings
    );
}

#[test]
fn score_check_flags_dependency_not_in_strictly_lower_wave() {
    let mut first = valid_change_step(1, 2, 2, "/tmp/a.rs");
    let mut second = valid_change_step(2, 2, 2, "/tmp/b.rs");
    second.depends_on = vec![1];
    first.depends_on = Vec::new();
    let score = Score {
        steps: vec![first, second],
    };
    let findings = check(&score);
    assert!(
        findings.iter().any(|f| f.step == 2
            && f.message.contains('1')
            && f.message.to_lowercase().contains("lower")),
        "expected a not-strictly-lower-wave dependency finding, got: {:?}",
        findings
    );
}

#[test]
fn score_check_flags_shared_file_within_same_wave() {
    let mut first = valid_change_step(1, 1, 1, "/tmp/shared.rs");
    let mut second = valid_change_step(2, 1, 1, "/tmp/shared.rs");
    first.files = vec!["/tmp/shared.rs".to_string()];
    second.files = vec!["/tmp/shared.rs".to_string()];
    let score = Score {
        steps: vec![first, second],
    };
    let findings = check(&score);
    assert!(
        findings.iter().any(|f| f.step == 2
            && f.message.contains("/tmp/shared.rs")
            && f.message.contains('1')),
        "expected a file-disjointness finding naming the shared path and the other step, got: {:?}",
        findings
    );
}

#[test]
fn score_check_allows_shared_file_across_different_waves() {
    let mut first = valid_change_step(1, 1, 1, "/tmp/shared.rs");
    let mut second = valid_change_step(2, 2, 2, "/tmp/shared.rs");
    first.files = vec!["/tmp/shared.rs".to_string()];
    second.files = vec!["/tmp/shared.rs".to_string()];
    let score = Score {
        steps: vec![first, second],
    };
    let findings = check(&score);
    assert!(
        !findings
            .iter()
            .any(|f| f.message.contains("/tmp/shared.rs")),
        "a file shared across different waves must not be flagged, got: {:?}",
        findings
    );
}

#[test]
fn score_wave_blocks_returns_numbered_raw_slices_for_the_requested_wave() {
    let mut first = valid_change_step(1, 1, 1, "/tmp/a.rs");
    let mut second = valid_change_step(2, 1, 1, "/tmp/b.rs");
    let third = valid_change_step(3, 2, 2, "/tmp/c.rs");
    first.raw = "AAA".to_string();
    second.raw = "BBB".to_string();
    let score = Score {
        steps: vec![first, second, third],
    };

    let blocks = wave_blocks(&score, 1).expect("wave 1 should exist");
    assert_eq!(blocks, vec![(1, "AAA".to_string()), (2, "BBB".to_string())]);

    let err = wave_blocks(&score, 3).expect_err("wave 3 should not exist");
    assert_eq!(err, NoSuchWave(3));
}
