use heist_cli::adapters::testing::InMemoryValidationSource;
use heist_cli::domain::validation::{
    merge, parse_sections, require_sections, validation_dirs, Sections, ValidationError,
};

const SIX_SECTIONS: &str = r#"# Validation

## Build
None, this is a plugin.

## Lint
None, no linter configured.

## Test
No automated test suite.

## Docs
Keep README in sync.

## PR conventions
Main branch: main

## Notes
No CI configured."#;

fn body(s: &Sections, key: &str) -> String {
    s.get(key).unwrap_or_else(|| panic!("missing section {}", key))
}

#[test]
fn validation_parses_all_six_sections() {
    let result = parse_sections(SIX_SECTIONS);
    assert!(result.is_ok(), "parse_sections should succeed");

    let sections = result.unwrap();

    assert_eq!(
        sections.len(),
        6,
        "should have exactly 6 sections, got: {:?}",
        sections.keys()
    );

    assert!(sections.contains_key("Build"), "should have Build section");
    assert!(sections.contains_key("Lint"), "should have Lint section");
    assert!(sections.contains_key("Test"), "should have Test section");
    assert!(sections.contains_key("Docs"), "should have Docs section");
    assert!(
        sections.contains_key("PR conventions"),
        "should have PR conventions section"
    );
    assert!(sections.contains_key("Notes"), "should have Notes section");

    assert_eq!(body(&sections, "Build").trim(), "None, this is a plugin.");
    assert_eq!(body(&sections, "Lint").trim(), "None, no linter configured.");
    assert_eq!(body(&sections, "Test").trim(), "No automated test suite.");
    assert_eq!(body(&sections, "Docs").trim(), "Keep README in sync.");
    assert_eq!(body(&sections, "PR conventions").trim(), "Main branch: main");
    assert_eq!(body(&sections, "Notes").trim(), "No CI configured.");
}

#[test]
fn validation_tolerates_case_whitespace_and_bullet_variance() {
    let mutated = r#"# Validation

##  build
None, this is a plugin.

##  lint
None, no linter configured.

##  test
No automated test suite.

##  docs
Keep README in sync.

##  pr conventions
Main branch: main

##  notes
No CI configured."#;

    let canonical_sections = parse_sections(SIX_SECTIONS).expect("canonical should parse");
    let mutated_sections = parse_sections(mutated).expect("mutated should parse");

    assert_eq!(
        canonical_sections.keys(),
        mutated_sections.keys(),
        "keys should be identical after normalization"
    );

    for (key, canonical_body) in canonical_sections.entries() {
        let mutated_body = mutated_sections
            .get(&key)
            .unwrap_or_else(|| panic!("mutated should have key '{}'", key));
        assert_eq!(
            canonical_body.replace('*', "-"),
            mutated_body.replace('*', "-"),
            "body content should be identical for section '{}'",
            key
        );
    }
}

#[test]
fn require_sections_rejects_merged_result_missing_required() {
    // An ancestor may lack Build/Lint/Test, but the merged chain must not.
    let mut merged = Sections::new();
    merged.insert("Build".to_string(), "b".to_string());
    merged.insert("Lint".to_string(), "l".to_string());
    merged.insert("Notes".to_string(), "n".to_string());

    let result = require_sections(&merged);
    assert!(
        result.is_err(),
        "require_sections should fail when Test is missing from the merged result"
    );
    assert!(
        result.unwrap_err().message().to_lowercase().contains("test"),
        "error message should mention 'Test'"
    );
}

#[test]
fn require_sections_accepts_partial_ancestor_when_leaf_supplies_required() {
    // Root layer carries only repo-global sections (no Build/Lint/Test).
    let mut root = Sections::new();
    root.insert("PR conventions".to_string(), "main".to_string());
    root.insert("Notes".to_string(), "no ci".to_string());

    // Leaf layer supplies the required sections.
    let mut leaf = Sections::new();
    leaf.insert("Build".to_string(), "cargo build".to_string());
    leaf.insert("Lint".to_string(), "cargo clippy".to_string());
    leaf.insert("Test".to_string(), "cargo test".to_string());

    let merged = merge(&vec![root, leaf]);
    assert!(
        require_sections(&merged).is_ok(),
        "merged chain supplying all required sections should be accepted"
    );
}

#[test]
fn rejects_malformed_heading_with_line_number() {
    let fixture = r#"# Validation

## Build
None, this is a plugin.

## Lint
None, no linter configured.

###Test:"#;

    let result = parse_sections(fixture);
    assert!(
        result.is_err(),
        "parse_sections should reject malformed heading"
    );
    assert!(
        result.unwrap_err().message().contains("9"),
        "error message should include line number 9"
    );
}

#[test]
fn leaf_replaces_whole_sections() {
    let root_map = parse_sections(SIX_SECTIONS).expect("root fixture should parse");

    let mut leaf_map = Sections::new();
    leaf_map.insert("Build".to_string(), "Custom build command.".to_string());
    leaf_map.insert("Lint".to_string(), "Custom linter config.".to_string());
    leaf_map.insert("Test".to_string(), "Custom test runner.".to_string());

    let result = merge(&vec![root_map, leaf_map]);

    assert_eq!(body(&result, "Build"), "Custom build command.");
    assert_eq!(body(&result, "Lint"), "Custom linter config.");
    assert_eq!(body(&result, "Test"), "Custom test runner.");
    assert_eq!(body(&result, "Docs").trim(), "Keep README in sync.");
    assert_eq!(body(&result, "PR conventions").trim(), "Main branch: main");
    assert_eq!(body(&result, "Notes").trim(), "No CI configured.");
}

#[test]
fn three_level_merge_applies_nearest_override_per_section() {
    let root_fixture = r#"# Validation

## Build
root build

## Lint
root lint

## Test
root test

## Docs
root docs

## PR conventions
root pr conventions

## Notes
root notes"#;

    let root_map = parse_sections(root_fixture).expect("root fixture should parse");

    let mut middle_map = Sections::new();
    middle_map.insert("Test".to_string(), "middle test".to_string());

    let mut leaf_map = Sections::new();
    leaf_map.insert("Build".to_string(), "leaf build".to_string());

    let result = merge(&vec![root_map, middle_map, leaf_map]);

    assert_eq!(body(&result, "Build"), "leaf build");
    assert_eq!(body(&result, "Test").trim(), "middle test");
    assert_eq!(body(&result, "Lint").trim(), "root lint");
    assert_eq!(body(&result, "Docs").trim(), "root docs");
    assert_eq!(body(&result, "PR conventions").trim(), "root pr conventions");
    assert_eq!(body(&result, "Notes").trim(), "root notes");
}

#[test]
fn validation_dirs_rejects_relative_path() {
    let mut src = InMemoryValidationSource::new("/tmp");
    let result = validation_dirs(&mut src, "relative/file.md", "/tmp");
    assert!(result.is_err(), "should reject a relative path");
    match result {
        Err(ValidationError::PathNotAbsolute { path }) => {
            assert_eq!(path, "relative/file.md");
        }
        other => panic!("expected PathNotAbsolute error, got: {:?}", other),
    }
}
