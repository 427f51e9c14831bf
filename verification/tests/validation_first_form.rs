use heist_cli::validation::parse_sections;

const SIX_SECTIONS: &str = r#"# Validation

## Build
None, this is a plugin.

## Lint
None, no linter configured.

## Test
No automated test suite.

## Docs
Keep README in sync.

## PR conventions
Main branch: main

## Notes
No CI configured."#;

#[test]
fn parses_all_six_sections() {
    let result = parse_sections(SIX_SECTIONS);
    assert!(result.is_ok(), "parse_sections should succeed");

    let sections = result.unwrap();

    assert_eq!(sections.len(), 6, "should have exactly 6 sections, got: {:?}", sections.keys());

    assert!(sections.contains_key("Build"), "should have Build section");
    assert!(sections.contains_key("Lint"), "should have Lint section");
    assert!(sections.contains_key("Test"), "should have Test section");
    assert!(sections.contains_key("Docs"), "should have Docs section");
    assert!(sections.contains_key("PR conventions"), "should have PR conventions section");
    assert!(sections.contains_key("Notes"), "should have Notes section");

    assert_eq!(sections.get("Build").unwrap().trim(), "None, this is a plugin.");
    assert_eq!(sections.get("Lint").unwrap().trim(), "None, no linter configured.");
    assert_eq!(sections.get("Test").unwrap().trim(), "No automated test suite.");
    assert_eq!(sections.get("Docs").unwrap().trim(), "Keep README in sync.");
    assert_eq!(sections.get("PR conventions").unwrap().trim(), "Main branch: main");
    assert_eq!(sections.get("Notes").unwrap().trim(), "No CI configured.");
}

#[test]
fn tolerates_case_whitespace_and_bullet_variance() {
    let mutated = r#"# Validation

##  build
None, this is a plugin.

##  lint
None, no linter configured.

##  test
No automated test suite.

##  docs
Keep README in sync.

##  pr conventions
Main branch: main

##  notes
No CI configured."#;

    let canonical_sections = parse_sections(SIX_SECTIONS).expect("canonical should parse");
    let mutated_sections = parse_sections(mutated).expect("mutated should parse");
    assert_eq!(canonical_sections.keys(), mutated_sections.keys());
    for (key, canonical_body) in canonical_sections.entries() {
        let mutated_body = mutated_sections.get(&key).expect("mutated should have the key");
        assert_eq!(canonical_body.replace('*', "-"), mutated_body.replace('*', "-"));
    }
}

#[test]
fn rejects_missing_required_section() {
    // The canonical fixture with the `## Test` section deleted.
    let fixture_without_test = r#"# Validation

## Build
None, this is a plugin.

## Lint
None, no linter configured.

## Docs
Keep README in sync.

## PR conventions
Main branch: main

## Notes
No CI configured."#;

    let result = parse_sections(fixture_without_test);

    assert!(result.is_err(), "parse_sections should fail when Test section is missing");

    let error = result.unwrap_err();
    let error_msg = error.message();

    assert!(error_msg.to_lowercase().contains("test"),
            "error message should mention 'Test', got: {}", error_msg);
}
