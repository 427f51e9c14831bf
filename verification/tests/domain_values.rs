use heist_cli::adapters::testing::FakeToolProbe;
use heist_cli::app::doctor::{doctor, ToolStatus};
use heist_cli::domain::error::ValueError;
use heist_cli::domain::language::{classify, LanguageType};
use heist_cli::domain::review::{select_lanes, Lane};
use heist_cli::domain::state::{route, Mode, PipelineFile, Routing, Stage, State};
use heist_cli::domain::tool::Tool;
use heist_cli::domain::value::{DateValue, SlugValue};

#[test]
fn doctor_reports_each_tool_in_order() {
    let mut probe = FakeToolProbe::new()
        .with_available(Tool::Git)
        .with_available(Tool::Crit);
    let result = doctor(&mut probe);
    assert_eq!(
        result,
        vec![
            ToolStatus {
                tool: Tool::Git,
                available: true
            },
            ToolStatus {
                tool: Tool::Gh,
                available: false
            },
            ToolStatus {
                tool: Tool::Crit,
                available: true
            },
        ]
    );
}

#[test]
fn not_incrementable_display_names_the_field() {
    let err = ValueError::NotIncrementable("stage".to_string());
    assert_eq!(
        err.message(),
        "field 'stage' is not incrementable (not a number)"
    );
}

#[test]
fn classifies_rust_source_as_rust() {
    assert_eq!(classify("cli/src/domain/review.rs"), LanguageType::Rust);
}

#[test]
fn classifies_markdown_as_prose() {
    assert_eq!(classify("plugin/agents/cleaner.md"), LanguageType::Prose);
}

#[test]
fn classifies_yaml_json_and_toml_as_data() {
    assert_eq!(classify("config.yaml"), LanguageType::Data);
    assert_eq!(classify("config.yml"), LanguageType::Data);
    assert_eq!(classify("package.json"), LanguageType::Data);
    assert_eq!(classify("Cargo.toml"), LanguageType::Data);
}

#[test]
fn classifies_license_and_gitignore_as_data() {
    assert_eq!(classify("LICENSE"), LanguageType::Data);
    assert_eq!(classify(".gitignore"), LanguageType::Data);
}

#[test]
fn classifies_html_as_markup() {
    assert_eq!(classify("index.html"), LanguageType::Markup);
}

#[test]
fn classifies_unknown_extension_as_unknown() {
    assert_eq!(classify("archive.xyz"), LanguageType::Unknown);
}

#[test]
fn empty_diff_selects_intent_only() {
    assert_eq!(select_lanes(&[]), vec![Lane::Intent]);
}

#[test]
fn data_only_diff_selects_intent_only() {
    assert_eq!(select_lanes(&[LanguageType::Data]), vec![Lane::Intent]);
}

#[test]
fn programming_file_adds_coverage_quality_simplicity() {
    assert_eq!(
        select_lanes(&[LanguageType::Programming]),
        vec![
            Lane::Intent,
            Lane::Coverage,
            Lane::Quality,
            Lane::Simplicity
        ]
    );
}

#[test]
fn prose_only_diff_adds_quality_and_simplicity_but_not_coverage() {
    assert_eq!(
        select_lanes(&[LanguageType::Prose]),
        vec![Lane::Intent, Lane::Quality, Lane::Simplicity]
    );
}

#[test]
fn rust_file_adds_all_gated_lanes_plus_rust() {
    assert_eq!(
        select_lanes(&[LanguageType::Rust]),
        vec![
            Lane::Intent,
            Lane::Coverage,
            Lane::Quality,
            Lane::Simplicity,
            Lane::Rust
        ]
    );
}

#[test]
fn mixed_data_and_prose_skips_coverage_and_rust() {
    assert_eq!(
        select_lanes(&[LanguageType::Data, LanguageType::Prose]),
        vec![Lane::Intent, Lane::Quality, Lane::Simplicity]
    );
}

#[test]
fn lane_as_str_matches_cli_output_names() {
    assert_eq!(Lane::Intent.as_str(), "intent");
    assert_eq!(Lane::Coverage.as_str(), "coverage");
    assert_eq!(Lane::Quality.as_str(), "quality");
    assert_eq!(Lane::Simplicity.as_str(), "simplicity");
    assert_eq!(Lane::Rust.as_str(), "rust");
}

#[test]
fn new_state_accepts_pre_validated_slug_value() {
    let today = DateValue::parse("today", "2026-01-01").expect("valid date");
    let state = State::new(&SlugValue::parse("my-slug").expect("valid slug"), today).expect("valid slug");
    assert_eq!(state.slug.to_owned_string(), "my-slug");
}

#[test]
fn mode_defaults_to_heavy() {
    assert_eq!(Mode::default(), Mode::Heavy);
}

#[test]
fn mode_parse_rejects_unknown_value() {
    let err = Mode::parse("bogus").expect_err("should reject unknown mode");
    match err {
        ValueError::InvalidValue { field, value, .. } => {
            assert_eq!(field, "mode");
            assert_eq!(value, "bogus");
        }
        _ => panic!("expected ValueError::InvalidValue, got a different variant"),
    }
}

#[test]
fn route_maps_every_stage_mode_pair_to_its_doc_pointer() {
    assert_eq!(
        route(Stage::Casing, Mode::Heavy),
        Some(Routing {
            file: PipelineFile::Pipeline,
            step: 1
        })
    );
    assert_eq!(
        route(Stage::Planning, Mode::Light),
        Some(Routing {
            file: PipelineFile::Pipeline,
            step: 2
        })
    );
    assert_eq!(
        route(Stage::FenceReview, Mode::Heavy),
        Some(Routing {
            file: PipelineFile::Pipeline,
            step: 3
        })
    );
    assert_eq!(
        route(Stage::HumanReview, Mode::Medium),
        Some(Routing {
            file: PipelineFile::Pipeline,
            step: 4
        })
    );
    assert_eq!(
        route(Stage::Forging, Mode::Heavy),
        Some(Routing {
            file: PipelineFile::PipelineStandard,
            step: 5
        })
    );
    assert_eq!(
        route(Stage::Implementing, Mode::Medium),
        Some(Routing {
            file: PipelineFile::PipelineStandard,
            step: 6
        })
    );
    assert_eq!(
        route(Stage::Implementing, Mode::Heavy),
        Some(Routing {
            file: PipelineFile::PipelineStandard,
            step: 6
        })
    );
    assert_eq!(
        route(Stage::Implementing, Mode::Light),
        Some(Routing {
            file: PipelineFile::PipelineLight,
            step: 2
        })
    );
    assert_eq!(
        route(Stage::Cleaning, Mode::Heavy),
        Some(Routing {
            file: PipelineFile::PipelineStandard,
            step: 7
        })
    );
    assert_eq!(
        route(Stage::Cleaning, Mode::Medium),
        Some(Routing {
            file: PipelineFile::PipelineStandard,
            step: 7
        })
    );
    assert_eq!(
        route(Stage::Cleaning, Mode::Light),
        Some(Routing {
            file: PipelineFile::PipelineLight,
            step: 3
        })
    );
    assert_eq!(route(Stage::Done, Mode::Heavy), None);
}

#[test]
fn date_accepts_leap_day_and_signed_year() {
    assert!(heist_cli::domain::value::DateValue::parse("created", "2024-02-29").is_ok());
    assert!(heist_cli::domain::value::DateValue::parse("created", "2000-02-29").is_ok());
    assert!(heist_cli::domain::value::DateValue::parse("created", "+2024-01-31").is_ok());
    assert!(heist_cli::domain::value::DateValue::parse("created", "-0044-03-15").is_ok());
}

#[test]
fn date_refuses_impossible_or_malformed_dates() {
    for bad in [
        "2023-02-29", "1900-02-29", "2024-04-31", "2024-13-01", "2024-00-10", "2024-01-00",
        "2024-1-01", "24-01-01", "2024-01-01x", "+12024-01-01", "2024/01/01", "",
    ] {
        assert!(heist_cli::domain::value::DateValue::parse("created", bad).is_err(), "{}", bad);
    }
}
