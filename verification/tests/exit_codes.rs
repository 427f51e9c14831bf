use heist_cli::cli::exit_code::ExitCode;
use heist_cli::domain::validation::ValidationError;
use heist_cli::exitcode::{GIT, INTERNAL, PRECONDITION, SUCCESS};
use heist_cli::resume::next_step;
use heist_cli::state::Stage;

#[test]
fn path_outside_project_maps_to_precondition() {
    let e = ValidationError::PathOutsideProject {
        requested: "x".to_string(),
        project_root: "/y".to_string(),
    };
    assert_eq!(ExitCode::from(&e), ExitCode::Precondition);
}

#[test]
fn other_maps_to_internal() {
    let e = ValidationError::Other("boom".into());
    assert_eq!(ExitCode::from(&e), ExitCode::Internal);
}

#[test]
fn values_match_error_contract() {
    assert_eq!(SUCCESS, 0);
    assert_eq!(INTERNAL, 1);
    assert_eq!(PRECONDITION, 2);
    assert_eq!(GIT, 3);
}

#[test]
fn maps_every_stage_to_its_pipeline_step() {
    assert_eq!(next_step(Stage::Casing), 1);
    assert_eq!(next_step(Stage::Planning), 2);
    assert_eq!(next_step(Stage::FenceReview), 3);
    assert_eq!(next_step(Stage::HumanReview), 4);
    assert_eq!(next_step(Stage::Forging), 5);
    assert_eq!(next_step(Stage::Safehouse), 6);
    assert_eq!(next_step(Stage::Implementing), 6);
    assert_eq!(next_step(Stage::Cleaning), 7);
    assert_eq!(next_step(Stage::Done), 0);
}
