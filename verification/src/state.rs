//! The first form of a heist's state: a flat record whose stage list still
//! has the `safehouse` stage.
use crate::text::owned;
use vstd::prelude::*;

verus! {

/// The schema version this form of the state carries.
pub const CURRENT_SCHEMA_VERSION: u32 = 1;

/// A stage of the pipeline in this form of the state.
#[derive(Debug, Clone, Copy, PartialEq, Eq, Structural)]
pub enum Stage {
    Casing,
    Planning,
    FenceReview,
    HumanReview,
    Forging,
    Safehouse,
    Implementing,
    Cleaning,
    Done,
}

/// The stage's name in `state.json`: snake case.
pub open spec fn spec_stage_name(s: Stage) -> Seq<char> {
    match s {
        Stage::Casing => "casing"@,
        Stage::Planning => "planning"@,
        Stage::FenceReview => "fence_review"@,
        Stage::HumanReview => "human_review"@,
        Stage::Forging => "forging"@,
        Stage::Safehouse => "safehouse"@,
        Stage::Implementing => "implementing"@,
        Stage::Cleaning => "cleaning"@,
        Stage::Done => "done"@,
    }
}

impl Stage {
    /// The stage's name in `state.json`.
    pub fn as_str(&self) -> (r: &'static str)
        ensures
            r@ == spec_stage_name(*self),
    {
        match self {
            Stage::Casing => "casing",
            Stage::Planning => "planning",
            Stage::FenceReview => "fence_review",
            Stage::HumanReview => "human_review",
            Stage::Forging => "forging",
            Stage::Safehouse => "safehouse",
            Stage::Implementing => "implementing",
            Stage::Cleaning => "cleaning",
            Stage::Done => "done",
        }
    }
}

/// A heist's state in this form.
#[derive(Debug, Clone, PartialEq)]
pub struct State {
    pub schema_version: u32,
    pub slug: String,
    pub stage: Stage,
    pub worktree: Option<String>,
    pub branch: Option<String>,
    pub score_step: u32,
    pub score_steps_total: u32,
    pub fence_rounds: u32,
    pub created: String,
    pub updated: String,
}

impl State {
    /// A fresh state for `slug`: schema 1, stage `casing`, no worktree or
    /// branch, counters at zero, created and updated `today`.
    pub fn new(slug: &str, today: &str) -> (r: State)
        ensures
            r.schema_version == 1,
            r.slug@ == slug@,
            r.stage == Stage::Casing,
            r.worktree is None,
            r.branch is None,
            r.score_step == 0,
            r.score_steps_total == 0,
            r.fence_rounds == 0,
            r.created@ == today@,
            r.updated@ == today@,
    {
        State {
            schema_version: CURRENT_SCHEMA_VERSION,
            slug: owned(slug),
            stage: Stage::Casing,
            worktree: None,
            branch: None,
            score_step: 0,
            score_steps_total: 0,
            fence_rounds: 0,
            created: owned(today),
            updated: owned(today),
        }
    }
}

} // verus!
