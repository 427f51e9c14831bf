//! Where a heist resumes.
use crate::state::Stage;
use vstd::prelude::*;

verus! {

/// The pipeline step that runs next at each stage; 0 once done.
pub open spec fn spec_next_step(stage: Stage) -> u32 {
    match stage {
        Stage::Casing => 1,
        Stage::Planning => 2,
        Stage::FenceReview => 3,
        Stage::HumanReview => 4,
        Stage::Forging => 5,
        Stage::Safehouse => 6,
        Stage::Implementing => 6,
        Stage::Cleaning => 7,
        Stage::Done => 0,
    }
}

/// The pipeline step that runs next at `stage`.
pub fn next_step(stage: Stage) -> (r: u32)
    ensures
        r == spec_next_step(stage),
{
    match stage {
        Stage::Casing => 1,
        Stage::Planning => 2,
        Stage::FenceReview => 3,
        Stage::HumanReview => 4,
        Stage::Forging => 5,
        Stage::Safehouse => 6,
        Stage::Implementing => 6,
        Stage::Cleaning => 7,
        Stage::Done => 0,
    }
}

} // verus!
