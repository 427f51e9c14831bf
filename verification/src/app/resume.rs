//! `resume`: the state a heist resumes from.
use crate::domain::error::StateError;
use crate::domain::state::State;
use crate::domain::value::SlugValue;
use crate::ports::state_repository::StateRepository;
use vstd::prelude::*;

verus! {

/// The state of heist `slug`, as the repository gives it.
pub fn resume<R: StateRepository>(repo: &mut R, slug: &SlugValue) -> (r: Result<State, StateError>) {
    repo.load(slug)
}

} // verus!
