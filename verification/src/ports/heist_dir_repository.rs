use crate::domain::error::StateError;
use crate::domain::value::SlugValue;
use vstd::prelude::*;

verus! {

/// Owns the lifecycle of `.heist/<slug>/` as a directory.
pub trait HeistDirRepository {
    fn create(&mut self, slug: &SlugValue) -> Result<(), StateError>;

    fn remove(&mut self, slug: &SlugValue) -> Result<(), StateError>;
}

} // verus!
