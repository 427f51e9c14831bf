use crate::domain::value::SlugValue;
use vstd::prelude::*;

verus! {

/// Reads `.heist/<slug>/score.md`.
pub trait ScoreRepository {
    /// `Ok(None)` means the file does not exist (the score is optional until
    /// it is written); `Err` carries the message of a true read failure.
    fn load_score(&mut self, slug: &SlugValue) -> Result<Option<String>, String>;
}

} // verus!
