//! Where a heist's files live under the repository: `.heist/<slug>/`.
use crate::pathname::path_join;
use vstd::prelude::*;

verus! {

/// `.heist/<slug>`.
pub open spec fn spec_heist_dir(slug: Seq<char>) -> Seq<char> {
    path_join(".heist"@, slug)
}

/// The directory of heist `slug`: `.heist/<slug>`.
pub fn heist_dir_path(slug: &str) -> (r: String)
    ensures
        r@ == spec_heist_dir(slug@),
{
    crate::pathname::join(".heist", slug)
}

/// The state file of heist `slug`: `.heist/<slug>/state.json`.
pub fn state_file_path(slug: &str) -> (r: String)
    ensures
        r@ == path_join(spec_heist_dir(slug@), "state.json"@),
{
    crate::pathname::join(heist_dir_path(slug).as_str(), "state.json")
}

/// The score of heist `slug`: `.heist/<slug>/score.md`.
pub fn score_file_path(slug: &str) -> (r: String)
    ensures
        r@ == path_join(spec_heist_dir(slug@), "score.md"@),
{
    crate::pathname::join(heist_dir_path(slug).as_str(), "score.md")
}

} // verus!
