//! `review select`: which review lanes a heist's changes need.
use crate::domain::error::{StateError, ValueError};
use crate::domain::language::{classify, LanguageType};
use crate::domain::review::{select_lanes, spec_select_lanes, Lane};
use crate::domain::value::{RefValue, SlugValue};
use crate::domain::worktree::branch_name;
use crate::ports::git::{GitError, GitRepository};
use crate::app::state::one_load;
use crate::ports::state_repository::{loads_view, StateRepository};
use vstd::prelude::*;

verus! {

/// Why no lanes could be selected.
#[derive(Debug)]
pub enum SelectError {
    NoState,
    NoBranch,
    InvalidSlug(ValueError),
    Load(StateError),
    NoRemoteDefault(GitError),
    Git(GitError),
}

/// The language type of each path, by its file name and extension.
pub open spec fn path_types(paths: Seq<String>) -> Seq<LanguageType> {
    paths.map_values(
        |p: String|
            crate::domain::language::classify_parts(
                crate::pathname::path_file_name(p@),
                crate::pathname::path_extension(p@),
            ),
    )
}

/// A diff that touches a script (a file with extension `sh`, `py`, `js` or
/// `ts`, not named like one of the data files) gets the coverage, quality
/// and simplicity lanes besides intent.
pub proof fn law_script_change_gets_code_lanes(paths: Seq<String>, k: int)
    requires
        0 <= k < paths.len(),
        crate::pathname::path_extension(paths[k]@) == Some("sh"@) || crate::pathname::path_extension(
            paths[k]@,
        ) == Some("py"@) || crate::pathname::path_extension(paths[k]@) == Some("js"@)
            || crate::pathname::path_extension(paths[k]@) == Some("ts"@),
        !(crate::pathname::path_file_name(paths[k]@) matches Some(n) && (n == "LICENSE"@ || n
            == "LICENSE.md"@ || n == "LICENSE.txt"@ || n == ".gitignore"@ || n == "Cargo.lock"@)),
    ensures
        spec_select_lanes(path_types(paths))[0] == crate::domain::review::Lane::Intent,
        spec_select_lanes(path_types(paths)).contains(crate::domain::review::Lane::Coverage),
        spec_select_lanes(path_types(paths)).contains(crate::domain::review::Lane::Quality),
        spec_select_lanes(path_types(paths)).contains(crate::domain::review::Lane::Simplicity),
{
    crate::domain::language::law_classification(
        crate::pathname::path_file_name(paths[k]@),
        crate::pathname::path_extension(paths[k]@),
    );
    let ts = path_types(paths);
    assert(ts[k] == LanguageType::Programming);
    crate::domain::review::law_lanes_follow_types(ts);
}

/// The lanes for a set of changed paths: each path classified by its name.
pub fn lanes_for_paths(paths: &Vec<String>) -> (r: Vec<Lane>)
    ensures
        r@ == spec_select_lanes(path_types(paths@)),
{
    let mut types: Vec<LanguageType> = Vec::new();
    let mut i: usize = 0;
    while i < paths.len()
        invariant
            i <= paths.len(),
            types@ == path_types(paths@.take(i as int)),
        decreases paths.len() - i,
    {
        types.push(classify(paths[i].as_str()));
        proof {
            assert(path_types(paths@.take(i + 1)) =~= path_types(paths@.take(i as int)).push(
                path_types(paths@)[i as int],
            ));
        }
        i += 1;
    }
    proof {
        assert(paths@.take(i as int) =~= paths@);
    }
    select_lanes(types.as_slice())
}

/// The review lanes for heist `slug`: it must have a branch recorded and
/// `origin/<main>` must resolve; the paths changed on `heist/<slug>` against
/// the default branch decide.
pub fn select<R: StateRepository, G: GitRepository>(
    repo_root: &str,
    state_repo: &mut R,
    git: &mut G,
    slug: &SlugValue,
) -> (r: Result<Vec<Lane>, SelectError>)
    ensures
        !(r matches Err(SelectError::InvalidSlug(_))),
        r matches Ok(l) ==> exists|paths: Seq<String>|
            #[trigger] spec_select_lanes(path_types(paths)) == l@,
        r matches Err(SelectError::NoState) ==> loads_view(final(state_repo).loads()@)
            == loads_view(old(state_repo).loads()@),
        !(r matches Err(SelectError::NoState)) ==> one_load(
            loads_view(old(state_repo).loads()@),
            loads_view(final(state_repo).loads()@),
            slug@,
        ),
        !(r matches Err(SelectError::NoState)) ==> (loads_view(final(state_repo).loads()@).last().1
            is None <==> r matches Err(SelectError::Load(_))),
        !(r matches Err(SelectError::NoState)) ==> (loads_view(final(state_repo).loads()@).last().1
            matches Some(s) ==> (s.branch is None <==> r matches Err(SelectError::NoBranch))),
{
    if !state_repo.has_state(slug) {
        return Err(SelectError::NoState);
    }
    let state = match state_repo.load(slug) {
        Ok(s) => s,
        Err(e) => {
            assert(loads_view(state_repo.loads()@).drop_last() =~= loads_view(
                old(state_repo).loads()@,
            ));
            return Err(SelectError::Load(e));
        },
    };
    assert(loads_view(state_repo.loads()@).drop_last() =~= loads_view(old(state_repo).loads()@));
    if state.branch.is_none() {
        return Err(SelectError::NoBranch);
    }
    let branch = match branch_name(slug.as_str()) {
        Ok(b) => b,
        Err(e) => return Err(SelectError::InvalidSlug(e)),
    };
    let main_branch = git.default_branch(repo_root);
    if let Err(e) = git.remote_default_resolves(repo_root, main_branch.as_str()) {
        return Err(SelectError::NoRemoteDefault(e));
    }
    let head = RefValue::from_branch(&branch);
    let paths = match git.changed_paths(repo_root, main_branch.as_str(), &head) {
        Ok(p) => p,
        Err(e) => return Err(SelectError::Git(e)),
    };
    Ok(lanes_for_paths(&paths))
}

} // verus!
