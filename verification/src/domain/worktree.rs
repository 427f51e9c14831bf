//! Heist-owned worktrees: where they live and which branch they carry.
use crate::domain::error::ValueError;
use crate::domain::value::{is_non_blank, is_valid_slug, BranchValue, SlugValue};
use crate::pathname::{path_eq, path_file_name, path_join, path_parent};
use crate::ports::git::{opt_string_view, WorktreeInfo};
use crate::text::{is_ws, lemma_trim_keeps_first, push_str, string_from};
use vstd::prelude::*;

verus! {

/// The branch a heist's worktree carries: `heist/<slug>`.
pub open spec fn spec_branch_name(slug: Seq<char>) -> Seq<char> {
    "heist/"@ + slug
}

/// Where a heist's worktree lives: `<repo_root>/.worktrees/<slug>`.
pub open spec fn spec_worktree_path(repo_root: Seq<char>, slug: Seq<char>) -> Seq<char> {
    path_join(path_join(repo_root, ".worktrees"@), slug)
}

/// The path of the worktree for `slug` under `repo_root`.
pub fn worktree_path(repo_root: &str, slug: &str) -> (r: String)
    ensures
        r@ == spec_worktree_path(repo_root@, slug@),
{
    let dir = crate::pathname::join(repo_root, ".worktrees");
    crate::pathname::join(dir.as_str(), slug)
}

/// The branch of the worktree for `slug`: `heist/<slug>`, which is never
/// blank.
pub fn branch_name(slug: &str) -> (r: Result<BranchValue, ValueError>)
    ensures
        r matches Ok(b) && b@ == spec_branch_name(slug@),
{
    let mut v: Vec<char> = Vec::new();
    push_str(&mut v, "heist/");
    push_str(&mut v, slug);
    proof {
        reveal_strlit("heist/");
        assert(v@[0] == 'h');
        assert(!is_ws('h'));
        lemma_trim_keeps_first(v@);
        assert(v@ =~= spec_branch_name(slug@));
    }
    let s = string_from(&v);
    BranchValue::try_from_raw("branch", s.as_str())
}

/// A worktree that this tool created: its slug, path and branch.
#[derive(Debug, PartialEq, Eq)]
pub struct HeistWorktree {
    pub slug: SlugValue,
    pub path: String,
    pub branch: BranchValue,
}

/// A listed worktree is heist-owned when it sits directly in
/// `<root>/.worktrees/`, its directory name is a valid slug and it has
/// `heist/<slug>` checked out; the result is that slug.
pub open spec fn spec_lift(path: Seq<char>, branch: Option<Seq<char>>, root: Seq<char>) -> Option<
    Seq<char>,
> {
    match path_parent(path) {
        None => None,
        Some(parent) => if !path_eq(parent, path_join(root, ".worktrees"@)) {
            None
        } else {
            match path_file_name(path) {
                None => None,
                Some(name) => if !is_valid_slug(name) {
                    None
                } else if branch != Some(spec_branch_name(name)) {
                    None
                } else {
                    Some(name)
                },
            }
        },
    }
}

impl HeistWorktree {
    /// Lifts a raw (path, branch) pair reported by `list_worktrees` into a
    /// heist-owned worktree, or `None` if it is not one.
    /// `canonical_repo_root` must already be canonicalized by the caller.
    pub fn try_from_parts(path: &str, branch: Option<&str>, canonical_repo_root: &str) -> (r:
        Option<HeistWorktree>)
        ensures
            spec_lift(path@, opt_str_view(branch), canonical_repo_root@) matches Some(slug) ==> (
            r matches Some(w) && w.slug@ == slug && w.path@ == path@ && w.branch@
                == spec_branch_name(slug)),
            spec_lift(path@, opt_str_view(branch), canonical_repo_root@) is None ==> r is None,
    {
        let worktrees_dir = crate::pathname::join(canonical_repo_root, ".worktrees");
        let parent = crate::pathname::parent(path)?;
        if !crate::pathname::same_path(parent.as_str(), worktrees_dir.as_str()) {
            return None;
        }
        let basename = crate::pathname::file_name(path)?;
        let slug = match SlugValue::parse(basename.as_str()) {
            Ok(s) => s,
            Err(_) => return None,
        };
        let expected = match branch_name(slug.as_str()) {
            Ok(b) => b,
            Err(_) => return None,
        };
        match branch {
            Some(b) => {
                if !crate::text::str_eq(b, expected.as_str()) {
                    return None;
                }
            },
            None => return None,
        }
        Some(HeistWorktree { slug, path: crate::text::owned(path), branch: expected })
    }
}

pub open spec fn opt_str_view(o: Option<&str>) -> Option<Seq<char>> {
    match o {
        Some(s) => Some(s@),
        None => None,
    }
}

/// The (path, branch) pairs `list_worktrees` reported.
pub open spec fn info_views(v: Seq<WorktreeInfo>) -> Seq<(Seq<char>, Option<Seq<char>>)> {
    v.map_values(|w: WorktreeInfo| (w.path@, opt_string_view(w.branch)))
}

/// The (path, slug) of each heist-owned worktree among `infos`, in order.
pub open spec fn heist_entries(infos: Seq<(Seq<char>, Option<Seq<char>>)>, root: Seq<char>) -> Seq<
    (Seq<char>, Seq<char>),
>
    decreases infos.len(),
{
    if infos.len() == 0 {
        Seq::empty()
    } else {
        let rest = heist_entries(infos.drop_last(), root);
        match spec_lift(infos.last().0, infos.last().1, root) {
            Some(slug) => rest.push((infos.last().0, slug)),
            None => rest,
        }
    }
}

/// The heist-owned worktrees among those `list_worktrees` reported, in
/// their order; `canonical_repo_root` must already be canonicalized.
pub fn heist_worktrees(infos: &Vec<WorktreeInfo>, canonical_repo_root: &str) -> (r: Vec<
    HeistWorktree,
>)
    ensures
        r@.len() == heist_entries(info_views(infos@), canonical_repo_root@).len(),
        forall|k: int|
            0 <= k < r@.len() ==> (#[trigger] r@[k]).path@ == heist_entries(
                info_views(infos@),
                canonical_repo_root@,
            )[k].0 && r@[k].slug@ == heist_entries(info_views(infos@), canonical_repo_root@)[k].1
                && r@[k].branch@ == spec_branch_name(r@[k].slug@),
{
    let ghost iv = info_views(infos@);
    let ghost root = canonical_repo_root@;
    let mut out: Vec<HeistWorktree> = Vec::new();
    let mut i: usize = 0;
    while i < infos.len()
        invariant
            i <= infos.len(),
            iv == info_views(infos@),
            root == canonical_repo_root@,
            out@.len() == heist_entries(iv.take(i as int), root).len(),
            forall|k: int|
                0 <= k < out@.len() ==> (#[trigger] out@[k]).path@ == heist_entries(
                    iv.take(i as int),
                    root,
                )[k].0 && out@[k].slug@ == heist_entries(iv.take(i as int), root)[k].1
                    && out@[k].branch@ == spec_branch_name(out@[k].slug@),
        decreases infos.len() - i,
    {
        let info = &infos[i];
        let branch: Option<&str> = match &info.branch {
            Some(b) => Some(b.as_str()),
            None => None,
        };
        proof {
            let t = iv.take(i + 1);
            assert(t.drop_last() =~= iv.take(i as int));
            assert(t.last() == iv[i as int]);
            assert(iv[i as int] == (info.path@, opt_string_view(info.branch)));
            assert(opt_str_view(branch) == opt_string_view(info.branch));
        }
        let ghost before = out@;
        match HeistWorktree::try_from_parts(info.path.as_str(), branch, canonical_repo_root) {
            Some(hw) => {
                out.push(hw);
                proof {
                    assert forall|k: int| 0 <= k < out@.len() implies (#[trigger] out@[k]).path@
                        == heist_entries(iv.take(i + 1), root)[k].0 && out@[k].slug@
                        == heist_entries(iv.take(i + 1), root)[k].1 && out@[k].branch@
                        == spec_branch_name(out@[k].slug@) by {
                        if k < before.len() {
                            assert(out@[k] == before[k]);
                        }
                    }
                }
            },
            None => {},
        }
        i += 1;
    }
    proof {
        assert(iv.take(i as int) =~= iv);
    }
    out
}

} // verus!
