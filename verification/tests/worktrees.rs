use heist_cli::domain::worktree::HeistWorktree;

#[test]
fn lifts_heist_owned_worktree() {
    let repo_root = "/repo";
    let path = "/repo/.worktrees/foo";

    let result = HeistWorktree::try_from_parts(path, Some("heist/foo"), repo_root);

    let hw = result.expect("should lift a heist-owned worktree");
    assert_eq!(hw.slug.as_str(), "foo");
    assert_eq!(hw.path, path);
    assert_eq!(hw.branch.as_str(), "heist/foo");
}

#[test]
fn rejects_mismatched_branch() {
    let repo_root = "/repo";
    let path = "/repo/.worktrees/foo";

    let result = HeistWorktree::try_from_parts(path, Some("some-other-branch"), repo_root);

    assert!(result.is_none());
}

#[test]
fn rejects_path_outside_worktrees_dir() {
    let repo_root = "/repo";
    let path = "/repo/elsewhere/foo";

    let result = HeistWorktree::try_from_parts(path, Some("heist/foo"), repo_root);

    assert!(result.is_none());
}

#[test]
fn rejects_detached_head() {
    let repo_root = "/repo";
    let path = "/repo/.worktrees/foo";

    let result = HeistWorktree::try_from_parts(path, None, repo_root);

    assert!(result.is_none());
}
