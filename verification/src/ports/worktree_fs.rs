use vstd::prelude::*;

verus! {

/// The file system work around a worktree. Errors carry a message.
pub trait WorktreeFs {
    /// Ensures `.worktrees/` is in `.gitignore`; true if it was added.
    fn ensure_worktrees_ignored(&mut self, repo_root: &str) -> Result<bool, String>;

    /// Links the worktree's `.heist/<slug>` back to the main `.heist/<slug>`.
    fn link_heist_dir(&mut self, repo_root: &str, worktree_path: &str, slug: &str) -> Result<
        (),
        String,
    >;

    /// Resolves symlinks and makes the path absolute.
    fn canonicalize(&mut self, path: &str) -> Result<String, String>;
}

} // verus!
