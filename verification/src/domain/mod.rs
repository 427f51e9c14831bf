pub mod error;
pub mod git_text;
pub mod heist_paths;
pub mod language;
pub mod review;
pub mod score;
pub mod state;
pub mod value;
pub mod tool;
pub mod validation;
pub mod worktree;
pub mod testing;
