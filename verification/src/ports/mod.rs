//! The library's view of the world outside it: git, the heist directories,
//! the clock, the tool probe and the validation files. Each port is a trait
//! that the in-memory doubles of `adapters::testing` implement in the
//! library and that the program around it implements for the real system.
pub mod clock;
pub mod git;
pub mod heist_dir_repository;
pub mod score_repository;
pub mod state_repository;
pub mod tool_probe;
pub mod validation_source;
pub mod worktree_fs;
