//! The commands: each drives the ports and the domain to one outcome.
pub mod base;
pub mod begin;
pub mod doctor;
pub mod list;
pub mod resume;
pub mod review;
pub mod score;
pub mod state;
pub mod sync;
pub mod validation;
pub mod worktree;
