//! Values for fixtures.
pub mod valid;
