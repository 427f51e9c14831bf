use vstd::prelude::*;

pub mod adapters;
pub mod app;
pub mod cli;
pub mod domain;
pub mod exitcode;
pub mod pathname;
pub mod ports;
pub mod resume;
pub mod state;
pub mod text;
pub mod validation;

verus! {
} // verus!
