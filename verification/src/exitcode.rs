//! The process exit codes, as plain numbers.
use vstd::prelude::*;

verus! {

/// The command did what was asked.
pub const SUCCESS: i32 = 0;

/// Something failed that the user cannot fix by changing the input.
pub const INTERNAL: i32 = 1;

/// A precondition of the command does not hold.
pub const PRECONDITION: i32 = 2;

/// A git command failed.
pub const GIT: i32 = 3;

} // verus!
