//! The external tools the workflow runs.
use vstd::prelude::*;

verus! {

/// An external tool.
#[derive(Debug, Clone, Copy, PartialEq, Eq, Hash, Structural)]
pub enum Tool {
    Git,
    Gh,
    Crit,
}

pub open spec fn spec_binary_name(t: Tool) -> Seq<char> {
    match t {
        Tool::Git => "git"@,
        Tool::Gh => "gh"@,
        Tool::Crit => "crit"@,
    }
}

/// Every tool, in the order they are reported.
pub open spec fn all_tools() -> Seq<Tool> {
    seq![Tool::Git, Tool::Gh, Tool::Crit]
}

impl Tool {
    /// Every tool, in the order they are reported.
    pub fn all() -> (r: Vec<Tool>)
        ensures
            r@ == all_tools(),
    {
        let r = vec![Tool::Git, Tool::Gh, Tool::Crit];
        assert(r@ =~= all_tools());
        r
    }

    /// The name of the tool's executable.
    pub fn binary_name(&self) -> (r: &'static str)
        ensures
            r@ == spec_binary_name(*self),
    {
        match self {
            Tool::Git => "git",
            Tool::Gh => "gh",
            Tool::Crit => "crit",
        }
    }
}

} // verus!
