use crate::domain::tool::Tool;
use vstd::prelude::*;

verus! {

/// Whether an external tool can be run.
pub trait ToolProbe {
    /// The questions answered so far, in order: each tool asked and whether
    /// it was found available.
    spec fn answers(&self) -> Vec<(Tool, bool)>;

    fn is_available(&mut self, tool: Tool) -> (r: bool)
        ensures
            final(self).answers()@ == old(self).answers()@.push((tool, r)),
    ;
}

} // verus!
