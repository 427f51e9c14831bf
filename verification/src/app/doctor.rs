//! `doctor`: which of the required tools can be run.
use crate::domain::tool::{all_tools, Tool};
use crate::ports::tool_probe::ToolProbe;
use vstd::prelude::*;

verus! {

/// Whether a tool is available.
#[derive(Debug, Clone, Copy, PartialEq, Eq, Structural)]
pub struct ToolStatus {
    pub tool: Tool,
    pub available: bool,
}

/// The questions the statuses answer, in order: each tool and whether it
/// is available.
pub open spec fn statuses_asked(v: Seq<ToolStatus>) -> Seq<(Tool, bool)> {
    v.map_values(|s: ToolStatus| (s.tool, s.available))
}

/// The status of every tool, one per tool in [`Tool::all`] order.
pub fn doctor<P: ToolProbe>(probe: &mut P) -> (r: Vec<ToolStatus>)
    ensures
        r@.len() == all_tools().len(),
        forall|i: int| 0 <= i < r@.len() ==> (#[trigger] r@[i]).tool == all_tools()[i],
        final(probe).answers()@ == old(probe).answers()@ + statuses_asked(r@),
{
    let tools = Tool::all();
    let mut out: Vec<ToolStatus> = Vec::new();
    let mut i: usize = 0;
    while i < tools.len()
        invariant
            tools@ == all_tools(),
            i <= tools.len(),
            out@.len() == i,
            forall|k: int| 0 <= k < i ==> (#[trigger] out@[k]).tool == all_tools()[k],
            probe.answers()@ == old(probe).answers()@ + statuses_asked(out@),
        decreases tools.len() - i,
    {
        let tool = tools[i];
        let available = probe.is_available(tool);
        let ghost before = out@;
        out.push(ToolStatus { tool, available });
        assert(statuses_asked(out@) =~= statuses_asked(before).push((tool, available)));
        i += 1;
    }
    out
}

} // verus!
