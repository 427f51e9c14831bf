//! The first form of `validation.md` parsing, in which every file must
//! carry the required sections itself.
pub use crate::domain::validation::ParseError;
use crate::domain::validation::{
    collect_lines, collect_sections, require_sections, spec_require_sections, Sections,
};
use crate::domain::score::parser::lines_view;
use crate::text::{chars_of, lines, lines_exec};
use vstd::prelude::*;

verus! {

/// What parsing `text` gives: its sections when `Build`, `Lint` and `Test`
/// are all present, else the message naming the missing ones.
pub open spec fn spec_parse_required(text: Seq<char>) -> Result<
    Seq<(Seq<char>, Seq<char>)>,
    Seq<char>,
> {
    let m = collect_sections(lines(text), 0, seq![]);
    match spec_require_sections(m) {
        Ok(_) => Ok(m),
        Err(e) => Err(e),
    }
}

/// The sections of a `validation.md` body, which must hold `Build`, `Lint`
/// and `Test`. Headings and bullet markers are normalized as in
/// [`crate::domain::validation::parse_sections`].
pub fn parse_sections(text: &str) -> (r: Result<Sections, ParseError>)
    ensures
        spec_parse_required(text@) matches Ok(s) ==> (r matches Ok(x) && x@ == s),
        spec_parse_required(text@) matches Err(m) ==> (r matches Err(e) && e@ == m),
{
    let v = chars_of(text);
    let ls = lines_exec(&v);
    assert(lines_view(ls@) =~= lines(text@));
    let sections = collect_lines(&ls);
    match require_sections(&sections) {
        Ok(()) => Ok(sections),
        Err(e) => Err(e),
    }
}

} // verus!
