//! `validation` commands: resolve the validation that applies to paths, or
//! check that some applies.
use crate::domain::validation::{
    check_validation_exists, concat_reads, extends, found_along, reads_since, render_scoped,
    rendered_from_reads, resolve_validation, resolve_validations, scoped_from_reads,
    segments_resolve, ReadLog, ValidationError,
};
use crate::ports::validation_source::reads_view;
use crate::ports::validation_source::ValidationSource;
use vstd::prelude::*;

verus! {

/// The validation for one path, or grouped by scope for several.
pub fn resolve<S: ValidationSource>(src: &mut S, paths: &Vec<String>) -> (r: Result<
    String,
    ValidationError,
>)
    ensures
        paths@.len() == 1 ==> (r matches Ok(out) ==> exists|m: Seq<(Seq<char>, Seq<char>)>|
            #![trigger crate::domain::validation::render_single(m)]
            crate::domain::validation::spec_require_sections(m) is Ok && out@
                == crate::domain::validation::render_single(m)),
        paths@.len() != 1 ==> (r matches Ok(out) ==> exists|
            es: Seq<(Seq<char>, Seq<(Seq<char>, Seq<char>)>)>,
        |
            #![trigger crate::domain::validation::render_scoped(es)]
            es.len() <= paths@.len() && out@ == crate::domain::validation::render_scoped(es)),
        r is Ok ==> forall|k: int|
            0 <= k < paths@.len() ==> crate::pathname::path_is_absolute((#[trigger] paths@[k])@),
        r matches Err(ValidationError::PathNotAbsolute { path: p }) ==> exists|k: int|
            0 <= k < paths@.len() && (#[trigger] paths@[k])@ == p@
                && !crate::pathname::path_is_absolute(p@),
        extends(reads_view(old(src).reads()@), reads_view(final(src).reads()@)),
        paths@.len() == 1 ==> (r matches Ok(out) ==> rendered_from_reads(
            reads_since(reads_view(old(src).reads()@), reads_view(final(src).reads()@)),
            out@,
        )),
        paths@.len() != 1 ==> (r matches Ok(out) ==> exists|segs: Seq<ReadLog>, root: Seq<char>|
            #![trigger scoped_from_reads(segs, root)]
            segs.len() == paths@.len() && concat_reads(segs) == reads_since(
                reads_view(old(src).reads()@),
                reads_view(final(src).reads()@),
            ) && segments_resolve(segs) && out@ == render_scoped(scoped_from_reads(segs, root))),
{
    if paths.len() == 1 {
        resolve_validation(src, paths[0].as_str())
    } else {
        resolve_validations(src, paths)
    }
}

/// Whether some `validation.md` covers `path`.
pub fn check<S: ValidationSource>(src: &mut S, path: &str) -> (r: Result<bool, ValidationError>)
    ensures
        r is Ok ==> crate::pathname::path_is_absolute(path@),
        r matches Err(ValidationError::PathNotAbsolute { path: p }) ==> p@ == path@
            && !crate::pathname::path_is_absolute(path@),
        extends(reads_view(old(src).reads()@), reads_view(final(src).reads()@)),
        found_along(reads_since(reads_view(old(src).reads()@), reads_view(final(src).reads()@)), r),
{
    check_validation_exists(src, path)
}

} // verus!
