//! Constructors of values for fixtures whose text is known to be valid:
//! each requires what its value's rules demand.
use crate::domain::value::{
    is_non_blank, is_valid_slug, iso_date_accepted, BranchValue, DateValue, NonBlankValue,
    RefValue, SlugValue,
};
use vstd::prelude::*;

verus! {

/// The slug `s`.
pub fn slug(s: &str) -> (r: SlugValue)
    requires
        is_valid_slug(s@),
    ensures
        r@ == s@,
{
    match SlugValue::parse(s) {
        Ok(v) => v,
        Err(_) => {
            vstd::pervasive::unreached()
        },
    }
}

/// The date `s`.
pub fn date(s: &str) -> (r: DateValue)
    requires
        iso_date_accepted(s@),
    ensures
        r@ == s@,
{
    match DateValue::parse("date", s) {
        Ok(v) => v,
        Err(_) => {
            vstd::pervasive::unreached()
        },
    }
}

/// The date `s`, or `None` when `time` does not accept it.
pub fn date_if_valid(s: &str) -> (r: Option<DateValue>)
    ensures
        iso_date_accepted(s@) ==> (r matches Some(d) && d@ == s@),
        !iso_date_accepted(s@) ==> r is None,
{
    if DateValue::is_valid_date(s) {
        Some(date(s))
    } else {
        None
    }
}

fn non_blank(field: &str, s: &str) -> (r: NonBlankValue)
    requires
        is_non_blank(s@),
    ensures
        r@ == s@,
{
    match NonBlankValue::parse(field, s) {
        Ok(v) => v,
        Err(_) => {
            vstd::pervasive::unreached()
        },
    }
}

/// The branch field value `s`.
pub fn branch(s: &str) -> (r: NonBlankValue)
    requires
        is_non_blank(s@),
    ensures
        r@ == s@,
{
    non_blank("branch", s)
}

/// The base field value `s`.
pub fn base(s: &str) -> (r: NonBlankValue)
    requires
        is_non_blank(s@),
    ensures
        r@ == s@,
{
    non_blank("base", s)
}

/// The worktree field value `s`.
pub fn worktree(s: &str) -> (r: NonBlankValue)
    requires
        is_non_blank(s@),
    ensures
        r@ == s@,
{
    non_blank("worktree", s)
}

/// The branch name `s`.
pub fn branch_value(s: &str) -> (r: BranchValue)
    requires
        is_non_blank(s@),
    ensures
        r@ == s@,
{
    match BranchValue::try_from_raw("branch", s) {
        Ok(v) => v,
        Err(_) => {
            vstd::pervasive::unreached()
        },
    }
}

/// The revision `s`.
pub fn ref_value(s: &str) -> (r: RefValue)
    requires
        is_non_blank(s@),
    ensures
        r@ == s@,
{
    match RefValue::try_from_raw(s) {
        Ok(v) => v,
        Err(_) => {
            vstd::pervasive::unreached()
        },
    }
}

} // verus!
