//! How a heist's recorded base stands against git and its pull request.
use crate::domain::error::{StateError, ValueError};
use crate::domain::value::{is_non_blank, NonBlankValue, RefValue, SlugValue};
use crate::ports::git::{changes_view, git_error_message, GitError, GitErrorView, GitRepository, PrState};
use crate::ports::state_repository::StateRepository;
use crate::text::{is_ws, lemma_trim_keeps_first, push_str, string_from};
use vstd::prelude::*;

verus! {

/// What a heist's base is now.
#[derive(Debug)]
pub enum BaseResolution {
    /// No base was recorded: the heist builds on the default branch.
    Null,
    /// The base is still open work to build on.
    Live { base_ref: NonBlankValue },
    /// The base has landed on the default branch.
    Expired { base_ref: NonBlankValue },
    /// The base's pull request was closed unmerged.
    Abandoned { base_ref: NonBlankValue },
}

/// Why the base could not be resolved.
#[derive(Debug)]
pub enum ResolveError {
    NoState,
    Load(StateError),
    InvalidStoredBase(ValueError),
    RefMissingWithOpenPr { base_ref: String },
    RefMissingNoPr { base_ref: String },
    Ambiguous { base_ref: String },
    VerificationFailed { base_ref: String, message: String },
}

/// `origin/<main_branch>`, which is never blank.
pub fn origin_ref(main_branch: &str) -> (r: RefValue)
    ensures
        r@ == "origin/"@ + main_branch@,
{
    let mut v: Vec<char> = Vec::new();
    push_str(&mut v, "origin/");
    push_str(&mut v, main_branch);
    proof {
        reveal_strlit("origin/");
        assert(v@[0] == 'o');
        assert(!is_ws('o'));
        lemma_trim_keeps_first(v@);
        assert(v@ =~= "origin/"@ + main_branch@);
    }
    let s = string_from(&v);
    match RefValue::try_from_raw(s.as_str()) {
        Ok(r) => r,
        Err(_) => vstd::pervasive::unreached(),
    }
}

/// The resolution once the base is known not to be an ancestor of
/// `origin/<main>` (or not to exist), from whether the ref resolves and what
/// the pull request lookup gave: merged means expired, closed unmerged means
/// abandoned, open or no pull request means live when the ref exists and an
/// error otherwise; a failed lookup is a verification failure when the ref
/// exists and ambiguous when it does not.
pub fn classify_pr(base_ref: NonBlankValue, ref_exists: bool, pr: Result<PrState, GitError>) -> (r:
    Result<BaseResolution, ResolveError>)
    ensures
        !(r matches Err(ResolveError::InvalidStoredBase(_))),
        pr == Ok::<PrState, GitError>(PrState::Merged) ==> (r matches Ok(
            BaseResolution::Expired { base_ref: b },
        ) && b@ == base_ref@),
        pr == Ok::<PrState, GitError>(PrState::ClosedUnmerged) ==> (r matches Ok(
            BaseResolution::Abandoned { base_ref: b },
        ) && b@ == base_ref@),
        (pr == Ok::<PrState, GitError>(PrState::Open) || pr == Ok::<PrState, GitError>(
            PrState::NoPr,
        )) && ref_exists ==> (r matches Ok(BaseResolution::Live { base_ref: b }) && b@
            == base_ref@),
        pr == Ok::<PrState, GitError>(PrState::Open) && !ref_exists ==> (r matches Err(
            ResolveError::RefMissingWithOpenPr { base_ref: b },
        ) && b@ == base_ref@),
        pr == Ok::<PrState, GitError>(PrState::NoPr) && !ref_exists ==> (r matches Err(
            ResolveError::RefMissingNoPr { base_ref: b },
        ) && b@ == base_ref@),
        ref_exists ==> (pr matches Err(e) ==> (r matches Err(
            ResolveError::VerificationFailed { base_ref: b, message: m },
        ) && b@ == base_ref@ && m@ == git_error_message(e@))),
        !ref_exists ==> (pr is Err ==> (r matches Err(ResolveError::Ambiguous { base_ref: b })
            && b@ == base_ref@)),
{
    match pr {
        Ok(PrState::Merged) => Ok(BaseResolution::Expired { base_ref }),
        Ok(PrState::ClosedUnmerged) => Ok(BaseResolution::Abandoned { base_ref }),
        Ok(PrState::Open) => {
            if ref_exists {
                Ok(BaseResolution::Live { base_ref })
            } else {
                Err(ResolveError::RefMissingWithOpenPr { base_ref: base_ref.to_owned_string() })
            }
        },
        Ok(PrState::NoPr) => {
            if ref_exists {
                Ok(BaseResolution::Live { base_ref })
            } else {
                Err(ResolveError::RefMissingNoPr { base_ref: base_ref.to_owned_string() })
            }
        },
        Err(e) => {
            if ref_exists {
                Err(
                    ResolveError::VerificationFailed {
                        base_ref: base_ref.to_owned_string(),
                        message: e.message(),
                    },
                )
            } else {
                Err(ResolveError::Ambiguous { base_ref: base_ref.to_owned_string() })
            }
        },
    }
}

/// `r` is how the pull-request lookup `pr` classifies base `b` when the
/// base is not known to have landed: merged means expired, closed unmerged
/// means abandoned, open or none means live when the ref exists and an
/// error otherwise; a failed lookup is a verification failure when the ref
/// exists and ambiguous when it does not.
pub open spec fn classified(
    r: Result<BaseResolution, ResolveError>,
    b: Seq<char>,
    ref_exists: bool,
    pr: Result<PrState, GitError>,
) -> bool {
    match pr {
        Ok(PrState::Merged) => r matches Ok(BaseResolution::Expired { base_ref: x }) && x@ == b,
        Ok(PrState::ClosedUnmerged) => r matches Ok(BaseResolution::Abandoned { base_ref: x })
            && x@ == b,
        Ok(PrState::Open) => if ref_exists {
            r matches Ok(BaseResolution::Live { base_ref: x }) && x@ == b
        } else {
            r matches Err(ResolveError::RefMissingWithOpenPr { base_ref: x }) && x@ == b
        },
        Ok(PrState::NoPr) => if ref_exists {
            r matches Ok(BaseResolution::Live { base_ref: x }) && x@ == b
        } else {
            r matches Err(ResolveError::RefMissingNoPr { base_ref: x }) && x@ == b
        },
        Err(e) => if ref_exists {
            r matches Err(ResolveError::VerificationFailed { base_ref: x, message: m }) && x@ == b
                && m@ == git_error_message(e@)
        } else {
            r matches Err(ResolveError::Ambiguous { base_ref: x }) && x@ == b
        },
    }
}

/// `r` is the resolution of the recorded base `base`: none recorded means
/// `Null`; a base whose ref exists and is an ancestor of `origin/<main>`
/// (`ancestor` is `Some(Ok(true))`) has expired; otherwise the pull-request
/// lookup `pr` decides, as [`classified`] states.
pub open spec fn is_decision(
    r: Result<BaseResolution, ResolveError>,
    base: Option<Seq<char>>,
    ref_exists: bool,
    ancestor: Option<Result<bool, GitError>>,
    pr: Option<Result<PrState, GitError>>,
) -> bool {
    match base {
        None => r matches Ok(BaseResolution::Null),
        Some(b) => if ref_exists && ancestor matches Some(Ok(true)) {
            r matches Ok(BaseResolution::Expired { base_ref: x }) && x@ == b
        } else {
            pr matches Some(p) && classified(r, b, ref_exists, p)
        },
    }
}

/// The resolution of a recorded base from what git gave: whether its ref
/// resolves, the ancestry check (asked only when it does) and the
/// pull-request lookup (asked only when the ancestry check did not settle
/// it).
pub fn decide_base(
    base: Option<NonBlankValue>,
    ref_exists: bool,
    ancestor: Option<Result<bool, GitError>>,
    pr: Option<Result<PrState, GitError>>,
) -> (r: Result<BaseResolution, ResolveError>)
    requires
        base is Some && !(ref_exists && ancestor matches Some(Ok(true))) ==> pr is Some,
    ensures
        is_decision(r, crate::domain::state::opt_view(base), ref_exists, ancestor, pr),
{
    match base {
        None => Ok(BaseResolution::Null),
        Some(b) => {
            let landed = ref_exists && match &ancestor {
                Some(Ok(true)) => true,
                _ => false,
            };
            if landed {
                Ok(BaseResolution::Expired { base_ref: b })
            } else {
                match pr {
                    Some(p) => classify_pr(b, ref_exists, p),
                    None => vstd::pervasive::unreached(),
                }
            }
        },
    }
}

/// Resolves heist `slug`'s recorded base. A base that resolves and is an
/// ancestor of `origin/<main>` has expired without asking for its pull
/// request; otherwise the pull request decides, as [`decide_base`] states.
pub fn resolve<R: StateRepository, G: GitRepository>(
    repo_root: &str,
    state_repo: &mut R,
    git: &mut G,
    slug: &SlugValue,
) -> (r: Result<BaseResolution, ResolveError>)
    ensures
        !(r matches Err(ResolveError::InvalidStoredBase(_))),
        changes_view(final(git).changes()@) == changes_view(old(git).changes()@),
        r is Ok || !(r matches Err(ResolveError::NoState)) && !(r matches Err(ResolveError::Load(_)))
            ==> exists|
            base: Option<Seq<char>>,
            ref_exists: bool,
            ancestor: Option<Result<bool, GitError>>,
            pr: Option<Result<PrState, GitError>>,
        |
            #![trigger is_decision(r, base, ref_exists, ancestor, pr)]
            is_decision(r, base, ref_exists, ancestor, pr) && (ancestor is Some <==> (
            base is Some && ref_exists)) && (pr is Some <==> (base is Some && !(ref_exists
                && ancestor matches Some(Ok(true))))),
{
    if !state_repo.has_state(slug) {
        return Err(ResolveError::NoState);
    }
    let state = match state_repo.load(slug) {
        Ok(s) => s,
        Err(e) => return Err(ResolveError::Load(e)),
    };
    let base_value = match state.base {
        Some(b) => b,
        None => {
            let r = decide_base(None, false, None, None);
            assert(is_decision(r, None, false, None, None));
            return r;
        },
    };
    let base_ref = match RefValue::try_from_raw(base_value.as_str()) {
        Ok(r) => r,
        Err(e) => return Err(ResolveError::InvalidStoredBase(e)),
    };
    let main_branch = git.default_branch(repo_root);
    let ref_exists = git.resolve_ref(repo_root, &base_ref).is_ok();
    let ancestor: Option<Result<bool, GitError>> = if ref_exists {
        let origin_main = origin_ref(main_branch.as_str());
        Some(git.is_ancestor(repo_root, &base_ref, &origin_main))
    } else {
        None
    };
    let landed = ref_exists && match &ancestor {
        Some(Ok(true)) => true,
        _ => false,
    };
    let pr: Option<Result<PrState, GitError>> = if landed {
        None
    } else {
        Some(git.pr_state(repo_root, &base_ref))
    };
    let ghost b = base_value@;
    let r = decide_base(Some(base_value), ref_exists, ancestor, pr);
    assert(is_decision(r, Some(b), ref_exists, ancestor, pr));
    r
}

} // verus!
