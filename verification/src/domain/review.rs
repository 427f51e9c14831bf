//! The review lanes that a set of changed files calls for.
use crate::domain::language::LanguageType;
use vstd::prelude::*;

verus! {

#[derive(Debug, Clone, Copy, PartialEq, Eq, Structural)]
pub enum Lane {
    Intent,
    Coverage,
    Quality,
    Simplicity,
    Rust,
}

pub open spec fn lane_name(l: Lane) -> Seq<char> {
    match l {
        Lane::Intent => "intent"@,
        Lane::Coverage => "coverage"@,
        Lane::Quality => "quality"@,
        Lane::Simplicity => "simplicity"@,
        Lane::Rust => "rust"@,
    }
}

impl Lane {
    pub fn as_str(&self) -> (r: &'static str)
        ensures
            r@ == lane_name(*self),
    {
        match self {
            Lane::Intent => "intent",
            Lane::Coverage => "coverage",
            Lane::Quality => "quality",
            Lane::Simplicity => "simplicity",
            Lane::Rust => "rust",
        }
    }
}

pub open spec fn any_programming(ts: Seq<LanguageType>) -> bool {
    exists|i: int| 0 <= i < ts.len() && (#[trigger] ts[i]).spec_is_programming()
}

pub open spec fn any_reviewable(ts: Seq<LanguageType>) -> bool {
    exists|i: int| 0 <= i < ts.len() && (#[trigger] ts[i]).spec_is_reviewable_source()
}

pub open spec fn any_rust(ts: Seq<LanguageType>) -> bool {
    exists|i: int| 0 <= i < ts.len() && ts[i] == LanguageType::Rust
}

/// The lanes for a diff touching files of the given types: `intent` always;
/// `coverage` for code; `quality` and `simplicity` for any reviewable
/// source; `rust` for Rust.
pub open spec fn spec_select_lanes(ts: Seq<LanguageType>) -> Seq<Lane> {
    seq![Lane::Intent] + (if any_programming(ts) {
        seq![Lane::Coverage]
    } else {
        seq![]
    }) + (if any_reviewable(ts) {
        seq![Lane::Quality, Lane::Simplicity]
    } else {
        seq![]
    }) + (if any_rust(ts) {
        seq![Lane::Rust]
    } else {
        seq![]
    })
}

pub fn select_lanes(language_types: &[LanguageType]) -> (r: Vec<Lane>)
    ensures
        r@ == spec_select_lanes(language_types@),
{
    let mut programming = false;
    let mut reviewable = false;
    let mut rust = false;
    let mut i: usize = 0;
    while i < language_types.len()
        invariant
            i <= language_types@.len(),
            programming == any_programming(language_types@.take(i as int)),
            reviewable == any_reviewable(language_types@.take(i as int)),
            rust == any_rust(language_types@.take(i as int)),
        decreases language_types@.len() - i,
    {
        let t = language_types[i];
        let ghost ts = language_types@;
        proof {
            let a = ts.take(i as int);
            let b = ts.take(i + 1);
            assert(b[i as int] == t);
            assert(forall|k: int| 0 <= k < i ==> a[k] == b[k]);
            assert(any_programming(b) == (any_programming(a) || t.spec_is_programming()));
            assert(any_reviewable(b) == (any_reviewable(a) || t.spec_is_reviewable_source()));
            assert(any_rust(b) == (any_rust(a) || t == LanguageType::Rust));
        }
        programming = programming || t.is_programming();
        reviewable = reviewable || t.is_reviewable_source();
        rust = rust || matches!(t, LanguageType::Rust);
        i += 1;
    }
    assert(language_types@.take(language_types@.len() as int) =~= language_types@);
    let mut lanes: Vec<Lane> = Vec::new();
    lanes.push(Lane::Intent);
    if programming {
        lanes.push(Lane::Coverage);
    }
    if reviewable {
        lanes.push(Lane::Quality);
        lanes.push(Lane::Simplicity);
    }
    if rust {
        lanes.push(Lane::Rust);
    }
    assert(lanes@ =~= spec_select_lanes(language_types@));
    lanes
}

/// Every diff gets the `intent` lane, first; Rust changes get every lane.
pub proof fn law_intent_first_and_rust_gets_all(ts: Seq<LanguageType>)
    ensures
        spec_select_lanes(ts)[0] == Lane::Intent,
        any_rust(ts) ==> spec_select_lanes(ts) == seq![
            Lane::Intent,
            Lane::Coverage,
            Lane::Quality,
            Lane::Simplicity,
            Lane::Rust,
        ],
{
    if any_rust(ts) {
        let i = choose|i: int| 0 <= i < ts.len() && ts[i] == LanguageType::Rust;
        assert(ts[i].spec_is_programming());
        assert(ts[i].spec_is_reviewable_source());
        assert(spec_select_lanes(ts) =~= seq![
            Lane::Intent,
            Lane::Coverage,
            Lane::Quality,
            Lane::Simplicity,
            Lane::Rust,
        ]);
    }
}

/// Intent is always the first lane; a diff touching code gets coverage,
/// quality and simplicity; one touching Rust also gets the Rust lane; one
/// touching only prose or markup gets quality and simplicity but no
/// coverage; one touching neither code, prose nor markup gets intent alone.
pub proof fn law_lanes_follow_types(ts: Seq<LanguageType>)
    ensures
        spec_select_lanes(ts)[0] == Lane::Intent,
        (exists|i: int|
            0 <= i < ts.len() && (ts[i] == LanguageType::Programming || ts[i] == LanguageType::Rust))
            ==> spec_select_lanes(ts).contains(Lane::Coverage) && spec_select_lanes(ts).contains(
            Lane::Quality,
        ) && spec_select_lanes(ts).contains(Lane::Simplicity),
        (exists|i: int| 0 <= i < ts.len() && ts[i] == LanguageType::Rust) ==> spec_select_lanes(
            ts,
        ).contains(Lane::Rust),
        (forall|i: int|
            0 <= i < ts.len() ==> ts[i] != LanguageType::Programming && ts[i] != LanguageType::Rust)
            ==> !spec_select_lanes(ts).contains(Lane::Coverage) && !spec_select_lanes(ts).contains(
            Lane::Rust,
        ),
        (forall|i: int|
            0 <= i < ts.len() ==> ts[i] == LanguageType::Data || ts[i] == LanguageType::Unknown)
            ==> spec_select_lanes(ts) == seq![Lane::Intent],
{
    let l = spec_select_lanes(ts);
    let c = if any_programming(ts) {
        seq![Lane::Coverage]
    } else {
        seq![]
    };
    let q = if any_reviewable(ts) {
        seq![Lane::Quality, Lane::Simplicity]
    } else {
        seq![]
    };
    let r = if any_rust(ts) {
        seq![Lane::Rust]
    } else {
        seq![]
    };
    assert(l =~= seq![Lane::Intent] + c + q + r);
    if exists|i: int|
        0 <= i < ts.len() && (ts[i] == LanguageType::Programming || ts[i] == LanguageType::Rust) {
        let i = choose|i: int|
            0 <= i < ts.len() && (ts[i] == LanguageType::Programming || ts[i] == LanguageType::Rust);
        assert(ts[i].spec_is_programming());
        assert(ts[i].spec_is_reviewable_source());
        assert(l[1] == Lane::Coverage);
        assert(l[2] == Lane::Quality);
        assert(l[3] == Lane::Simplicity);
    }
    if exists|i: int| 0 <= i < ts.len() && ts[i] == LanguageType::Rust {
        assert(l[l.len() - 1] == Lane::Rust);
    }
    if forall|i: int|
        0 <= i < ts.len() ==> ts[i] != LanguageType::Programming && ts[i] != LanguageType::Rust {
        assert(!any_programming(ts));
        assert(!any_rust(ts));
        assert(l =~= seq![Lane::Intent] + q);
    }
    if forall|i: int| 0 <= i < ts.len() ==> ts[i] == LanguageType::Data || ts[i] == LanguageType::Unknown {
        assert(!any_programming(ts));
        assert(!any_reviewable(ts));
        assert(!any_rust(ts));
        assert(l =~= seq![Lane::Intent]);
    }
}

} // verus!
