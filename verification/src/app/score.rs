//! `score` commands: check, record and read a heist's `score.md`.
use crate::domain::error::StateError;
use crate::domain::score::check::{spec_check, waves_exec, waves_of};
use crate::domain::score::parser::spec_parse;
use crate::domain::score::{check as cross_check, findings_view, parse, spec_wave_blocks, wave_blocks, Finding, FindingView, Score, StepView};
use crate::domain::value::{ScoreStepsTotal, ScoreWavesTotal, SlugValue};
use crate::ports::clock::Clock;
use crate::ports::score_repository::ScoreRepository;
use crate::ports::state_repository::StateRepository;
use vstd::prelude::*;

verus! {

/// How large a valid score is.
#[derive(Debug)]
pub struct CheckOutcome {
    pub steps: usize,
    pub waves: usize,
}

/// Why `check` found the score wanting.
#[derive(Debug)]
pub enum CheckError {
    NoState,
    NoScore,
    Io(String),
    Findings(Vec<Finding>),
}

/// How large the recorded score is.
#[derive(Debug)]
pub struct RecordOutcome {
    pub steps: usize,
    pub waves: usize,
}

/// Why `record` did not record.
#[derive(Debug)]
pub enum RecordError {
    NoState,
    NoScore,
    Io(String),
    Findings(Vec<Finding>),
    Save(StateError),
}

/// Why `wave` gave no blocks.
#[derive(Debug)]
pub enum WaveError {
    NoState,
    NoScore,
    Io(String),
    Findings(Vec<Finding>),
    NoSuchWave(u32),
}

/// What a score's text gives: its steps and number of distinct waves, or
/// the findings of parsing it, or else of cross-checking it.
pub open spec fn spec_examine(text: Seq<char>) -> Result<(Seq<StepView>, nat), Seq<FindingView>> {
    match spec_parse(text) {
        Err(f) => Err(f),
        Ok(steps) => {
            let f = spec_check(steps);
            if f.len() > 0 {
                Err(f)
            } else {
                Ok((steps, waves_of(steps, steps.len() as int).len()))
            }
        },
    }
}

/// Parses and cross-checks a score's text.
pub fn examine(text: &str) -> (r: Result<(Score, usize), Vec<Finding>>)
    ensures
        spec_examine(text@) matches Ok((steps, n)) ==> (r matches Ok((s, m)) && s@ == steps && m
            == n),
        spec_examine(text@) matches Err(f) ==> (r matches Err(g) && findings_view(g@) == f),
{
    let parsed = match parse(text) {
        Ok(s) => s,
        Err(f) => return Err(f),
    };
    let findings = cross_check(&parsed);
    if findings.len() > 0 {
        return Err(findings);
    }
    let waves = waves_exec(&parsed.steps);
    let n = waves.len();
    Ok((parsed, n))
}

enum LoadError {
    NoState,
    NoScore,
    Io(String),
    Findings(Vec<Finding>),
}

fn load_and_check<R: StateRepository, S: ScoreRepository>(
    repo: &mut R,
    scores: &mut S,
    slug: &SlugValue,
) -> (r: Result<(Score, usize), LoadError>)
    ensures
        r matches Ok((s, n)) ==> exists|t: Seq<char>|
            #![trigger spec_examine(t)]
            spec_examine(t) == Ok::<(Seq<StepView>, nat), Seq<FindingView>>((s@, n as nat)),
        r matches Err(LoadError::Findings(f)) ==> exists|t: Seq<char>|
            #![trigger spec_examine(t)]
            spec_examine(t) == Err::<(Seq<StepView>, nat), Seq<FindingView>>(findings_view(f@)),
{
    if !repo.has_state(slug) {
        return Err(LoadError::NoState);
    }
    let text = match scores.load_score(slug) {
        Ok(Some(t)) => t,
        Ok(None) => return Err(LoadError::NoScore),
        Err(e) => return Err(LoadError::Io(e)),
    };
    match examine(text.as_str()) {
        Ok((s, n)) => Ok((s, n)),
        Err(f) => Err(LoadError::Findings(f)),
    }
}

/// Checks heist `slug`'s score: its size when it parses and cross-checks
/// clean, else why not.
pub fn check<R: StateRepository, S: ScoreRepository>(
    repo: &mut R,
    scores: &mut S,
    slug: &SlugValue,
) -> (r: Result<CheckOutcome, CheckError>)
    ensures
        r matches Ok(o) ==> exists|t: Seq<char>, steps: Seq<StepView>|
            #![trigger spec_examine(t), steps.len()]
            spec_examine(t) == Ok::<(Seq<StepView>, nat), Seq<FindingView>>(
                (steps, o.waves as nat),
            ) && steps.len() == o.steps,
        r matches Err(CheckError::Findings(f)) ==> exists|t: Seq<char>|
            #![trigger spec_examine(t)]
            spec_examine(t) == Err::<(Seq<StepView>, nat), Seq<FindingView>>(findings_view(f@)),
{
    match load_and_check(repo, scores, slug) {
        Ok((parsed, waves)) => Ok(CheckOutcome { steps: parsed.steps.len(), waves }),
        Err(LoadError::NoState) => Err(CheckError::NoState),
        Err(LoadError::NoScore) => Err(CheckError::NoScore),
        Err(LoadError::Io(e)) => Err(CheckError::Io(e)),
        Err(LoadError::Findings(f)) => Err(CheckError::Findings(f)),
    }
}

/// Checks heist `slug`'s score and records its step and wave totals in the
/// state.
pub fn record<R: StateRepository, S: ScoreRepository, C: Clock>(
    repo: &mut R,
    scores: &mut S,
    clock: &mut C,
    slug: &SlugValue,
) -> (r: Result<RecordOutcome, RecordError>)
    ensures
        r matches Ok(o) ==> exists|t: Seq<char>, steps: Seq<StepView>|
            #![trigger spec_examine(t), steps.len()]
            spec_examine(t) == Ok::<(Seq<StepView>, nat), Seq<FindingView>>(
                (steps, o.waves as nat),
            ) && steps.len() == o.steps,
        r matches Err(RecordError::Findings(f)) ==> exists|t: Seq<char>|
            #![trigger spec_examine(t)]
            spec_examine(t) == Err::<(Seq<StepView>, nat), Seq<FindingView>>(findings_view(f@)),
{
    let (parsed, waves) = match load_and_check(repo, scores, slug) {
        Ok(x) => x,
        Err(LoadError::NoState) => return Err(RecordError::NoState),
        Err(LoadError::NoScore) => return Err(RecordError::NoScore),
        Err(LoadError::Io(e)) => return Err(RecordError::Io(e)),
        Err(LoadError::Findings(f)) => return Err(RecordError::Findings(f)),
    };
    let mut state = match repo.load(slug) {
        Ok(s) => s,
        Err(e) => return Err(RecordError::Save(e)),
    };
    let steps = parsed.steps.len();
    state.score_steps_total = ScoreStepsTotal::new(steps as u32);
    state.score_waves_total = ScoreWavesTotal::new(waves as u32);
    state.updated = clock.today();
    if let Err(e) = repo.save(slug, &state) {
        return Err(RecordError::Save(e));
    }
    Ok(RecordOutcome { steps, waves })
}

/// The `(number, raw)` blocks of wave `n` of heist `slug`'s score, which
/// must parse (it is not cross-checked).
pub fn wave<R: StateRepository, S: ScoreRepository>(
    repo: &mut R,
    scores: &mut S,
    slug: &SlugValue,
    n: u32,
) -> (r: Result<Vec<(u32, String)>, WaveError>)
    ensures
        r matches Err(WaveError::NoSuchWave(w)) ==> w == n,
        r matches Ok(v) ==> v@.len() > 0 && exists|t: Seq<char>, steps: Seq<StepView>|
            #![trigger spec_parse(t), spec_wave_blocks(steps, n)]
            spec_parse(t) == Ok::<Seq<StepView>, Seq<FindingView>>(steps) && v@.len()
                == spec_wave_blocks(steps, n).len() && forall|k: int|
                0 <= k < v@.len() ==> (#[trigger] v@[k]).0 == spec_wave_blocks(steps, n)[k].0
                    && v@[k].1@ == spec_wave_blocks(steps, n)[k].1,
        r matches Err(WaveError::Findings(f)) ==> exists|t: Seq<char>|
            #![trigger spec_parse(t)]
            spec_parse(t) == Err::<Seq<StepView>, Seq<FindingView>>(findings_view(f@)),
{
    if !repo.has_state(slug) {
        return Err(WaveError::NoState);
    }
    let text = match scores.load_score(slug) {
        Ok(Some(t)) => t,
        Ok(None) => return Err(WaveError::NoScore),
        Err(e) => return Err(WaveError::Io(e)),
    };
    let parsed = match parse(text.as_str()) {
        Ok(s) => s,
        Err(f) => return Err(WaveError::Findings(f)),
    };
    match wave_blocks(&parsed, n) {
        Ok(b) => Ok(b),
        Err(e) => Err(WaveError::NoSuchWave(e.0)),
    }
}

} // verus!
