//! A heist's persisted state, its named fields, and where each stage of the
//! pipeline is documented.
use crate::domain::error::{ValueError, ValueErrorView};
use crate::domain::value::{
    invalid_numeric, invalid_value, is_non_blank, is_valid_slug, iso_date_accepted, DateValue,
    FenceRounds, NonBlankValue, SchemaVersion, ScoreStepsTotal, ScoreWave, ScoreWavesTotal,
    SlugValue,
};
use crate::text::{chars_of, decimal, owned, parse_u32, push_decimal, str_eq, string_from};
use vstd::prelude::*;

verus! {

// ---------------------------------------------------------------------------
// stages and modes
// ---------------------------------------------------------------------------

/// Where a heist is in the pipeline.
#[derive(Debug, Clone, Copy, PartialEq, Eq, Structural)]
pub enum Stage {
    Casing,
    Planning,
    FenceReview,
    HumanReview,
    Forging,
    Implementing,
    Cleaning,
    Done,
}

pub open spec fn stage_name(s: Stage) -> Seq<char> {
    match s {
        Stage::Casing => "casing"@,
        Stage::Planning => "planning"@,
        Stage::FenceReview => "fence_review"@,
        Stage::HumanReview => "human_review"@,
        Stage::Forging => "forging"@,
        Stage::Implementing => "implementing"@,
        Stage::Cleaning => "cleaning"@,
        Stage::Done => "done"@,
    }
}

/// The stage whose name is `v`.
pub open spec fn stage_named(v: Seq<char>) -> Option<Stage> {
    if v == "casing"@ {
        Some(Stage::Casing)
    } else if v == "planning"@ {
        Some(Stage::Planning)
    } else if v == "fence_review"@ {
        Some(Stage::FenceReview)
    } else if v == "human_review"@ {
        Some(Stage::HumanReview)
    } else if v == "forging"@ {
        Some(Stage::Forging)
    } else if v == "implementing"@ {
        Some(Stage::Implementing)
    } else if v == "cleaning"@ {
        Some(Stage::Cleaning)
    } else if v == "done"@ {
        Some(Stage::Done)
    } else {
        None
    }
}

impl Stage {
    pub fn as_str(&self) -> (r: &'static str)
        ensures
            r@ == stage_name(*self),
    {
        match self {
            Stage::Casing => "casing",
            Stage::Planning => "planning",
            Stage::FenceReview => "fence_review",
            Stage::HumanReview => "human_review",
            Stage::Forging => "forging",
            Stage::Implementing => "implementing",
            Stage::Cleaning => "cleaning",
            Stage::Done => "done",
        }
    }

    /// The stage named `value`, or `InvalidStage`.
    pub fn parse(value: &str) -> (r: Result<Stage, ValueError>)
        ensures
            stage_named(value@) matches Some(s) ==> r == Ok::<Stage, ValueError>(s),
            stage_named(value@) is None ==> (r matches Err(e) && e@ == ValueErrorView::InvalidStage(
                value@,
            )),
    {
        if str_eq(value, "casing") {
            Ok(Stage::Casing)
        } else if str_eq(value, "planning") {
            Ok(Stage::Planning)
        } else if str_eq(value, "fence_review") {
            Ok(Stage::FenceReview)
        } else if str_eq(value, "human_review") {
            Ok(Stage::HumanReview)
        } else if str_eq(value, "forging") {
            Ok(Stage::Forging)
        } else if str_eq(value, "implementing") {
            Ok(Stage::Implementing)
        } else if str_eq(value, "cleaning") {
            Ok(Stage::Cleaning)
        } else if str_eq(value, "done") {
            Ok(Stage::Done)
        } else {
            Err(ValueError::InvalidStage(owned(value)))
        }
    }
}

/// How much of the pipeline runs: `heavy` is the full pipeline, `medium`
/// skips Fence review, `light` skips Fence, Forger, Wheelman and the Cleaner
/// in favour of direct implementation with a manual review of the diff.
#[derive(Debug, Clone, Copy, PartialEq, Eq, Structural)]
pub enum Mode {
    Heavy,
    Medium,
    Light,
}

pub open spec fn mode_name(m: Mode) -> Seq<char> {
    match m {
        Mode::Heavy => "heavy"@,
        Mode::Medium => "medium"@,
        Mode::Light => "light"@,
    }
}

pub open spec fn mode_named(v: Seq<char>) -> Option<Mode> {
    if v == "heavy"@ {
        Some(Mode::Heavy)
    } else if v == "medium"@ {
        Some(Mode::Medium)
    } else if v == "light"@ {
        Some(Mode::Light)
    } else {
        None
    }
}

impl Default for Mode {
    fn default() -> (r: Mode)
        ensures
            r == Mode::Heavy,
    {
        Mode::Heavy
    }
}

impl Mode {
    pub fn as_str(&self) -> (r: &'static str)
        ensures
            r@ == mode_name(*self),
    {
        match self {
            Mode::Heavy => "heavy",
            Mode::Medium => "medium",
            Mode::Light => "light",
        }
    }

    /// The mode named `value`, or `InvalidValue` for the `mode` field.
    pub fn parse(value: &str) -> (r: Result<Mode, ValueError>)
        ensures
            mode_named(value@) matches Some(m) ==> r == Ok::<Mode, ValueError>(m),
            mode_named(value@) is None ==> (r matches Err(e) && e@ == invalid_value(
                "mode"@,
                value@,
                "one of: heavy, medium, light"@,
            )),
    {
        if str_eq(value, "heavy") {
            Ok(Mode::Heavy)
        } else if str_eq(value, "medium") {
            Ok(Mode::Medium)
        } else if str_eq(value, "light") {
            Ok(Mode::Light)
        } else {
            Err(
                ValueError::InvalidValue {
                    field: owned("mode"),
                    value: owned(value),
                    expected: owned("one of: heavy, medium, light"),
                },
            )
        }
    }
}

// ---------------------------------------------------------------------------
// routing
// ---------------------------------------------------------------------------

/// A pipeline document.
#[derive(Debug, Clone, Copy, PartialEq, Eq, Structural)]
pub enum PipelineFile {
    Pipeline,
    PipelineStandard,
    PipelineLight,
}

pub open spec fn pipeline_file_name(f: PipelineFile) -> Seq<char> {
    match f {
        PipelineFile::Pipeline => "pipeline.md"@,
        PipelineFile::PipelineStandard => "pipeline-standard.md"@,
        PipelineFile::PipelineLight => "pipeline-light.md"@,
    }
}

impl PipelineFile {
    pub fn as_str(&self) -> (r: &'static str)
        ensures
            r@ == pipeline_file_name(*self),
    {
        match self {
            PipelineFile::Pipeline => "pipeline.md",
            PipelineFile::PipelineStandard => "pipeline-standard.md",
            PipelineFile::PipelineLight => "pipeline-light.md",
        }
    }
}

/// A step of a pipeline document.
#[derive(Debug, Clone, Copy, PartialEq, Eq, Structural)]
pub struct Routing {
    pub file: PipelineFile,
    pub step: u8,
}

impl Routing {
    /// The routing as `<file> step <n>`, the way it is shown to users.
    pub fn describe(&self) -> (r: String)
        ensures
            r@ == pipeline_file_name(self.file) + " step "@ + decimal(self.step as nat),
    {
        let mut m = chars_of(self.file.as_str());
        crate::text::push_str(&mut m, " step ");
        push_decimal(&mut m, self.step as u64);
        string_from(&m)
    }
}

/// Where the next piece of work for a stage is documented, by mode.
pub open spec fn spec_route(stage: Stage, mode: Mode) -> Option<Routing> {
    match stage {
        Stage::Casing => Some(Routing { file: PipelineFile::Pipeline, step: 1 }),
        Stage::Planning => Some(Routing { file: PipelineFile::Pipeline, step: 2 }),
        Stage::FenceReview => Some(Routing { file: PipelineFile::Pipeline, step: 3 }),
        Stage::HumanReview => Some(Routing { file: PipelineFile::Pipeline, step: 4 }),
        Stage::Forging => Some(Routing { file: PipelineFile::PipelineStandard, step: 5 }),
        Stage::Implementing => match mode {
            Mode::Light => Some(Routing { file: PipelineFile::PipelineLight, step: 2 }),
            _ => Some(Routing { file: PipelineFile::PipelineStandard, step: 6 }),
        },
        Stage::Cleaning => match mode {
            Mode::Light => Some(Routing { file: PipelineFile::PipelineLight, step: 3 }),
            _ => Some(Routing { file: PipelineFile::PipelineStandard, step: 7 }),
        },
        Stage::Done => None,
    }
}

pub fn route(stage: Stage, mode: Mode) -> (r: Option<Routing>)
    ensures
        r == spec_route(stage, mode),
{
    match stage {
        Stage::Casing => Some(Routing { file: PipelineFile::Pipeline, step: 1 }),
        Stage::Planning => Some(Routing { file: PipelineFile::Pipeline, step: 2 }),
        Stage::FenceReview => Some(Routing { file: PipelineFile::Pipeline, step: 3 }),
        Stage::HumanReview => Some(Routing { file: PipelineFile::Pipeline, step: 4 }),
        Stage::Forging => Some(Routing { file: PipelineFile::PipelineStandard, step: 5 }),
        Stage::Implementing => match mode {
            Mode::Light => Some(Routing { file: PipelineFile::PipelineLight, step: 2 }),
            Mode::Medium | Mode::Heavy => Some(
                Routing { file: PipelineFile::PipelineStandard, step: 6 },
            ),
        },
        Stage::Cleaning => match mode {
            Mode::Light => Some(Routing { file: PipelineFile::PipelineLight, step: 3 }),
            Mode::Medium | Mode::Heavy => Some(
                Routing { file: PipelineFile::PipelineStandard, step: 7 },
            ),
        },
        Stage::Done => None,
    }
}

// ---------------------------------------------------------------------------
// state
// ---------------------------------------------------------------------------

/// A heist's state, as `state.json` holds it.
#[derive(Debug, PartialEq)]
pub struct State {
    pub schema_version: SchemaVersion,
    pub slug: SlugValue,
    pub stage: Stage,
    pub mode: Mode,
    pub worktree: Option<NonBlankValue>,
    pub branch: Option<NonBlankValue>,
    pub base: Option<NonBlankValue>,
    pub score_wave: ScoreWave,
    pub score_waves_total: ScoreWavesTotal,
    pub score_steps_total: ScoreStepsTotal,
    pub fence_rounds: FenceRounds,
    pub created: DateValue,
    pub updated: DateValue,
}

/// The mathematical value of a [`State`].
pub struct StateView {
    pub schema_version: SchemaVersion,
    pub slug: Seq<char>,
    pub stage: Stage,
    pub mode: Mode,
    pub worktree: Option<Seq<char>>,
    pub branch: Option<Seq<char>>,
    pub base: Option<Seq<char>>,
    pub score_wave: u32,
    pub score_waves_total: u32,
    pub score_steps_total: u32,
    pub fence_rounds: u32,
    pub created: Seq<char>,
    pub updated: Seq<char>,
}

pub open spec fn opt_view(o: Option<NonBlankValue>) -> Option<Seq<char>> {
    match o {
        Some(v) => Some(v@),
        None => None,
    }
}

impl View for State {
    type V = StateView;

    open spec fn view(&self) -> StateView {
        StateView {
            schema_version: self.schema_version,
            slug: self.slug@,
            stage: self.stage,
            mode: self.mode,
            worktree: opt_view(self.worktree),
            branch: opt_view(self.branch),
            base: opt_view(self.base),
            score_wave: self.score_wave@,
            score_waves_total: self.score_waves_total@,
            score_steps_total: self.score_steps_total@,
            fence_rounds: self.fence_rounds@,
            created: self.created@,
            updated: self.updated@,
        }
    }
}

pub open spec fn opt_non_blank(o: Option<Seq<char>>) -> bool {
    o matches Some(v) ==> is_non_blank(v)
}

/// What every state satisfies: each field holds a value its type accepts.
pub open spec fn state_wf(s: StateView) -> bool {
    &&& is_valid_slug(s.slug)
    &&& opt_non_blank(s.worktree)
    &&& opt_non_blank(s.branch)
    &&& opt_non_blank(s.base)
    &&& iso_date_accepted(s.created)
    &&& iso_date_accepted(s.updated)
}

/// How an optional field reads: its value, or `null` when unset.
pub open spec fn opt_text(o: Option<Seq<char>>) -> Seq<char> {
    match o {
        Some(v) => v,
        None => "null"@,
    }
}

/// The text `get` reports for a field, or `None` for an unknown field name.
pub open spec fn spec_get_field(s: StateView, f: Seq<char>) -> Option<Seq<char>> {
    if f == "schema_version"@ {
        Some("1"@)
    } else if f == "slug"@ {
        Some(s.slug)
    } else if f == "stage"@ {
        Some(stage_name(s.stage))
    } else if f == "mode"@ {
        Some(mode_name(s.mode))
    } else if f == "worktree"@ {
        Some(opt_text(s.worktree))
    } else if f == "branch"@ {
        Some(opt_text(s.branch))
    } else if f == "base"@ {
        Some(opt_text(s.base))
    } else if f == "score_wave"@ {
        Some(decimal(s.score_wave as nat))
    } else if f == "score_waves_total"@ {
        Some(decimal(s.score_waves_total as nat))
    } else if f == "score_steps_total"@ {
        Some(decimal(s.score_steps_total as nat))
    } else if f == "fence_rounds"@ {
        Some(decimal(s.fence_rounds as nat))
    } else if f == "created"@ {
        Some(s.created)
    } else if f == "updated"@ {
        Some(s.updated)
    } else {
        None
    }
}

pub open spec fn non_blank_update(f: Seq<char>, v: Seq<char>) -> Result<Seq<char>, ValueErrorView> {
    if is_non_blank(v) {
        Ok(v)
    } else {
        Err(invalid_value(f, v, "a non-blank string"@))
    }
}

pub open spec fn numeric_update(f: Seq<char>, v: Seq<char>) -> Result<u32, ValueErrorView> {
    match parse_u32(v) {
        Some(n) => Ok(n),
        None => Err(invalid_numeric(f, v)),
    }
}

pub open spec fn date_update(f: Seq<char>, v: Seq<char>) -> Result<Seq<char>, ValueErrorView> {
    if iso_date_accepted(v) {
        Ok(v)
    } else {
        Err(invalid_value(f, v, "an ISO 8601 date (YYYY-MM-DD)"@))
    }
}

/// The state after `set` of field `f` to the text `v`, or why it is refused.
pub open spec fn spec_set_field(s: StateView, f: Seq<char>, v: Seq<char>) -> Result<
    StateView,
    ValueErrorView,
> {
    if f == "schema_version"@ {
        match parse_u32(v) {
            Some(n) => if n == 1 {
                Ok(StateView { schema_version: SchemaVersion::V1, ..s })
            } else {
                Err(
                    invalid_value(
                        "schema_version"@,
                        v,
                        "a supported schema version (currently 1)"@,
                    ),
                )
            },
            None => Err(invalid_numeric("schema_version"@, v)),
        }
    } else if f == "slug"@ {
        if is_valid_slug(v) {
            Ok(StateView { slug: v, ..s })
        } else {
            Err(invalid_value("slug"@, v, "kebab-case: lowercase letters, digits, single hyphens"@))
        }
    } else if f == "stage"@ {
        match stage_named(v) {
            Some(st) => Ok(StateView { stage: st, ..s }),
            None => Err(ValueErrorView::InvalidStage(v)),
        }
    } else if f == "mode"@ {
        match mode_named(v) {
            Some(m) => Ok(StateView { mode: m, ..s }),
            None => Err(invalid_value("mode"@, v, "one of: heavy, medium, light"@)),
        }
    } else if f == "worktree"@ {
        match non_blank_update(f, v) {
            Ok(x) => Ok(StateView { worktree: Some(x), ..s }),
            Err(e) => Err(e),
        }
    } else if f == "branch"@ {
        match non_blank_update(f, v) {
            Ok(x) => Ok(StateView { branch: Some(x), ..s }),
            Err(e) => Err(e),
        }
    } else if f == "base"@ {
        match non_blank_update(f, v) {
            Ok(x) => Ok(StateView { base: Some(x), ..s }),
            Err(e) => Err(e),
        }
    } else if f == "score_wave"@ {
        match numeric_update(f, v) {
            Ok(n) => Ok(StateView { score_wave: n, ..s }),
            Err(e) => Err(e),
        }
    } else if f == "score_waves_total"@ {
        match numeric_update(f, v) {
            Ok(n) => Ok(StateView { score_waves_total: n, ..s }),
            Err(e) => Err(e),
        }
    } else if f == "score_steps_total"@ {
        match numeric_update(f, v) {
            Ok(n) => Ok(StateView { score_steps_total: n, ..s }),
            Err(e) => Err(e),
        }
    } else if f == "fence_rounds"@ {
        match numeric_update(f, v) {
            Ok(n) => Ok(StateView { fence_rounds: n, ..s }),
            Err(e) => Err(e),
        }
    } else if f == "created"@ {
        match date_update(f, v) {
            Ok(x) => Ok(StateView { created: x, ..s }),
            Err(e) => Err(e),
        }
    } else if f == "updated"@ {
        match date_update(f, v) {
            Ok(x) => Ok(StateView { updated: x, ..s }),
            Err(e) => Err(e),
        }
    } else {
        Err(ValueErrorView::Unknown(f))
    }
}

/// The state `init` writes for a new heist.
pub open spec fn spec_new_state(slug: Seq<char>, today: Seq<char>) -> StateView {
    StateView {
        schema_version: SchemaVersion::V1,
        slug,
        stage: Stage::Casing,
        mode: Mode::Heavy,
        worktree: None,
        branch: None,
        base: None,
        score_wave: 0,
        score_waves_total: 0,
        score_steps_total: 0,
        fence_rounds: 0,
        created: today,
        updated: today,
    }
}

fn dup_opt(o: &Option<NonBlankValue>) -> (r: Option<NonBlankValue>)
    ensures
        opt_view(r) == opt_view(*o),
{
    match o {
        Some(v) => Some(v.duplicate()),
        None => None,
    }
}

fn opt_text_exec(o: &Option<NonBlankValue>) -> (r: String)
    ensures
        r@ == opt_text(opt_view(*o)),
{
    match o {
        Some(v) => v.to_owned_string(),
        None => owned("null"),
    }
}

fn decimal_string(n: u32) -> (r: String)
    ensures
        r@ == decimal(n as nat),
{
    let v = crate::text::decimal_exec(n as u64);
    string_from(&v)
}

impl State {
    /// A copy.
    pub fn duplicate(&self) -> (r: State)
        ensures
            r@ == self@,
    {
        State {
            schema_version: self.schema_version,
            slug: self.slug.duplicate(),
            stage: self.stage,
            mode: self.mode,
            worktree: dup_opt(&self.worktree),
            branch: dup_opt(&self.branch),
            base: dup_opt(&self.base),
            score_wave: self.score_wave,
            score_waves_total: self.score_waves_total,
            score_steps_total: self.score_steps_total,
            fence_rounds: self.fence_rounds,
            created: self.created.duplicate(),
            updated: self.updated.duplicate(),
        }
    }

    /// A fresh state at stage `casing`, mode `heavy`, created and updated
    /// `today`.
    pub fn new(slug: &SlugValue, today: DateValue) -> (r: Result<State, ValueError>)
        ensures
            r matches Ok(s) && s@ == spec_new_state(slug@, today@),
    {
        let created = today.duplicate();
        Ok(
            State {
                schema_version: SchemaVersion::current(),
                slug: slug.duplicate(),
                stage: Stage::Casing,
                mode: Mode::Heavy,
                worktree: None,
                branch: None,
                base: None,
                score_wave: ScoreWave::new(0),
                score_waves_total: ScoreWavesTotal::new(0),
                score_steps_total: ScoreStepsTotal::new(0),
                fence_rounds: FenceRounds::new(0),
                created,
                updated: today,
            },
        )
    }

    /// The text of field `cli_field`, or `Unknown` for an unknown name.
    pub fn get_field(&self, cli_field: &str) -> (r: Result<String, ValueError>)
        ensures
            spec_get_field(self@, cli_field@) matches Some(v) ==> (r matches Ok(x) && x@ == v),
            spec_get_field(self@, cli_field@) is None ==> (r matches Err(e) && e@
                == ValueErrorView::Unknown(cli_field@)),
    {
        let value = if str_eq(cli_field, "schema_version") {
            let _ = self.schema_version.as_u32();
            owned("1")
        } else if str_eq(cli_field, "slug") {
            self.slug.to_owned_string()
        } else if str_eq(cli_field, "stage") {
            owned(self.stage.as_str())
        } else if str_eq(cli_field, "mode") {
            owned(self.mode.as_str())
        } else if str_eq(cli_field, "worktree") {
            opt_text_exec(&self.worktree)
        } else if str_eq(cli_field, "branch") {
            opt_text_exec(&self.branch)
        } else if str_eq(cli_field, "base") {
            opt_text_exec(&self.base)
        } else if str_eq(cli_field, "score_wave") {
            decimal_string(self.score_wave.into_inner())
        } else if str_eq(cli_field, "score_waves_total") {
            decimal_string(self.score_waves_total.into_inner())
        } else if str_eq(cli_field, "score_steps_total") {
            decimal_string(self.score_steps_total.into_inner())
        } else if str_eq(cli_field, "fence_rounds") {
            decimal_string(self.fence_rounds.into_inner())
        } else if str_eq(cli_field, "created") {
            self.created.to_owned_string()
        } else if str_eq(cli_field, "updated") {
            self.updated.to_owned_string()
        } else {
            return Err(ValueError::Unknown(owned(cli_field)));
        };
        Ok(value)
    }

    /// Sets field `cli_field` from the text `value`; a refused value leaves
    /// the state unchanged.
    pub fn set_field(&mut self, cli_field: &str, value: &str) -> (r: Result<(), ValueError>)
        ensures
            r is Ok ==> spec_set_field(old(self)@, cli_field@, value@) == Ok::<
                StateView,
                ValueErrorView,
            >(final(self)@),
            r matches Err(e) ==> spec_set_field(old(self)@, cli_field@, value@) == Err::<
                StateView,
                ValueErrorView,
            >(e@) && final(self)@ == old(self)@,
    {
        if str_eq(cli_field, "schema_version") {
            match SchemaVersion::parse(value) {
                Ok(v) => self.schema_version = v,
                Err(e) => return Err(e),
            }
        } else if str_eq(cli_field, "slug") {
            match SlugValue::parse(value) {
                Ok(v) => self.slug = v,
                Err(e) => return Err(e),
            }
        } else if str_eq(cli_field, "stage") {
            match Stage::parse(value) {
                Ok(v) => self.stage = v,
                Err(e) => return Err(e),
            }
        } else if str_eq(cli_field, "mode") {
            match Mode::parse(value) {
                Ok(v) => self.mode = v,
                Err(e) => return Err(e),
            }
        } else if str_eq(cli_field, "worktree") {
            match NonBlankValue::parse(cli_field, value) {
                Ok(v) => self.worktree = Some(v),
                Err(e) => return Err(e),
            }
        } else if str_eq(cli_field, "branch") {
            match NonBlankValue::parse(cli_field, value) {
                Ok(v) => self.branch = Some(v),
                Err(e) => return Err(e),
            }
        } else if str_eq(cli_field, "base") {
            match NonBlankValue::parse(cli_field, value) {
                Ok(v) => self.base = Some(v),
                Err(e) => return Err(e),
            }
        } else if str_eq(cli_field, "score_wave") {
            match ScoreWave::parse(cli_field, value) {
                Ok(v) => self.score_wave = v,
                Err(e) => return Err(e),
            }
        } else if str_eq(cli_field, "score_waves_total") {
            match ScoreWavesTotal::parse(cli_field, value) {
                Ok(v) => self.score_waves_total = v,
                Err(e) => return Err(e),
            }
        } else if str_eq(cli_field, "score_steps_total") {
            match ScoreStepsTotal::parse(cli_field, value) {
                Ok(v) => self.score_steps_total = v,
                Err(e) => return Err(e),
            }
        } else if str_eq(cli_field, "fence_rounds") {
            match FenceRounds::parse(cli_field, value) {
                Ok(v) => self.fence_rounds = v,
                Err(e) => return Err(e),
            }
        } else if str_eq(cli_field, "created") {
            match DateValue::parse(cli_field, value) {
                Ok(v) => self.created = v,
                Err(e) => return Err(e),
            }
        } else if str_eq(cli_field, "updated") {
            match DateValue::parse(cli_field, value) {
                Ok(v) => self.updated = v,
                Err(e) => return Err(e),
            }
        } else {
            return Err(ValueError::Unknown(owned(cli_field)));
        }
        Ok(())
    }
}


// ---------------------------------------------------------------------------
// laws
// ---------------------------------------------------------------------------

/// The text `get` reports for field `f` after `set` accepted the text `v`:
/// the value itself, except that counters read back in canonical decimal
/// and the schema version as `1`.
pub open spec fn read_back(f: Seq<char>, v: Seq<char>) -> Seq<char> {
    if f == "schema_version"@ {
        "1"@
    } else if f == "score_wave"@ || f == "score_waves_total"@ || f == "score_steps_total"@ || f
        == "fence_rounds"@ {
        match parse_u32(v) {
            Some(n) => decimal(n as nat),
            None => v,
        }
    } else {
        v
    }
}

/// Facts about the field names that tell them apart.
proof fn lemma_field_names()
    ensures
        "schema_version"@.len() == 14,
        "slug"@.len() == 4 && "slug"@[0] == 's',
        "stage"@.len() == 5,
        "mode"@.len() == 4 && "mode"@[0] == 'm',
        "worktree"@.len() == 8,
        "branch"@.len() == 6,
        "base"@.len() == 4 && "base"@[0] == 'b',
        "score_wave"@.len() == 10,
        "score_waves_total"@.len() == 17 && "score_waves_total"@[6] == 'w',
        "score_steps_total"@.len() == 17 && "score_steps_total"@[6] == 's',
        "fence_rounds"@.len() == 12,
        "created"@.len() == 7 && "created"@[0] == 'c',
        "updated"@.len() == 7 && "updated"@[0] == 'u',
{
    reveal_strlit("schema_version");
    reveal_strlit("slug");
    reveal_strlit("stage");
    reveal_strlit("mode");
    reveal_strlit("worktree");
    reveal_strlit("branch");
    reveal_strlit("base");
    reveal_strlit("score_wave");
    reveal_strlit("score_waves_total");
    reveal_strlit("score_steps_total");
    reveal_strlit("fence_rounds");
    reveal_strlit("created");
    reveal_strlit("updated");
}

/// Reading a field after setting it gives back the value that was set: the
/// number in canonical form for the counters, `1` for the schema version,
/// the text itself for every other field.
pub proof fn law_get_after_set(s: StateView, f: Seq<char>, v: Seq<char>)
    requires
        spec_set_field(s, f, v) is Ok,
    ensures
        spec_get_field(spec_set_field(s, f, v)->Ok_0, f) == Some(read_back(f, v)),
{
    lemma_field_names();
    if f == "stage"@ {
        let st = stage_named(v)->Some_0;
        assert(stage_name(st) == v);
    } else if f == "mode"@ {
        let m = mode_named(v)->Some_0;
        assert(mode_name(m) == v);
    }
}

proof fn lemma_digit_char_value(d: nat)
    requires
        d < 10,
    ensures
        crate::text::is_digit(crate::text::digit_char(d)),
        crate::text::digit_value(crate::text::digit_char(d)) == d,
{
}

/// The decimal rendering of a number parses back to it.
pub proof fn lemma_decimal_parses(n: u32)
    ensures
        parse_u32(decimal(n as nat)) == Some(n),
{
    lemma_decimal_digits(n as nat);
    let d = decimal(n as nat);
    assert(d[0] != '+') by {
        assert(crate::text::is_digit(d[0]));
    }
}

proof fn lemma_decimal_digits(n: nat)
    ensures
        decimal(n).len() > 0,
        crate::text::all_digits(decimal(n)),
        crate::text::digits_value(decimal(n)) == n,
    decreases n,
{
    if n < 10 {
        lemma_digit_char_value(n);
        assert(decimal(n).drop_last() =~= seq![]);
        assert(crate::text::digits_value(decimal(n).drop_last()) == 0);
    } else {
        lemma_decimal_digits(n / 10);
        lemma_digit_char_value(n % 10);
        let d = decimal(n);
        assert(d.drop_last() =~= decimal(n / 10));
        assert((n / 10) * 10 + n % 10 == n) by (nonlinear_arith);
        assert(crate::text::all_digits(d)) by {
            assert forall|i: int| 0 <= i < d.len() implies crate::text::is_digit(#[trigger] d[i]) by {
                if i < d.len() - 1 {
                    assert(d[i] == decimal(n / 10)[i]);
                }
            }
        }
    }
}

/// Stage names parse back exactly: the name of every stage parses to that
/// stage, a name that parses names the stage it gives, and any other text
/// names no stage.
pub proof fn law_stage_names(st: Stage, v: Seq<char>)
    ensures
        stage_named(stage_name(st)) == Some(st),
        stage_named(v) matches Some(s) ==> v == stage_name(s),
        stage_named(v) is None ==> v != stage_name(st),
{
    lemma_stage_named(st);
}

proof fn lemma_stage_named(st: Stage)
    ensures
        stage_named(stage_name(st)) == Some(st),
{
    reveal_strlit("casing");
    reveal_strlit("planning");
    reveal_strlit("fence_review");
    reveal_strlit("human_review");
    reveal_strlit("forging");
    reveal_strlit("implementing");
    reveal_strlit("cleaning");
    reveal_strlit("done");
    let n = stage_name(st);
    assert(n.len() == 6 ==> n[0] == 'c');
    assert(n.len() == 8 && n[0] == 'p' ==> st == Stage::Planning);
    assert(n.len() == 8 && n[0] == 'c' ==> st == Stage::Cleaning);
    match st {
        Stage::Casing => {},
        Stage::Planning => {
            assert(n != "casing"@);
        },
        Stage::FenceReview => {
            assert(n != "casing"@);
            assert(n[0] != "planning"@[0]);
        },
        Stage::HumanReview => {
            assert(n[0] != "fence_review"@[0]);
            assert(n[0] != "planning"@[0]);
        },
        Stage::Forging => {
            assert(n.len() != "casing"@.len());
        },
        Stage::Implementing => {
            assert(n[0] != "fence_review"@[0]);
            assert(n[0] != "human_review"@[0]);
            assert(n[0] != "planning"@[0]);
        },
        Stage::Cleaning => {
            assert(n[0] != "planning"@[0]);
            assert(n.len() != "casing"@.len());
        },
        Stage::Done => {},
    }
}

proof fn lemma_mode_named(m: Mode)
    ensures
        mode_named(mode_name(m)) == Some(m),
{
    reveal_strlit("heavy");
    reveal_strlit("medium");
    reveal_strlit("light");
    let n = mode_name(m);
    match m {
        Mode::Heavy => {},
        Mode::Medium => {
            assert(n.len() != "heavy"@.len());
        },
        Mode::Light => {
            assert(n[0] != "heavy"@[0]);
            assert(n.len() != "medium"@.len());
        },
    }
}

/// An optional field that is unset reads as `null`, which `set` would store
/// as text; every other field of a valid state is left as it is by setting
/// it to the text `get` reports.
pub open spec fn reads_as_its_value(s: StateView, f: Seq<char>) -> bool {
    &&& f == "worktree"@ ==> s.worktree is Some
    &&& f == "branch"@ ==> s.branch is Some
    &&& f == "base"@ ==> s.base is Some
}

/// Setting a field to the text `get` reports for it leaves the state
/// unchanged (unset optional fields excepted, as they read as `null`).
pub proof fn law_set_what_get_reports(s: StateView, f: Seq<char>)
    requires
        state_wf(s),
        s.schema_version == SchemaVersion::V1,
        spec_get_field(s, f) is Some,
        reads_as_its_value(s, f),
    ensures
        spec_set_field(s, f, spec_get_field(s, f)->Some_0) == Ok::<StateView, ValueErrorView>(s),
{
    reveal_strlit("1");
    lemma_field_names();
    lemma_stage_named(s.stage);
    lemma_mode_named(s.mode);
    lemma_decimal_parses(s.score_wave);
    lemma_decimal_parses(s.score_waves_total);
    lemma_decimal_parses(s.score_steps_total);
    lemma_decimal_parses(s.fence_rounds);
    assert(parse_u32("1"@) == Some(1u32)) by {
        assert(crate::text::digits_value("1"@.drop_last()) == 0);
    }
}

} // verus!
