//! The score: a heist's work order of numbered steps grouped into waves.
use vstd::prelude::*;

pub mod check;
pub mod parser;

pub use check::check;
pub use parser::parse;

verus! {

#[derive(Debug, Clone, PartialEq)]
pub struct Score {
    pub steps: Vec<Step>,
}

#[derive(Debug, Clone, PartialEq)]
pub struct Step {
    pub number: u32,
    pub title: String,
    /// The wave this step declares via its own `- **Wave**: N` field line.
    pub wave: u32,
    /// The wave derived from the `## Wave N` header this step is nested under.
    pub enclosing_wave: u32,
    pub files: Vec<String>,
    pub shape: Shape,
    pub depends_on: Vec<u32>,
    pub raw: String,
}

#[derive(Debug, Clone, PartialEq)]
pub enum Shape {
    RedGreen { red: String, green: String, verify: String },
    Change { change: String, verify: String },
}

#[derive(Debug, Clone, PartialEq)]
pub struct Finding {
    pub step: u32,
    pub message: String,
}

#[derive(Debug, Clone, Copy, PartialEq, Eq)]
pub struct NoSuchWave(pub u32);

/// The mathematical value of a [`Step`].
pub struct StepView {
    pub number: u32,
    pub title: Seq<char>,
    pub wave: u32,
    pub enclosing_wave: u32,
    pub files: Seq<Seq<char>>,
    pub shape: ShapeView,
    pub depends_on: Seq<u32>,
    pub raw: Seq<char>,
}

pub enum ShapeView {
    RedGreen { red: Seq<char>, green: Seq<char>, verify: Seq<char> },
    Change { change: Seq<char>, verify: Seq<char> },
}

pub struct FindingView {
    pub step: u32,
    pub message: Seq<char>,
}

pub open spec fn strings_view(v: Seq<String>) -> Seq<Seq<char>> {
    v.map_values(|s: String| s@)
}

impl View for Shape {
    type V = ShapeView;

    open spec fn view(&self) -> ShapeView {
        match self {
            Shape::RedGreen { red, green, verify } => ShapeView::RedGreen {
                red: red@,
                green: green@,
                verify: verify@,
            },
            Shape::Change { change, verify } => ShapeView::Change { change: change@, verify: verify@ },
        }
    }
}

impl View for Step {
    type V = StepView;

    open spec fn view(&self) -> StepView {
        StepView {
            number: self.number,
            title: self.title@,
            wave: self.wave,
            enclosing_wave: self.enclosing_wave,
            files: strings_view(self.files@),
            shape: self.shape@,
            depends_on: self.depends_on@,
            raw: self.raw@,
        }
    }
}

impl View for Finding {
    type V = FindingView;

    open spec fn view(&self) -> FindingView {
        FindingView { step: self.step, message: self.message@ }
    }
}

pub open spec fn steps_view(v: Seq<Step>) -> Seq<StepView> {
    v.map_values(|s: Step| s@)
}

pub open spec fn findings_view(v: Seq<Finding>) -> Seq<FindingView> {
    v.map_values(|f: Finding| f@)
}

impl View for Score {
    type V = Seq<StepView>;

    open spec fn view(&self) -> Seq<StepView> {
        steps_view(self.steps@)
    }
}

/// The `(number, raw)` blocks of the steps nested under `## Wave {wave}`, in
/// score order.
pub open spec fn spec_wave_blocks(steps: Seq<StepView>, wave: u32) -> Seq<(u32, Seq<char>)>
    decreases steps.len(),
{
    if steps.len() == 0 {
        seq![]
    } else {
        let rest = spec_wave_blocks(steps.drop_last(), wave);
        let s = steps.last();
        if s.enclosing_wave == wave {
            rest.push((s.number, s.raw))
        } else {
            rest
        }
    }
}

pub fn copy_string(s: &String) -> (r: String)
    ensures
        r@ == s@,
{
    let v = crate::text::string_chars(s);
    crate::text::string_from(&v)
}

/// The numbered raw blocks of one wave, or `NoSuchWave` when no step sits
/// under that wave's header.
pub fn wave_blocks(score: &Score, wave: u32) -> (r: Result<Vec<(u32, String)>, NoSuchWave>)
    ensures
        ({
            let blocks = spec_wave_blocks(score@, wave);
            match r {
                Ok(v) => blocks.len() > 0 && v@.len() == blocks.len() && forall|k: int|
                    0 <= k < v@.len() ==> (#[trigger] v@[k]).0 == blocks[k].0 && v@[k].1@
                        == blocks[k].1,
                Err(e) => blocks.len() == 0 && e.0 == wave,
            }
        }),
{
    let mut blocks: Vec<(u32, String)> = Vec::new();
    let mut i: usize = 0;
    while i < score.steps.len()
        invariant
            i <= score.steps.len(),
            ({
                let want = spec_wave_blocks(score@.take(i as int), wave);
                blocks@.len() == want.len() && forall|k: int|
                    0 <= k < blocks@.len() ==> (#[trigger] blocks@[k]).0 == want[k].0
                        && blocks@[k].1@ == want[k].1
            }),
        decreases score.steps.len() - i,
    {
        let s = &score.steps[i];
        assert(score@.take(i + 1).drop_last() =~= score@.take(i as int));
        assert(score@.take(i + 1).last() == s@);
        if s.enclosing_wave == wave {
            blocks.push((s.number, copy_string(&s.raw)));
        }
        i += 1;
    }
    assert(score@.take(score.steps.len() as int) =~= score@);
    if blocks.len() == 0 {
        Err(NoSuchWave(wave))
    } else {
        Ok(blocks)
    }
}

/// `NoSuchWave` as its user-facing message.
impl NoSuchWave {
    pub fn message(&self) -> (r: String)
        ensures
            r@ == "no wave "@ + crate::text::decimal(self.0 as nat) + " in score"@,
    {
        let mut v: Vec<char> = Vec::new();
        crate::text::push_str(&mut v, "no wave ");
        crate::text::push_decimal(&mut v, self.0 as u64);
        crate::text::push_str(&mut v, " in score");
        crate::text::string_from(&v)
    }
}

impl Finding {
    /// The finding as `step N: message`, the way it is shown to users.
    pub fn message_line(&self) -> (r: String)
        ensures
            r@ == "step "@ + crate::text::decimal(self.step as nat) + ": "@ + self.message@,
    {
        let mut v: Vec<char> = Vec::new();
        crate::text::push_str(&mut v, "step ");
        crate::text::push_decimal(&mut v, self.step as u64);
        crate::text::push_str(&mut v, ": ");
        let m = crate::text::string_chars(&self.message);
        crate::text::push_all(&mut v, &m);
        crate::text::string_from(&v)
    }
}

} // verus!
