//! Parsing `score.md` into steps, or into the findings that make it invalid.
//!
//! The grammar, line by line (lines as `str::lines` splits them):
//! - a line whose trimmed text starts with a fence marker (three backticks or
//!   three tildes) opens or closes a fence; inside a fence nothing is a token;
//! - `## Wave N` (digits only) sets the enclosing wave of the steps below it;
//! - `### Step N: title` (or the flat `## Step N: title`) starts a step, whose
//!   body runs to the next header token outside a fence;
//! - a plausible but malformed wave or step header is a finding;
//! - inside a step body, `- **Wave**:`, `- **Files**:`, `- **Red**:`,
//!   `- **Green**:`, `- **Verify**:`, `- **Change**:` and `- Depends on:`
//!   bullets give the step's fields.
use super::{
    findings_view, steps_view, strings_view, Finding, FindingView, Score, Shape, ShapeView, Step,
    StepView,
};
use crate::text::{
    all_digits, all_digits_exec, chars_of, decimal, find, find_exec, find_from, has_ws, has_ws_exec,
    lines, lines_exec, occurs_at, parse_u32, parse_u32_exec, push_all, push_decimal, push_str,
    slice_of, split, split_exec, starts_with, starts_with_exec, starts_with_str, string_from,
    strip_prefix, trim, trim_exec,
};
use vstd::prelude::*;

verus! {

/// The two kinds of code fence.
#[derive(Debug, Clone, Copy, PartialEq, Eq, Structural)]
pub enum Fence {
    Backtick,
    Tilde,
}

// ---------------------------------------------------------------------------
// line classification (spec)
// ---------------------------------------------------------------------------

/// The fence a trimmed line opens or closes, if it is a fence line.
pub open spec fn fence_marker(t: Seq<char>) -> Option<Fence> {
    if starts_with(t, "```"@) {
        Some(Fence::Backtick)
    } else if starts_with(t, "~~~"@) {
        Some(Fence::Tilde)
    } else {
        None
    }
}

/// The fence state after the trimmed line `t`: a marker closes the fence it
/// matches, opens one when none is open, and is plain text inside the other.
pub open spec fn toggle_fence(t: Seq<char>, cur: Option<Fence>) -> Option<Fence> {
    match fence_marker(t) {
        Some(m) => if cur == Some(m) {
            None
        } else if cur is None {
            Some(m)
        } else {
            cur
        },
        None => cur,
    }
}

/// The wave number of a well-formed `## Wave N` header.
pub open spec fn wave_header_number(line: Seq<char>) -> Option<u32> {
    match strip_prefix(line, "## Wave "@) {
        Some(rest) => {
            let t = trim(rest);
            if t.len() > 0 && all_digits(t) {
                parse_u32(t)
            } else {
                None
            }
        },
        None => None,
    }
}

/// The text after `### Step ` (or the flat `## Step `).
pub open spec fn step_rest(line: Seq<char>) -> Option<Seq<char>> {
    match strip_prefix(line, "### Step "@) {
        Some(r) => Some(r),
        None => strip_prefix(line, "## Step "@),
    }
}

/// `(number, title)` of a well-formed step header.
pub open spec fn step_header_parts(line: Seq<char>) -> Option<(u32, Seq<char>)> {
    match step_rest(line) {
        Some(rest) => match find(rest, ": "@) {
            Some(k) => {
                let num = rest.take(k);
                if num.len() > 0 && all_digits(num) {
                    match parse_u32(num) {
                        Some(n) => Some((n, rest.skip(k + 2))),
                        None => None,
                    }
                } else {
                    None
                }
            },
            None => None,
        },
        None => None,
    }
}

/// The offending token of a `## Wave` header that is one token but not a
/// number.
pub open spec fn malformed_wave_header(line: Seq<char>) -> Option<Seq<char>> {
    match strip_prefix(line, "## Wave "@) {
        Some(rest) => {
            let t = trim(rest);
            if t.len() == 0 || has_ws(t) {
                None
            } else if all_digits(t) {
                None
            } else {
                Some(t)
            }
        },
        None => None,
    }
}

/// `(bad_id, title)` of a step header whose id is one token but not a number.
pub open spec fn malformed_step_header(line: Seq<char>) -> Option<(Seq<char>, Seq<char>)> {
    match step_rest(line) {
        Some(rest) => match find(rest, ": "@) {
            Some(k) => {
                let id = rest.take(k);
                if id.len() == 0 || has_ws(id) {
                    None
                } else if all_digits(id) {
                    None
                } else {
                    Some((id, rest.skip(k + 2)))
                }
            },
            None => None,
        },
        None => None,
    }
}

/// Well-formed or plausibly malformed wave or step header.
pub open spec fn is_header_token(line: Seq<char>) -> bool {
    ||| wave_header_number(line) is Some
    ||| step_header_parts(line) is Some
    ||| malformed_wave_header(line) is Some
    ||| malformed_step_header(line) is Some
}

// ---------------------------------------------------------------------------
// step bodies (spec)
// ---------------------------------------------------------------------------

/// The end (exclusive) of the step body starting at `idx`: the next header
/// token outside a fence, or the end of the text.
pub open spec fn step_boundary(ls: Seq<Seq<char>>, idx: int, fence: Option<Fence>) -> int
    decreases ls.len() - idx,
{
    if idx < 0 || idx >= ls.len() {
        idx
    } else {
        let t = trim(ls[idx]);
        if fence_marker(t) is Some {
            step_boundary(ls, idx + 1, toggle_fence(t, fence))
        } else if fence is None && is_header_token(ls[idx]) {
            idx
        } else {
            step_boundary(ls, idx + 1, fence)
        }
    }
}

/// `value` with `line` added on a line of its own (no separator while
/// `value` is still empty).
pub open spec fn append_line(value: Seq<char>, line: Seq<char>) -> Seq<char> {
    if value.len() == 0 {
        line
    } else {
        value + seq!['\n'] + line
    }
}

/// The outcome of `char::is_alphabetic` (the Unicode `Alphabetic` property).
pub uninterp spec fn char_alphabetic(c: char) -> bool;

/// `char::is_alphabetic`; the contract names its result and claims nothing
/// more about the Unicode table behind it.
#[verifier::external_body]
fn is_alphabetic(c: char) -> (r: bool)
    ensures
        r == char_alphabetic(c),
{
    c.is_alphabetic()
}

/// A line that ends a multi-line field value: another field bullet, a
/// bullet starting with a letter, or an empty line.
pub open spec fn ends_field_value(l: Seq<char>) -> bool {
    ||| starts_with(l, "- **"@)
    ||| starts_with(l, "- Depends on: "@)
    ||| (starts_with(l, "- "@) && l.len() > 2 && char_alphabetic(l[2]))
    ||| l.len() == 0
}

/// A field's value with its continuation lines, and the index after them.
pub open spec fn collect_value(
    ls: Seq<Seq<char>>,
    idx: int,
    end: int,
    fence: Option<Fence>,
    value: Seq<char>,
) -> (Seq<char>, int)
    decreases end - idx,
{
    if idx < 0 || idx >= end || idx >= ls.len() {
        (value, idx)
    } else {
        let l = ls[idx];
        let t = trim(l);
        if fence_marker(t) is Some {
            collect_value(ls, idx + 1, end, toggle_fence(t, fence), append_line(value, l))
        } else if fence is Some {
            collect_value(ls, idx + 1, end, fence, append_line(value, l))
        } else if ends_field_value(l) {
            (value, idx)
        } else {
            collect_value(ls, idx + 1, end, fence, append_line(value, l))
        }
    }
}

pub proof fn lemma_collect_value_bounds(
    ls: Seq<Seq<char>>,
    idx: int,
    end: int,
    fence: Option<Fence>,
    value: Seq<char>,
)
    requires
        0 <= idx <= end,
    ensures
        idx <= collect_value(ls, idx, end, fence, value).1 <= end,
    decreases end - idx,
{
    if idx < 0 || idx >= end || idx >= ls.len() {
    } else {
        let l = ls[idx];
        let t = trim(l);
        if fence_marker(t) is Some {
            lemma_collect_value_bounds(ls, idx + 1, end, toggle_fence(t, fence), append_line(value, l));
        } else if fence is Some {
            lemma_collect_value_bounds(ls, idx + 1, end, fence, append_line(value, l));
        } else if ends_field_value(l) {
        } else {
            lemma_collect_value_bounds(ls, idx + 1, end, fence, append_line(value, l));
        }
    }
}

/// The pieces of a `Files` value: split on `,`, each trimmed.
pub open spec fn file_pieces(value: Seq<char>) -> Seq<Seq<char>> {
    split(value, ',').map_values(|p: Seq<char>| trim(p))
}

/// `ps` without its empty entries.
pub open spec fn nonempty_only(ps: Seq<Seq<char>>) -> Seq<Seq<char>>
    decreases ps.len(),
{
    if ps.len() == 0 {
        seq![]
    } else {
        let r = nonempty_only(ps.drop_last());
        if ps.last().len() > 0 {
            r.push(ps.last())
        } else {
            r
        }
    }
}

pub open spec fn any_empty(ps: Seq<Seq<char>>) -> bool {
    exists|k: int| 0 <= k < ps.len() && (#[trigger] ps[k]).len() == 0
}

/// One `step N` token of a `Depends on` value.
pub open spec fn dep_token(t: Seq<char>) -> Option<u32> {
    match strip_prefix(t, "step "@) {
        Some(n) => parse_u32(n),
        None => None,
    }
}

/// The step numbers of trimmed `step N` tokens, or `None` if one is malformed.
pub open spec fn dep_tokens(ts: Seq<Seq<char>>) -> Option<Seq<u32>>
    decreases ts.len(),
{
    if ts.len() == 0 {
        Some(seq![])
    } else {
        match dep_tokens(ts.drop_last()) {
            Some(r) => match dep_token(trim(ts.last())) {
                Some(n) => Some(r.push(n)),
                None => None,
            },
            None => None,
        }
    }
}

/// A `Depends on` value: `none`, or a comma-separated list of `step N`.
pub open spec fn parse_depends(value: Seq<char>) -> Option<Seq<u32>> {
    let t = trim(value);
    if t == "none"@ {
        Some(seq![])
    } else if t.len() == 0 {
        None
    } else {
        dep_tokens(split(t, ','))
    }
}

pub open spec fn finding(step: u32, message: Seq<char>) -> FindingView {
    FindingView { step, message }
}

/// The raw fields read from a step body.
pub struct FieldsView {
    pub wave: u32,
    pub wave_seen: bool,
    pub files: Seq<Seq<char>>,
    pub files_seen: bool,
    pub red: Seq<char>,
    pub green: Seq<char>,
    pub verify: Seq<char>,
    pub change: Seq<char>,
    pub depends_on: Seq<u32>,
}

pub open spec fn no_fields() -> FieldsView {
    FieldsView {
        wave: 0,
        wave_seen: false,
        files: seq![],
        files_seen: false,
        red: seq![],
        green: seq![],
        verify: seq![],
        change: seq![],
        depends_on: seq![],
    }
}

pub open spec fn invalid_wave_message(v: Seq<char>) -> Seq<char> {
    "invalid Wave value '"@ + v + "': must be a non-negative integer"@
}

/// Reads the fields of the body lines `idx..end`, adding findings.
pub open spec fn collect_fields(
    ls: Seq<Seq<char>>,
    idx: int,
    end: int,
    fence: Option<Fence>,
    n: u32,
    acc: FieldsView,
    fnd: Seq<FindingView>,
) -> (FieldsView, Seq<FindingView>)
    decreases end - idx,
{
    if idx < 0 || idx >= end || idx >= ls.len() {
        (acc, fnd)
    } else {
        let l = ls[idx];
        let t = trim(l);
        if fence_marker(t) is Some {
            collect_fields(ls, idx + 1, end, toggle_fence(t, fence), n, acc, fnd)
        } else if fence is Some {
            collect_fields(ls, idx + 1, end, fence, n, acc, fnd)
        } else if starts_with(l, "- **Wave**: "@) {
            let raw = trim(l.skip("- **Wave**: "@.len() as int));
            match parse_u32(raw) {
                Some(w) => collect_fields(
                    ls,
                    idx + 1,
                    end,
                    fence,
                    n,
                    FieldsView { wave: w, wave_seen: true, ..acc },
                    fnd,
                ),
                None => collect_fields(
                    ls,
                    idx + 1,
                    end,
                    fence,
                    n,
                    FieldsView { wave: 0, wave_seen: true, ..acc },
                    fnd.push(finding(n, invalid_wave_message(raw))),
                ),
            }
        } else if starts_with(l, "- **Files**: "@) {
            let (val, nidx) = collect_value(
                ls,
                idx + 1,
                end,
                None,
                l.skip("- **Files**: "@.len() as int),
            );
            proof {
                lemma_collect_value_bounds(
                    ls,
                    idx + 1,
                    end,
                    None,
                    l.skip("- **Files**: "@.len() as int),
                );
            }
            let ps = file_pieces(val);
            let f2 = if any_empty(ps) {
                fnd.push(finding(n, "Files line contains a blank entry"@))
            } else {
                fnd
            };
            collect_fields(
                ls,
                nidx,
                end,
                fence,
                n,
                FieldsView { files: nonempty_only(ps), files_seen: true, ..acc },
                f2,
            )
        } else if starts_with(l, "- **Red**: "@) {
            let (val, nidx) = collect_value(
                ls,
                idx + 1,
                end,
                None,
                l.skip("- **Red**: "@.len() as int),
            );
            proof {
                lemma_collect_value_bounds(ls, idx + 1, end, None, l.skip("- **Red**: "@.len() as int));
            }
            collect_fields(ls, nidx, end, fence, n, FieldsView { red: val, ..acc }, fnd)
        } else if starts_with(l, "- **Green**: "@) {
            let (val, nidx) = collect_value(
                ls,
                idx + 1,
                end,
                None,
                l.skip("- **Green**: "@.len() as int),
            );
            proof {
                lemma_collect_value_bounds(
                    ls,
                    idx + 1,
                    end,
                    None,
                    l.skip("- **Green**: "@.len() as int),
                );
            }
            collect_fields(ls, nidx, end, fence, n, FieldsView { green: val, ..acc }, fnd)
        } else if starts_with(l, "- **Verify**: "@) {
            let (val, nidx) = collect_value(
                ls,
                idx + 1,
                end,
                None,
                l.skip("- **Verify**: "@.len() as int),
            );
            proof {
                lemma_collect_value_bounds(
                    ls,
                    idx + 1,
                    end,
                    None,
                    l.skip("- **Verify**: "@.len() as int),
                );
            }
            collect_fields(ls, nidx, end, fence, n, FieldsView { verify: val, ..acc }, fnd)
        } else if starts_with(l, "- **Change**: "@) {
            let (val, nidx) = collect_value(
                ls,
                idx + 1,
                end,
                None,
                l.skip("- **Change**: "@.len() as int),
            );
            proof {
                lemma_collect_value_bounds(
                    ls,
                    idx + 1,
                    end,
                    None,
                    l.skip("- **Change**: "@.len() as int),
                );
            }
            collect_fields(ls, nidx, end, fence, n, FieldsView { change: val, ..acc }, fnd)
        } else if starts_with(l, "- Depends on: "@) {
            let (val, nidx) = collect_value(
                ls,
                idx + 1,
                end,
                None,
                l.skip("- Depends on: "@.len() as int),
            );
            proof {
                lemma_collect_value_bounds(
                    ls,
                    idx + 1,
                    end,
                    None,
                    l.skip("- Depends on: "@.len() as int),
                );
            }
            match parse_depends(val) {
                Some(d) => collect_fields(
                    ls,
                    nidx,
                    end,
                    fence,
                    n,
                    FieldsView { depends_on: d, ..acc },
                    fnd,
                ),
                None => collect_fields(
                    ls,
                    nidx,
                    end,
                    fence,
                    n,
                    FieldsView { depends_on: seq![], ..acc },
                    fnd.push(finding(n, "malformed Depends on syntax"@)),
                ),
            }
        } else {
            collect_fields(ls, idx + 1, end, fence, n, acc, fnd)
        }
    }
}

/// The shape named by a step's fields, with the findings it raises.
pub open spec fn resolve_shape(
    red: Seq<char>,
    green: Seq<char>,
    change: Seq<char>,
    verify: Seq<char>,
    n: u32,
) -> (ShapeView, Seq<FindingView>) {
    let has_red_green = red.len() > 0 || green.len() > 0;
    let has_change = change.len() > 0;
    if has_red_green && has_change {
        (
            ShapeView::RedGreen { red: seq![], green: seq![], verify: seq![] },
            seq![finding(n, "ambiguous shape: both Red-Green and Change fields present"@)],
        )
    } else if has_red_green {
        (
            ShapeView::RedGreen { red, green, verify },
            (if red.len() == 0 {
                seq![finding(n, "missing mandatory field 'Red' for Red-Green shape"@)]
            } else {
                seq![]
            }) + (if green.len() == 0 {
                seq![finding(n, "missing mandatory field 'Green' for Red-Green shape"@)]
            } else {
                seq![]
            }) + (if verify.len() == 0 {
                seq![finding(n, "missing mandatory field 'Verify' for Red-Green shape"@)]
            } else {
                seq![]
            }),
        )
    } else if has_change {
        (
            ShapeView::Change { change, verify },
            if verify.len() == 0 {
                seq![finding(n, "missing mandatory field 'Verify' for Change shape"@)]
            } else {
                seq![]
            },
        )
    } else {
        (
            ShapeView::RedGreen { red: seq![], green: seq![], verify: seq![] },
            seq![finding(n, "unknown shape: neither Red-Green nor Change fields present"@)],
        )
    }
}

/// Lines joined with `'\n'`.
pub open spec fn join_lines(ls: Seq<Seq<char>>) -> Seq<char>
    decreases ls.len(),
{
    if ls.len() == 0 {
        seq![]
    } else if ls.len() == 1 {
        ls[0]
    } else {
        join_lines(ls.drop_last()) + seq!['\n'] + ls.last()
    }
}

/// The step whose header is line `header` and whose body ends before `end`,
/// with the findings its body raises.
pub open spec fn parse_step(
    ls: Seq<Seq<char>>,
    header: int,
    end: int,
    n: u32,
    title: Seq<char>,
    enclosing: u32,
) -> (StepView, Seq<FindingView>) {
    let (f, fnd) = collect_fields(ls, header + 1, end, None, n, no_fields(), seq![]);
    let missing = (if !f.wave_seen {
        seq![finding(n, "missing mandatory field 'Wave'"@)]
    } else {
        seq![]
    }) + (if !f.files_seen {
        seq![finding(n, "missing mandatory field 'Files'"@)]
    } else {
        seq![]
    });
    let (shape, shape_findings) = resolve_shape(f.red, f.green, f.change, f.verify, n);
    (
        StepView {
            number: n,
            title,
            wave: f.wave,
            enclosing_wave: enclosing,
            files: f.files,
            shape,
            depends_on: f.depends_on,
            raw: join_lines(ls.subrange(header, end)),
        },
        fnd + missing + shape_findings,
    )
}

pub open spec fn has_step_number(steps: Seq<StepView>, n: u32) -> bool {
    exists|k: int| 0 <= k < steps.len() && (#[trigger] steps[k]).number == n
}

pub open spec fn malformed_wave_message(line_no: nat, bad: Seq<char>) -> Seq<char> {
    "line "@ + decimal(line_no) + ": malformed '## Wave' header: '"@ + bad
        + "' is not a valid wave number"@
}

pub open spec fn malformed_step_message(line_no: nat, bad: Seq<char>) -> Seq<char> {
    "line "@ + decimal(line_no) + ": malformed step header: '"@ + bad
        + "' is not a valid step number"@
}

pub proof fn lemma_step_boundary_bounds(ls: Seq<Seq<char>>, idx: int, fence: Option<Fence>)
    requires
        0 <= idx <= ls.len(),
    ensures
        idx <= step_boundary(ls, idx, fence) <= ls.len(),
    decreases ls.len() - idx,
{
    if idx < ls.len() {
        let t = trim(ls[idx]);
        if fence_marker(t) is Some {
            lemma_step_boundary_bounds(ls, idx + 1, toggle_fence(t, fence));
        } else if fence is None && is_header_token(ls[idx]) {
        } else {
            lemma_step_boundary_bounds(ls, idx + 1, fence);
        }
    }
}

/// Scans the lines from `i` on, with the steps and findings gathered so far.
pub open spec fn parse_from(
    ls: Seq<Seq<char>>,
    i: int,
    fence: Option<Fence>,
    wave: u32,
    steps: Seq<StepView>,
    fnd: Seq<FindingView>,
) -> (Seq<StepView>, Seq<FindingView>)
    decreases ls.len() - i,
{
    if i < 0 || i >= ls.len() {
        (steps, fnd)
    } else {
        let line = ls[i];
        let t = trim(line);
        if fence_marker(t) is Some {
            parse_from(ls, i + 1, toggle_fence(t, fence), wave, steps, fnd)
        } else if fence is Some {
            parse_from(ls, i + 1, fence, wave, steps, fnd)
        } else if let Some(w) = wave_header_number(line) {
            parse_from(ls, i + 1, fence, w, steps, fnd)
        } else if let Some(bad) = malformed_wave_header(line) {
            parse_from(
                ls,
                i + 1,
                fence,
                wave,
                steps,
                fnd.push(finding(0, malformed_wave_message((i + 1) as nat, bad))),
            )
        } else if let Some((bad, _title)) = malformed_step_header(line) {
            parse_from(
                ls,
                i + 1,
                fence,
                wave,
                steps,
                fnd.push(finding(0, malformed_step_message((i + 1) as nat, bad))),
            )
        } else if let Some((n, title)) = step_header_parts(line) {
            let end = step_boundary(ls, i + 1, None);
            proof {
                lemma_step_boundary_bounds(ls, i + 1, None);
            }
            let (step, step_findings) = parse_step(ls, i, end, n, title, wave);
            let dup = if has_step_number(steps, n) {
                seq![finding(n, "duplicate step number"@)]
            } else {
                seq![]
            };
            parse_from(ls, end, fence, wave, steps.push(step), fnd + step_findings + dup)
        } else {
            parse_from(ls, i + 1, fence, wave, steps, fnd)
        }
    }
}

/// What `parse` makes of a text: its steps when no finding was raised, the
/// findings otherwise.
pub open spec fn spec_parse(text: Seq<char>) -> Result<Seq<StepView>, Seq<FindingView>> {
    let (steps, fnd) = parse_from(lines(text), 0, None, 0, seq![], seq![]);
    if fnd.len() == 0 {
        Ok(steps)
    } else {
        Err(fnd)
    }
}

// ---------------------------------------------------------------------------
// executable parser
// ---------------------------------------------------------------------------

pub open spec fn lines_view(ls: Seq<Vec<char>>) -> Seq<Seq<char>> {
    ls.map_values(|l: Vec<char>| l@)
}

fn fence_marker_exec(t: &Vec<char>) -> (r: Option<Fence>)
    ensures
        r == fence_marker(t@),
{
    if starts_with_str(t, "```") {
        Some(Fence::Backtick)
    } else if starts_with_str(t, "~~~") {
        Some(Fence::Tilde)
    } else {
        None
    }
}

fn toggle_fence_exec(t: &Vec<char>, cur: Option<Fence>) -> (r: Option<Fence>)
    ensures
        r == toggle_fence(t@, cur),
{
    match fence_marker_exec(t) {
        Some(m) => match cur {
            Some(c) => if c == m {
                None
            } else {
                cur
            },
            None => Some(m),
        },
        None => cur,
    }
}

/// `s` without the prefix `p`, when `s` starts with it.
fn strip_prefix_exec(v: &Vec<char>, p: &str) -> (r: Option<Vec<char>>)
    ensures
        r matches Some(w) ==> strip_prefix(v@, p@) == Some(w@),
        r is None ==> strip_prefix(v@, p@) is None,
{
    let pv = chars_of(p);
    if starts_with_exec(v, &pv) {
        Some(slice_of(v, pv.len(), v.len()))
    } else {
        None
    }
}

fn wave_header_number_exec(line: &Vec<char>) -> (r: Option<u32>)
    ensures
        r == wave_header_number(line@),
{
    match strip_prefix_exec(line, "## Wave ") {
        Some(rest) => {
            let t = trim_exec(&rest);
            if t.len() > 0 && all_digits_exec(&t) {
                parse_u32_exec(&t)
            } else {
                None
            }
        },
        None => None,
    }
}

fn step_rest_exec(line: &Vec<char>) -> (r: Option<Vec<char>>)
    ensures
        r matches Some(w) ==> step_rest(line@) == Some(w@),
        r is None ==> step_rest(line@) is None,
{
    match strip_prefix_exec(line, "### Step ") {
        Some(r) => Some(r),
        None => strip_prefix_exec(line, "## Step "),
    }
}

fn step_header_parts_exec(line: &Vec<char>) -> (r: Option<(u32, Vec<char>)>)
    ensures
        r matches Some(p) ==> step_header_parts(line@) == Some((p.0, p.1@)),
        r is None ==> step_header_parts(line@) is None,
{
    let rest = match step_rest_exec(line) {
        Some(r) => r,
        None => return None,
    };
    let sep = chars_of(": ");
    let k = match find_exec(&rest, &sep) {
        Some(k) => k,
        None => return None,
    };
    proof {
        lemma_find_bounds(rest@, sep@);
        reveal_strlit(": ");
    }
    let num = slice_of(&rest, 0, k);
    assert(num@ =~= rest@.take(k as int));
    if num.len() > 0 && all_digits_exec(&num) {
        match parse_u32_exec(&num) {
            Some(n) => {
                let title = slice_of(&rest, k + 2, rest.len());
                assert(title@ =~= rest@.skip(k + 2));
                Some((n, title))
            },
            None => None,
        }
    } else {
        None
    }
}

fn malformed_wave_header_exec(line: &Vec<char>) -> (r: Option<Vec<char>>)
    ensures
        r matches Some(w) ==> malformed_wave_header(line@) == Some(w@),
        r is None ==> malformed_wave_header(line@) is None,
{
    match strip_prefix_exec(line, "## Wave ") {
        Some(rest) => {
            let t = trim_exec(&rest);
            if t.len() == 0 || has_ws_exec(&t) {
                None
            } else if all_digits_exec(&t) {
                None
            } else {
                Some(t)
            }
        },
        None => None,
    }
}

fn malformed_step_header_exec(line: &Vec<char>) -> (r: Option<Vec<char>>)
    ensures
        r matches Some(w) ==> malformed_step_header(line@) matches Some(p) && p.0 == w@,
        r is None ==> malformed_step_header(line@) is None,
{
    let rest = match step_rest_exec(line) {
        Some(r) => r,
        None => return None,
    };
    let sep = chars_of(": ");
    let k = match find_exec(&rest, &sep) {
        Some(k) => k,
        None => return None,
    };
    proof {
        lemma_find_bounds(rest@, sep@);
    }
    let id = slice_of(&rest, 0, k);
    assert(id@ =~= rest@.take(k as int));
    if id.len() == 0 || has_ws_exec(&id) {
        None
    } else if all_digits_exec(&id) {
        None
    } else {
        Some(id)
    }
}

fn is_header_token_exec(line: &Vec<char>) -> (r: bool)
    ensures
        r == is_header_token(line@),
{
    wave_header_number_exec(line).is_some() || step_header_parts_exec(line).is_some()
        || malformed_wave_header_exec(line).is_some() || malformed_step_header_exec(line).is_some()
}

fn step_boundary_exec(ls: &Vec<Vec<char>>, start: usize) -> (r: usize)
    requires
        start <= ls.len(),
    ensures
        r as int == step_boundary(lines_view(ls@), start as int, None),
        start <= r <= ls.len(),
{
    let ghost lv = lines_view(ls@);
    let mut idx = start;
    let mut fence: Option<Fence> = None;
    proof {
        lemma_step_boundary_bounds(lv, start as int, None);
    }
    while idx < ls.len()
        invariant
            lv == lines_view(ls@),
            start <= idx <= ls.len(),
            step_boundary(lv, idx as int, fence) == step_boundary(lv, start as int, None),
        decreases ls.len() - idx,
    {
        let line = &ls[idx];
        assert(line@ == lv[idx as int]);
        let t = trim_exec(line);
        if fence_marker_exec(&t).is_some() {
            fence = toggle_fence_exec(&t, fence);
            idx += 1;
            continue ;
        }
        if fence.is_none() && is_header_token_exec(line) {
            return idx;
        }
        idx += 1;
    }
    idx
}

/// Appends `line` to `value` on a line of its own.
fn append_line_exec(value: &mut Vec<char>, line: &Vec<char>)
    ensures
        final(value)@ == append_line(old(value)@, line@),
{
    if value.len() > 0 {
        value.push('\n');
    }
    push_all(value, line);
    assert(value@ =~= append_line(old(value)@, line@));
}

fn ends_field_value_exec(l: &Vec<char>) -> (r: bool)
    ensures
        r == ends_field_value(l@),
{
    if starts_with_str(l, "- **") || starts_with_str(l, "- Depends on: ") {
        return true;
    }
    if starts_with_str(l, "- ") && l.len() > 2 && is_alphabetic(l[2]) {
        return true;
    }
    l.len() == 0
}

/// Collects the value of the field whose bullet is line `idx`, whose first
/// part is `first`.
fn collect_value_exec(ls: &Vec<Vec<char>>, idx: usize, end: usize, first: Vec<char>) -> (r: (
    Vec<char>,
    usize,
))
    requires
        idx < end <= ls.len(),
    ensures
        collect_value(lines_view(ls@), idx + 1, end as int, None, first@) == (r.0@, r.1 as int),
        idx < r.1 <= end,
{
    let ghost lv = lines_view(ls@);
    let mut value = first;
    let mut i = idx + 1;
    let mut fence: Option<Fence> = None;
    proof {
        lemma_collect_value_bounds(lv, i as int, end as int, None, first@);
    }
    while i < end
        invariant
            lv == lines_view(ls@),
            idx < i <= end <= ls.len(),
            collect_value(lv, i as int, end as int, fence, value@) == collect_value(
                lv,
                idx + 1,
                end as int,
                None,
                first@,
            ),
        decreases end - i,
    {
        let l = &ls[i];
        assert(l@ == lv[i as int]);
        let t = trim_exec(l);
        if fence_marker_exec(&t).is_some() {
            fence = toggle_fence_exec(&t, fence);
            append_line_exec(&mut value, l);
            i += 1;
            continue ;
        }
        if fence.is_some() {
            append_line_exec(&mut value, l);
            i += 1;
            continue ;
        }
        if ends_field_value_exec(l) {
            return (value, i);
        }
        append_line_exec(&mut value, l);
        i += 1;
    }
    (value, i)
}

fn push_finding(fnd: &mut Vec<Finding>, step: u32, message: &Vec<char>)
    ensures
        findings_view(final(fnd)@) == findings_view(old(fnd)@).push(finding(step, message@)),
{
    let f = Finding { step, message: string_from(message) };
    fnd.push(f);
    assert(findings_view(fnd@) =~= findings_view(old(fnd)@).push(finding(step, message@)));
}

fn push_finding_str(fnd: &mut Vec<Finding>, step: u32, message: &str)
    ensures
        findings_view(final(fnd)@) == findings_view(old(fnd)@).push(finding(step, message@)),
{
    let m = chars_of(message);
    push_finding(fnd, step, &m);
}

fn strings_of(v: &Vec<Vec<char>>) -> (r: Vec<String>)
    ensures
        strings_view(r@) == v@.map_values(|w: Vec<char>| w@),
{
    let mut r: Vec<String> = Vec::new();
    let mut i: usize = 0;
    while i < v.len()
        invariant
            i <= v.len(),
            strings_view(r@) == v@.take(i as int).map_values(|w: Vec<char>| w@),
        decreases v.len() - i,
    {
        let ghost old_r = r@;
        r.push(string_from(&v[i]));
        assert(strings_view(r@) =~= strings_view(old_r).push(v@[i as int]@));
        assert(v@.take(i + 1).map_values(|w: Vec<char>| w@) =~= v@.take(i as int).map_values(
            |w: Vec<char>| w@,
        ).push(v@[i as int]@));
        i += 1;
    }
    assert(v@.take(v.len() as int) =~= v@);
    r
}

/// The files of a `Files` value (blank entries dropped) and whether a blank
/// entry was present.
fn files_of(value: &Vec<char>) -> (r: (Vec<Vec<char>>, bool))
    ensures
        r.0@.map_values(|w: Vec<char>| w@) == nonempty_only(file_pieces(value@)),
        r.1 == any_empty(file_pieces(value@)),
{
    let pieces = split_exec(value, ',');
    let ghost ps = file_pieces(value@);
    let mut files: Vec<Vec<char>> = Vec::new();
    let mut blank = false;
    let mut i: usize = 0;
    while i < pieces.len()
        invariant
            i <= pieces.len(),
            ps == file_pieces(value@),
            pieces@.len() == ps.len(),
            forall|k: int| 0 <= k < ps.len() ==> trim((#[trigger] pieces@[k])@) == ps[k],
            files@.map_values(|w: Vec<char>| w@) == nonempty_only(ps.take(i as int)),
            blank == any_empty(ps.take(i as int)),
        decreases pieces.len() - i,
    {
        let p = trim_exec(&pieces[i]);
        assert(p@ == ps[i as int]);
        assert(ps.take(i + 1).drop_last() =~= ps.take(i as int));
        if p.len() == 0 {
            blank = true;
            assert(ps.take(i + 1)[i as int].len() == 0);
        } else {
            files.push(p);
            assert(files@.map_values(|w: Vec<char>| w@) =~= nonempty_only(ps.take(i as int)).push(
                ps[i as int],
            ));
        }
        assert(any_empty(ps.take(i + 1)) == (any_empty(ps.take(i as int)) || ps[i as int].len()
            == 0)) by {
            if any_empty(ps.take(i + 1)) {
                let k = choose|k: int| 0 <= k < i + 1 && (#[trigger] ps.take(i + 1)[k]).len() == 0;
                if k < i {
                    assert(ps.take(i as int)[k].len() == 0);
                }
            }
            if any_empty(ps.take(i as int)) {
                let k = choose|k: int| 0 <= k < i && (#[trigger] ps.take(i as int)[k]).len() == 0;
                assert(ps.take(i + 1)[k].len() == 0);
            }
        }
        i += 1;
    }
    assert(ps.take(ps.len() as int) =~= ps);
    (files, blank)
}

proof fn lemma_dep_tokens_none(ts: Seq<Seq<char>>, i: int)
    requires
        0 <= i <= ts.len(),
        dep_tokens(ts.take(i)) is None,
    ensures
        dep_tokens(ts) is None,
    decreases ts.len() - i,
{
    if i < ts.len() {
        assert(ts.take(i + 1).drop_last() =~= ts.take(i));
        lemma_dep_tokens_none(ts, i + 1);
    } else {
        assert(ts.take(i) =~= ts);
    }
}

fn dep_token_exec(t: &Vec<char>) -> (r: Option<u32>)
    ensures
        r == dep_token(t@),
{
    match strip_prefix_exec(t, "step ") {
        Some(n) => parse_u32_exec(&n),
        None => None,
    }
}

fn parse_depends_exec(value: &Vec<char>) -> (r: Option<Vec<u32>>)
    ensures
        r matches Some(d) ==> parse_depends(value@) == Some(d@),
        r is None ==> parse_depends(value@) is None,
{
    let t = trim_exec(value);
    let none_word = chars_of("none");
    proof {
        reveal_strlit("none");
    }
    if t.len() == none_word.len() && starts_with_exec(&t, &none_word) {
        assert(t@ =~= "none"@);
        return Some(Vec::new());
    }
    if t.len() == 0 {
        return None;
    }
    assert(t@ != "none"@) by {
        if t@ == "none"@ {
            assert(t@.take(none_word@.len() as int) =~= t@);
        }
    }
    let toks = split_exec(&t, ',');
    let ghost ts = split(t@, ',');
    let mut deps: Vec<u32> = Vec::new();
    let mut i: usize = 0;
    while i < toks.len()
        invariant
            i <= toks.len(),
            ts == split(t@, ','),
            t@ == trim(value@),
            t@ != "none"@,
            t@.len() > 0,
            toks@.len() == ts.len(),
            forall|k: int| 0 <= k < ts.len() ==> (#[trigger] toks@[k])@ == ts[k],
            dep_tokens(ts.take(i as int)) == Some(deps@),
        decreases toks.len() - i,
    {
        let tok = trim_exec(&toks[i]);
        assert(ts.take(i + 1).drop_last() =~= ts.take(i as int));
        assert(ts.take(i + 1).last() == ts[i as int]);
        match dep_token_exec(&tok) {
            Some(n) => {
                deps.push(n);
            },
            None => {
                proof {
                    lemma_dep_tokens_none(ts, i + 1);
                }
                return None;
            },
        }
        i += 1;
    }
    assert(ts.take(ts.len() as int) =~= ts);
    Some(deps)
}

/// The executable fields of a step body.
struct Fields {
    wave: u32,
    wave_seen: bool,
    files: Vec<Vec<char>>,
    files_seen: bool,
    red: Vec<char>,
    green: Vec<char>,
    verify: Vec<char>,
    change: Vec<char>,
    depends_on: Vec<u32>,
}

impl Fields {
    spec fn view_fields(&self) -> FieldsView {
        FieldsView {
            wave: self.wave,
            wave_seen: self.wave_seen,
            files: self.files@.map_values(|w: Vec<char>| w@),
            files_seen: self.files_seen,
            red: self.red@,
            green: self.green@,
            verify: self.verify@,
            change: self.change@,
            depends_on: self.depends_on@,
        }
    }
}

fn collect_fields_exec(
    ls: &Vec<Vec<char>>,
    start: usize,
    end: usize,
    n: u32,
    fnd: &mut Vec<Finding>,
) -> (r: Fields)
    requires
        start <= end <= ls.len(),
    ensures
        collect_fields(
            lines_view(ls@),
            start as int,
            end as int,
            None,
            n,
            no_fields(),
            findings_view(old(fnd)@),
        ) == (r.view_fields(), findings_view(final(fnd)@)),
{
    let ghost lv = lines_view(ls@);
    let ghost fnd0 = findings_view(fnd@);
    let mut acc = Fields {
        wave: 0,
        wave_seen: false,
        files: Vec::new(),
        files_seen: false,
        red: Vec::new(),
        green: Vec::new(),
        verify: Vec::new(),
        change: Vec::new(),
        depends_on: Vec::new(),
    };
    assert(acc.files@.map_values(|w: Vec<char>| w@) =~= seq![]);
    assert(acc.red@ =~= seq![] && acc.green@ =~= seq![] && acc.verify@ =~= seq![]);
    assert(acc.change@ =~= seq![] && acc.depends_on@ =~= seq![]);
    assert(acc.view_fields() == no_fields());
    let mut idx = start;
    let mut fence: Option<Fence> = None;
    while idx < end
        invariant
            lv == lines_view(ls@),
            start <= idx <= end <= ls.len(),
            collect_fields(lv, idx as int, end as int, fence, n, acc.view_fields(), findings_view(fnd@))
                == collect_fields(lv, start as int, end as int, None, n, no_fields(), fnd0),
        decreases end - idx,
    {
        let l = &ls[idx];
        assert(l@ == lv[idx as int]);
        let t = trim_exec(l);
        if fence_marker_exec(&t).is_some() {
            fence = toggle_fence_exec(&t, fence);
            idx += 1;
            continue ;
        }
        if fence.is_some() {
            idx += 1;
            continue ;
        }
        if starts_with_str(l, "- **Wave**: ") {
            let plen = chars_of("- **Wave**: ").len();
            let rest = slice_of(l, plen, l.len());
            assert(rest@ =~= l@.skip("- **Wave**: "@.len() as int));
            let raw = trim_exec(&rest);
            match parse_u32_exec(&raw) {
                Some(w) => {
                    acc.wave = w;
                },
                None => {
                    let mut m = chars_of("invalid Wave value '");
                    push_all(&mut m, &raw);
                    push_str(&mut m, "': must be a non-negative integer");
                    push_finding(fnd, n, &m);
                    acc.wave = 0;
                },
            }
            acc.wave_seen = true;
            idx += 1;
        } else if starts_with_str(l, "- **Files**: ") {
            let plen = chars_of("- **Files**: ").len();
            let first = slice_of(l, plen, l.len());
            assert(first@ =~= l@.skip("- **Files**: "@.len() as int));
            let (val, nidx) = collect_value_exec(ls, idx, end, first);
            let (files, blank) = files_of(&val);
            if blank {
                push_finding_str(fnd, n, "Files line contains a blank entry");
            }
            acc.files = files;
            acc.files_seen = true;
            idx = nidx;
        } else if starts_with_str(l, "- **Red**: ") {
            let plen = chars_of("- **Red**: ").len();
            let first = slice_of(l, plen, l.len());
            assert(first@ =~= l@.skip("- **Red**: "@.len() as int));
            let (val, nidx) = collect_value_exec(ls, idx, end, first);
            acc.red = val;
            idx = nidx;
        } else if starts_with_str(l, "- **Green**: ") {
            let plen = chars_of("- **Green**: ").len();
            let first = slice_of(l, plen, l.len());
            assert(first@ =~= l@.skip("- **Green**: "@.len() as int));
            let (val, nidx) = collect_value_exec(ls, idx, end, first);
            acc.green = val;
            idx = nidx;
        } else if starts_with_str(l, "- **Verify**: ") {
            let plen = chars_of("- **Verify**: ").len();
            let first = slice_of(l, plen, l.len());
            assert(first@ =~= l@.skip("- **Verify**: "@.len() as int));
            let (val, nidx) = collect_value_exec(ls, idx, end, first);
            acc.verify = val;
            idx = nidx;
        } else if starts_with_str(l, "- **Change**: ") {
            let plen = chars_of("- **Change**: ").len();
            let first = slice_of(l, plen, l.len());
            assert(first@ =~= l@.skip("- **Change**: "@.len() as int));
            let (val, nidx) = collect_value_exec(ls, idx, end, first);
            acc.change = val;
            idx = nidx;
        } else if starts_with_str(l, "- Depends on: ") {
            let plen = chars_of("- Depends on: ").len();
            let first = slice_of(l, plen, l.len());
            assert(first@ =~= l@.skip("- Depends on: "@.len() as int));
            let (val, nidx) = collect_value_exec(ls, idx, end, first);
            match parse_depends_exec(&val) {
                Some(d) => {
                    acc.depends_on = d;
                },
                None => {
                    push_finding_str(fnd, n, "malformed Depends on syntax");
                    acc.depends_on = Vec::new();
                },
            }
            idx = nidx;
        } else {
            idx += 1;
        }
    }
    acc
}

fn resolve_shape_exec(
    red: Vec<char>,
    green: Vec<char>,
    change: Vec<char>,
    verify: Vec<char>,
    n: u32,
    fnd: &mut Vec<Finding>,
) -> (r: Shape)
    ensures
        ({
            let (shape, f) = resolve_shape(red@, green@, change@, verify@, n);
            r@ == shape && findings_view(final(fnd)@) == findings_view(old(fnd)@) + f
        }),
{
    let has_red_green = red.len() > 0 || green.len() > 0;
    let has_change = change.len() > 0;
    let ghost f0 = findings_view(fnd@);
    if has_red_green && has_change {
        push_finding_str(fnd, n, "ambiguous shape: both Red-Green and Change fields present");
        assert(findings_view(fnd@) =~= f0 + resolve_shape(red@, green@, change@, verify@, n).1);
        return Shape::RedGreen { red: String::new(), green: String::new(), verify: String::new() };
    }
    if has_red_green {
        if red.len() == 0 {
            push_finding_str(fnd, n, "missing mandatory field 'Red' for Red-Green shape");
        }
        let ghost f1 = findings_view(fnd@);
        if green.len() == 0 {
            push_finding_str(fnd, n, "missing mandatory field 'Green' for Red-Green shape");
        }
        let ghost f2 = findings_view(fnd@);
        if verify.len() == 0 {
            push_finding_str(fnd, n, "missing mandatory field 'Verify' for Red-Green shape");
        }
        assert(findings_view(fnd@) =~= f0 + resolve_shape(red@, green@, change@, verify@, n).1);
        return Shape::RedGreen {
            red: string_from(&red),
            green: string_from(&green),
            verify: string_from(&verify),
        };
    }
    if has_change {
        if verify.len() == 0 {
            push_finding_str(fnd, n, "missing mandatory field 'Verify' for Change shape");
        }
        assert(findings_view(fnd@) =~= f0 + resolve_shape(red@, green@, change@, verify@, n).1);
        return Shape::Change { change: string_from(&change), verify: string_from(&verify) };
    }
    push_finding_str(fnd, n, "unknown shape: neither Red-Green nor Change fields present");
    assert(findings_view(fnd@) =~= f0 + resolve_shape(red@, green@, change@, verify@, n).1);
    Shape::RedGreen { red: String::new(), green: String::new(), verify: String::new() }
}

pub(crate) fn join_lines_exec(ls: &Vec<Vec<char>>, from: usize, to: usize) -> (r: Vec<char>)
    requires
        from <= to <= ls.len(),
    ensures
        r@ == join_lines(lines_view(ls@).subrange(from as int, to as int)),
{
    let ghost lv = lines_view(ls@);
    let mut out: Vec<char> = Vec::new();
    let mut i = from;
    assert(lv.subrange(from as int, from as int) =~= seq![]);
    while i < to
        invariant
            lv == lines_view(ls@),
            from <= i <= to <= ls.len(),
            out@ == join_lines(lv.subrange(from as int, i as int)),
        decreases to - i,
    {
        let ghost before = out@;
        if i > from {
            out.push('\n');
        }
        push_all(&mut out, &ls[i]);
        proof {
            let s = lv.subrange(from as int, i + 1);
            assert(s.drop_last() =~= lv.subrange(from as int, i as int));
            assert(s.last() == ls@[i as int]@);
            if i == from {
                assert(s.len() == 1);
                assert(out@ =~= join_lines(s));
            } else {
                assert(out@ =~= join_lines(s));
            }
        }
        i += 1;
    }
    out
}

/// Parses the step whose header is line `header`, body ending before `end`.
fn parse_step_exec(
    ls: &Vec<Vec<char>>,
    header: usize,
    end: usize,
    n: u32,
    title: &Vec<char>,
    enclosing: u32,
    fnd: &mut Vec<Finding>,
) -> (r: Step)
    requires
        header < end <= ls.len(),
    ensures
        ({
            let (s, f) = parse_step(lines_view(ls@), header as int, end as int, n, title@, enclosing);
            r@ == s && findings_view(final(fnd)@) == findings_view(old(fnd)@) + f
        }),
{
    let ghost f0 = findings_view(fnd@);
    let fields = collect_fields_exec(ls, header + 1, end, n, fnd);
    let ghost f1 = findings_view(fnd@);
    if !fields.wave_seen {
        push_finding_str(fnd, n, "missing mandatory field 'Wave'");
    }
    if !fields.files_seen {
        push_finding_str(fnd, n, "missing mandatory field 'Files'");
    }
    let ghost f2 = findings_view(fnd@);
    let ghost fv = fields.view_fields();
    let Fields { wave, files, red, green, verify, change, depends_on, .. } = fields;
    let shape = resolve_shape_exec(red, green, change, verify, n, fnd);
    let raw = join_lines_exec(ls, header, end);
    let step = Step {
        number: n,
        title: string_from(title),
        wave,
        enclosing_wave: enclosing,
        files: strings_of(&files),
        shape,
        depends_on,
        raw: string_from(&raw),
    };
    proof {
        let (fv2, fnd_body) = collect_fields(
            lines_view(ls@),
            header + 1,
            end as int,
            None,
            n,
            no_fields(),
            seq![],
        );
        lemma_collect_fields_findings(
            lines_view(ls@),
            header + 1,
            end as int,
            None,
            n,
            no_fields(),
            f0,
        );
        assert(findings_view(fnd@) =~= f0 + parse_step(
            lines_view(ls@),
            header as int,
            end as int,
            n,
            title@,
            enclosing,
        ).1);
    }
    step
}

/// Collecting fields from existing findings appends what collecting from none
/// would produce.
proof fn lemma_collect_fields_findings(
    ls: Seq<Seq<char>>,
    idx: int,
    end: int,
    fence: Option<Fence>,
    n: u32,
    acc: FieldsView,
    fnd: Seq<FindingView>,
)
    ensures
        collect_fields(ls, idx, end, fence, n, acc, fnd).0 == collect_fields(
            ls,
            idx,
            end,
            fence,
            n,
            acc,
            seq![],
        ).0,
        collect_fields(ls, idx, end, fence, n, acc, fnd).1 == fnd + collect_fields(
            ls,
            idx,
            end,
            fence,
            n,
            acc,
            seq![],
        ).1,
    decreases end - idx,
{
    if idx < 0 || idx >= end || idx >= ls.len() {
        assert(fnd + seq![] =~= fnd);
    } else {
        let l = ls[idx];
        let t = trim(l);
        let e: Seq<FindingView> = seq![];
        if fence_marker(t) is Some {
            lemma_collect_fields_findings(ls, idx + 1, end, toggle_fence(t, fence), n, acc, fnd);
            lemma_collect_fields_findings(ls, idx + 1, end, toggle_fence(t, fence), n, acc, e);
        } else if fence is Some {
            lemma_collect_fields_findings(ls, idx + 1, end, fence, n, acc, fnd);
            lemma_collect_fields_findings(ls, idx + 1, end, fence, n, acc, e);
        } else if starts_with(l, "- **Wave**: "@) {
            let raw = trim(l.skip("- **Wave**: "@.len() as int));
            match parse_u32(raw) {
                Some(w) => {
                    let a2 = FieldsView { wave: w, wave_seen: true, ..acc };
                    lemma_collect_fields_findings(ls, idx + 1, end, fence, n, a2, fnd);
                    lemma_collect_fields_findings(ls, idx + 1, end, fence, n, a2, e);
                },
                None => {
                    let a2 = FieldsView { wave: 0, wave_seen: true, ..acc };
                    let x = finding(n, invalid_wave_message(raw));
                    lemma_collect_fields_findings(ls, idx + 1, end, fence, n, a2, fnd.push(x));
                    lemma_collect_fields_findings(ls, idx + 1, end, fence, n, a2, e.push(x));
                    lemma_collect_fields_findings(ls, idx + 1, end, fence, n, a2, e);
                    assert(fnd.push(x) =~= fnd + e.push(x));
                    assert(fnd + (e.push(x) + collect_fields(ls, idx + 1, end, fence, n, a2, e).1)
                        =~= fnd.push(x) + collect_fields(ls, idx + 1, end, fence, n, a2, e).1);
                },
            }
        } else if starts_with(l, "- **Files**: "@) {
            let (val, nidx) = collect_value(
                ls,
                idx + 1,
                end,
                None,
                l.skip("- **Files**: "@.len() as int),
            );
            lemma_collect_value_bounds(ls, idx + 1, end, None, l.skip("- **Files**: "@.len() as int));
            let ps = file_pieces(val);
            let a2 = FieldsView { files: nonempty_only(ps), files_seen: true, ..acc };
            if any_empty(ps) {
                let x = finding(n, "Files line contains a blank entry"@);
                lemma_collect_fields_findings(ls, nidx, end, fence, n, a2, fnd.push(x));
                lemma_collect_fields_findings(ls, nidx, end, fence, n, a2, e.push(x));
                lemma_collect_fields_findings(ls, nidx, end, fence, n, a2, e);
                assert(fnd + (e.push(x) + collect_fields(ls, nidx, end, fence, n, a2, e).1)
                    =~= fnd.push(x) + collect_fields(ls, nidx, end, fence, n, a2, e).1);
            } else {
                lemma_collect_fields_findings(ls, nidx, end, fence, n, a2, fnd);
                lemma_collect_fields_findings(ls, nidx, end, fence, n, a2, e);
            }
        } else if starts_with(l, "- **Red**: "@) {
            let (val, nidx) = collect_value(ls, idx + 1, end, None, l.skip("- **Red**: "@.len() as int));
            lemma_collect_value_bounds(ls, idx + 1, end, None, l.skip("- **Red**: "@.len() as int));
            let a2 = FieldsView { red: val, ..acc };
            lemma_collect_fields_findings(ls, nidx, end, fence, n, a2, fnd);
            lemma_collect_fields_findings(ls, nidx, end, fence, n, a2, e);
        } else if starts_with(l, "- **Green**: "@) {
            let (val, nidx) = collect_value(
                ls,
                idx + 1,
                end,
                None,
                l.skip("- **Green**: "@.len() as int),
            );
            lemma_collect_value_bounds(ls, idx + 1, end, None, l.skip("- **Green**: "@.len() as int));
            let a2 = FieldsView { green: val, ..acc };
            lemma_collect_fields_findings(ls, nidx, end, fence, n, a2, fnd);
            lemma_collect_fields_findings(ls, nidx, end, fence, n, a2, e);
        } else if starts_with(l, "- **Verify**: "@) {
            let (val, nidx) = collect_value(
                ls,
                idx + 1,
                end,
                None,
                l.skip("- **Verify**: "@.len() as int),
            );
            lemma_collect_value_bounds(ls, idx + 1, end, None, l.skip("- **Verify**: "@.len() as int));
            let a2 = FieldsView { verify: val, ..acc };
            lemma_collect_fields_findings(ls, nidx, end, fence, n, a2, fnd);
            lemma_collect_fields_findings(ls, nidx, end, fence, n, a2, e);
        } else if starts_with(l, "- **Change**: "@) {
            let (val, nidx) = collect_value(
                ls,
                idx + 1,
                end,
                None,
                l.skip("- **Change**: "@.len() as int),
            );
            lemma_collect_value_bounds(ls, idx + 1, end, None, l.skip("- **Change**: "@.len() as int));
            let a2 = FieldsView { change: val, ..acc };
            lemma_collect_fields_findings(ls, nidx, end, fence, n, a2, fnd);
            lemma_collect_fields_findings(ls, nidx, end, fence, n, a2, e);
        } else if starts_with(l, "- Depends on: "@) {
            let (val, nidx) = collect_value(
                ls,
                idx + 1,
                end,
                None,
                l.skip("- Depends on: "@.len() as int),
            );
            lemma_collect_value_bounds(ls, idx + 1, end, None, l.skip("- Depends on: "@.len() as int));
            match parse_depends(val) {
                Some(d) => {
                    let a2 = FieldsView { depends_on: d, ..acc };
                    lemma_collect_fields_findings(ls, nidx, end, fence, n, a2, fnd);
                    lemma_collect_fields_findings(ls, nidx, end, fence, n, a2, e);
                },
                None => {
                    let a2 = FieldsView { depends_on: seq![], ..acc };
                    let x = finding(n, "malformed Depends on syntax"@);
                    lemma_collect_fields_findings(ls, nidx, end, fence, n, a2, fnd.push(x));
                    lemma_collect_fields_findings(ls, nidx, end, fence, n, a2, e.push(x));
                    lemma_collect_fields_findings(ls, nidx, end, fence, n, a2, e);
                    assert(fnd + (e.push(x) + collect_fields(ls, nidx, end, fence, n, a2, e).1)
                        =~= fnd.push(x) + collect_fields(ls, nidx, end, fence, n, a2, e).1);
                },
            }
        } else {
            lemma_collect_fields_findings(ls, idx + 1, end, fence, n, acc, fnd);
            lemma_collect_fields_findings(ls, idx + 1, end, fence, n, acc, e);
        }
    }
}

proof fn lemma_find_bounds(s: Seq<char>, p: Seq<char>)
    ensures
        find(s, p) matches Some(k) ==> 0 <= k && k + p.len() <= s.len(),
{
    lemma_find_from_bounds_local(s, p, 0);
}

proof fn lemma_find_from_bounds_local(s: Seq<char>, p: Seq<char>, from: int)
    ensures
        find_from(s, p, from) matches Some(k) ==> from <= k && k + p.len() <= s.len(),
    decreases s.len() + 1 - from,
{
    if from < 0 || from + p.len() > s.len() {
    } else if occurs_at(s, p, from) {
    } else {
        lemma_find_from_bounds_local(s, p, from + 1);
    }
}

fn has_step_number_exec(steps: &Vec<Step>, n: u32) -> (r: bool)
    ensures
        r == has_step_number(steps_view(steps@), n),
{
    let mut k: usize = 0;
    while k < steps.len()
        invariant
            k <= steps.len(),
            forall|j: int| 0 <= j < k ==> (#[trigger] steps@[j]).number != n,
        decreases steps.len() - k,
    {
        if steps[k].number == n {
            assert(steps_view(steps@)[k as int].number == n);
            return true;
        }
        k += 1;
    }
    assert forall|j: int| 0 <= j < steps_view(steps@).len() implies (
    #[trigger] steps_view(steps@)[j]).number != n by {
        assert(steps@[j].number != n);
    }
    false
}

/// Parses `score.md` text: its steps, or every finding that makes it invalid.
pub fn parse(text: &str) -> (r: Result<Score, Vec<Finding>>)
    ensures
        match r {
            Ok(score) => spec_parse(text@) == Ok::<Seq<StepView>, Seq<FindingView>>(score@),
            Err(f) => spec_parse(text@) == Err::<Seq<StepView>, Seq<FindingView>>(
                findings_view(f@),
            ),
        },
{
    let chars = chars_of(text);
    let ls = lines_exec(&chars);
    let ghost lv = lines_view(ls@);
    assert(lv =~= lines(text@));
    let mut steps: Vec<Step> = Vec::new();
    let mut fnd: Vec<Finding> = Vec::new();
    let mut wave: u32 = 0;
    let mut fence: Option<Fence> = None;
    let mut i: usize = 0;
    assert(steps_view(steps@) =~= seq![]);
    assert(findings_view(fnd@) =~= seq![]);
    while i < ls.len()
        invariant
            lv == lines_view(ls@),
            i <= ls.len(),
            parse_from(lv, i as int, fence, wave, steps_view(steps@), findings_view(fnd@))
                == parse_from(lv, 0, None, 0, seq![], seq![]),
        decreases ls.len() - i,
    {
        let line = &ls[i];
        assert(line@ == lv[i as int]);
        let t = trim_exec(line);
        if fence_marker_exec(&t).is_some() {
            fence = toggle_fence_exec(&t, fence);
            i += 1;
            continue ;
        }
        if fence.is_some() {
            i += 1;
            continue ;
        }
        if let Some(w) = wave_header_number_exec(line) {
            wave = w;
            i += 1;
            continue ;
        }
        if let Some(bad) = malformed_wave_header_exec(line) {
            let mut m = chars_of("line ");
            push_decimal(&mut m, (i as u64) + 1);
            push_str(&mut m, ": malformed '## Wave' header: '");
            push_all(&mut m, &bad);
            push_str(&mut m, "' is not a valid wave number");
            assert(m@ =~= malformed_wave_message((i + 1) as nat, bad@));
            push_finding(&mut fnd, 0, &m);
            i += 1;
            continue ;
        }
        if let Some(bad) = malformed_step_header_exec(line) {
            let mut m = chars_of("line ");
            push_decimal(&mut m, (i as u64) + 1);
            push_str(&mut m, ": malformed step header: '");
            push_all(&mut m, &bad);
            push_str(&mut m, "' is not a valid step number");
            assert(m@ =~= malformed_step_message((i + 1) as nat, bad@));
            push_finding(&mut fnd, 0, &m);
            i += 1;
            continue ;
        }
        if let Some((n, title)) = step_header_parts_exec(line) {
            let end = step_boundary_exec(&ls, i + 1);
            let ghost f0 = findings_view(fnd@);
            let ghost s0 = steps_view(steps@);
            let step = parse_step_exec(&ls, i, end, n, &title, wave, &mut fnd);
            let dup = has_step_number_exec(&steps, n);
            if dup {
                push_finding_str(&mut fnd, n, "duplicate step number");
            }
            steps.push(step);
            proof {
                let (sv, sf) = parse_step(lv, i as int, end as int, n, title@, wave);
                assert(steps_view(steps@) =~= s0.push(sv));
                let d = if has_step_number(s0, n) {
                    seq![finding(n, "duplicate step number"@)]
                } else {
                    seq![]
                };
                assert(findings_view(fnd@) =~= f0 + sf + d);
            }
            i = end;
            continue ;
        }
        i += 1;
    }
    if fnd.len() == 0 {
        Ok(Score { steps })
    } else {
        Err(fnd)
    }
}

} // verus!
