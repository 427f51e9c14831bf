//! Cross-checking a parsed score: wave numbering, declared waves,
//! duplicate steps, dependencies and files shared within a wave.
use super::parser::{finding, has_step_number};
use super::{findings_view, steps_view, Finding, FindingView, Score, Step, StepView};
use crate::text::{decimal, push_all, push_decimal, push_str, string_chars, string_from};
use vstd::prelude::*;

verus! {

// ---------------------------------------------------------------------------
// per-step findings (spec)
// ---------------------------------------------------------------------------

pub open spec fn start_message(first: u32) -> Seq<char> {
    "wave numbering must start at 1 (found first wave "@ + decimal(first as nat) + ")"@
}

pub open spec fn order_message(wave: u32, previous: u32) -> Seq<char> {
    "'## Wave "@ + decimal(wave as nat)
        + "' header is out of order (must be strictly ascending; previous wave header was "@
        + decimal(previous as nat) + ")"@
}

pub open spec fn gap_message(wave: u32, previous: u32) -> Seq<char> {
    "wave numbers must be contiguous (no wave "@ + decimal(previous as nat + 1) + " between wave "@
        + decimal(previous as nat) + " and wave "@ + decimal(wave as nat) + ")"@
}

pub open spec fn mismatch_message(declared: u32, enclosing: u32) -> Seq<char> {
    "Wave field ("@ + decimal(declared as nat) + ") does not match its enclosing '## Wave "@
        + decimal(enclosing as nat) + "' header"@
}

pub open spec fn missing_dep_message(dep: u32) -> Seq<char> {
    "depends on step "@ + decimal(dep as nat) + ", which does not exist"@
}

pub open spec fn not_lower_message(dep: u32) -> Seq<char> {
    "depends on step "@ + decimal(dep as nat) + ", which is not in a strictly-lower wave"@
}

pub open spec fn shared_file_message(file: Seq<char>, other: u32, wave: u32) -> Seq<char> {
    "shares file "@ + file + " with step "@ + decimal(other as nat) + " in wave "@ + decimal(
        wave as nat,
    )
}

/// Wave-header ordering findings for a step, given the enclosing wave of the
/// step before it (none for the first step).
pub open spec fn order_findings(prev: Option<u32>, s: StepView) -> Seq<FindingView> {
    match prev {
        None => if s.enclosing_wave != 1 {
            seq![finding(s.number, start_message(s.enclosing_wave))]
        } else {
            seq![]
        },
        Some(p) => if s.enclosing_wave != p {
            if s.enclosing_wave < p {
                seq![finding(s.number, order_message(s.enclosing_wave, p))]
            } else if s.enclosing_wave > p + 1 {
                seq![finding(s.number, gap_message(s.enclosing_wave, p))]
            } else {
                seq![]
            }
        } else {
            seq![]
        },
    }
}

/// Whether another step of the score has the same number as step `k`.
pub open spec fn duplicated(steps: Seq<StepView>, k: int) -> bool {
    exists|j: int| 0 <= j < steps.len() && j != k && (#[trigger] steps[j]).number == steps[k].number
}

/// The declared wave of the last step numbered `n`.
pub open spec fn last_wave_of(steps: Seq<StepView>, n: u32) -> u32
    decreases steps.len(),
{
    if steps.len() == 0 {
        0
    } else if steps.last().number == n {
        steps.last().wave
    } else {
        last_wave_of(steps.drop_last(), n)
    }
}

/// Dependency findings for `deps.take(m)` of a step.
pub open spec fn dep_findings(steps: Seq<StepView>, s: StepView, m: int) -> Seq<FindingView>
    decreases m,
{
    if m <= 0 || m > s.depends_on.len() {
        seq![]
    } else {
        let dep = s.depends_on[m - 1];
        dep_findings(steps, s, m - 1) + if !has_step_number(steps, dep) {
            seq![finding(s.number, missing_dep_message(dep))]
        } else if last_wave_of(steps, dep) >= s.wave {
            seq![finding(s.number, not_lower_message(dep))]
        } else {
            seq![]
        }
    }
}

/// Every per-step finding for step `k`.
pub open spec fn step_findings(steps: Seq<StepView>, k: int) -> Seq<FindingView> {
    let s = steps[k];
    let prev = if k == 0 {
        None
    } else {
        Some(steps[k - 1].enclosing_wave)
    };
    order_findings(prev, s) + (if s.wave != s.enclosing_wave {
        seq![finding(s.number, mismatch_message(s.wave, s.enclosing_wave))]
    } else {
        seq![]
    }) + (if duplicated(steps, k) {
        seq![finding(s.number, "duplicate step number appears more than once"@)]
    } else {
        seq![]
    }) + dep_findings(steps, s, s.depends_on.len() as int)
}

/// Per-step findings of steps `0..k`.
pub open spec fn all_step_findings(steps: Seq<StepView>, k: int) -> Seq<FindingView>
    decreases k,
{
    if k <= 0 || k > steps.len() {
        seq![]
    } else {
        all_step_findings(steps, k - 1) + step_findings(steps, k - 1)
    }
}

// ---------------------------------------------------------------------------
// files shared within a wave (spec)
// ---------------------------------------------------------------------------

/// `ws` (strictly ascending) with `w` added.
pub open spec fn insert_wave(ws: Seq<u32>, w: u32) -> Seq<u32>
    decreases ws.len(),
{
    if ws.len() == 0 {
        seq![w]
    } else if w < ws[0] {
        seq![w] + ws
    } else if w == ws[0] {
        ws
    } else {
        seq![ws[0]] + insert_wave(ws.drop_first(), w)
    }
}

/// The distinct enclosing waves of `steps.take(k)`, ascending.
pub open spec fn waves_of(steps: Seq<StepView>, k: int) -> Seq<u32>
    decreases k,
{
    if k <= 0 || k > steps.len() {
        seq![]
    } else {
        insert_wave(waves_of(steps, k - 1), steps[k - 1].enclosing_wave)
    }
}

/// `g` (indices ordered by step number, ties in score order) with index `k`
/// added after every index whose number is not greater.
pub open spec fn insert_by_number(steps: Seq<StepView>, g: Seq<int>, k: int) -> Seq<int>
    decreases g.len(),
{
    if g.len() == 0 {
        seq![k]
    } else if steps[k].number < steps[g[0]].number {
        seq![k] + g
    } else {
        seq![g[0]] + insert_by_number(steps, g.drop_first(), k)
    }
}

/// Indices `< k` of the steps under wave `w`, stably ordered by step number.
pub open spec fn wave_group(steps: Seq<StepView>, w: u32, k: int) -> Seq<int>
    decreases k,
{
    if k <= 0 || k > steps.len() {
        seq![]
    } else if steps[k - 1].enclosing_wave == w {
        insert_by_number(steps, wave_group(steps, w, k - 1), k - 1)
    } else {
        wave_group(steps, w, k - 1)
    }
}

/// Findings for the files `a.files.take(m)` that `b` also lists.
pub open spec fn shared_files(a: StepView, b: StepView, w: u32, m: int) -> Seq<FindingView>
    decreases m,
{
    if m <= 0 || m > a.files.len() {
        seq![]
    } else {
        shared_files(a, b, w, m - 1) + if b.files.contains(a.files[m - 1]) {
            seq![finding(b.number, shared_file_message(a.files[m - 1], a.number, w))]
        } else {
            seq![]
        }
    }
}

/// Findings for the pairs `(g[i], g[j])` with `i < j < m`.
pub open spec fn pair_row(steps: Seq<StepView>, g: Seq<int>, w: u32, i: int, m: int) -> Seq<
    FindingView,
>
    decreases m,
{
    if i < 0 || m <= i + 1 || m > g.len() {
        seq![]
    } else {
        let a = steps[g[i]];
        pair_row(steps, g, w, i, m - 1) + shared_files(a, steps[g[m - 1]], w, a.files.len() as int)
    }
}

/// Findings for the pairs `(g[i], g[j])` with `i < r` and `i < j`.
pub open spec fn pair_rows(steps: Seq<StepView>, g: Seq<int>, w: u32, r: int) -> Seq<FindingView>
    decreases r,
{
    if r <= 0 || r > g.len() {
        seq![]
    } else {
        pair_rows(steps, g, w, r - 1) + pair_row(steps, g, w, r - 1, g.len() as int)
    }
}

/// Shared-file findings for the waves `ws.take(n)`.
pub open spec fn shared_findings(steps: Seq<StepView>, ws: Seq<u32>, n: int) -> Seq<FindingView>
    decreases n,
{
    if n <= 0 || n > ws.len() {
        seq![]
    } else {
        let g = wave_group(steps, ws[n - 1], steps.len() as int);
        shared_findings(steps, ws, n - 1) + pair_rows(steps, g, ws[n - 1], g.len() as int)
    }
}

/// Every finding `check` reports for a score: per-step findings in score
/// order, then files shared within a wave, waves ascending.
pub open spec fn spec_check(steps: Seq<StepView>) -> Seq<FindingView> {
    let ws = waves_of(steps, steps.len() as int);
    all_step_findings(steps, steps.len() as int) + shared_findings(steps, ws, ws.len() as int)
}

// ---------------------------------------------------------------------------
// laws: dependencies
// ---------------------------------------------------------------------------

proof fn lemma_contains_concat(a: Seq<FindingView>, b: Seq<FindingView>, x: FindingView)
    ensures
        a.contains(x) ==> (a + b).contains(x),
        b.contains(x) ==> (a + b).contains(x),
{
    if a.contains(x) {
        let i = choose|i: int| 0 <= i < a.len() && a[i] == x;
        assert((a + b)[i] == x);
    }
    if b.contains(x) {
        let i = choose|i: int| 0 <= i < b.len() && b[i] == x;
        assert((a + b)[a.len() + i] == x);
    }
}

/// The wave recorded for step number `n` is that of the last step numbered
/// `n`.
proof fn lemma_last_wave(steps: Seq<StepView>, t: int)
    requires
        0 <= t < steps.len(),
        forall|u: int| t < u < steps.len() ==> (#[trigger] steps[u]).number != steps[t].number,
    ensures
        last_wave_of(steps, steps[t].number) == steps[t].wave,
    decreases steps.len(),
{
    if t < steps.len() - 1 {
        assert(steps[steps.len() - 1].number != steps[t].number);
        let d = steps.drop_last();
        assert(d[t] == steps[t]);
        assert forall|u: int| t < u < d.len() implies (#[trigger] d[u]).number != d[t].number by {
            assert(d[u] == steps[u]);
        }
        lemma_last_wave(d, t);
    }
}

/// The findings about dependency `m` of step `s` are among those about its
/// first `mm` dependencies, for `m < mm`.
proof fn lemma_dep_findings_contains(steps: Seq<StepView>, s: StepView, mm: int, m: int, x: FindingView)
    requires
        0 <= m < mm <= s.depends_on.len(),
        x == (if !has_step_number(steps, s.depends_on[m]) {
            finding(s.number, missing_dep_message(s.depends_on[m]))
        } else {
            finding(s.number, not_lower_message(s.depends_on[m]))
        }),
        !has_step_number(steps, s.depends_on[m]) || last_wave_of(steps, s.depends_on[m]) >= s.wave,
    ensures
        dep_findings(steps, s, mm).contains(x),
    decreases mm,
{
    let prev = dep_findings(steps, s, mm - 1);
    let dep = s.depends_on[mm - 1];
    let item = if !has_step_number(steps, dep) {
        seq![finding(s.number, missing_dep_message(dep))]
    } else if last_wave_of(steps, dep) >= s.wave {
        seq![finding(s.number, not_lower_message(dep))]
    } else {
        seq![]
    };
    assert(dep_findings(steps, s, mm) == prev + item);
    if m < mm - 1 {
        lemma_dep_findings_contains(steps, s, mm - 1, m, x);
        lemma_contains_concat(prev, item, x);
    } else {
        assert(item[0] == x);
        lemma_contains_concat(prev, item, x);
    }
}

/// The findings about step `k` are among those `check` reports.
proof fn lemma_step_findings_in_check(steps: Seq<StepView>, k: int, x: FindingView)
    requires
        0 <= k < steps.len(),
        dep_findings(steps, steps[k], steps[k].depends_on.len() as int).contains(x),
    ensures
        spec_check(steps).contains(x),
{
    let s = steps[k];
    let prev = if k == 0 {
        None
    } else {
        Some(steps[k - 1].enclosing_wave)
    };
    let a = order_findings(prev, s) + (if s.wave != s.enclosing_wave {
        seq![finding(s.number, mismatch_message(s.wave, s.enclosing_wave))]
    } else {
        seq![]
    }) + (if duplicated(steps, k) {
        seq![finding(s.number, "duplicate step number appears more than once"@)]
    } else {
        seq![]
    });
    assert(step_findings(steps, k) == a + dep_findings(steps, s, s.depends_on.len() as int));
    lemma_contains_concat(a, dep_findings(steps, s, s.depends_on.len() as int), x);
    lemma_all_step_findings_contains(steps, steps.len() as int, k, x);
    let ws = waves_of(steps, steps.len() as int);
    lemma_contains_concat(
        all_step_findings(steps, steps.len() as int),
        shared_findings(steps, ws, ws.len() as int),
        x,
    );
}

proof fn lemma_all_step_findings_contains(steps: Seq<StepView>, n: int, k: int, x: FindingView)
    requires
        0 <= k < n <= steps.len(),
        step_findings(steps, k).contains(x),
    ensures
        all_step_findings(steps, n).contains(x),
    decreases n,
{
    lemma_contains_concat(all_step_findings(steps, n - 1), step_findings(steps, n - 1), x);
    if k < n - 1 {
        lemma_all_step_findings_contains(steps, n - 1, k, x);
    }
}

/// A dependency that is not in a strictly-lower wave is always reported:
/// when step `k` depends on the step numbered `d`, and the last step
/// numbered `d` is in a wave not below step `k`'s own, `check` reports for
/// step `k` that `d` is not in a strictly-lower wave.
pub proof fn law_dependency_not_lower_reported(steps: Seq<StepView>, k: int, m: int, t: int)
    requires
        0 <= k < steps.len(),
        0 <= m < steps[k].depends_on.len(),
        0 <= t < steps.len(),
        steps[t].number == steps[k].depends_on[m],
        forall|u: int| t < u < steps.len() ==> (#[trigger] steps[u]).number != steps[t].number,
        steps[t].wave >= steps[k].wave,
    ensures
        spec_check(steps).contains(
            finding(steps[k].number, not_lower_message(steps[k].depends_on[m])),
        ),
{
    lemma_last_wave(steps, t);
    assert(has_step_number(steps, steps[k].depends_on[m]));
    let s = steps[k];
    let x = finding(s.number, not_lower_message(s.depends_on[m]));
    lemma_dep_findings_contains(steps, s, s.depends_on.len() as int, m, x);
    lemma_step_findings_in_check(steps, k, x);
}

/// A dependency on a step number that no step has is always reported.
pub proof fn law_missing_dependency_reported(steps: Seq<StepView>, k: int, m: int)
    requires
        0 <= k < steps.len(),
        0 <= m < steps[k].depends_on.len(),
        forall|u: int| 0 <= u < steps.len() ==> (#[trigger] steps[u]).number != steps[k].depends_on[m],
    ensures
        spec_check(steps).contains(
            finding(steps[k].number, missing_dep_message(steps[k].depends_on[m])),
        ),
{
    let s = steps[k];
    assert(!has_step_number(steps, s.depends_on[m]));
    let x = finding(s.number, missing_dep_message(s.depends_on[m]));
    lemma_dep_findings_contains(steps, s, s.depends_on.len() as int, m, x);
    lemma_step_findings_in_check(steps, k, x);
}

// ---------------------------------------------------------------------------
// law: a file shared within a wave is always reported
// ---------------------------------------------------------------------------

proof fn lemma_shared_files_nonempty(a: StepView, b: StepView, w: u32, m: int, k: int)
    requires
        0 <= k < m <= a.files.len(),
        b.files.contains(a.files[k]),
    ensures
        shared_files(a, b, w, m).len() > 0,
    decreases m,
{
    if k < m - 1 {
        lemma_shared_files_nonempty(a, b, w, m - 1, k);
    }
}

proof fn lemma_pair_row_nonempty(steps: Seq<StepView>, g: Seq<int>, w: u32, i: int, m: int, q: int)
    requires
        0 <= i < q < m <= g.len(),
        shared_files(steps[g[i]], steps[g[q]], w, steps[g[i]].files.len() as int).len() > 0,
    ensures
        pair_row(steps, g, w, i, m).len() > 0,
    decreases m,
{
    if q < m - 1 {
        lemma_pair_row_nonempty(steps, g, w, i, m - 1, q);
    }
}

proof fn lemma_pair_rows_nonempty(steps: Seq<StepView>, g: Seq<int>, w: u32, r: int, i: int)
    requires
        0 <= i < r <= g.len(),
        pair_row(steps, g, w, i, g.len() as int).len() > 0,
    ensures
        pair_rows(steps, g, w, r).len() > 0,
    decreases r,
{
    if i < r - 1 {
        lemma_pair_rows_nonempty(steps, g, w, r - 1, i);
    }
}

proof fn lemma_shared_findings_nonempty(steps: Seq<StepView>, ws: Seq<u32>, n: int, t: int)
    requires
        0 <= t < n <= ws.len(),
        pair_rows(
            steps,
            wave_group(steps, ws[t], steps.len() as int),
            ws[t],
            wave_group(steps, ws[t], steps.len() as int).len() as int,
        ).len() > 0,
    ensures
        shared_findings(steps, ws, n).len() > 0,
    decreases n,
{
    if t < n - 1 {
        lemma_shared_findings_nonempty(steps, ws, n - 1, t);
    }
}

proof fn lemma_insert_wave_contains(ws: Seq<u32>, w: u32, x: u32)
    ensures
        insert_wave(ws, w).contains(w),
        ws.contains(x) ==> insert_wave(ws, w).contains(x),
    decreases ws.len(),
{
    let r = insert_wave(ws, w);
    if ws.len() == 0 {
        assert(r[0] == w);
    } else if w < ws[0] {
        assert(r[0] == w);
        if ws.contains(x) {
            let k = choose|k: int| 0 <= k < ws.len() && ws[k] == x;
            assert(r[k + 1] == x);
        }
    } else if w == ws[0] {
        assert(r[0] == w);
    } else {
        lemma_insert_wave_contains(ws.drop_first(), w, x);
        let rest = insert_wave(ws.drop_first(), w);
        let j = choose|j: int| 0 <= j < rest.len() && rest[j] == w;
        assert(r[j + 1] == w);
        if ws.contains(x) {
            let k = choose|k: int| 0 <= k < ws.len() && ws[k] == x;
            if k == 0 {
                assert(r[0] == x);
            } else {
                assert(ws.drop_first()[k - 1] == x);
                let j2 = choose|j2: int| 0 <= j2 < rest.len() && rest[j2] == x;
                assert(r[j2 + 1] == x);
            }
        }
    }
}

proof fn lemma_waves_of_contains(steps: Seq<StepView>, k: int, i: int)
    requires
        0 <= i < k <= steps.len(),
    ensures
        waves_of(steps, k).contains(steps[i].enclosing_wave),
    decreases k,
{
    lemma_insert_wave_contains(waves_of(steps, k - 1), steps[k - 1].enclosing_wave, steps[i].enclosing_wave);
    if i < k - 1 {
        lemma_waves_of_contains(steps, k - 1, i);
    }
}

proof fn lemma_insert_by_number_contains(steps: Seq<StepView>, g: Seq<int>, k: int, x: int)
    ensures
        insert_by_number(steps, g, k).contains(k),
        g.contains(x) ==> insert_by_number(steps, g, k).contains(x),
    decreases g.len(),
{
    let r = insert_by_number(steps, g, k);
    if g.len() == 0 {
        assert(r[0] == k);
    } else if steps[k].number < steps[g[0]].number {
        assert(r[0] == k);
        if g.contains(x) {
            let j = choose|j: int| 0 <= j < g.len() && g[j] == x;
            assert(r[j + 1] == x);
        }
    } else {
        lemma_insert_by_number_contains(steps, g.drop_first(), k, x);
        let rest = insert_by_number(steps, g.drop_first(), k);
        let j = choose|j: int| 0 <= j < rest.len() && rest[j] == k;
        assert(r[j + 1] == k);
        if g.contains(x) {
            let jx = choose|jx: int| 0 <= jx < g.len() && g[jx] == x;
            if jx == 0 {
                assert(r[0] == x);
            } else {
                assert(g.drop_first()[jx - 1] == x);
                let j2 = choose|j2: int| 0 <= j2 < rest.len() && rest[j2] == x;
                assert(r[j2 + 1] == x);
            }
        }
    }
}

proof fn lemma_wave_group_contains(steps: Seq<StepView>, w: u32, k: int, i: int)
    requires
        0 <= i < k <= steps.len(),
        steps[i].enclosing_wave == w,
    ensures
        wave_group(steps, w, k).contains(i),
    decreases k,
{
    if steps[k - 1].enclosing_wave == w {
        lemma_insert_by_number_contains(steps, wave_group(steps, w, k - 1), k - 1, i);
    }
    if i < k - 1 {
        lemma_wave_group_contains(steps, w, k - 1, i);
        if steps[k - 1].enclosing_wave == w {
            lemma_insert_by_number_contains(steps, wave_group(steps, w, k - 1), k - 1, i);
        }
    }
}

/// Two steps under the same wave never both list a file unnoticed: the
/// cross-check then reports at least one finding.
pub proof fn law_shared_file_in_wave_found(steps: Seq<StepView>, i: int, j: int, f: Seq<char>)
    requires
        0 <= i < steps.len(),
        0 <= j < steps.len(),
        i != j,
        steps[i].enclosing_wave == steps[j].enclosing_wave,
        steps[i].files.contains(f),
        steps[j].files.contains(f),
    ensures
        spec_check(steps).len() > 0,
{
    let n = steps.len() as int;
    let w = steps[i].enclosing_wave;
    let ws = waves_of(steps, n);
    lemma_waves_of_contains(steps, n, i);
    let t = choose|t: int| 0 <= t < ws.len() && ws[t] == w;
    let g = wave_group(steps, w, n);
    lemma_wave_group_contains(steps, w, n, i);
    lemma_wave_group_contains(steps, w, n, j);
    let pi = choose|p: int| 0 <= p < g.len() && g[p] == i;
    let pj = choose|p: int| 0 <= p < g.len() && g[p] == j;
    let p = if pi < pj { pi } else { pj };
    let q = if pi < pj { pj } else { pi };
    assert(p != q);
    let a = steps[g[p]];
    let b = steps[g[q]];
    assert(a.files.contains(f) && b.files.contains(f));
    let k = choose|k: int| 0 <= k < a.files.len() && a.files[k] == f;
    lemma_shared_files_nonempty(a, b, w, a.files.len() as int, k);
    lemma_pair_row_nonempty(steps, g, w, p, g.len() as int, q);
    lemma_pair_rows_nonempty(steps, g, w, g.len() as int, p);
    lemma_shared_findings_nonempty(steps, ws, ws.len() as int, t);
}

// ---------------------------------------------------------------------------
// executable check
// ---------------------------------------------------------------------------

fn add_finding(fnd: &mut Vec<Finding>, step: u32, m: &Vec<char>)
    ensures
        findings_view(final(fnd)@) == findings_view(old(fnd)@).push(finding(step, m@)),
{
    fnd.push(Finding { step, message: string_from(m) });
    assert(findings_view(fnd@) =~= findings_view(old(fnd)@).push(finding(step, m@)));
}

fn order_findings_exec(prev: Option<u32>, s: &Step, fnd: &mut Vec<Finding>)
    ensures
        findings_view(final(fnd)@) == findings_view(old(fnd)@) + order_findings(prev, s@),
{
    let ghost f0 = findings_view(fnd@);
    let ew = s.enclosing_wave;
    match prev {
        None => {
            if ew != 1 {
                let mut m: Vec<char> = Vec::new();
                push_str(&mut m, "wave numbering must start at 1 (found first wave ");
                push_decimal(&mut m, ew as u64);
                push_str(&mut m, ")");
                assert(m@ =~= start_message(ew));
                add_finding(fnd, s.number, &m);
            }
        },
        Some(p) => {
            if ew != p {
                if ew < p {
                    let mut m: Vec<char> = Vec::new();
                    push_str(&mut m, "'## Wave ");
                    push_decimal(&mut m, ew as u64);
                    push_str(
                        &mut m,
                        "' header is out of order (must be strictly ascending; previous wave header was ",
                    );
                    push_decimal(&mut m, p as u64);
                    push_str(&mut m, ")");
                    assert(m@ =~= order_message(ew, p));
                    add_finding(fnd, s.number, &m);
                } else if ew > p + 1 {
                    let mut m: Vec<char> = Vec::new();
                    push_str(&mut m, "wave numbers must be contiguous (no wave ");
                    push_decimal(&mut m, p as u64 + 1);
                    push_str(&mut m, " between wave ");
                    push_decimal(&mut m, p as u64);
                    push_str(&mut m, " and wave ");
                    push_decimal(&mut m, ew as u64);
                    push_str(&mut m, ")");
                    assert(m@ =~= gap_message(ew, p));
                    add_finding(fnd, s.number, &m);
                }
            }
        },
    }
    assert(findings_view(fnd@) =~= f0 + order_findings(prev, s@));
}

fn duplicated_exec(steps: &Vec<Step>, k: usize) -> (r: bool)
    requires
        k < steps.len(),
    ensures
        r == duplicated(steps_view(steps@), k as int),
{
    let ghost sv = steps_view(steps@);
    let n = steps[k].number;
    let mut j: usize = 0;
    while j < steps.len()
        invariant
            sv == steps_view(steps@),
            k < steps.len(),
            n == sv[k as int].number,
            j <= steps.len(),
            forall|i: int| 0 <= i < j && i != k ==> (#[trigger] sv[i]).number != n,
        decreases steps.len() - j,
    {
        if j != k && steps[j].number == n {
            assert(sv[j as int].number == n);
            return true;
        }
        j += 1;
    }
    false
}

fn has_number(steps: &Vec<Step>, n: u32) -> (r: bool)
    ensures
        r == has_step_number(steps_view(steps@), n),
{
    let ghost sv = steps_view(steps@);
    let mut j: usize = 0;
    while j < steps.len()
        invariant
            sv == steps_view(steps@),
            j <= steps.len(),
            forall|i: int| 0 <= i < j ==> (#[trigger] sv[i]).number != n,
        decreases steps.len() - j,
    {
        if steps[j].number == n {
            assert(sv[j as int].number == n);
            return true;
        }
        j += 1;
    }
    false
}

fn last_wave_of_exec(steps: &Vec<Step>, n: u32) -> (r: u32)
    ensures
        r == last_wave_of(steps_view(steps@), n),
{
    let ghost sv = steps_view(steps@);
    let mut j: usize = steps.len();
    assert(sv.take(j as int) =~= sv);
    while j > 0
        invariant
            sv == steps_view(steps@),
            j <= steps.len(),
            last_wave_of(sv, n) == last_wave_of(sv.take(j as int), n),
        decreases j,
    {
        assert(sv.take(j as int).drop_last() =~= sv.take(j - 1));
        if steps[j - 1].number == n {
            return steps[j - 1].wave;
        }
        j -= 1;
    }
    assert(sv.take(0) =~= seq![]);
    0
}

fn step_findings_exec(steps: &Vec<Step>, k: usize, fnd: &mut Vec<Finding>)
    requires
        k < steps.len(),
    ensures
        findings_view(final(fnd)@) == findings_view(old(fnd)@) + step_findings(
            steps_view(steps@),
            k as int,
        ),
{
    let ghost sv = steps_view(steps@);
    let ghost f0 = findings_view(fnd@);
    let s = &steps[k];
    assert(s@ == sv[k as int]);
    let prev = if k == 0 {
        None
    } else {
        Some(steps[k - 1].enclosing_wave)
    };
    order_findings_exec(prev, s, fnd);
    let ghost f1 = findings_view(fnd@);
    if s.wave != s.enclosing_wave {
        let mut m: Vec<char> = Vec::new();
        push_str(&mut m, "Wave field (");
        push_decimal(&mut m, s.wave as u64);
        push_str(&mut m, ") does not match its enclosing '## Wave ");
        push_decimal(&mut m, s.enclosing_wave as u64);
        push_str(&mut m, "' header");
        assert(m@ =~= mismatch_message(s.wave, s.enclosing_wave));
        add_finding(fnd, s.number, &m);
    }
    let ghost f2 = findings_view(fnd@);
    if duplicated_exec(steps, k) {
        let m = crate::text::chars_of("duplicate step number appears more than once");
        add_finding(fnd, s.number, &m);
    }
    let ghost f3 = findings_view(fnd@);
    let mut d: usize = 0;
    while d < s.depends_on.len()
        invariant
            sv == steps_view(steps@),
            k < steps.len(),
            s@ == sv[k as int],
            d <= s.depends_on.len(),
            findings_view(fnd@) == f3 + dep_findings(sv, s@, d as int),
        decreases s.depends_on.len() - d,
    {
        let dep = s.depends_on[d];
        if !has_number(steps, dep) {
            let mut m: Vec<char> = Vec::new();
            push_str(&mut m, "depends on step ");
            push_decimal(&mut m, dep as u64);
            push_str(&mut m, ", which does not exist");
            assert(m@ =~= missing_dep_message(dep));
            add_finding(fnd, s.number, &m);
        } else if last_wave_of_exec(steps, dep) >= s.wave {
            let mut m: Vec<char> = Vec::new();
            push_str(&mut m, "depends on step ");
            push_decimal(&mut m, dep as u64);
            push_str(&mut m, ", which is not in a strictly-lower wave");
            assert(m@ =~= not_lower_message(dep));
            add_finding(fnd, s.number, &m);
        }
        assert(findings_view(fnd@) =~= f3 + dep_findings(sv, s@, d + 1));
        d += 1;
    }
    assert(findings_view(fnd@) =~= f0 + step_findings(sv, k as int));
}

/// Position at which `insert_wave` places `w` in the ascending `ws`.
proof fn lemma_insert_wave(ws: Seq<u32>, w: u32, p: int)
    requires
        0 <= p <= ws.len(),
        forall|i: int, j: int| 0 <= i < j < ws.len() ==> ws[i] < ws[j],
        forall|i: int| 0 <= i < p ==> ws[i] < w,
        p < ws.len() ==> w <= ws[p],
    ensures
        insert_wave(ws, w) == (if p < ws.len() && ws[p] == w {
            ws
        } else {
            ws.take(p) + seq![w] + ws.skip(p)
        }),
        forall|i: int, j: int|
            0 <= i < j < insert_wave(ws, w).len() ==> insert_wave(ws, w)[i] < insert_wave(ws, w)[j],
    decreases ws.len(),
{
    if ws.len() == 0 {
        assert(ws.take(p) + seq![w] + ws.skip(p) =~= seq![w]);
    } else if w < ws[0] {
        assert(p == 0);
        assert(ws.take(p) + seq![w] + ws.skip(p) =~= seq![w] + ws);
    } else if w == ws[0] {
        assert(p == 0);
    } else {
        lemma_insert_wave(ws.drop_first(), w, p - 1);
        let r = insert_wave(ws.drop_first(), w);
        if p < ws.len() && ws[p] == w {
        } else {
            assert(seq![ws[0]] + (ws.drop_first().take(p - 1) + seq![w] + ws.drop_first().skip(p - 1))
                =~= ws.take(p) + seq![w] + ws.skip(p));
        }
        assert forall|i: int, j: int|
            0 <= i < j < insert_wave(ws, w).len() implies insert_wave(ws, w)[i] < insert_wave(
            ws,
            w,
        )[j] by {
            let s = seq![ws[0]] + r;
            assert(insert_wave(ws, w) == s);
            if i == 0 {
                if p < ws.len() && ws[p] == w {
                    assert(r == ws.drop_first());
                } else {
                    let d = ws.drop_first();
                    assert(r == d.take(p - 1) + seq![w] + d.skip(p - 1));
                    if j - 1 < p - 1 {
                        assert(r[j - 1] == d[j - 1]);
                    } else if j - 1 == p - 1 {
                        assert(r[j - 1] == w);
                    } else {
                        assert(r[j - 1] == d[j - 2]);
                    }
                }
            }
        }
    }
}

/// The distinct enclosing waves of the score, ascending.
pub(crate) fn waves_exec(steps: &Vec<Step>) -> (r: Vec<u32>)
    ensures
        r@ == waves_of(steps_view(steps@), steps.len() as int),
{
    let ghost sv = steps_view(steps@);
    let mut ws: Vec<u32> = Vec::new();
    let mut k: usize = 0;
    while k < steps.len()
        invariant
            sv == steps_view(steps@),
            k <= steps.len(),
            ws@ == waves_of(sv, k as int),
            forall|i: int, j: int| 0 <= i < j < ws@.len() ==> ws@[i] < ws@[j],
        decreases steps.len() - k,
    {
        let w = steps[k].enclosing_wave;
        let mut p: usize = 0;
        while p < ws.len() && ws[p] < w
            invariant
                p <= ws.len(),
                forall|i: int| 0 <= i < p ==> ws@[i] < w,
            decreases ws.len() - p,
        {
            p += 1;
        }
        proof {
            lemma_insert_wave(ws@, w, p as int);
        }
        let ghost before = ws@;
        if p < ws.len() && ws[p] == w {
        } else {
            ws.insert(p, w);
            assert(ws@ =~= before.take(p as int) + seq![w] + before.skip(p as int));
        }
        assert(waves_of(sv, k + 1) == insert_wave(before, w));
        k += 1;
    }
    ws
}


proof fn lemma_insert_by_number(steps: Seq<StepView>, g: Seq<int>, k: int, p: int)
    requires
        0 <= p <= g.len(),
        forall|i: int| 0 <= i < p ==> steps[g[i]].number <= steps[k].number,
        p < g.len() ==> steps[g[p]].number > steps[k].number,
    ensures
        insert_by_number(steps, g, k) == g.take(p) + seq![k] + g.skip(p),
    decreases g.len(),
{
    if g.len() == 0 {
        assert(g.take(p) + seq![k] + g.skip(p) =~= seq![k]);
    } else if steps[k].number < steps[g[0]].number {
        assert(p == 0);
        assert(g.take(p) + seq![k] + g.skip(p) =~= seq![k] + g);
    } else {
        assert(p > 0);
        let d = g.drop_first();
        assert forall|i: int| 0 <= i < p - 1 implies steps[d[i]].number <= steps[k].number by {
            assert(d[i] == g[i + 1]);
        }
        lemma_insert_by_number(steps, d, k, p - 1);
        assert(seq![g[0]] + (d.take(p - 1) + seq![k] + d.skip(p - 1)) =~= g.take(p) + seq![k]
            + g.skip(p));
    }
}

pub open spec fn index_view(g: Seq<usize>) -> Seq<int> {
    g.map_values(|x: usize| x as int)
}

/// The indices of the steps under wave `w`, stably ordered by step number.
fn wave_group_exec(steps: &Vec<Step>, w: u32) -> (r: Vec<usize>)
    ensures
        index_view(r@) == wave_group(steps_view(steps@), w, steps.len() as int),
        forall|i: int| 0 <= i < r@.len() ==> (#[trigger] r@[i]) < steps.len(),
{
    let ghost sv = steps_view(steps@);
    let mut g: Vec<usize> = Vec::new();
    let mut k: usize = 0;
    assert(index_view(g@) =~= seq![]);
    while k < steps.len()
        invariant
            sv == steps_view(steps@),
            k <= steps.len(),
            index_view(g@) == wave_group(sv, w, k as int),
            forall|i: int| 0 <= i < g@.len() ==> (#[trigger] g@[i]) < k,
        decreases steps.len() - k,
    {
        if steps[k].enclosing_wave == w {
            let nk = steps[k].number;
            let mut p: usize = 0;
            while p < g.len() && steps[g[p]].number <= nk
                invariant
                    sv == steps_view(steps@),
                    k < steps.len(),
                    nk == sv[k as int].number,
                    p <= g.len(),
                    forall|i: int| 0 <= i < g@.len() ==> (#[trigger] g@[i]) < k,
                    forall|i: int| 0 <= i < p ==> sv[(#[trigger] g@[i]) as int].number <= nk,
                decreases g.len() - p,
            {
                p += 1;
            }
            let ghost before = index_view(g@);
            proof {
                assert forall|i: int| 0 <= i < p implies sv[before[i]].number <= sv[k as int].number by {
                    assert(before[i] == g@[i] as int);
                }
                if p < g.len() {
                    assert(before[p as int] == g@[p as int] as int);
                }
                lemma_insert_by_number(sv, before, k as int, p as int);
            }
            let ghost gold = g@;
            g.insert(p, k);
            proof {
                assert(g@ =~= gold.take(p as int) + seq![k] + gold.skip(p as int));
                assert(index_view(g@) =~= before.take(p as int) + seq![k as int] + before.skip(
                    p as int,
                ));
                assert forall|i: int| 0 <= i < g@.len() implies (#[trigger] g@[i]) < k + 1 by {
                    if i < p {
                        assert(g@[i] == gold[i]);
                    } else if i > p {
                        assert(g@[i] == gold[i - 1]);
                    }
                }
            }
        }
        k += 1;
    }
    g
}

fn contains_string(v: &Vec<String>, x: &String) -> (r: bool)
    ensures
        r == strings_view_of(v@).contains(x@),
{
    let mut i: usize = 0;
    while i < v.len()
        invariant
            i <= v.len(),
            forall|j: int| 0 <= j < i ==> (#[trigger] v@[j])@ != x@,
        decreases v.len() - i,
    {
        let a = string_chars(&v[i]);
        let b = string_chars(x);
        if crate::text::starts_with_exec(&a, &b) && a.len() == b.len() {
            assert(a@ =~= b@);
            assert(strings_view_of(v@)[i as int] == x@);
            return true;
        }
        proof {
            if a@ == b@ {
                assert(a@.take(b@.len() as int) =~= b@);
            }
        }
        i += 1;
    }
    proof {
        if strings_view_of(v@).contains(x@) {
            let j = choose|j: int| 0 <= j < strings_view_of(v@).len() && strings_view_of(v@)[j] == x@;
            assert(v@[j]@ == x@);
        }
    }
    false
}

pub open spec fn strings_view_of(v: Seq<String>) -> Seq<Seq<char>> {
    super::strings_view(v)
}

fn shared_files_exec(a: &Step, b: &Step, w: u32, fnd: &mut Vec<Finding>)
    ensures
        findings_view(final(fnd)@) == findings_view(old(fnd)@) + shared_files(
            a@,
            b@,
            w,
            a.files.len() as int,
        ),
{
    let ghost f0 = findings_view(fnd@);
    let mut m: usize = 0;
    while m < a.files.len()
        invariant
            m <= a.files.len(),
            findings_view(fnd@) == f0 + shared_files(a@, b@, w, m as int),
        decreases a.files.len() - m,
    {
        if contains_string(&b.files, &a.files[m]) {
            let mut msg: Vec<char> = Vec::new();
            push_str(&mut msg, "shares file ");
            let fc = string_chars(&a.files[m]);
            push_all(&mut msg, &fc);
            push_str(&mut msg, " with step ");
            push_decimal(&mut msg, a.number as u64);
            push_str(&mut msg, " in wave ");
            push_decimal(&mut msg, w as u64);
            assert(msg@ =~= shared_file_message(a@.files[m as int], a.number, w));
            add_finding(fnd, b.number, &msg);
        }
        assert(findings_view(fnd@) =~= f0 + shared_files(a@, b@, w, m + 1));
        m += 1;
    }
}

fn pair_rows_exec(steps: &Vec<Step>, g: &Vec<usize>, w: u32, fnd: &mut Vec<Finding>)
    requires
        forall|i: int| 0 <= i < g@.len() ==> (#[trigger] g@[i]) < steps.len(),
    ensures
        findings_view(final(fnd)@) == findings_view(old(fnd)@) + pair_rows(
            steps_view(steps@),
            index_view(g@),
            w,
            g.len() as int,
        ),
{
    let ghost sv = steps_view(steps@);
    let ghost gv = index_view(g@);
    let ghost f0 = findings_view(fnd@);
    let mut i: usize = 0;
    while i < g.len()
        invariant
            sv == steps_view(steps@),
            gv == index_view(g@),
            forall|q: int| 0 <= q < g@.len() ==> (#[trigger] g@[q]) < steps.len(),
            i <= g.len(),
            findings_view(fnd@) == f0 + pair_rows(sv, gv, w, i as int),
        decreases g.len() - i,
    {
        let ghost f1 = findings_view(fnd@);
        let a = &steps[g[i]];
        assert(a@ == sv[gv[i as int]]);
        let mut j: usize = i + 1;
        while j < g.len()
            invariant
                sv == steps_view(steps@),
                gv == index_view(g@),
                forall|q: int| 0 <= q < g@.len() ==> (#[trigger] g@[q]) < steps.len(),
                i < j <= g.len(),
                a@ == sv[gv[i as int]],
                findings_view(fnd@) == f1 + pair_row(sv, gv, w, i as int, j as int),
            decreases g.len() - j,
        {
            let b = &steps[g[j]];
            assert(b@ == sv[gv[j as int]]);
            shared_files_exec(a, b, w, fnd);
            assert(findings_view(fnd@) =~= f1 + pair_row(sv, gv, w, i as int, j + 1));
            j += 1;
        }
        assert(findings_view(fnd@) =~= f0 + pair_rows(sv, gv, w, i + 1));
        i += 1;
    }
}

/// Cross-checks a parsed score and returns every finding, in the order
/// `spec_check` gives.
pub fn check(score: &Score) -> (r: Vec<Finding>)
    ensures
        findings_view(r@) == spec_check(score@),
{
    let steps = &score.steps;
    let ghost sv = steps_view(steps@);
    let mut fnd: Vec<Finding> = Vec::new();
    assert(findings_view(fnd@) =~= seq![]);
    let mut k: usize = 0;
    while k < steps.len()
        invariant
            sv == steps_view(steps@),
            k <= steps.len(),
            findings_view(fnd@) == all_step_findings(sv, k as int),
        decreases steps.len() - k,
    {
        step_findings_exec(steps, k, &mut fnd);
        k += 1;
    }
    let ghost f1 = findings_view(fnd@);
    let ws = waves_exec(steps);
    let mut n: usize = 0;
    while n < ws.len()
        invariant
            sv == steps_view(steps@),
            ws@ == waves_of(sv, sv.len() as int),
            n <= ws.len(),
            findings_view(fnd@) == f1 + shared_findings(sv, ws@, n as int),
        decreases ws.len() - n,
    {
        let g = wave_group_exec(steps, ws[n]);
        pair_rows_exec(steps, &g, ws[n], &mut fnd);
        assert(findings_view(fnd@) =~= f1 + shared_findings(sv, ws@, n + 1));
        n += 1;
    }
    fnd
}

} // verus!
