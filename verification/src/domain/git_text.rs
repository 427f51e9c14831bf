//! What the library reads from the output of git, `gh` and the files around
//! a repository, once the program has turned it into plain values.
use crate::domain::value::{is_valid_slug, SlugValue};
use crate::ports::git::{opt_string_view, GitError, GitErrorView, MergeCheck, PrState};
use crate::text::{
    chars_of, find, find_exec, last_segment, last_segment_exec, owned, push_str, string_chars,
    string_from, text_less, text_less_exec,
};
use vstd::prelude::*;

verus! {

// ---------------------------------------------------------------------------
// pull requests
// ---------------------------------------------------------------------------

/// One pull request as `gh pr list --json state,mergedAt` lists it:
/// whether `mergedAt` is set (present and not null), and its `state`.
#[derive(Debug)]
pub struct PrRecord {
    pub merged_at_set: bool,
    pub state: Option<String>,
}

/// A pull request is merged when it has a merge time, open when its state
/// is `OPEN`, and closed unmerged otherwise.
pub open spec fn spec_classify_pr(merged_at_set: bool, state: Option<Seq<char>>) -> PrState {
    if merged_at_set {
        PrState::Merged
    } else if state == Some("OPEN"@) {
        PrState::Open
    } else {
        PrState::ClosedUnmerged
    }
}

/// Open outranks merged, which outranks closed unmerged.
pub open spec fn pr_rank(s: PrState) -> int {
    match s {
        PrState::Open => 3,
        PrState::Merged => 2,
        PrState::ClosedUnmerged => 1,
        PrState::NoPr => 0,
    }
}

pub open spec fn record_state(r: PrRecord) -> PrState {
    spec_classify_pr(
        r.merged_at_set,
        match r.state {
            Some(s) => Some(s@),
            None => None,
        },
    )
}

/// The highest-ranked state among the records (the last of equals), or
/// `NoPr` for none.
pub open spec fn spec_strongest(rs: Seq<PrRecord>) -> PrState
    decreases rs.len(),
{
    if rs.len() == 0 {
        PrState::NoPr
    } else {
        let best = spec_strongest(rs.drop_last());
        let last = record_state(rs.last());
        if pr_rank(last) >= pr_rank(best) {
            last
        } else {
            best
        }
    }
}

fn classify_record(r: &PrRecord) -> (s: PrState)
    ensures
        s == record_state(*r),
{
    if r.merged_at_set {
        return PrState::Merged;
    }
    match &r.state {
        Some(st) => {
            if crate::text::str_eq(st.as_str(), "OPEN") {
                PrState::Open
            } else {
                PrState::ClosedUnmerged
            }
        },
        None => PrState::ClosedUnmerged,
    }
}

fn rank(s: PrState) -> (r: u8)
    ensures
        r == pr_rank(s),
{
    match s {
        PrState::Open => 3,
        PrState::Merged => 2,
        PrState::ClosedUnmerged => 1,
        PrState::NoPr => 0,
    }
}

/// A record of an open pull request: no merge time, state `OPEN`.
pub open spec fn is_open_record(r: PrRecord) -> bool {
    !r.merged_at_set && opt_string_view(r.state) == Some("OPEN"@)
}

/// Among a branch's pull-request records an open one wins, else a merged
/// one (one with a merge time), else the branch is closed unmerged when it
/// has any record at all, and has no pull request when it has none.
pub proof fn law_open_pr_wins(rs: Seq<PrRecord>)
    ensures
        (exists|i: int| 0 <= i < rs.len() && #[trigger] is_open_record(rs[i]))
            ==> spec_strongest(rs) == PrState::Open,
        !(exists|i: int| 0 <= i < rs.len() && #[trigger] is_open_record(rs[i])) && (exists|i: int|
            0 <= i < rs.len() && (#[trigger] rs[i]).merged_at_set) ==> spec_strongest(rs)
            == PrState::Merged,
        !(exists|i: int| 0 <= i < rs.len() && #[trigger] is_open_record(rs[i])) && !(exists|i: int|
            0 <= i < rs.len() && (#[trigger] rs[i]).merged_at_set) && rs.len() > 0
            ==> spec_strongest(rs) == PrState::ClosedUnmerged,
        rs.len() == 0 ==> spec_strongest(rs) == PrState::NoPr,
    decreases rs.len(),
{
    if rs.len() > 0 {
        let d = rs.drop_last();
        law_open_pr_wins(d);
        let last = rs.last();
        assert(rs[rs.len() - 1] == last);
        assert forall|i: int| 0 <= i < d.len() implies d[i] == rs[i] by {}
        if exists|i: int| 0 <= i < rs.len() && #[trigger] is_open_record(rs[i]) {
            let i = choose|i: int| 0 <= i < rs.len() && #[trigger] is_open_record(rs[i]);
            if i < d.len() {
                assert(is_open_record(d[i]));
            }
        }
        if exists|i: int| 0 <= i < rs.len() && (#[trigger] rs[i]).merged_at_set {
            let i = choose|i: int| 0 <= i < rs.len() && (#[trigger] rs[i]).merged_at_set;
            if i < d.len() {
                assert(d[i].merged_at_set);
            }
        }
        if exists|i: int| 0 <= i < d.len() && #[trigger] is_open_record(d[i]) {
            let i = choose|i: int| 0 <= i < d.len() && #[trigger] is_open_record(d[i]);
            assert(is_open_record(rs[i]));
        }
        if exists|i: int| 0 <= i < d.len() && (#[trigger] d[i]).merged_at_set {
            let i = choose|i: int| 0 <= i < d.len() && (#[trigger] d[i]).merged_at_set;
            assert(rs[i].merged_at_set);
        }
        assert(record_state(last) == PrState::Open <==> is_open_record(last));
    }
}

/// The state of a branch's pull requests: a branch can carry several (a
/// closed attempt, then a reopened one), and an open one wins, else a merged
/// one, else it is abandoned; no pull request at all is `NoPr`.
pub fn strongest_pr_state(records: &Vec<PrRecord>) -> (r: PrState)
    ensures
        r == spec_strongest(records@),
        (exists|i: int| 0 <= i < records@.len() && #[trigger] is_open_record(records@[i])) ==> r
            == PrState::Open,
        !(exists|i: int| 0 <= i < records@.len() && #[trigger] is_open_record(records@[i])) && (
        exists|i: int| 0 <= i < records@.len() && (#[trigger] records@[i]).merged_at_set) ==> r
            == PrState::Merged,
        !(exists|i: int| 0 <= i < records@.len() && #[trigger] is_open_record(records@[i]))
            && !(exists|i: int| 0 <= i < records@.len() && (#[trigger] records@[i]).merged_at_set)
            && records@.len() > 0 ==> r == PrState::ClosedUnmerged,
        records@.len() == 0 ==> r == PrState::NoPr,
{
    proof {
        law_open_pr_wins(records@);
    }
    let mut best = PrState::NoPr;
    let mut i: usize = 0;
    while i < records.len()
        invariant
            i <= records.len(),
            best == spec_strongest(records@.take(i as int)),
        decreases records.len() - i,
    {
        let s = classify_record(&records[i]);
        assert(records@.take(i + 1).drop_last() =~= records@.take(i as int));
        if rank(s) >= rank(best) {
            best = s;
        }
        i += 1;
    }
    assert(records@.take(i as int) =~= records@);
    best
}

// ---------------------------------------------------------------------------
// git worktree add
// ---------------------------------------------------------------------------

/// The kind of a failed `git worktree add`, from its error output.
pub open spec fn spec_worktree_add_subtype(stderr: Seq<char>) -> Seq<char> {
    if find(stderr, "already exists"@) is Some {
        "already-exists"@
    } else if find(stderr, "cannot find remote ref"@) is Some {
        "origin-unreachable"@
    } else if find(stderr, "Permission denied"@) is Some {
        "permission-denied"@
    } else {
        "unknown"@
    }
}

fn contains(s: &Vec<char>, p: &str) -> (r: bool)
    ensures
        r == (find(s@, p@) is Some),
{
    find_exec(s, &chars_of(p)).is_some()
}

/// The kind of a failed `git worktree add`: `already-exists`,
/// `origin-unreachable`, `permission-denied` or `unknown`.
pub fn worktree_add_subtype(stderr: &str) -> (r: &'static str)
    ensures
        r@ == spec_worktree_add_subtype(stderr@),
{
    let v = chars_of(stderr);
    if contains(&v, "already exists") {
        "already-exists"
    } else if contains(&v, "cannot find remote ref") {
        "origin-unreachable"
    } else if contains(&v, "Permission denied") {
        "permission-denied"
    } else {
        "unknown"
    }
}

// ---------------------------------------------------------------------------
// the default branch
// ---------------------------------------------------------------------------

/// The default branch: the last segment of what `refs/remotes/origin/HEAD`
/// points to when that is not empty, else the branch checked out, else
/// nothing.
pub open spec fn spec_default_branch(remote_head: Option<Seq<char>>, head: Option<Seq<char>>) -> Seq<
    char,
> {
    match remote_head {
        Some(t) if last_segment(t).len() > 0 => last_segment(t),
        _ => match head {
            Some(h) => h,
            None => seq![],
        },
    }
}

/// The default branch, from the target of `refs/remotes/origin/HEAD` and the
/// short name of `HEAD`, when each could be read.
pub fn default_branch_name(remote_head: Option<&str>, head: Option<&str>) -> (r: String)
    ensures
        r@ == spec_default_branch(
            match remote_head {
                Some(t) => Some(t@),
                None => None,
            },
            match head {
                Some(h) => Some(h@),
                None => None,
            },
        ),
{
    if let Some(t) = remote_head {
        let name = last_segment_exec(t);
        if string_chars(&name).len() > 0 {
            return name;
        }
    }
    match head {
        Some(h) => owned(h),
        None => String::new(),
    }
}

// ---------------------------------------------------------------------------
// .gitignore
// ---------------------------------------------------------------------------

/// The new `.gitignore` text that ignores `.worktrees/`, or `None` when the
/// existing text already mentions it. Missing text counts as empty; a
/// missing final newline is added before the new line.
pub open spec fn spec_gitignore_update(existing: Option<Seq<char>>) -> Option<Seq<char>> {
    match existing {
        Some(c) if find(c, ".worktrees/"@) is Some => None,
        _ => {
            let c = match existing {
                Some(c) => c,
                None => seq![],
            };
            let base = if c.len() > 0 && c.last() != '\n' {
                c.push('\n')
            } else {
                c
            };
            Some(base + ".worktrees/\n"@)
        },
    }
}

/// What to write to `.gitignore` so that it ignores `.worktrees/`.
pub fn gitignore_update(existing: Option<&str>) -> (r: Option<String>)
    ensures
        opt_string(r) == spec_gitignore_update(
            match existing {
                Some(c) => Some(c@),
                None => None,
            },
        ),
{
    let mut content: Vec<char> = match existing {
        Some(c) => {
            let v = chars_of(c);
            if contains(&v, ".worktrees/") {
                return None;
            }
            v
        },
        None => Vec::new(),
    };
    if content.len() > 0 && content[content.len() - 1] != '\n' {
        content.push('\n');
    }
    push_str(&mut content, ".worktrees/\n");
    Some(string_from(&content))
}

pub open spec fn opt_string(o: Option<String>) -> Option<Seq<char>> {
    match o {
        Some(s) => Some(s@),
        None => None,
    }
}

/// What `serde_json::from_slice` makes of the bytes `gh pr list --json`
/// printed: its error's text when they are not JSON; `None` when the JSON
/// is not an array; else, for each element, whether `mergedAt` is present
/// and not null, and `state` when it is a string.
pub uninterp spec fn gh_pr_records(stdout: Seq<u8>) -> Result<
    Option<Seq<(bool, Option<Seq<char>>)>>,
    Seq<char>,
>;

/// The plain values of some records.
pub open spec fn records_view(v: Seq<PrRecord>) -> Seq<(bool, Option<Seq<char>>)> {
    v.map_values(|r: PrRecord| (r.merged_at_set, opt_string_view(r.state)))
}

/// The value of what [`parse_pr_records`] returns.
pub open spec fn parsed_view(r: Result<Option<Vec<PrRecord>>, String>) -> Result<
    Option<Seq<(bool, Option<Seq<char>>)>>,
    Seq<char>,
> {
    match r {
        Ok(Some(v)) => Ok(Some(records_view(v@))),
        Ok(None) => Ok(None),
        Err(m) => Err(m@),
    }
}

/// `serde_json::from_slice` of `gh`'s output into a `serde_json::Value`,
/// with each array element's `mergedAt` and `state` picked out.
#[verifier::external_body]
fn parse_pr_records(stdout: &[u8]) -> (r: Result<Option<Vec<PrRecord>>, String>)
    ensures
        parsed_view(r) == gh_pr_records(stdout@),
{
    let value: serde_json::Value = match serde_json::from_slice(stdout) {
        Ok(v) => v,
        Err(e) => return Err(e.to_string()),
    };
    match value.as_array() {
        None => Ok(None),
        Some(items) => Ok(Some(items.iter().map(|pr| PrRecord {
            merged_at_set: matches!(pr.get("mergedAt"), Some(v) if !v.is_null()),
            state: pr.get("state").and_then(|v| v.as_str()).map(str::to_string),
        }).collect())),
    }
}

/// What a `gh pr list --json` run gave: its trimmed stderr when it failed;
/// when its output is not JSON, `failed to parse gh output: ` and the
/// parser's message; when it is not an array, `expected JSON array`; else
/// the records.
pub open spec fn spec_gh_list(success: bool, stdout: Seq<u8>, stderr: Seq<char>) -> Result<
    Seq<(bool, Option<Seq<char>>)>,
    Seq<char>,
> {
    if !success {
        Err(stderr)
    } else {
        match gh_pr_records(stdout) {
            Err(m) => Err("failed to parse gh output: "@ + m),
            Ok(None) => Err("expected JSON array"@),
            Ok(Some(v)) => Ok(v),
        }
    }
}

/// The pull requests a `gh pr list --json` run listed, or why not.
pub fn gh_list(success: bool, stdout: &[u8], stderr: &str) -> (r: Result<Vec<PrRecord>, String>)
    ensures
        match spec_gh_list(success, stdout@, stderr@) {
            Ok(v) => r matches Ok(x) && records_view(x@) == v,
            Err(m) => r matches Err(x) && x@ == m,
        },
{
    if !success {
        return Err(owned(stderr));
    }
    match parse_pr_records(stdout) {
        Err(m) => {
            let mut v: Vec<char> = Vec::new();
            push_str(&mut v, "failed to parse gh output: ");
            push_str(&mut v, m.as_str());
            Err(string_from(&v))
        },
        Ok(None) => Err(owned("expected JSON array")),
        Ok(Some(records)) => Ok(records),
    }
}

/// The strongest state among pull-request records given as plain values.
pub open spec fn strongest_of(s: Seq<(bool, Option<Seq<char>>)>) -> PrState
    decreases s.len(),
{
    if s.len() == 0 {
        PrState::NoPr
    } else {
        let best = strongest_of(s.drop_last());
        let last = spec_classify_pr(s.last().0, s.last().1);
        if pr_rank(last) >= pr_rank(best) {
            last
        } else {
            best
        }
    }
}

proof fn lemma_strongest_of(v: Seq<PrRecord>)
    ensures
        spec_strongest(v) == strongest_of(records_view(v)),
    decreases v.len(),
{
    if v.len() > 0 {
        lemma_strongest_of(v.drop_last());
        assert(records_view(v).drop_last() =~= records_view(v.drop_last()));
    }
}

/// The state of the pull requests of a branch from a `gh pr list --json
/// state,mergedAt` run: a failed run, or output that is not a JSON array,
/// is a failed `gh pr list`; else the strongest of the listed states.
pub fn pr_state_from_gh(success: bool, stdout: &[u8], stderr: &str) -> (r: Result<PrState, GitError>)
    ensures
        match spec_gh_list(success, stdout@, stderr@) {
            Ok(v) => r == Ok::<PrState, GitError>(strongest_of(v)),
            Err(m) => r matches Err(e) && e@ == (GitErrorView::CommandFailed {
                command: "gh pr list"@,
                message: m,
            }),
        },
{
    match gh_list(success, stdout, stderr) {
        Ok(records) => {
            proof {
                lemma_strongest_of(records@);
            }
            Ok(strongest_pr_state(&records))
        },
        Err(m) => Err(GitError::CommandFailed { command: owned("gh pr list"), message: m }),
    }
}

/// What `gh pr list --state merged` says of a branch: a failed run, or
/// output that is not JSON, is reported as the check's note; a listed pull
/// request means merged; an empty list, or JSON that is not a list, means
/// not merged.
pub open spec fn spec_merged_on_github(success: bool, stdout: Seq<u8>, stderr: Seq<char>) -> Result<
    bool,
    Seq<char>,
> {
    if !success {
        Err(stderr)
    } else {
        match gh_pr_records(stdout) {
            Err(m) => Err("failed to parse gh output: "@ + m),
            Ok(None) => Ok(false),
            Ok(Some(v)) => Ok(v.len() > 0),
        }
    }
}

/// Whether `gh pr list --state merged` found the branch merged.
pub fn merge_check_from_gh(success: bool, stdout: &[u8], stderr: &str) -> (r: MergeCheck)
    ensures
        match spec_merged_on_github(success, stdout@, stderr@) {
            Ok(true) => r is Merged,
            Ok(false) => r matches MergeCheck::NotMerged { verification_error: None },
            Err(m) => r matches MergeCheck::NotMerged { verification_error: Some(x) } && x@ == m,
        },
{
    if !success {
        return MergeCheck::NotMerged { verification_error: Some(owned(stderr)) };
    }
    match parse_pr_records(stdout) {
        Err(m) => {
            let mut v: Vec<char> = Vec::new();
            push_str(&mut v, "failed to parse gh output: ");
            push_str(&mut v, m.as_str());
            MergeCheck::NotMerged { verification_error: Some(string_from(&v)) }
        },
        Ok(None) => MergeCheck::NotMerged { verification_error: None },
        Ok(Some(records)) => {
            if records.len() > 0 {
                MergeCheck::Merged
            } else {
                MergeCheck::NotMerged { verification_error: None }
            }
        },
    }
}

/// Whether a branch is merged into the default branch: its tip reachable
/// from `origin/<main>` (or equal to it) means merged; otherwise GitHub's
/// answer decides (squash and rebase merges leave the tip unreachable); a
/// failed ancestry check is a merge-check error.
pub fn merge_check_decision(ancestry: Result<bool, String>, github: Option<MergeCheck>) -> (r: Result<
    MergeCheck,
    GitError,
>)
    requires
        ancestry == Ok::<bool, String>(false) ==> github is Some,
    ensures
        ancestry == Ok::<bool, String>(true) ==> r matches Ok(MergeCheck::Merged),
        ancestry == Ok::<bool, String>(false) ==> r == Ok::<MergeCheck, GitError>(github->0),
        ancestry matches Err(m) ==> (r matches Err(e) && e@ == (GitErrorView::MergeCheck {
            message: m@,
        })),
{
    match ancestry {
        Ok(true) => Ok(MergeCheck::Merged),
        Ok(false) => match github {
            Some(g) => Ok(g),
            None => vstd::pervasive::unreached(),
        },
        Err(m) => Err(GitError::MergeCheck { message: m }),
    }
}

// ---------------------------------------------------------------------------
// listing .heist/
// ---------------------------------------------------------------------------

/// Slugs in the order of their text (by code point).
pub open spec fn sorted_texts(v: Seq<SlugValue>) -> bool {
    forall|i: int, j: int|
        0 <= i < j < v.len() ==> !text_less(#[trigger] v[j]@, #[trigger] v[i]@)
}

/// `s` is one of `names`.
pub open spec fn named_in(names: Seq<String>, s: Seq<char>) -> bool {
    exists|k: int| 0 <= k < names.len() && (#[trigger] names[k])@ == s
}

/// `s` is the text of one of `v`.
pub open spec fn listed_in(v: Seq<SlugValue>, s: Seq<char>) -> bool {
    exists|a: int| 0 <= a < v.len() && (#[trigger] v[a])@ == s
}

/// The directory names under `.heist/` that are valid slugs, sorted.
pub fn sorted_slugs(names: &Vec<String>) -> (r: Vec<SlugValue>)
    ensures
        sorted_texts(r@),
        forall|k: int|
            0 <= k < names@.len() && is_valid_slug((#[trigger] names@[k])@) ==> listed_in(
                r@,
                names@[k]@,
            ),
        forall|i: int| 0 <= i < r@.len() ==> is_valid_slug((#[trigger] r@[i])@),
        forall|i: int| 0 <= i < r@.len() ==> named_in(names@, (#[trigger] r@[i])@),
        r@.len() <= names@.len(),
{
    let mut out: Vec<SlugValue> = Vec::new();
    let mut i: usize = 0;
    while i < names.len()
        invariant
            i <= names.len(),
            out@.len() <= i,
            sorted_texts(out@),
            forall|a: int| 0 <= a < out@.len() ==> is_valid_slug((#[trigger] out@[a])@),
            forall|a: int|
                0 <= a < out@.len() ==> exists|k: int|
                    0 <= k < i && (#[trigger] names@[k])@ == (#[trigger] out@[a])@,
            forall|k: int|
                0 <= k < i && is_valid_slug((#[trigger] names@[k])@) ==> listed_in(
                    out@,
                    names@[k]@,
                ),
        decreases names.len() - i,
    {
        match SlugValue::parse(names[i].as_str()) {
            Ok(slug) => {
                let key = string_chars(&slug.to_owned_string());
                let mut j: usize = 0;
                while j < out.len() && !text_less_exec(
                    &key,
                    &string_chars(&out[j].to_owned_string()),
                )
                    invariant
                        j <= out@.len(),
                        key@ == slug@,
                        forall|a: int| 0 <= a < j ==> !text_less(slug@, (#[trigger] out@[a])@),
                    decreases out.len() - j,
                {
                    j += 1;
                }
                let ghost before = out@;
                let ghost sv = slug@;
                out.insert(j, slug);
                proof {
                    assert(out@[j as int]@ == sv);
                    assert forall|a: int, b: int| 0 <= a < b < out@.len() implies !text_less(
                        #[trigger] out@[b]@,
                        #[trigger] out@[a]@,
                    ) by {
                        if b < j {
                            assert(out@[a] == before[a] && out@[b] == before[b]);
                        } else if b == j {
                            assert(out@[a] == before[a]);
                        } else if a == j {
                            assert(out@[b] == before[b - 1]);
                            assert(text_less(sv, before[j as int]@));
                            if j < b - 1 {
                                assert(!text_less(before[b - 1]@, before[j as int]@));
                            }
                            if text_less(before[b - 1]@, sv) {
                                crate::text::lemma_text_less_transitive(
                                    before[b - 1]@,
                                    sv,
                                    before[j as int]@,
                                );
                                if j == b - 1 {
                                    crate::text::lemma_text_less_irreflexive(before[j as int]@);
                                }
                            }
                        } else if a < j {
                            assert(out@[a] == before[a] && out@[b] == before[b - 1]);
                        } else {
                            assert(out@[a] == before[a - 1] && out@[b] == before[b - 1]);
                        }
                    }
                    assert forall|a: int| 0 <= a < out@.len() implies is_valid_slug(
                        (#[trigger] out@[a])@,
                    ) by {
                        if a < j {
                            assert(out@[a] == before[a]);
                        } else if a > j {
                            assert(out@[a] == before[a - 1]);
                        }
                    }
                    assert forall|a: int| 0 <= a < out@.len() implies exists|k: int|
                        0 <= k < i + 1 && (#[trigger] names@[k])@ == (#[trigger] out@[a])@ by {
                        if a < j {
                            assert(out@[a] == before[a]);
                        } else if a > j {
                            assert(out@[a] == before[a - 1]);
                        } else {
                            assert(names@[i as int]@ == out@[a]@);
                        }
                    }
                    assert forall|k: int|
                        0 <= k < i + 1 && is_valid_slug(
                            (#[trigger] names@[k])@,
                        ) implies listed_in(out@, names@[k]@) by {
                        if k == i {
                            assert(out@[j as int]@ == names@[k]@);
                        } else {
                            let a = choose|a: int|
                                0 <= a < before.len() && (#[trigger] before[a])@ == names@[k]@;
                            if a < j {
                                assert(out@[a] == before[a]);
                            } else {
                                assert(out@[a + 1] == before[a]);
                            }
                        }
                    }
                }
            },
            Err(_) => {},
        }
        i += 1;
    }
    assert forall|a: int| 0 <= a < out@.len() implies named_in(names@, (#[trigger] out@[a])@) by {
        let k = choose|k: int| 0 <= k < i && (#[trigger] names@[k])@ == out@[a]@;
        assert(names@[k]@ == out@[a]@);
    }
    out
}

} // verus!
