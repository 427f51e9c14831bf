//! `validation.md` files: their sections, how the files along a path's
//! directory chain merge, and how the result is rendered.
use crate::domain::score::parser::{join_lines, join_lines_exec, lines_view};
use crate::text::{
    chars_of, lines, lines_exec, push_all, push_str, starts_with, starts_with_str, string_chars,
    string_from, trim, trim_exec, trim_start, trim_start_exec, ws_end, leading_ws, decimal,
    decimal_exec, chars_eq,
};
use crate::ports::validation_source::{read_result_view, reads_view, ValidationSource};
use vstd::prelude::*;

verus! {

// ---------------------------------------------------------------------------
// sections: a map from heading to body that keeps its first-insertion order
// ---------------------------------------------------------------------------

/// Index of the entry with key `k` (searching from the back), if any.
pub open spec fn key_index(s: Seq<(Seq<char>, Seq<char>)>, k: Seq<char>) -> Option<int>
    decreases s.len(),
{
    if s.len() == 0 {
        None
    } else if s.last().0 == k {
        Some(s.len() - 1)
    } else {
        key_index(s.drop_last(), k)
    }
}

/// The body stored under `k`.
pub open spec fn lookup(s: Seq<(Seq<char>, Seq<char>)>, k: Seq<char>) -> Option<Seq<char>> {
    match key_index(s, k) {
        Some(j) => Some(s[j].1),
        None => None,
    }
}

/// Stores `v` under `k`: in place when `k` is already present, else at the
/// end.
pub open spec fn insert_entry(s: Seq<(Seq<char>, Seq<char>)>, k: Seq<char>, v: Seq<char>) -> Seq<
    (Seq<char>, Seq<char>),
> {
    match key_index(s, k) {
        Some(j) => s.update(j, (k, v)),
        None => s.push((k, v)),
    }
}

pub proof fn lemma_key_index(s: Seq<(Seq<char>, Seq<char>)>, k: Seq<char>)
    ensures
        key_index(s, k) matches Some(j) ==> 0 <= j < s.len() && s[j].0 == k,
        key_index(s, k) is None ==> forall|i: int| 0 <= i < s.len() ==> (#[trigger] s[i]).0 != k,
    decreases s.len(),
{
    if s.len() > 0 && s.last().0 != k {
        lemma_key_index(s.drop_last(), k);
        assert forall|i: int| 0 <= i < s.len() - 1 implies (#[trigger] s[i]) == s.drop_last()[i] by {}
    }
}

/// Two entry sequences with the same keys at the same places find every key
/// at the same place.
proof fn lemma_key_index_same_keys(
    s: Seq<(Seq<char>, Seq<char>)>,
    t: Seq<(Seq<char>, Seq<char>)>,
    k: Seq<char>,
)
    requires
        s.len() == t.len(),
        forall|i: int| 0 <= i < s.len() ==> (#[trigger] s[i]).0 == t[i].0,
    ensures
        key_index(s, k) == key_index(t, k),
    decreases s.len(),
{
    if s.len() > 0 {
        assert(s.last().0 == t.last().0);
        assert forall|i: int| 0 <= i < s.len() - 1 implies (#[trigger] s.drop_last()[i]).0
            == t.drop_last()[i].0 by {
            assert(s[i].0 == t[i].0);
        }
        lemma_key_index_same_keys(s.drop_last(), t.drop_last(), k);
    }
}

/// After storing `v` under `k`, `k` reads `v` and every other key reads what
/// it read before.
pub proof fn lemma_lookup_insert(
    s: Seq<(Seq<char>, Seq<char>)>,
    k: Seq<char>,
    v: Seq<char>,
    k2: Seq<char>,
)
    ensures
        lookup(insert_entry(s, k, v), k2) == if k2 == k {
            Some(v)
        } else {
            lookup(s, k2)
        },
{
    lemma_key_index(s, k);
    lemma_key_index(s, k2);
    match key_index(s, k) {
        Some(j) => {
            let t = s.update(j, (k, v));
            assert forall|i: int| 0 <= i < s.len() implies (#[trigger] s[i]).0 == t[i].0 by {}
            lemma_key_index_same_keys(s, t, k2);
            if k2 != k {
                match key_index(s, k2) {
                    Some(i) => {
                        assert(i != j);
                        assert(t[i] == s[i]);
                    },
                    None => {},
                }
            }
        },
        None => {
            let t = s.push((k, v));
            assert(t.drop_last() =~= s);
            if k2 != k {
                match key_index(s, k2) {
                    Some(i) => {
                        assert(t[i] == s[i]);
                    },
                    None => {},
                }
            }
        },
    }
}

/// No heading occurs twice.
pub open spec fn keys_unique(s: Seq<(Seq<char>, Seq<char>)>) -> bool {
    forall|i: int, j: int| 0 <= i < j < s.len() ==> (#[trigger] s[i]).0 != (#[trigger] s[j]).0
}

/// Storing a body keeps every heading unique.
pub proof fn law_insert_keeps_keys_unique(s: Seq<(Seq<char>, Seq<char>)>, k: Seq<char>, v: Seq<char>)
    requires
        keys_unique(s),
    ensures
        keys_unique(insert_entry(s, k, v)),
{
    lemma_key_index(s, k);
    let t = insert_entry(s, k, v);
    match key_index(s, k) {
        Some(j) => {
            assert forall|a: int, b: int| 0 <= a < b < t.len() implies (#[trigger] t[a]).0
                != (#[trigger] t[b]).0 by {
                assert(t[a].0 == s[a].0 && t[b].0 == s[b].0);
            }
        },
        None => {
            assert forall|a: int, b: int| 0 <= a < b < t.len() implies (#[trigger] t[a]).0
                != (#[trigger] t[b]).0 by {
                if b == s.len() {
                    assert(t[a] == s[a]);
                } else {
                    assert(t[a] == s[a] && t[b] == s[b]);
                }
            }
        },
    }
}

/// The sections of a `validation.md` (or of several merged), heading to
/// body. Iteration follows the order in which headings were first stored.
#[derive(Debug)]
pub struct Sections {
    entries: Vec<(String, String)>,
}

pub open spec fn entries_view(e: Seq<(String, String)>) -> Seq<(Seq<char>, Seq<char>)> {
    e.map_values(|p: (String, String)| (p.0@, p.1@))
}

impl View for Sections {
    type V = Seq<(Seq<char>, Seq<char>)>;

    closed spec fn view(&self) -> Seq<(Seq<char>, Seq<char>)> {
        entries_view(self.entries@)
    }
}

fn copy(s: &String) -> (r: String)
    ensures
        r@ == s@,
{
    string_from(&string_chars(s))
}

impl Sections {
    /// No sections.
    pub fn new() -> (r: Sections)
        ensures
            r@ == Seq::<(Seq<char>, Seq<char>)>::empty(),
            keys_unique(r@),
    {
        let r = Sections { entries: Vec::new() };
        assert(r@ =~= Seq::<(Seq<char>, Seq<char>)>::empty());
        r
    }

    fn index_of(&self, key: &Vec<char>) -> (r: Option<usize>)
        ensures
            r matches Some(j) ==> key_index(self@, key@) == Some(j as int) && j < self@.len()
                && j < self.entries.len(),
            r is None ==> key_index(self@, key@) is None,
    {
        proof {
            lemma_key_index(self@, key@);
        }
        let mut i: usize = self.entries.len();
        assert(self@.take(i as int) =~= self@);
        while i > 0
            invariant
                i <= self.entries.len(),
                key_index(self@, key@) == key_index(self@.take(i as int), key@),
            decreases i,
        {
            let k = string_chars(&self.entries[i - 1].0);
            let ghost t = self@.take(i as int);
            assert(t.last() == self@[i - 1]);
            assert(self@[i - 1].0 == self.entries@[i - 1].0@);
            if chars_eq(&k, key) {
                return Some(i - 1);
            }
            assert(t.drop_last() =~= self@.take(i - 1));
            i -= 1;
        }
        None
    }

    /// Stores `value` under `key`, replacing what was there.
    pub fn insert(&mut self, key: String, value: String)
        ensures
            final(self)@ == insert_entry(old(self)@, key@, value@),
            keys_unique(old(self)@) ==> keys_unique(final(self)@),
    {
        proof {
            if keys_unique(self@) {
                law_insert_keeps_keys_unique(self@, key@, value@);
            }
        }
        let kv = string_chars(&key);
        match self.index_of(&kv) {
            Some(j) => {
                self.entries.set(j, (key, value));
            },
            None => {
                self.entries.push((key, value));
            },
        }
        assert(self@ =~= insert_entry(old(self)@, key@, value@));
    }

    /// The body stored under `key`.
    pub fn get(&self, key: &str) -> (r: Option<String>)
        ensures
            r matches Some(b) ==> lookup(self@, key@) == Some(b@),
            r is None ==> lookup(self@, key@) is None,
    {
        let kv = chars_of(key);
        match self.index_of(&kv) {
            Some(j) => {
                assert(self@[j as int].1 == self.entries@[j as int].1@);
                Some(copy(&self.entries[j].1))
            },
            None => None,
        }
    }

    /// Whether a body is stored under `key`.
    pub fn contains_key(&self, key: &str) -> (r: bool)
        ensures
            r == lookup(self@, key@) is Some,
    {
        let kv = chars_of(key);
        self.index_of(&kv).is_some()
    }

    /// The number of sections.
    pub fn len(&self) -> (r: usize)
        ensures
            r == self@.len(),
    {
        self.entries.len()
    }

    /// The headings, in iteration order.
    pub fn keys(&self) -> (r: Vec<String>)
        ensures
            r@.len() == self@.len(),
            forall|i: int| 0 <= i < r@.len() ==> (#[trigger] r@[i])@ == self@[i].0,
    {
        let mut out: Vec<String> = Vec::new();
        let mut i: usize = 0;
        while i < self.entries.len()
            invariant
                i <= self.entries.len(),
                out@.len() == i,
                forall|k: int| 0 <= k < i ==> (#[trigger] out@[k])@ == self@[k].0,
            decreases self.entries.len() - i,
        {
            out.push(copy(&self.entries[i].0));
            i += 1;
        }
        out
    }

    /// The (heading, body) pairs, in iteration order.
    pub fn entries(&self) -> (r: Vec<(String, String)>)
        ensures
            entries_view(r@) == self@,
    {
        let mut out: Vec<(String, String)> = Vec::new();
        let mut i: usize = 0;
        while i < self.entries.len()
            invariant
                i <= self.entries.len(),
                entries_view(out@) == self@.take(i as int),
            decreases self.entries.len() - i,
        {
            let e = &self.entries[i];
            assert(self@[i as int] == (self.entries@[i as int].0@, self.entries@[i as int].1@));
            let a = copy(&e.0);
            let b = copy(&e.1);
            let ghost before = out@;
            out.push((a, b));
            assert(out@ == before.push((a, b)));
            assert(entries_view(out@) =~= entries_view(before).push((a@, b@)));
            assert(entries_view(out@) =~= self@.take(i + 1));
            i += 1;
        }
        assert(self@.take(i as int) =~= self@);
        out
    }

    /// A copy.
    pub fn duplicate(&self) -> (r: Sections)
        ensures
            r@ == self@,
    {
        Sections { entries: self.entries() }
    }
}

// ---------------------------------------------------------------------------
// errors
// ---------------------------------------------------------------------------

/// Why a `validation.md` could not be parsed, or a merged chain lacks a
/// required section.
#[derive(Debug)]
pub struct ParseError {
    message: String,
}

impl View for ParseError {
    type V = Seq<char>;

    closed spec fn view(&self) -> Seq<char> {
        self.message@
    }
}

impl ParseError {
    /// An error with the given message.
    pub fn new(message: &str) -> (r: ParseError)
        ensures
            r@ == message@,
    {
        ParseError { message: crate::text::owned(message) }
    }

    fn from_chars(message: &Vec<char>) -> (r: ParseError)
        ensures
            r@ == message@,
    {
        ParseError { message: string_from(message) }
    }

    /// The error's message.
    pub fn message(&self) -> (r: String)
        ensures
            r@ == self@,
    {
        copy(&self.message)
    }
}

/// Why validation could not be resolved for a path. Paths are held as text.
#[derive(Debug)]
pub enum ValidationError {
    PathNotAbsolute { path: String },
    PathOutsideProject { requested: String, project_root: String },
    Other(String),
}

/// The user-facing message of a validation error.
pub open spec fn validation_error_message(e: &ValidationError) -> Seq<char> {
    match e {
        ValidationError::PathNotAbsolute { path } => "path "@ + path@ + " must be absolute"@,
        ValidationError::PathOutsideProject { requested, project_root } => "path "@ + requested@
            + " is outside the project root "@ + project_root@,
        ValidationError::Other(m) => m@,
    }
}

impl ValidationError {
    /// The error's message, as it is shown to users.
    pub fn message(&self) -> (r: String)
        ensures
            r@ == validation_error_message(self),
    {
        let mut m: Vec<char> = Vec::new();
        match self {
            ValidationError::PathNotAbsolute { path } => {
                push_str(&mut m, "path ");
                push_all(&mut m, &string_chars(path));
                push_str(&mut m, " must be absolute");
            },
            ValidationError::PathOutsideProject { requested, project_root } => {
                push_str(&mut m, "path ");
                push_all(&mut m, &string_chars(requested));
                push_str(&mut m, " is outside the project root ");
                push_all(&mut m, &string_chars(project_root));
            },
            ValidationError::Other(e) => {
                push_all(&mut m, &string_chars(e));
            },
        }
        proof {
            assert(m@ =~= validation_error_message(self));
        }
        string_from(&m)
    }

    /// A parse failure, as a validation failure carrying its message.
    pub fn from_parse(e: ParseError) -> (r: ValidationError)
        ensures
            r matches ValidationError::Other(m) && m@ == e@,
    {
        ValidationError::Other(e.message)
    }
}

// ---------------------------------------------------------------------------
// parsing one file
// ---------------------------------------------------------------------------

/// `str::to_lowercase` of `s`.
pub uninterp spec fn lowercase(s: Seq<char>) -> Seq<char>;

/// `str::to_lowercase`.
#[verifier::external_body]
fn to_lowercase(s: &Vec<char>) -> (r: Vec<char>)
    ensures
        r@ == lowercase(s@),
{
    let t: String = s.iter().collect();
    t.to_lowercase().chars().collect()
}

pub open spec fn is_heading(l: Seq<char>) -> bool {
    starts_with(l, "## "@)
}

/// A line that starts like a heading but lacks the space after `##`.
pub open spec fn is_malformed(l: Seq<char>) -> bool {
    starts_with(l, "##"@) && !starts_with(l, "## "@)
}

/// The first malformed line at or after `i`.
pub open spec fn first_malformed(ls: Seq<Seq<char>>, i: int) -> Option<int>
    decreases ls.len() - i,
{
    if i < 0 || i >= ls.len() {
        None
    } else if is_malformed(ls[i]) {
        Some(i)
    } else {
        first_malformed(ls, i + 1)
    }
}

/// The first heading at or after `i`, or the number of lines.
pub open spec fn section_end(ls: Seq<Seq<char>>, i: int) -> int
    decreases ls.len() - i,
{
    if i < 0 || i >= ls.len() {
        ls.len() as int
    } else if is_heading(ls[i]) {
        i
    } else {
        section_end(ls, i + 1)
    }
}

pub proof fn lemma_section_end(ls: Seq<Seq<char>>, i: int)
    requires
        0 <= i <= ls.len(),
    ensures
        i <= section_end(ls, i) <= ls.len(),
        forall|j: int| i <= j < section_end(ls, i) ==> !is_heading(#[trigger] ls[j]),
        section_end(ls, i) < ls.len() ==> is_heading(ls[section_end(ls, i)]),
    decreases ls.len() - i,
{
    if i < ls.len() && !is_heading(ls[i]) {
        lemma_section_end(ls, i + 1);
    }
}

/// The canonical section names, in rendering order.
pub open spec fn section_names() -> Seq<Seq<char>> {
    seq!["Build"@, "Lint"@, "Test"@, "Docs"@, "PR conventions"@, "Notes"@]
}

/// The sections every merged chain must supply.
pub open spec fn required_names() -> Seq<Seq<char>> {
    seq!["Build"@, "Lint"@, "Test"@]
}

fn section_name(i: usize) -> (r: &'static str)
    requires
        i < 6,
    ensures
        r@ == section_names()[i as int],
{
    match i {
        0 => "Build",
        1 => "Lint",
        2 => "Test",
        3 => "Docs",
        4 => "PR conventions",
        _ => "Notes",
    }
}

/// The first canonical name at or after `i` whose lowercase is `lower`.
pub open spec fn canonical_match(lower: Seq<char>, i: int) -> Option<Seq<char>>
    decreases 6 - i,
{
    if i < 0 || i >= 6 {
        None
    } else if lowercase(section_names()[i]) == lower {
        Some(section_names()[i])
    } else {
        canonical_match(lower, i + 1)
    }
}

/// A heading, in its canonical casing when it names a canonical section
/// case-insensitively.
pub open spec fn normalize_heading(raw: Seq<char>) -> Seq<char> {
    match canonical_match(lowercase(raw), 0) {
        Some(c) => c,
        None => raw,
    }
}

/// The heading of a `## ` line.
pub open spec fn heading_text(l: Seq<char>) -> Seq<char> {
    normalize_heading(trim(l.skip(3)))
}

/// The number of bytes of `c` in UTF-8.
pub open spec fn char_utf8_len(c: char) -> nat {
    if (c as u32) < 0x80 {
        1
    } else if (c as u32) < 0x800 {
        2
    } else if (c as u32) < 0x10000 {
        3
    } else {
        4
    }
}

/// The number of bytes of `s` in UTF-8.
pub open spec fn utf8_len(s: Seq<char>) -> nat
    decreases s.len(),
{
    if s.len() == 0 {
        0
    } else {
        utf8_len(s.drop_last()) + char_utf8_len(s.last())
    }
}

pub open spec fn spaces(n: nat) -> Seq<char> {
    Seq::new(n, |i: int| ' ')
}

/// A body line with its bullet marker normalized: a line whose first
/// non-whitespace character is `-` or `*` becomes as many spaces as its
/// indentation has bytes, then the trimmed text with a leading `*` made `-`.
pub open spec fn normalize_body_line(l: Seq<char>) -> Seq<char> {
    let t = trim_start(l);
    if t.len() > 0 && (t[0] == '-' || t[0] == '*') {
        spaces(utf8_len(l.take(ws_end(l, 0)))) + if t[0] == '*' {
            seq!['-'] + t.skip(1)
        } else {
            t
        }
    } else {
        l
    }
}

/// The body of the section whose lines are `ls[a..b]`.
pub open spec fn section_body(ls: Seq<Seq<char>>, a: int, b: int) -> Seq<char> {
    trim(join_lines(Seq::new((b - a) as nat, |k: int| normalize_body_line(ls[a + k]))))
}

/// The sections of the lines from `i` on, stored into `acc`.
pub open spec fn collect_sections(
    ls: Seq<Seq<char>>,
    i: int,
    acc: Seq<(Seq<char>, Seq<char>)>,
) -> Seq<(Seq<char>, Seq<char>)>
    decreases ls.len() - i,
{
    if i < 0 || i >= ls.len() {
        acc
    } else if is_heading(ls[i]) {
        let e = section_end(ls, i + 1);
        proof {
            lemma_section_end(ls, i + 1);
        }
        collect_sections(ls, e, insert_entry(acc, heading_text(ls[i]), section_body(ls, i + 1, e)))
    } else {
        collect_sections(ls, i + 1, acc)
    }
}

/// Collecting sections keeps every heading unique.
pub proof fn lemma_collect_unique(ls: Seq<Seq<char>>, i: int, acc: Seq<(Seq<char>, Seq<char>)>)
    requires
        keys_unique(acc),
    ensures
        keys_unique(collect_sections(ls, i, acc)),
    decreases ls.len() - i,
{
    if 0 <= i < ls.len() {
        if is_heading(ls[i]) {
            let e = section_end(ls, i + 1);
            lemma_section_end(ls, i + 1);
            law_insert_keeps_keys_unique(acc, heading_text(ls[i]), section_body(ls, i + 1, e));
            lemma_collect_unique(
                ls,
                e,
                insert_entry(acc, heading_text(ls[i]), section_body(ls, i + 1, e)),
            );
        } else {
            lemma_collect_unique(ls, i + 1, acc);
        }
    }
}

/// A parsed `validation.md` has every heading once.
pub proof fn law_parse_keys_unique(text: Seq<char>)
    ensures
        spec_parse_sections(text) matches Ok(m) ==> keys_unique(m),
{
    lemma_collect_unique(lines(text), 0, seq![]);
}

pub open spec fn malformed_message(line_no: nat, line: Seq<char>) -> Seq<char> {
    "malformed heading on line "@ + decimal(line_no) + ": "@ + line
}

/// What parsing `text` gives: its sections, or the message about its first
/// malformed heading.
pub open spec fn spec_parse_sections(text: Seq<char>) -> Result<
    Seq<(Seq<char>, Seq<char>)>,
    Seq<char>,
> {
    let ls = lines(text);
    match first_malformed(ls, 0) {
        Some(k) => Err(malformed_message((k + 1) as nat, ls[k])),
        None => Ok(collect_sections(ls, 0, seq![])),
    }
}

fn char_utf8_len_exec(c: char) -> (r: usize)
    ensures
        r == char_utf8_len(c),
{
    let n = c as u32;
    if n < 0x80 {
        1
    } else if n < 0x800 {
        2
    } else if n < 0x10000 {
        3
    } else {
        4
    }
}

fn normalize_body_line_exec(l: &Vec<char>) -> (r: Vec<char>)
    ensures
        r@ == normalize_body_line(l@),
{
    let t = trim_start_exec(l);
    if t.len() > 0 && (t[0] == '-' || t[0] == '*') {
        let k = leading_ws(l);
        let mut out: Vec<char> = Vec::new();
        let mut i: usize = 0;
        let mut bytes: u128 = 0;
        while i < k
            invariant
                k <= l.len(),
                i <= k,
                bytes == utf8_len(l@.take(i as int)),
                bytes <= 4 * i,
                out@ == Seq::<char>::empty(),
            decreases k - i,
        {
            assert(l@.take(i + 1).drop_last() =~= l@.take(i as int));
            bytes = bytes + char_utf8_len_exec(l[i]) as u128;
            i += 1;
        }
        let mut j: u128 = 0;
        while j < bytes
            invariant
                j <= bytes,
                out@ == spaces(j as nat),
            decreases bytes - j,
        {
            out.push(' ');
            assert(out@ =~= spaces((j + 1) as nat));
            j += 1;
        }
        if t[0] == '*' {
            out.push('-');
            let rest = crate::text::slice_of(&t, 1, t.len());
            push_all(&mut out, &rest);
            assert(out@ =~= spaces(bytes as nat) + (seq!['-'] + t@.skip(1)));
        } else {
            push_all(&mut out, &t);
        }
        out
    } else {
        crate::text::slice_of(l, 0, l.len())
    }
}

fn heading_text_exec(l: &Vec<char>) -> (r: String)
    requires
        l@.len() >= 3,
    ensures
        r@ == heading_text(l@),
{
    let rest = crate::text::slice_of(l, 3, l.len());
    assert(rest@ =~= l@.skip(3));
    let raw = trim_exec(&rest);
    let lower = to_lowercase(&raw);
    let mut i: usize = 0;
    while i < 6
        invariant
            i <= 6,
            raw@ == trim(l@.skip(3)),
            lower@ == lowercase(raw@),
            canonical_match(lower@, 0) == canonical_match(lower@, i as int),
        decreases 6 - i,
    {
        let name = section_name(i);
        let name_lower = to_lowercase(&chars_of(name));
        if chars_eq(&name_lower, &lower) {
            return crate::text::owned(name);
        }
        i += 1;
    }
    string_from(&raw)
}

/// The sections of the lines `ls`, malformed headings aside.
pub(crate) fn collect_lines(ls: &Vec<Vec<char>>) -> (r: Sections)
    ensures
        r@ == collect_sections(lines_view(ls@), 0, seq![]),
{
    let ghost lv = lines_view(ls@);
    let mut sections = Sections::new();
    let mut i: usize = 0;
    while i < ls.len()
        invariant
                        lines_view(ls@) == lv,
            i <= ls.len(),
            collect_sections(lv, 0, seq![]) == collect_sections(lv, i as int, sections@),
        decreases ls.len() - i,
    {
        assert(ls@[i as int]@ == lv[i as int]);
        proof {
            reveal_strlit("## ");
        }
        if starts_with_str(&ls[i], "## ") {
            let mut e: usize = i + 1;
            while e < ls.len() && !starts_with_str(&ls[e], "## ")
                invariant
                    lines_view(ls@) == lv,
                    i < e <= ls.len(),
                    section_end(lv, i + 1) == section_end(lv, e as int),
                decreases ls.len() - e,
            {
                assert(ls@[e as int]@ == lv[e as int]);
                e += 1;
            }
            proof {
                if e < ls.len() {
                    assert(ls@[e as int]@ == lv[e as int]);
                }
                lemma_section_end(lv, i + 1);
            }
            let mut normalized: Vec<Vec<char>> = Vec::new();
            let mut j: usize = i + 1;
            while j < e
                invariant
                    lines_view(ls@) == lv,
                    i < j <= e <= ls.len(),
                    normalized@.len() == j - (i + 1),
                    forall|k: int| 0 <= k < normalized@.len() ==> (#[trigger] normalized@[k])@
                        == normalize_body_line(lv[i + 1 + k]),
                decreases e - j,
            {
                assert(ls@[j as int]@ == lv[j as int]);
                normalized.push(normalize_body_line_exec(&ls[j]));
                j += 1;
            }
            let joined = join_lines_exec(&normalized, 0, normalized.len());
            proof {
                assert(lines_view(normalized@).subrange(0, normalized@.len() as int) =~= Seq::new(
                    (e - (i + 1)) as nat,
                    |k: int| normalize_body_line(lv[i + 1 + k]),
                ));
            }
            let body = trim_exec(&joined);
            let heading = heading_text_exec(&ls[i]);
            sections.insert(heading, string_from(&body));
            i = e;
        } else {
            i += 1;
        }
    }
    sections
}

/// The sections of a `validation.md` body.
///
/// Headings and bullet markers are normalized so that cosmetic variance
/// (casing, spacing, `-` or `*`) does not change the result. A line that
/// starts with `##` but not `## ` is refused, with its line number. Which
/// sections are required is checked on the merged chain, not per file.
pub fn parse_sections(text: &str) -> (r: Result<Sections, ParseError>)
    ensures
        spec_parse_sections(text@) matches Ok(s) ==> (r matches Ok(x) && x@ == s),
        spec_parse_sections(text@) matches Err(m) ==> (r matches Err(e) && e@ == m),
        r matches Ok(x) ==> keys_unique(x@),
{
    proof {
        law_parse_keys_unique(text@);
    }
    let v = chars_of(text);
    let ls = lines_exec(&v);
    let ghost lv = lines(text@);
    assert(lines_view(ls@) =~= lv);
    let mut i: usize = 0;
    while i < ls.len()
        invariant
            lv == lines(text@),
            lines_view(ls@) == lv,
            i <= ls.len(),
            first_malformed(lv, 0) == first_malformed(lv, i as int),
        decreases ls.len() - i,
    {
        assert(ls@[i as int]@ == lv[i as int]);
        if starts_with_str(&ls[i], "##") && !starts_with_str(&ls[i], "## ") {
            let mut m: Vec<char> = Vec::new();
            push_str(&mut m, "malformed heading on line ");
            push_all(&mut m, &decimal_exec((i + 1) as u64));
            push_str(&mut m, ": ");
            push_all(&mut m, &ls[i]);
            assert(m@ =~= malformed_message((i + 1) as nat, lv[i as int]));
            assert(first_malformed(lv, i as int) == Some(i as int));
            assert(spec_parse_sections(text@) == Err::<Seq<(Seq<char>, Seq<char>)>, Seq<char>>(
                malformed_message((i + 1) as nat, lv[i as int]),
            ));
            return Err(ParseError::from_chars(&m));
        }
        i += 1;
    }
    let sections = collect_lines(&ls);
    assert(collect_sections(lv, 0, seq![]) == collect_sections(lines_view(ls@), 0, seq![]));
    Ok(sections)
}

// ---------------------------------------------------------------------------
// merging the files of a chain
// ---------------------------------------------------------------------------

pub open spec fn layers_view(v: Seq<Sections>) -> Seq<Seq<(Seq<char>, Seq<char>)>> {
    v.map_values(|s: Sections| s@)
}

/// `acc` with every entry of `layer` stored into it, in order.
pub open spec fn insert_all(
    acc: Seq<(Seq<char>, Seq<char>)>,
    layer: Seq<(Seq<char>, Seq<char>)>,
) -> Seq<(Seq<char>, Seq<char>)>
    decreases layer.len(),
{
    if layer.len() == 0 {
        acc
    } else {
        let rest = insert_all(acc, layer.drop_last());
        insert_entry(rest, layer.last().0, layer.last().1)
    }
}

/// Storing a layer keeps every heading unique.
pub proof fn lemma_insert_all_unique(acc: Seq<(Seq<char>, Seq<char>)>, layer: Seq<(Seq<char>, Seq<char>)>)
    requires
        keys_unique(acc),
    ensures
        keys_unique(insert_all(acc, layer)),
    decreases layer.len(),
{
    if layer.len() > 0 {
        lemma_insert_all_unique(acc, layer.drop_last());
        law_insert_keeps_keys_unique(insert_all(acc, layer.drop_last()), layer.last().0, layer.last().1);
    }
}

/// A merge of layers has every heading once.
pub proof fn law_merge_keys_unique(layers: Seq<Seq<(Seq<char>, Seq<char>)>>)
    ensures
        keys_unique(merge_layers(layers)),
    decreases layers.len(),
{
    if layers.len() > 0 {
        law_merge_keys_unique(layers.drop_last());
        lemma_insert_all_unique(merge_layers(layers.drop_last()), layers.last());
    }
}

/// The layers stored one over the other, from the first (the repository
/// root) to the last (the leaf).
pub open spec fn merge_layers(layers: Seq<Seq<(Seq<char>, Seq<char>)>>) -> Seq<
    (Seq<char>, Seq<char>),
>
    decreases layers.len(),
{
    if layers.len() == 0 {
        seq![]
    } else {
        insert_all(merge_layers(layers.drop_last()), layers.last())
    }
}

/// The body of section `k` in the nearest (last) layer that has it.
pub open spec fn nearest(layers: Seq<Seq<(Seq<char>, Seq<char>)>>, k: Seq<char>) -> Option<
    Seq<char>,
>
    decreases layers.len(),
{
    if layers.len() == 0 {
        None
    } else {
        match lookup(layers.last(), k) {
            Some(v) => Some(v),
            None => nearest(layers.drop_last(), k),
        }
    }
}

proof fn lemma_lookup_insert_all(
    acc: Seq<(Seq<char>, Seq<char>)>,
    layer: Seq<(Seq<char>, Seq<char>)>,
    k: Seq<char>,
)
    ensures
        lookup(insert_all(acc, layer), k) == match lookup(layer, k) {
            Some(v) => Some(v),
            None => lookup(acc, k),
        },
    decreases layer.len(),
{
    if layer.len() > 0 {
        let rest = insert_all(acc, layer.drop_last());
        lemma_lookup_insert(rest, layer.last().0, layer.last().1, k);
        lemma_lookup_insert_all(acc, layer.drop_last(), k);
        if layer.last().0 != k {
            lemma_key_index(layer.drop_last(), k);
            match key_index(layer.drop_last(), k) {
                Some(j) => {
                    assert(layer.drop_last()[j] == layer[j]);
                },
                None => {},
            }
        }
    }
}

/// Merging layers: for every heading, the merged chain holds the body of
/// the nearest layer that has that heading; a leaf's section replaces an
/// ancestor's section whole.
pub proof fn law_nearest_layer_wins(layers: Seq<Seq<(Seq<char>, Seq<char>)>>, k: Seq<char>)
    ensures
        lookup(merge_layers(layers), k) == nearest(layers, k),
    decreases layers.len(),
{
    if layers.len() > 0 {
        lemma_lookup_insert_all(merge_layers(layers.drop_last()), layers.last(), k);
        law_nearest_layer_wins(layers.drop_last(), k);
    }
}

/// Merges section layers, the nearest layer winning per whole section: a
/// leaf's `## Build` replaces an ancestor's `## Build` entirely.
pub fn merge(layers: &Vec<Sections>) -> (r: Sections)
    ensures
        r@ == merge_layers(layers_view(layers@)),
        keys_unique(r@),
{
    proof {
        law_merge_keys_unique(layers_view(layers@));
    }
    let ghost lv = layers_view(layers@);
    let mut result = Sections::new();
    let mut i: usize = 0;
    assert(lv.take(0) =~= Seq::<Seq<(Seq<char>, Seq<char>)>>::empty());
    while i < layers.len()
        invariant
            lv == layers_view(layers@),
            i <= layers.len(),
            result@ == merge_layers(lv.take(i as int)),
        decreases layers.len() - i,
    {
        let layer = layers[i].entries();
        let ghost start = result@;
        let mut j: usize = 0;
        while j < layer.len()
            invariant
                lv == layers_view(layers@),
                i < layers.len(),
                entries_view(layer@) == lv[i as int],
                j <= layer.len(),
                result@ == insert_all(start, entries_view(layer@).take(j as int)),
            decreases layer.len() - j,
        {
            let ghost ev = entries_view(layer@);
            assert(ev.take(j + 1).drop_last() =~= ev.take(j as int));
            result.insert(copy(&layer[j].0), copy(&layer[j].1));
            j += 1;
        }
        proof {
            assert(entries_view(layer@).take(j as int) =~= lv[i as int]);
            assert(lv.take(i + 1).drop_last() =~= lv.take(i as int));
        }
        i += 1;
    }
    assert(lv.take(i as int) =~= lv);
    result
}

/// The required sections that `m` lacks, from the `i`-th on.
pub open spec fn missing_from(m: Seq<(Seq<char>, Seq<char>)>, i: int) -> Seq<Seq<char>>
    decreases 3 - i,
{
    if i < 0 || i >= 3 {
        seq![]
    } else if lookup(m, required_names()[i]) is None {
        seq![required_names()[i]] + missing_from(m, i + 1)
    } else {
        missing_from(m, i + 1)
    }
}

/// The names joined with `", "`.
pub open spec fn join_comma(ns: Seq<Seq<char>>) -> Seq<char>
    decreases ns.len(),
{
    if ns.len() == 0 {
        seq![]
    } else if ns.len() == 1 {
        ns[0]
    } else {
        join_comma(ns.drop_last()) + ", "@ + ns.last()
    }
}

/// A merged chain must supply `Build`, `Lint` and `Test`.
pub open spec fn spec_require_sections(m: Seq<(Seq<char>, Seq<char>)>) -> Result<(), Seq<char>> {
    let missing = missing_from(m, 0);
    if missing.len() == 0 {
        Ok(())
    } else {
        Err("missing required section(s): "@ + join_comma(missing))
    }
}

fn required_name(i: usize) -> (r: &'static str)
    requires
        i < 3,
    ensures
        r@ == required_names()[i as int],
{
    match i {
        0 => "Build",
        1 => "Lint",
        _ => "Test",
    }
}

/// Enforces that the effective (merged) validation supplies `Build`, `Lint`
/// and `Test`.
pub fn require_sections(sections: &Sections) -> (r: Result<(), ParseError>)
    ensures
        spec_require_sections(sections@) is Ok ==> r is Ok,
        spec_require_sections(sections@) matches Err(m) ==> (r matches Err(e) && e@ == m),
{
    let mut missing: Vec<&'static str> = Vec::new();
    let ghost mut mv: Seq<Seq<char>> = seq![];
    let mut i: usize = 0;
    while i < 3
        invariant
            i <= 3,
            missing@.len() == mv.len(),
            forall|k: int| 0 <= k < missing@.len() ==> (#[trigger] missing@[k])@ == mv[k],
            mv + missing_from(sections@, i as int) == missing_from(sections@, 0),
        decreases 3 - i,
    {
        let name = required_name(i);
        if !sections.contains_key(name) {
            proof {
                assert(missing_from(sections@, i as int) == seq![required_names()[i as int]]
                    + missing_from(sections@, i + 1));
                assert(mv.push(name@) + missing_from(sections@, i + 1) =~= mv + missing_from(
                    sections@,
                    i as int,
                ));
                mv = mv.push(name@);
            }
            missing.push(name);
        }
        i += 1;
    }
    let ghost ms = missing_from(sections@, 0);
    assert(mv =~= ms);
    if missing.len() == 0 {
        return Ok(());
    }
    let mut m: Vec<char> = Vec::new();
    push_str(&mut m, "missing required section(s): ");
    let ghost head = m@;
    let mut k: usize = 0;
    while k < missing.len()
        invariant
            k <= missing@.len() == ms.len(),
            head == "missing required section(s): "@,
            forall|j: int| 0 <= j < missing@.len() ==> (#[trigger] missing@[j])@ == ms[j],
            m@ == head + join_comma(ms.take(k as int)),
        decreases missing.len() - k,
    {
        if k > 0 {
            push_str(&mut m, ", ");
        }
        push_str(&mut m, missing[k]);
        proof {
            let t = ms.take(k + 1);
            assert(t.drop_last() =~= ms.take(k as int));
            if k == 0 {
                assert(join_comma(t) == t[0]);
            }
        }
        k += 1;
    }
    assert(ms.take(k as int) =~= ms);
    Err(ParseError::from_chars(&m))
}

// ---------------------------------------------------------------------------
// rendering
// ---------------------------------------------------------------------------

/// The `## <name>` blocks of `m`, canonical sections from the `i`-th on, in
/// rendering order.
pub open spec fn blocks(m: Seq<(Seq<char>, Seq<char>)>, i: int) -> Seq<char>
    decreases 6 - i,
{
    if i < 0 || i >= 6 {
        seq![]
    } else {
        match lookup(m, section_names()[i]) {
            Some(b) => "## "@ + section_names()[i] + "\n"@ + b + "\n\n"@ + blocks(m, i + 1),
            None => blocks(m, i + 1),
        }
    }
}

pub open spec fn ends_with_blank_line(o: Seq<char>) -> bool {
    o.len() >= 2 && o[o.len() - 1] == '\n' && o[o.len() - 2] == '\n'
}

/// The rendering of one merged chain: its blocks, without the last newline
/// of the last block.
pub open spec fn render_single(m: Seq<(Seq<char>, Seq<char>)>) -> Seq<char> {
    let o = blocks(m, 0);
    if ends_with_blank_line(o) {
        o.drop_last()
    } else {
        o
    }
}

fn push_blocks(out: &mut Vec<char>, m: &Sections)
    ensures
        final(out)@ == old(out)@ + blocks(m@, 0),
{
    let ghost start = out@;
    let mut i: usize = 0;
    while i < 6
        invariant
            i <= 6,
            start + blocks(m@, 0) == out@ + blocks(m@, i as int),
        decreases 6 - i,
    {
        let name = section_name(i);
        match m.get(name) {
            Some(body) => {
                push_str(out, "## ");
                push_str(out, name);
                push_str(out, "\n");
                push_all(out, &string_chars(&body));
                push_str(out, "\n\n");
            },
            None => {},
        }
        i += 1;
    }
}

/// Renders one merged chain.
pub fn render_sections(m: &Sections) -> (r: String)
    ensures
        r@ == render_single(m@),
{
    let mut out: Vec<char> = Vec::new();
    push_blocks(&mut out, m);
    assert(out@ =~= blocks(m@, 0));
    if out.len() >= 2 && out[out.len() - 1] == '\n' && out[out.len() - 2] == '\n' {
        out.pop();
    }
    string_from(&out)
}

/// The label of a scope: `.` for the repository root.
pub open spec fn scope_label(s: Seq<char>) -> Seq<char> {
    if s.len() == 0 || crate::pathname::path_eq(s, "."@) {
        "."@
    } else {
        s
    }
}

/// The labeled blocks of the scopes from the `i`-th on.
pub open spec fn scoped_blocks(
    es: Seq<(Seq<char>, Seq<(Seq<char>, Seq<char>)>)>,
    i: int,
) -> Seq<char>
    decreases es.len() - i,
{
    if i < 0 || i >= es.len() {
        seq![]
    } else {
        "### "@ + scope_label(es[i].0) + "\n\n"@ + blocks(es[i].1, 0) + scoped_blocks(es, i + 1)
    }
}

pub open spec fn ends_with_two_blank_lines(o: Seq<char>) -> bool {
    o.len() >= 3 && o[o.len() - 1] == '\n' && o[o.len() - 2] == '\n' && o[o.len() - 3] == '\n'
}

/// `o` without the trailing newlines beyond two.
pub open spec fn strip_blank_runs(o: Seq<char>) -> Seq<char>
    decreases o.len(),
{
    if ends_with_two_blank_lines(o) {
        strip_blank_runs(o.drop_last())
    } else {
        o
    }
}

/// The rendering of several scopes: their labeled blocks, at most one blank
/// line at the end, always ending with a newline.
pub open spec fn render_scoped(es: Seq<(Seq<char>, Seq<(Seq<char>, Seq<char>)>)>) -> Seq<char> {
    let o = strip_blank_runs(scoped_blocks(es, 0));
    if o.len() > 0 && o.last() == '\n' {
        o
    } else {
        o.push('\n')
    }
}

/// The scopes, each with its merged chain, sorted by scope path.
pub struct Scopes {
    entries: Vec<(String, Sections)>,
}

impl View for Scopes {
    type V = Seq<(Seq<char>, Seq<(Seq<char>, Seq<char>)>)>;

    closed spec fn view(&self) -> Seq<(Seq<char>, Seq<(Seq<char>, Seq<char>)>)> {
        self.entries@.map_values(|p: (String, Sections)| (p.0@, p.1@))
    }
}

/// The first index at or after `i` whose scope does not sort before `k`.
pub open spec fn scope_slot(es: Seq<(Seq<char>, Seq<(Seq<char>, Seq<char>)>)>, k: Seq<char>, i: int) -> int
    decreases es.len() - i,
{
    if i < 0 || i >= es.len() {
        es.len() as int
    } else if !crate::pathname::path_less(es[i].0, k) {
        i
    } else {
        scope_slot(es, k, i + 1)
    }
}

proof fn lemma_scope_slot(es: Seq<(Seq<char>, Seq<(Seq<char>, Seq<char>)>)>, k: Seq<char>, i: int)
    requires
        0 <= i <= es.len(),
    ensures
        i <= scope_slot(es, k, i) <= es.len(),
    decreases es.len() - i,
{
    if i < es.len() && crate::pathname::path_less(es[i].0, k) {
        lemma_scope_slot(es, k, i + 1);
    }
}

/// Stores `v` under scope `k` as an ordered map does: an equal scope keeps
/// its key and takes the new value; a new one goes before the first scope
/// that does not sort before it.
pub open spec fn insert_scope(
    es: Seq<(Seq<char>, Seq<(Seq<char>, Seq<char>)>)>,
    k: Seq<char>,
    v: Seq<(Seq<char>, Seq<char>)>,
) -> Seq<(Seq<char>, Seq<(Seq<char>, Seq<char>)>)> {
    let j = scope_slot(es, k, 0);
    if 0 <= j < es.len() && !crate::pathname::path_less(k, es[j].0) {
        es.update(j, (es[j].0, v))
    } else {
        es.insert(j, (k, v))
    }
}

impl Scopes {
    pub fn new() -> (r: Scopes)
        ensures
            r@ == Seq::<(Seq<char>, Seq<(Seq<char>, Seq<char>)>)>::empty(),
    {
        let r = Scopes { entries: Vec::new() };
        assert(r@ =~= Seq::<(Seq<char>, Seq<(Seq<char>, Seq<char>)>)>::empty());
        r
    }

    /// Stores `sections` under `scope`.
    pub fn insert(&mut self, scope: String, sections: Sections)
        ensures
            final(self)@ == insert_scope(old(self)@, scope@, sections@),
    {
        let ghost es = self@;
        let mut j: usize = 0;
        while j < self.entries.len() && crate::pathname::path_lt(
            self.entries[j].0.as_str(),
            scope.as_str(),
        )
            invariant
                es == self@,
                j <= self.entries.len(),
                scope_slot(es, scope@, 0) == scope_slot(es, scope@, j as int),
            decreases self.entries.len() - j,
        {
            assert(es[j as int].0 == self.entries@[j as int].0@);
            j += 1;
        }
        proof {
            lemma_scope_slot(es, scope@, 0);
            if j < self.entries.len() {
                assert(es[j as int].0 == self.entries@[j as int].0@);
            }
        }
        if j < self.entries.len() && !crate::pathname::path_lt(
            scope.as_str(),
            self.entries[j].0.as_str(),
        ) {
            let key = copy(&self.entries[j].0);
            self.entries.set(j, (key, sections));
        } else {
            self.entries.insert(j, (scope, sections));
        }
        assert(self@ =~= insert_scope(es, scope@, sections@));
    }

    /// Renders every scope under its label.
    #[verifier::spinoff_prover]
    #[verifier::rlimit(100)]
    pub fn render(&self) -> (r: String)
        ensures
            r@ == render_scoped(self@),
    {
        let ghost es = self@;
        let mut out: Vec<char> = Vec::new();
        let mut i: usize = 0;
        while i < self.entries.len()
            invariant
                es == self@,
                i <= self.entries.len(),
                scoped_blocks(es, 0) == out@ + scoped_blocks(es, i as int),
            decreases self.entries.len() - i,
        {
            let e = &self.entries[i];
            assert(es[i as int] == (e.0@, e.1@));
            let ghost before = out@;
            push_str(&mut out, "### ");
            let s = e.0.as_str();
            if string_chars(&e.0).len() == 0 || crate::pathname::same_path(s, ".") {
                push_str(&mut out, ".");
            } else {
                push_all(&mut out, &string_chars(&e.0));
            }
            push_str(&mut out, "\n\n");
            push_blocks(&mut out, &e.1);
            proof {
                assert(out@ =~= before + ("### "@ + scope_label(es[i as int].0) + "\n\n"@ + blocks(
                    es[i as int].1,
                    0,
                )));
                assert(scoped_blocks(es, i as int) =~= "### "@ + scope_label(es[i as int].0)
                    + "\n\n"@ + blocks(es[i as int].1, 0) + scoped_blocks(es, i + 1));
            }
            i += 1;
        }
        assert(out@ =~= scoped_blocks(es, 0));
        while out.len() >= 3 && out[out.len() - 1] == '\n' && out[out.len() - 2] == '\n'
            && out[out.len() - 3] == '\n'
            invariant
                strip_blank_runs(scoped_blocks(es, 0)) == strip_blank_runs(out@),
            decreases out.len(),
        {
            out.pop();
        }
        if out.len() == 0 || out[out.len() - 1] != '\n' {
            out.push('\n');
        }
        string_from(&out)
    }
}

// ---------------------------------------------------------------------------
// resolving through a validation source
// ---------------------------------------------------------------------------

/// The directories from `root` down through each of `comps`.
pub open spec fn dir_chain(root: Seq<char>, comps: Seq<Seq<char>>) -> Seq<Seq<char>>
    decreases comps.len(),
{
    if comps.len() == 0 {
        seq![root]
    } else {
        let before = dir_chain(root, comps.drop_last());
        before.push(crate::pathname::path_join(before.last(), comps.last()))
    }
}

proof fn lemma_dir_chain_len(root: Seq<char>, comps: Seq<Seq<char>>)
    ensures
        dir_chain(root, comps).len() == comps.len() + 1,
    decreases comps.len(),
{
    if comps.len() > 0 {
        lemma_dir_chain_len(root, comps.drop_last());
    }
}

/// The candidate directories for a target directory under a canonical
/// repository root, or `PathOutsideProject` when it is not under it.
pub open spec fn spec_dirs_below(root: Seq<char>, target_dir: Seq<char>) -> Option<Seq<Seq<char>>> {
    match crate::pathname::path_strip_prefix(target_dir, root) {
        Some(rel) => Some(dir_chain(root, crate::pathname::path_components(rel))),
        None => None,
    }
}

/// The candidate `validation.md` directories from the canonical repository
/// root down to `target_dir`; `requested` is the path the caller asked about.
pub fn dirs_below(root: &str, target_dir: &str, requested: &str) -> (r: Result<
    Vec<String>,
    ValidationError,
>)
    ensures
        spec_dirs_below(root@, target_dir@) matches Some(d) ==> (r matches Ok(v) && v@.len()
            == d.len() && forall|i: int| 0 <= i < d.len() ==> (#[trigger] v@[i])@ == d[i]),
        spec_dirs_below(root@, target_dir@) is None ==> (r matches Err(
            ValidationError::PathOutsideProject { requested: q, project_root: p },
        ) && q@ == requested@ && p@ == root@),
{
    match crate::pathname::strip_prefix(target_dir, root) {
        None => Err(
            ValidationError::PathOutsideProject {
                requested: crate::text::owned(requested),
                project_root: crate::text::owned(root),
            },
        ),
        Some(rel) => {
            let comps = crate::pathname::components(rel.as_str());
            let ghost cv = crate::pathname::path_components(rel@);
            let mut dirs: Vec<String> = Vec::new();
            dirs.push(crate::text::owned(root));
            let mut current = crate::text::owned(root);
            let mut i: usize = 0;
            proof {
                assert(cv.take(0) =~= Seq::<Seq<char>>::empty());
            }
            while i < comps.len()
                invariant
                    comps@.len() == cv.len(),
                    forall|k: int| 0 <= k < cv.len() ==> (#[trigger] comps@[k])@ == cv[k],
                    i <= comps.len(),
                    dirs@.len() == i + 1,
                    forall|k: int| 0 <= k <= i ==> (#[trigger] dirs@[k])@ == dir_chain(
                        root@,
                        cv.take(i as int),
                    )[k],
                    current@ == dir_chain(root@, cv.take(i as int)).last(),
                decreases comps.len() - i,
            {
                proof {
                    lemma_dir_chain_len(root@, cv.take(i as int));
                    lemma_dir_chain_len(root@, cv.take(i + 1));
                    assert(cv.take(i + 1).drop_last() =~= cv.take(i as int));
                }
                let next = crate::pathname::join(current.as_str(), comps[i].as_str());
                let ghost d0 = dir_chain(root@, cv.take(i as int));
                dirs.push(crate::text::owned(next.as_str()));
                current = next;
                proof {
                    assert(dir_chain(root@, cv.take(i + 1)) == d0.push(
                        crate::pathname::path_join(d0.last(), cv[i as int]),
                    ));
                }
                i += 1;
            }
            proof {
                assert(cv.take(i as int) =~= cv);
                lemma_dir_chain_len(root@, cv);
            }
            Ok(dirs)
        },
    }
}

/// The candidate `validation.md` directories, from the canonical repository
/// root down to the directory of `path`.
///
/// `path` must be absolute. A target that does not exist yet is
/// canonicalized through its parent directory.
pub fn validation_dirs<S: ValidationSource>(src: &mut S, path: &str, repo_root: &str) -> (r: Result<
    Vec<String>,
    ValidationError,
>)
    ensures
        !crate::pathname::path_is_absolute(path@) ==> (r matches Err(
            ValidationError::PathNotAbsolute { path: p },
        ) && p@ == path@),
        r matches Ok(d) ==> d@.len() >= 1 && crate::pathname::path_is_absolute(path@),
        r matches Err(ValidationError::PathNotAbsolute { path: p }) ==> p@ == path@
            && !crate::pathname::path_is_absolute(path@),
        reads_view(final(src).reads()@) == reads_view(old(src).reads()@),
{
    if !crate::pathname::is_absolute(path) {
        return Err(ValidationError::PathNotAbsolute { path: crate::text::owned(path) });
    }
    let canonical_root = match src.canonicalize(repo_root) {
        Ok(p) => p,
        Err(e) => return Err(ValidationError::Other(e)),
    };
    let canonical_target = if src.path_exists(path) {
        match src.canonicalize(path) {
            Ok(p) => p,
            Err(e) => return Err(ValidationError::Other(e)),
        }
    } else {
        let parent = match crate::pathname::parent(path) {
            Some(p) => p,
            None => {
                let mut m: Vec<char> = Vec::new();
                push_str(&mut m, "path ");
                push_str(&mut m, path);
                push_str(&mut m, " has no parent directory");
                return Err(ValidationError::Other(string_from(&m)));
            },
        };
        let canonical_parent = match src.canonicalize(parent.as_str()) {
            Ok(p) => p,
            Err(e) => return Err(ValidationError::Other(e)),
        };
        match crate::pathname::file_name(path) {
            Some(name) => crate::pathname::join(canonical_parent.as_str(), name.as_str()),
            None => canonical_parent,
        }
    };
    let target_dir = match crate::pathname::parent(canonical_target.as_str()) {
        Some(p) => p,
        None => canonical_target,
    };
    dirs_below(canonical_root.as_str(), target_dir.as_str(), path)
}

/// What a chain of parsed layers gives, with the scope of the deepest file.
pub open spec fn spec_finish_layers(layers: Seq<Seq<(Seq<char>, Seq<char>)>>) -> Result<
    Seq<(Seq<char>, Seq<char>)>,
    Seq<char>,
> {
    if layers.len() == 0 {
        Err("no validation.md files found"@)
    } else {
        match spec_require_sections(merge_layers(layers)) {
            Ok(_) => Ok(merge_layers(layers)),
            Err(m) => Err(m),
        }
    }
}

/// Merges the layers found along a chain and checks the required sections.
pub fn finish_layers(layers: &Vec<Sections>) -> (r: Result<Sections, ValidationError>)
    ensures
        spec_finish_layers(layers_view(layers@)) matches Ok(m) ==> (r matches Ok(x) && x@ == m),
        spec_finish_layers(layers_view(layers@)) matches Err(msg) ==> (r matches Err(
            ValidationError::Other(e),
        ) && e@ == msg),
{
    if layers.len() == 0 {
        return Err(ValidationError::Other(crate::text::owned("no validation.md files found")));
    }
    let merged = merge(layers);
    match require_sections(&merged) {
        Ok(()) => Ok(merged),
        Err(e) => Err(ValidationError::from_parse(e)),
    }
}

/// Merges every `validation.md` along the path's chain, returning the
/// merged sections and the deepest scope directory relative to the
/// repository root (`.` for the root itself).
pub fn resolve_validation_with_scope<S: ValidationSource>(
    src: &mut S,
    path: &str,
    repo_root: &str,
) -> (r: Result<(Sections, String), ValidationError>)
    ensures
        !crate::pathname::path_is_absolute(path@) ==> (r matches Err(
            ValidationError::PathNotAbsolute { path: p },
        ) && p@ == path@),
        r matches Ok((m, _)) ==> spec_require_sections(m@) is Ok,
        r matches Err(ValidationError::PathNotAbsolute { path: p }) ==> p@ == path@
            && !crate::pathname::path_is_absolute(path@),
        extends(reads_view(old(src).reads()@), reads_view(final(src).reads()@)),
        r matches Ok((m, sc)) ==> ({
            let n = reads_since(reads_view(old(src).reads()@), reads_view(final(src).reads()@));
            &&& reads_clean(n)
            &&& spec_finish_layers(read_layers(n)) == Ok::<
                Seq<(Seq<char>, Seq<char>)>,
                Seq<char>,
            >(m@)
            &&& sc@ == read_scope(n, repo_root@)
        }),
{
    let ghost r0 = reads_view(src.reads()@);
    let dirs = validation_dirs(src, path, repo_root)?;
    let mut layers: Vec<Sections> = Vec::new();
    let mut scope = crate::text::owned(".");
    proof {
        reveal_strlit(".");
        assert(reads_view(src.reads()@).take(r0.len() as int) =~= r0);
        assert(reads_since(r0, reads_view(src.reads()@)) =~= Seq::empty());
    }
    let mut i: usize = 0;
    while i < dirs.len()
        invariant
            i <= dirs.len(),
            crate::pathname::path_is_absolute(path@),
            r0 == reads_view(old(src).reads()@),
            extends(r0, reads_view(src.reads()@)),
            reads_clean(reads_since(r0, reads_view(src.reads()@))),
            layers_view(layers@) == read_layers(reads_since(r0, reads_view(src.reads()@))),
            scope@ == read_scope(reads_since(r0, reads_view(src.reads()@)), repo_root@),
        decreases dirs.len() - i,
    {
        let ghost before = reads_since(r0, reads_view(src.reads()@));
        let got = src.read_validation(dirs[i].as_str());
        let ghost after = reads_since(r0, reads_view(src.reads()@));
        proof {
            assert(reads_view(src.reads()@).take(r0.len() as int) =~= r0);
            assert(after =~= before.push((dirs@[i as int]@, read_result_view(got))));
            assert(after.drop_last() =~= before);
        }
        let found = match got {
            Ok(f) => f,
            Err(e) => return Err(ValidationError::Other(e)),
        };
        match found {
            Some(text) => {
                let ghost lv = layers_view(layers@);
                match parse_sections(text.as_str()) {
                    Ok(s) => layers.push(s),
                    Err(e) => return Err(ValidationError::from_parse(e)),
                }
                assert(layers_view(layers@) =~= lv.push(spec_parse_sections(text@)->Ok_0));
                match crate::pathname::strip_prefix(dirs[i].as_str(), repo_root) {
                    Some(rel) => {
                        scope = rel;
                    },
                    None => {},
                }
            },
            None => {},
        }
        proof {
            assert forall|k: int| 0 <= k < after.len() implies #[trigger] read_ok(after[k]) by {
                if k < before.len() {
                    assert(after[k] == before[k]);
                }
            }
        }
        i += 1;
    }
    let merged = finish_layers(&layers)?;
    Ok((merged, scope))
}

/// The validation that applies to one path, rendered in section order.
///
/// Walks from the repository root down to the path's directory, merging
/// every `validation.md` on the way.
pub fn resolve_validation<S: ValidationSource>(src: &mut S, path: &str) -> (r: Result<
    String,
    ValidationError,
>)
    ensures
        r matches Ok(out) ==> exists|m: Seq<(Seq<char>, Seq<char>)>|
            #![trigger render_single(m)]
            spec_require_sections(m) is Ok && out@ == render_single(m),
        !crate::pathname::path_is_absolute(path@) ==> r is Err,
        r matches Err(ValidationError::PathNotAbsolute { path: p }) ==> p@ == path@
            && !crate::pathname::path_is_absolute(path@),
        extends(reads_view(old(src).reads()@), reads_view(final(src).reads()@)),
        r matches Ok(out) ==> rendered_from_reads(
            reads_since(reads_view(old(src).reads()@), reads_view(final(src).reads()@)),
            out@,
        ),
{
    let ghost r0 = reads_view(src.reads()@);
    let repo_root = match src.repo_root() {
        Ok(p) => p,
        Err(e) => {
            assert(reads_view(src.reads()@).take(r0.len() as int) =~= r0);
            return Err(ValidationError::Other(e));
        },
    };
    let (merged, _scope) = resolve_validation_with_scope(src, path, repo_root.as_str())?;
    let out = render_sections(&merged);
    assert(spec_require_sections(merged@) is Ok && out@ == render_single(merged@));
    Ok(out)
}

/// The validation that applies to several paths, grouped by scope: paths
/// whose deepest `validation.md` is in the same directory share one
/// labeled block, scopes sorted by path.
pub fn resolve_validations<S: ValidationSource>(src: &mut S, paths: &Vec<String>) -> (r: Result<
    String,
    ValidationError,
>)
    ensures
        r matches Ok(out) ==> exists|es: Seq<(Seq<char>, Seq<(Seq<char>, Seq<char>)>)>|
            #![trigger render_scoped(es)]
            es.len() <= paths@.len() && out@ == render_scoped(es),
        r is Ok ==> forall|k: int|
            0 <= k < paths@.len() ==> crate::pathname::path_is_absolute((#[trigger] paths@[k])@),
        r matches Err(ValidationError::PathNotAbsolute { path: p }) ==> exists|k: int|
            0 <= k < paths@.len() && (#[trigger] paths@[k])@ == p@
                && !crate::pathname::path_is_absolute(p@),
        extends(reads_view(old(src).reads()@), reads_view(final(src).reads()@)),
        r matches Ok(out) ==> exists|segs: Seq<ReadLog>, root: Seq<char>|
            #![trigger scoped_from_reads(segs, root)]
            segs.len() == paths@.len() && concat_reads(segs) == reads_since(
                reads_view(old(src).reads()@),
                reads_view(final(src).reads()@),
            ) && segments_resolve(segs) && out@ == render_scoped(scoped_from_reads(segs, root)),
{
    let ghost r0 = reads_view(src.reads()@);
    let repo_root = match src.repo_root() {
        Ok(p) => p,
        Err(e) => {
            assert(reads_view(src.reads()@).take(r0.len() as int) =~= r0);
            return Err(ValidationError::Other(e));
        },
    };
    let mut scopes = Scopes::new();
    let ghost mut segs: Seq<ReadLog> = Seq::empty();
    proof {
        assert(reads_view(src.reads()@).take(r0.len() as int) =~= r0);
        assert(reads_since(r0, reads_view(src.reads()@)) =~= Seq::empty());
        assert(scopes@ =~= scoped_from_reads(segs, repo_root@));
    }
    let mut i: usize = 0;
    while i < paths.len()
        invariant
            i <= paths.len(),
            scopes@.len() <= i,
            forall|k: int|
                0 <= k < i ==> crate::pathname::path_is_absolute((#[trigger] paths@[k])@),
            r0 == reads_view(old(src).reads()@),
            extends(r0, reads_view(src.reads()@)),
            segs.len() == i,
            concat_reads(segs) == reads_since(r0, reads_view(src.reads()@)),
            segments_resolve(segs),
            scopes@ == scoped_from_reads(segs, repo_root@),
        decreases paths.len() - i,
    {
        let ghost before = reads_view(src.reads()@);
        let (merged, scope) = match resolve_validation_with_scope(
            src,
            paths[i].as_str(),
            repo_root.as_str(),
        ) {
            Ok(x) => x,
            Err(e) => {
                assert(e matches ValidationError::PathNotAbsolute { path: p } ==> paths@[i as int]@
                    == p@);
                assert(reads_view(src.reads()@).take(r0.len() as int) =~= r0);
                return Err(e);
            },
        };
        assert(crate::pathname::path_is_absolute(paths@[i as int]@));
        proof {
            crate::domain::validation::lemma_scope_slot(scopes@, scope@, 0);
            let after = reads_view(src.reads()@);
            let seg = reads_since(before, after);
            assert(after.take(r0.len() as int) =~= r0);
            assert(reads_since(r0, after) =~= reads_since(r0, before) + seg);
            let old_segs = segs;
            segs = segs.push(seg);
            assert(segs.drop_last() =~= old_segs);
            assert forall|k: int| 0 <= k < segs.len() implies #[trigger] segment_resolves(segs[k]) by {
                if k < old_segs.len() {
                    assert(segs[k] == old_segs[k]);
                }
            }
        }
        scopes.insert(scope, merged);
        i += 1;
    }
    let out = scopes.render();
    assert(out@ == render_scoped(scopes@));
    Ok(out)
}

/// A read log, entry by entry: directories and what reading each gave.
pub type ReadLog = Seq<(Seq<char>, Result<Option<Seq<char>>, Seq<char>>)>;

/// The read logs `segs`, one after another.
pub open spec fn concat_reads(segs: Seq<ReadLog>) -> ReadLog
    decreases segs.len(),
{
    if segs.len() == 0 {
        Seq::empty()
    } else {
        concat_reads(segs.drop_last()) + segs.last()
    }
}

/// The reads of one path's resolution succeeded, its files parse, and their
/// merge has the required sections.
pub open spec fn segment_resolves(n: ReadLog) -> bool {
    reads_clean(n) && spec_finish_layers(read_layers(n)) is Ok
}

/// Every path's reads resolve.
pub open spec fn segments_resolve(segs: Seq<ReadLog>) -> bool {
    forall|k: int| 0 <= k < segs.len() ==> #[trigger] segment_resolves(segs[k])
}

/// The scoped sections of paths resolved one after another, each path by
/// its reads: each path's merge stored under its scope.
pub open spec fn scoped_from_reads(segs: Seq<ReadLog>, root: Seq<char>) -> Seq<
    (Seq<char>, Seq<(Seq<char>, Seq<char>)>),
>
    decreases segs.len(),
{
    if segs.len() == 0 {
        Seq::empty()
    } else {
        insert_scope(
            scoped_from_reads(segs.drop_last(), root),
            read_scope(segs.last(), root),
            spec_finish_layers(read_layers(segs.last()))->Ok_0,
        )
    }
}

/// A read that succeeded, and whose file, if any, parses.
pub open spec fn read_ok(e: (Seq<char>, Result<Option<Seq<char>>, Seq<char>>)) -> bool {
    match e.1 {
        Err(_) => false,
        Ok(None) => true,
        Ok(Some(t)) => spec_parse_sections(t) is Ok,
    }
}

/// Every read succeeded and every file found parses.
pub open spec fn reads_clean(n: ReadLog) -> bool {
    forall|k: int| 0 <= k < n.len() ==> #[trigger] read_ok(n[k])
}

/// `out` renders, in section order, the merge of the files the reads
/// `n` found (root first), every read having succeeded and every file
/// parsed.
pub open spec fn rendered_from_reads(n: ReadLog, out: Seq<char>) -> bool {
    &&& reads_clean(n)
    &&& spec_finish_layers(read_layers(n)) matches Ok(m) && out == render_single(m)
}

/// The sections of each file found, in the order read.
pub open spec fn read_layers(n: ReadLog) -> Seq<Seq<(Seq<char>, Seq<char>)>>
    decreases n.len(),
{
    if n.len() == 0 {
        Seq::empty()
    } else {
        let rest = read_layers(n.drop_last());
        match n.last().1 {
            Ok(Some(t)) => match spec_parse_sections(t) {
                Ok(sec) => rest.push(sec),
                Err(_) => rest,
            },
            _ => rest,
        }
    }
}

/// The directory of the last file found, relative to `root` (`.` when none
/// is, or when that directory is not under `root`, the one before).
pub open spec fn read_scope(n: ReadLog, root: Seq<char>) -> Seq<char>
    decreases n.len(),
{
    if n.len() == 0 {
        "."@
    } else {
        let prev = read_scope(n.drop_last(), root);
        match n.last().1 {
            Ok(Some(_)) => match crate::pathname::path_strip_prefix(n.last().0, root) {
                Some(rel) => rel,
                None => prev,
            },
            _ => prev,
        }
    }
}

/// `after` is `before` with more reads appended.
pub open spec fn extends(before: ReadLog, after: ReadLog) -> bool {
    before.len() <= after.len() && after.take(before.len() as int) == before
}

/// The reads `after` appends to `before`.
pub open spec fn reads_since(before: ReadLog, after: ReadLog) -> ReadLog {
    after.skip(before.len() as int)
}

/// Reads that stop at the first file found or the first failure: every
/// read before the last found no file, and the last decides: a failure is
/// the error, a file means `true`, no file means `false`.
pub open spec fn found_along(n: ReadLog, r: Result<bool, ValidationError>) -> bool {
    &&& forall|k: int| 0 <= k < n.len() - 1 ==> (#[trigger] n[k]).1 == Ok::<
        Option<Seq<char>>,
        Seq<char>,
    >(None)
    &&& n.len() > 0 ==> match n.last().1 {
        Err(m) => r matches Err(ValidationError::Other(x)) && x@ == m,
        Ok(Some(_)) => r == Ok::<bool, ValidationError>(true),
        Ok(None) => r == Ok::<bool, ValidationError>(false),
    }
}

/// Whether at least one `validation.md` exists along the path's chain,
/// reading root first and stopping at the first one found.
pub fn check_validation_exists<S: ValidationSource>(src: &mut S, path: &str) -> (r: Result<
    bool,
    ValidationError,
>)
    ensures
        r is Ok ==> crate::pathname::path_is_absolute(path@),
        r matches Err(ValidationError::PathNotAbsolute { path: p }) ==> p@ == path@
            && !crate::pathname::path_is_absolute(path@),
        extends(reads_view(old(src).reads()@), reads_view(final(src).reads()@)),
        found_along(reads_since(reads_view(old(src).reads()@), reads_view(final(src).reads()@)), r),
        r is Ok ==> reads_since(reads_view(old(src).reads()@), reads_view(final(src).reads()@)).len()
            > 0,
        !crate::pathname::path_is_absolute(path@) ==> reads_view(final(src).reads()@)
            == reads_view(old(src).reads()@),
{
    let ghost r0 = reads_view(src.reads()@);
    let repo_root = match src.repo_root() {
        Ok(p) => p,
        Err(e) => {
            assert(reads_view(src.reads()@).take(r0.len() as int) =~= r0);
            assert(reads_since(r0, reads_view(src.reads()@)) =~= Seq::empty());
            return Err(ValidationError::Other(e));
        },
    };
    let dirs = match validation_dirs(src, path, repo_root.as_str()) {
        Ok(d) => d,
        Err(e) => {
            assert(reads_view(src.reads()@).take(r0.len() as int) =~= r0);
            assert(reads_since(r0, reads_view(src.reads()@)) =~= Seq::empty());
            return Err(e);
        },
    };
    assert(reads_view(src.reads()@).take(r0.len() as int) =~= r0);
    let mut i: usize = 0;
    while i < dirs.len()
        invariant
            i <= dirs.len(),
            dirs@.len() >= 1,
            r0 == reads_view(old(src).reads()@),
            crate::pathname::path_is_absolute(path@),
            extends(r0, reads_view(src.reads()@)),
            reads_since(r0, reads_view(src.reads()@)).len() == i,
            forall|k: int|
                0 <= k < i ==> (#[trigger] reads_since(r0, reads_view(src.reads()@))[k]).1
                    == Ok::<Option<Seq<char>>, Seq<char>>(None),
        decreases dirs.len() - i,
    {
        let ghost before = reads_view(src.reads()@);
        let got = src.read_validation(dirs[i].as_str());
        proof {
            let after = reads_view(src.reads()@);
            assert(after.take(r0.len() as int) =~= r0);
            assert(reads_since(r0, after) =~= reads_since(r0, before).push(
                (dirs@[i as int]@, read_result_view(got)),
            ));
            assert(extends(r0, after));
            assert forall|k: int| 0 <= k < i implies (#[trigger] reads_since(r0, after)[k]).1
                == Ok::<Option<Seq<char>>, Seq<char>>(None) by {
                assert(reads_since(r0, after)[k] == reads_since(r0, before)[k]);
            }
        }
        match got {
            Ok(Some(_)) => return Ok(true),
            Ok(None) => {},
            Err(e) => return Err(ValidationError::Other(e)),
        }
        i += 1;
    }
    Ok(false)
}

// ---------------------------------------------------------------------------
// laws of the section format
// ---------------------------------------------------------------------------

/// Bullet markers are interchangeable: a body line whose first
/// non-whitespace character is `*` normalizes exactly as the same line with
/// `-` there.
pub proof fn law_bullet_markers_equivalent(indent: Seq<char>, rest: Seq<char>)
    requires
        crate::text::all_ws(indent),
    ensures
        normalize_body_line(indent + seq!['*'] + rest) == normalize_body_line(
            indent + seq!['-'] + rest,
        ),
{
    let star = indent + seq!['*'] + rest;
    let dash = indent + seq!['-'] + rest;
    assert(star =~= indent + (seq!['*'] + rest));
    assert(dash =~= indent + (seq!['-'] + rest));
    crate::text::lemma_ws_end_prefix(indent, seq!['*'] + rest, 0);
    crate::text::lemma_ws_end_prefix(indent, seq!['-'] + rest, 0);
    assert(!crate::text::is_ws('*') && !crate::text::is_ws('-'));
    assert(crate::text::ws_end(seq!['*'] + rest, 0) == 0);
    assert(crate::text::ws_end(seq!['-'] + rest, 0) == 0);
    assert(star.take(crate::text::ws_end(star, 0)) =~= indent);
    assert(dash.take(crate::text::ws_end(dash, 0)) =~= indent);
    assert(trim_start(star) =~= seq!['*'] + rest);
    assert(trim_start(dash) =~= seq!['-'] + rest);
    assert((seq!['*'] + rest).skip(1) =~= rest);
    assert(seq!['-'] + (seq!['*'] + rest).skip(1) =~= seq!['-'] + rest);
}

/// Spacing after `## ` does not change a heading: `##   x` names the
/// same section as `## x`.
pub proof fn law_heading_spacing_ignored(extra: Seq<char>, name: Seq<char>)
    requires
        crate::text::all_ws(extra),
    ensures
        heading_text("## "@ + extra + name) == heading_text("## "@ + name),
{
    reveal_strlit("## ");
    assert(("## "@ + extra + name).skip(3) =~= extra + name);
    assert(("## "@ + name).skip(3) =~= name);
    crate::text::lemma_trim_ignores_leading_ws(extra, name);
}

/// Headings match canonical section names case-insensitively: two headings
/// with the same lowercase form, of which one names a canonical section,
/// both name that section in its canonical casing.
pub proof fn law_heading_case_ignored(a: Seq<char>, b: Seq<char>)
    requires
        lowercase(a) == lowercase(b),
        canonical_match(lowercase(a), 0) is Some,
    ensures
        normalize_heading(a) == normalize_heading(b),
        normalize_heading(a) == canonical_match(lowercase(a), 0)->0,
        exists|i: int| 0 <= i < 6 && normalize_heading(a) == #[trigger] section_names()[i],
{
    lemma_canonical_match_is_canonical(lowercase(a), 0);
}

/// What `canonical_match` finds is one of the canonical names.
proof fn lemma_canonical_match_is_canonical(lower: Seq<char>, i: int)
    requires
        canonical_match(lower, i) is Some,
    ensures
        exists|j: int|
            0 <= j < 6 && canonical_match(lower, i)->0 == #[trigger] section_names()[j],
    decreases 6 - i,
{
    if 0 <= i < 6 && lowercase(section_names()[i]) != lower {
        lemma_canonical_match_is_canonical(lower, i + 1);
    }
}

/// A merged chain is accepted exactly when it has `Build`, `Lint` and
/// `Test`.
pub proof fn law_required_sections(m: Seq<(Seq<char>, Seq<char>)>)
    ensures
        spec_require_sections(m) is Ok <==> (lookup(m, "Build"@) is Some && lookup(m, "Lint"@) is Some
            && lookup(m, "Test"@) is Some),
{
    let a = missing_from(m, 3);
    let b = missing_from(m, 2);
    let c = missing_from(m, 1);
    let d = missing_from(m, 0);
    assert(a.len() == 0);
    assert(required_names()[0] == "Build"@ && required_names()[1] == "Lint"@
        && required_names()[2] == "Test"@);
    assert(b.len() == 0 <==> lookup(m, "Test"@) is Some);
    assert(c.len() == 0 <==> (lookup(m, "Lint"@) is Some && b.len() == 0));
    assert(d.len() == 0 <==> (lookup(m, "Build"@) is Some && c.len() == 0));
}

} // verus!
