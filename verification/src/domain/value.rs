//! Validated values of the state's fields.
use crate::domain::error::{ValueError, ValueErrorView};
use crate::text::{
    all_digits, chars_of, digit_value, is_digit, has_ws, owned, parse_u32, parse_u32_exec, string_chars, string_from,
    trim, trim_exec,
};
use vstd::prelude::*;

verus! {

// ---------------------------------------------------------------------------
// slugs
// ---------------------------------------------------------------------------

pub open spec fn is_slug_char(c: char) -> bool {
    ('a' <= c && c <= 'z') || ('0' <= c && c <= '9') || c == '-'
}

/// Kebab-case: non-empty lowercase ASCII letters, digits and single inner
/// hyphens.
pub open spec fn is_valid_slug(s: Seq<char>) -> bool {
    &&& s.len() > 0
    &&& s[0] != '-'
    &&& s[s.len() - 1] != '-'
    &&& forall|i: int| 0 <= i < s.len() - 1 ==> !(s[i] == '-' && #[trigger] s[i + 1] == '-')
    &&& forall|i: int| 0 <= i < s.len() ==> is_slug_char(#[trigger] s[i])
}

pub open spec fn invalid_value(field: Seq<char>, value: Seq<char>, expected: Seq<char>) -> ValueErrorView {
    ValueErrorView::InvalidValue { field, value, expected }
}

/// A heist's slug: the name of its directory under `.heist/`.
#[derive(Debug, PartialEq, Eq)]
pub struct SlugValue {
    value: String,
}

impl View for SlugValue {
    type V = Seq<char>;

    closed spec fn view(&self) -> Seq<char> {
        self.value@
    }
}

impl SlugValue {
    #[verifier::type_invariant]
    spec fn inv(self) -> bool {
        is_valid_slug(self.value@)
    }


    /// Checks the slug rules.
    pub fn is_valid_slug(s: &str) -> (r: bool)
        ensures
            r == is_valid_slug(s@),
    {
        let v = chars_of(s);
        if v.len() == 0 || v[0] == '-' || v[v.len() - 1] == '-' {
            return false;
        }
        let mut i: usize = 0;
        while i < v.len()
            invariant
                v@ == s@,
                v.len() > 0,
                i <= v.len(),
                forall|k: int| 0 <= k < i ==> is_slug_char(#[trigger] v@[k]),
                forall|k: int| 0 <= k < i && k < v.len() - 1 ==> !(v@[k] == '-' && #[trigger] v@[k
                    + 1] == '-'),
            decreases v.len() - i,
        {
            let c = v[i];
            if !(('a' <= c && c <= 'z') || ('0' <= c && c <= '9') || c == '-') {
                assert(!is_slug_char(v@[i as int]));
                return false;
            }
            if i + 1 < v.len() && c == '-' && v[i + 1] == '-' {
                assert(v@[i as int] == '-' && v@[i + 1] == '-');
                return false;
            }
            i += 1;
        }
        true
    }

    /// A slug from text, refused unless it follows the slug rules.
    pub fn parse(value: &str) -> (r: Result<SlugValue, ValueError>)
        ensures
            is_valid_slug(value@) ==> (r matches Ok(s) && s@ == value@),
            !is_valid_slug(value@) ==> (r matches Err(e) && e@ == invalid_value(
                "slug"@,
                value@,
                "kebab-case: lowercase letters, digits, single hyphens"@,
            )),
    {
        if Self::is_valid_slug(value) {
            Ok(SlugValue { value: owned(value) })
        } else {
            Err(
                ValueError::InvalidValue {
                    field: owned("slug"),
                    value: owned(value),
                    expected: owned("kebab-case: lowercase letters, digits, single hyphens"),
                },
            )
        }
    }

    pub fn as_str(&self) -> (r: &str)
        ensures
            r@ == self@,
    {
        self.value.as_str()
    }

    pub fn to_owned_string(&self) -> (r: String)
        ensures
            r@ == self@,
    {
        let v = string_chars(&self.value);
        string_from(&v)
    }

    pub fn duplicate(&self) -> (r: SlugValue)
        ensures
            r@ == self@,
    {
        proof {
            use_type_invariant(self);
        }
        SlugValue { value: self.to_owned_string() }
    }
}

// ---------------------------------------------------------------------------
// non-blank text
// ---------------------------------------------------------------------------

pub open spec fn is_non_blank(s: Seq<char>) -> bool {
    trim(s).len() > 0
}

/// Text that is not empty once trimmed.
#[derive(Debug, PartialEq, Eq)]
pub struct NonBlankValue {
    value: String,
}

impl View for NonBlankValue {
    type V = Seq<char>;

    closed spec fn view(&self) -> Seq<char> {
        self.value@
    }
}

/// Whether `s` is blank (empty once trimmed).
pub fn is_blank(s: &str) -> (r: bool)
    ensures
        r == !is_non_blank(s@),
{
    let v = chars_of(s);
    trim_exec(&v).len() == 0
}

impl NonBlankValue {
    #[verifier::type_invariant]
    spec fn inv(self) -> bool {
        is_non_blank(self.value@)
    }


    /// A value for `field`, refused when blank.
    pub fn parse(field: &str, value: &str) -> (r: Result<NonBlankValue, ValueError>)
        ensures
            is_non_blank(value@) ==> (r matches Ok(s) && s@ == value@),
            !is_non_blank(value@) ==> (r matches Err(e) && e@ == invalid_value(
                field@,
                value@,
                "a non-blank string"@,
            )),
    {
        if !is_blank(value) {
            Ok(NonBlankValue { value: owned(value) })
        } else {
            Err(
                ValueError::InvalidValue {
                    field: owned(field),
                    value: owned(value),
                    expected: owned("a non-blank string"),
                },
            )
        }
    }

    pub fn as_str(&self) -> (r: &str)
        ensures
            r@ == self@,
            is_non_blank(self@),
    {
        proof {
            use_type_invariant(self);
        }
        self.value.as_str()
    }

    pub fn to_owned_string(&self) -> (r: String)
        ensures
            r@ == self@,
    {
        let v = string_chars(&self.value);
        string_from(&v)
    }

    pub fn duplicate(&self) -> (r: NonBlankValue)
        ensures
            r@ == self@,
    {
        proof {
            use_type_invariant(self);
        }
        NonBlankValue { value: self.to_owned_string() }
    }
}

// ---------------------------------------------------------------------------
// dates
// ---------------------------------------------------------------------------

/// The days of `month` in `year` of the proleptic Gregorian calendar.
pub open spec fn days_in_month(year: int, month: int) -> int {
    if month == 2 {
        if year % 4 == 0 && (year % 100 != 0 || year % 400 == 0) {
            29
        } else {
            28
        }
    } else if month == 4 || month == 6 || month == 9 || month == 11 {
        30
    } else {
        31
    }
}

/// The number written by the two digits of `t` at `i`.
pub open spec fn two_digits(t: Seq<char>, i: int) -> int {
    (digit_value(t[i]) * 10 + digit_value(t[i + 1])) as int
}

/// Whether `time::Date::parse` accepts the text under the
/// `[year]-[month]-[day]` format description (without the `large-dates`
/// feature): an optional `+` or `-`, a four-digit year, `-`, a two-digit
/// month from 01 to 12, `-`, a two-digit day that the month has in that
/// year, and nothing after.
pub open spec fn iso_date_accepted(s: Seq<char>) -> bool {
    let t = if s.len() > 0 && (s[0] == '+' || s[0] == '-') {
        s.skip(1)
    } else {
        s
    };
    let year = if s.len() > 0 && s[0] == '-' {
        -(two_digits(t, 0) * 100 + two_digits(t, 2))
    } else {
        two_digits(t, 0) * 100 + two_digits(t, 2)
    };
    &&& t.len() == 10
    &&& t[4] == '-' && t[7] == '-'
    &&& forall|i: int| 0 <= i < 10 && i != 4 && i != 7 ==> is_digit(#[trigger] t[i])
    &&& 1 <= two_digits(t, 5) <= 12
    &&& 1 <= two_digits(t, 8) <= days_in_month(year, two_digits(t, 5))
}

/// `time::Date::parse(s, "[year]-[month]-[day]")` succeeds: the format
/// description always parses, and the date parses as
/// [`iso_date_accepted`] states.
#[verifier::external_body]
fn date_parses(s: &str) -> (r: bool)
    ensures
        r == iso_date_accepted(s@),
{
    match time::format_description::parse("[year]-[month]-[day]") {
        Ok(format) => time::Date::parse(s, &format).is_ok(),
        Err(_) => false,
    }
}

/// An ISO 8601 calendar date, `YYYY-MM-DD`.
#[derive(Debug, PartialEq, Eq)]
pub struct DateValue {
    value: String,
}

impl View for DateValue {
    type V = Seq<char>;

    closed spec fn view(&self) -> Seq<char> {
        self.value@
    }
}

impl DateValue {
    #[verifier::type_invariant]
    spec fn inv(self) -> bool {
        iso_date_accepted(self.value@)
    }


    pub fn is_valid_date(s: &str) -> (r: bool)
        ensures
            r == iso_date_accepted(s@),
    {
        date_parses(s)
    }

    /// A date for `field`, refused unless `time` parses it as `YYYY-MM-DD`.
    pub fn parse(field: &str, value: &str) -> (r: Result<DateValue, ValueError>)
        ensures
            iso_date_accepted(value@) ==> (r matches Ok(s) && s@ == value@),
            !iso_date_accepted(value@) ==> (r matches Err(e) && e@ == invalid_value(
                field@,
                value@,
                "an ISO 8601 date (YYYY-MM-DD)"@,
            )),
    {
        if Self::is_valid_date(value) {
            Ok(DateValue { value: owned(value) })
        } else {
            Err(
                ValueError::InvalidValue {
                    field: owned(field),
                    value: owned(value),
                    expected: owned("an ISO 8601 date (YYYY-MM-DD)"),
                },
            )
        }
    }

    pub fn as_str(&self) -> (r: &str)
        ensures
            r@ == self@,
    {
        self.value.as_str()
    }

    pub fn to_owned_string(&self) -> (r: String)
        ensures
            r@ == self@,
    {
        let v = string_chars(&self.value);
        string_from(&v)
    }

    pub fn duplicate(&self) -> (r: DateValue)
        ensures
            r@ == self@,
    {
        proof {
            use_type_invariant(self);
        }
        DateValue { value: self.to_owned_string() }
    }
}

// ---------------------------------------------------------------------------
// counters
// ---------------------------------------------------------------------------

pub open spec fn invalid_numeric(field: Seq<char>, value: Seq<char>) -> ValueErrorView {
    ValueErrorView::InvalidNumeric { field, value }
}

/// `value` as a `u32` for `field`, or the `InvalidNumeric` error.
pub fn parse_numeric(field: &str, value: &str) -> (r: Result<u32, ValueError>)
    ensures
        parse_u32(value@) matches Some(n) ==> (r matches Ok(m) && m == n),
        parse_u32(value@) is None ==> (r matches Err(e) && e@ == invalid_numeric(field@, value@)),
{
    let v = chars_of(value);
    match parse_u32_exec(&v) {
        Some(n) => Ok(n),
        None => Err(ValueError::InvalidNumeric { field: owned(field), value: owned(value) }),
    }
}

/// The step of the score the heist is at.
#[derive(Debug, Clone, Copy, PartialEq, Eq, PartialOrd, Ord)]
pub struct ScoreStep(u32);

/// The number of steps the score has.
#[derive(Debug, Clone, Copy, PartialEq, Eq, PartialOrd, Ord)]
pub struct ScoreStepsTotal(u32);

/// The wave of the score the heist is at.
#[derive(Debug, Clone, Copy, PartialEq, Eq, PartialOrd, Ord)]
pub struct ScoreWave(u32);

/// The number of waves the score has.
#[derive(Debug, Clone, Copy, PartialEq, Eq, PartialOrd, Ord)]
pub struct ScoreWavesTotal(u32);

/// How many Fence review rounds have run.
#[derive(Debug, Clone, Copy, PartialEq, Eq, PartialOrd, Ord)]
pub struct FenceRounds(u32);

impl View for ScoreStep {
    type V = u32;

    closed spec fn view(&self) -> u32 {
        self.0
    }
}

impl View for ScoreStepsTotal {
    type V = u32;

    closed spec fn view(&self) -> u32 {
        self.0
    }
}

impl View for ScoreWave {
    type V = u32;

    closed spec fn view(&self) -> u32 {
        self.0
    }
}

impl View for ScoreWavesTotal {
    type V = u32;

    closed spec fn view(&self) -> u32 {
        self.0
    }
}

impl View for FenceRounds {
    type V = u32;

    closed spec fn view(&self) -> u32 {
        self.0
    }
}

impl ScoreStep {
    pub fn new(n: u32) -> (r: Self)
        ensures
            r@ == n,
    {
        ScoreStep(n)
    }

    pub fn into_inner(self) -> (r: u32)
        ensures
            r == self@,
    {
        self.0
    }

    pub fn parse(field: &str, value: &str) -> (r: Result<Self, ValueError>)
        ensures
            parse_u32(value@) matches Some(n) ==> (r matches Ok(m) && m@ == n),
            parse_u32(value@) is None ==> (r matches Err(e) && e@ == invalid_numeric(field@, value@)),
    {
        match parse_numeric(field, value) {
            Ok(n) => Ok(ScoreStep(n)),
            Err(e) => Err(e),
        }
    }
}

impl ScoreStepsTotal {
    pub fn new(n: u32) -> (r: Self)
        ensures
            r@ == n,
    {
        ScoreStepsTotal(n)
    }

    pub fn into_inner(self) -> (r: u32)
        ensures
            r == self@,
    {
        self.0
    }

    pub fn parse(field: &str, value: &str) -> (r: Result<Self, ValueError>)
        ensures
            parse_u32(value@) matches Some(n) ==> (r matches Ok(m) && m@ == n),
            parse_u32(value@) is None ==> (r matches Err(e) && e@ == invalid_numeric(field@, value@)),
    {
        match parse_numeric(field, value) {
            Ok(n) => Ok(ScoreStepsTotal(n)),
            Err(e) => Err(e),
        }
    }
}

impl ScoreWave {
    pub fn new(n: u32) -> (r: Self)
        ensures
            r@ == n,
    {
        ScoreWave(n)
    }

    pub fn into_inner(self) -> (r: u32)
        ensures
            r == self@,
    {
        self.0
    }

    pub fn parse(field: &str, value: &str) -> (r: Result<Self, ValueError>)
        ensures
            parse_u32(value@) matches Some(n) ==> (r matches Ok(m) && m@ == n),
            parse_u32(value@) is None ==> (r matches Err(e) && e@ == invalid_numeric(field@, value@)),
    {
        match parse_numeric(field, value) {
            Ok(n) => Ok(ScoreWave(n)),
            Err(e) => Err(e),
        }
    }
}

impl ScoreWavesTotal {
    pub fn new(n: u32) -> (r: Self)
        ensures
            r@ == n,
    {
        ScoreWavesTotal(n)
    }

    pub fn into_inner(self) -> (r: u32)
        ensures
            r == self@,
    {
        self.0
    }

    pub fn parse(field: &str, value: &str) -> (r: Result<Self, ValueError>)
        ensures
            parse_u32(value@) matches Some(n) ==> (r matches Ok(m) && m@ == n),
            parse_u32(value@) is None ==> (r matches Err(e) && e@ == invalid_numeric(field@, value@)),
    {
        match parse_numeric(field, value) {
            Ok(n) => Ok(ScoreWavesTotal(n)),
            Err(e) => Err(e),
        }
    }
}

impl FenceRounds {
    pub fn new(n: u32) -> (r: Self)
        ensures
            r@ == n,
    {
        FenceRounds(n)
    }

    pub fn into_inner(self) -> (r: u32)
        ensures
            r == self@,
    {
        self.0
    }

    pub fn parse(field: &str, value: &str) -> (r: Result<Self, ValueError>)
        ensures
            parse_u32(value@) matches Some(n) ==> (r matches Ok(m) && m@ == n),
            parse_u32(value@) is None ==> (r matches Err(e) && e@ == invalid_numeric(field@, value@)),
    {
        match parse_numeric(field, value) {
            Ok(n) => Ok(FenceRounds(n)),
            Err(e) => Err(e),
        }
    }
}

// ---------------------------------------------------------------------------
// schema version
// ---------------------------------------------------------------------------

/// The version of the state file's layout.
#[derive(Debug, Clone, Copy, PartialEq, Eq, Structural)]
pub enum SchemaVersion {
    V1,
}

/// A schema version number this build does not know.
#[derive(Debug, Clone, Copy, PartialEq, Eq)]
pub struct UnsupportedSchemaVersion(pub u32);

impl SchemaVersion {
    /// The version this build writes.
    pub fn current() -> (r: SchemaVersion)
        ensures
            r == SchemaVersion::V1,
    {
        SchemaVersion::V1
    }

    pub fn as_u32(&self) -> (r: u32)
        ensures
            r == 1,
    {
        match self {
            SchemaVersion::V1 => 1,
        }
    }

    /// The version numbered `value`.
    pub fn try_from_u32(value: u32) -> (r: Result<SchemaVersion, UnsupportedSchemaVersion>)
        ensures
            value == 1 ==> r == Ok::<SchemaVersion, UnsupportedSchemaVersion>(SchemaVersion::V1),
            value != 1 ==> r == Err::<SchemaVersion, UnsupportedSchemaVersion>(
                UnsupportedSchemaVersion(value),
            ),
    {
        if value == 1 {
            Ok(SchemaVersion::V1)
        } else {
            Err(UnsupportedSchemaVersion(value))
        }
    }

    /// The version written as `value`: refused when not a number, and when
    /// a number this build does not support.
    pub fn parse(value: &str) -> (r: Result<SchemaVersion, ValueError>)
        ensures
            parse_u32(value@) == Some(1u32) ==> (r matches Ok(v) && v == SchemaVersion::V1),
            parse_u32(value@) is None ==> (r matches Err(e) && e@ == invalid_numeric(
                "schema_version"@,
                value@,
            )),
            parse_u32(value@) matches Some(n) && n != 1 ==> (r matches Err(e) && e@
                == invalid_value(
                "schema_version"@,
                value@,
                "a supported schema version (currently 1)"@,
            )),
    {
        let raw = match parse_numeric("schema_version", value) {
            Ok(n) => n,
            Err(e) => return Err(e),
        };
        match Self::try_from_u32(raw) {
            Ok(v) => Ok(v),
            Err(_) => Err(
                ValueError::InvalidValue {
                    field: owned("schema_version"),
                    value: owned(value),
                    expected: owned("a supported schema version (currently 1)"),
                },
            ),
        }
    }
}

impl UnsupportedSchemaVersion {
    /// The refusal as it is shown to users.
    pub fn message(&self) -> (r: String)
        ensures
            r@ == "schema version mismatch: file has version "@ + crate::text::decimal(
                self.0 as nat,
            ) + ", but CLI supports version 1"@,
    {
        let mut m = chars_of("schema version mismatch: file has version ");
        crate::text::push_decimal(&mut m, self.0 as u64);
        crate::text::push_str(&mut m, ", but CLI supports version 1");
        string_from(&m)
    }
}

// ---------------------------------------------------------------------------
// branches and refs
// ---------------------------------------------------------------------------

/// A branch name: non-blank text.
#[derive(Debug, PartialEq, Eq)]
pub struct BranchValue {
    value: String,
}

impl View for BranchValue {
    type V = Seq<char>;

    closed spec fn view(&self) -> Seq<char> {
        self.value@
    }
}

impl BranchValue {
    #[verifier::type_invariant]
    spec fn inv(self) -> bool {
        is_non_blank(self.value@)
    }

    /// A branch name for `field`, refused when blank.
    pub fn try_from_raw(field: &str, value: &str) -> (r: Result<BranchValue, ValueError>)
        ensures
            is_non_blank(value@) ==> (r matches Ok(s) && s@ == value@),
            !is_non_blank(value@) ==> (r matches Err(e) && e@ == invalid_value(
                field@,
                value@,
                "a non-blank string"@,
            )),
    {
        if !is_blank(value) {
            Ok(BranchValue { value: owned(value) })
        } else {
            Err(
                ValueError::InvalidValue {
                    field: owned(field),
                    value: owned(value),
                    expected: owned("a non-blank string"),
                },
            )
        }
    }

    pub fn as_str(&self) -> (r: &str)
        ensures
            r@ == self@,
            is_non_blank(self@),
    {
        proof {
            use_type_invariant(self);
        }
        self.value.as_str()
    }

    pub fn to_owned_string(&self) -> (r: String)
        ensures
            r@ == self@,
    {
        let v = string_chars(&self.value);
        string_from(&v)
    }

    pub fn duplicate(&self) -> (r: BranchValue)
        ensures
            r@ == self@,
    {
        proof {
            use_type_invariant(self);
        }
        BranchValue { value: self.to_owned_string() }
    }

    /// The branch as a non-blank state value.
    pub fn to_non_blank(&self) -> (r: NonBlankValue)
        ensures
            r@ == self@,
    {
        proof {
            use_type_invariant(self);
        }
        NonBlankValue { value: self.to_owned_string() }
    }
}

/// A git revision to resolve verbatim: non-blank text.
#[derive(Debug, PartialEq, Eq)]
pub struct RefValue {
    value: String,
}

impl View for RefValue {
    type V = Seq<char>;

    closed spec fn view(&self) -> Seq<char> {
        self.value@
    }
}

impl RefValue {
    #[verifier::type_invariant]
    spec fn inv(self) -> bool {
        is_non_blank(self.value@)
    }

    /// A revision, refused when blank.
    pub fn try_from_raw(value: &str) -> (r: Result<RefValue, ValueError>)
        ensures
            is_non_blank(value@) ==> (r matches Ok(s) && s@ == value@),
            !is_non_blank(value@) ==> (r matches Err(e) && e@ == (ValueErrorView::InvalidRef {
                value: value@,
                reason: "must not be blank"@,
            })),
    {
        if !is_blank(value) {
            Ok(RefValue { value: owned(value) })
        } else {
            Err(ValueError::InvalidRef { value: owned(value), reason: owned("must not be blank") })
        }
    }

    pub fn duplicate(&self) -> (r: RefValue)
        ensures
            r@ == self@,
    {
        proof {
            use_type_invariant(self);
        }
        RefValue { value: self.to_owned_string() }
    }

    /// The revision naming a branch.
    pub fn from_branch(b: &BranchValue) -> (r: RefValue)
        ensures
            r@ == b@,
    {
        proof {
            use_type_invariant(b);
        }
        RefValue { value: b.to_owned_string() }
    }

    pub fn as_str(&self) -> (r: &str)
        ensures
            r@ == self@,
            is_non_blank(self@),
    {
        proof {
            use_type_invariant(self);
        }
        self.value.as_str()
    }

    pub fn to_owned_string(&self) -> (r: String)
        ensures
            r@ == self@,
    {
        let v = string_chars(&self.value);
        string_from(&v)
    }
}

} // verus!
