//! `state` commands: create, read and change a heist's state.
use crate::domain::error::{StateError, ValueError, ValueErrorView};
use crate::domain::state::{spec_get_field, spec_set_field, State, StateView};
use crate::domain::value::{invalid_value, invalid_numeric, is_valid_slug, DateValue, SlugValue};
use crate::ports::clock::Clock;
use crate::ports::heist_dir_repository::HeistDirRepository;
use crate::ports::state_repository::{loads_view, writes_view, StateRepository};
use crate::text::{decimal, decimal_exec, parse_u32, parse_u32_exec, string_chars, string_from};
use vstd::prelude::*;

verus! {

/// Why `init` failed.
#[derive(Debug)]
pub enum InitError {
    InvalidSlug(ValueError),
    Init(StateError),
}

/// Creates the directory and the fresh state of heist `slug`: stage
/// `casing`, mode `heavy`, created and updated today. An existing directory
/// is refused with `AlreadyExists`.
pub fn init<H: HeistDirRepository, R: StateRepository, C: Clock>(
    heist_dir_repo: &mut H,
    repo: &mut R,
    clock: &mut C,
    slug: &str,
) -> (r: Result<(), InitError>)
    ensures
        !is_valid_slug(slug@) ==> (r matches Err(InitError::InvalidSlug(e)) && e@ == invalid_value(
            "slug"@,
            slug@,
            "kebab-case: lowercase letters, digits, single hyphens"@,
        )),
        is_valid_slug(slug@) ==> !(r matches Err(InitError::InvalidSlug(_))),
{
    let slug_value = match SlugValue::parse(slug) {
        Ok(s) => s,
        Err(e) => return Err(InitError::InvalidSlug(e)),
    };
    if let Err(e) = heist_dir_repo.create(&slug_value) {
        return Err(InitError::Init(e));
    }
    let today = clock.today();
    let state = match State::new(&slug_value, today) {
        Ok(s) => s,
        Err(e) => return Err(InitError::InvalidSlug(e)),
    };
    match repo.init(&slug_value, &state) {
        Ok(()) => Ok(()),
        Err(e) => Err(InitError::Init(e)),
    }
}

/// Why `get` failed.
#[derive(Debug)]
pub enum GetError {
    Load(StateError),
    Field(ValueError),
}

/// The text of field `field` of heist `slug`'s state.
pub fn get<R: StateRepository>(repo: &mut R, slug: &SlugValue, field: &str) -> (r: Result<
    String,
    GetError,
>)
    ensures
        r matches Err(GetError::Field(e)) ==> e@ == ValueErrorView::Unknown(field@),
        r matches Ok(v) ==> exists|s: StateView| spec_get_field(s, field@) == Some(v@),
{
    let state = match repo.load(slug) {
        Ok(s) => s,
        Err(e) => return Err(GetError::Load(e)),
    };
    match state.get_field(field) {
        Ok(v) => Ok(v),
        Err(e) => Err(GetError::Field(e)),
    }
}

/// Why `set` failed.
#[derive(Debug)]
pub enum SetError {
    Field(ValueError),
    Load(StateError),
    Save(StateError),
}

/// The state after setting `field` to `value` on `today`.
pub open spec fn spec_apply_set(s: StateView, field: Seq<char>, value: Seq<char>, today: Seq<char>) -> Result<
    StateView,
    ValueErrorView,
> {
    match spec_set_field(s, field, value) {
        Ok(t) => Ok(StateView { updated: today, ..t }),
        Err(e) => Err(e),
    }
}

/// Sets `field` to `value` and stamps the state as updated `today`; a
/// refused value leaves the state as it was.
pub fn apply_set(state: &mut State, field: &str, value: &str, today: DateValue) -> (r: Result<
    (),
    ValueError,
>)
    ensures
        r is Ok ==> spec_apply_set(old(state)@, field@, value@, today@) == Ok::<
            StateView,
            ValueErrorView,
        >(final(state)@),
        r matches Err(e) ==> spec_apply_set(old(state)@, field@, value@, today@) == Err::<
            StateView,
            ValueErrorView,
        >(e@) && final(state)@ == old(state)@,
{
    state.set_field(field, value)?;
    state.updated = today;
    Ok(())
}

/// `l1` is `l0` with one more load, of `slug`.
pub open spec fn one_load(
    l0: Seq<(Seq<char>, Option<StateView>)>,
    l1: Seq<(Seq<char>, Option<StateView>)>,
    slug: Seq<char>,
) -> bool {
    l1.len() == l0.len() + 1 && l1.drop_last() == l0 && l1.last().0 == slug
}

/// `w1` is `w0` with one more write: of `slug`'s state `s`, stamped with
/// some day, and whether the write succeeded.
pub open spec fn one_stamped_write(
    w0: Seq<(Seq<char>, StateView, bool)>,
    w1: Seq<(Seq<char>, StateView, bool)>,
    slug: Seq<char>,
    s: StateView,
    ok: bool,
) -> bool {
    &&& w1.len() == w0.len() + 1
    &&& w1.drop_last() == w0
    &&& w1.last().0 == slug
    &&& w1.last().1 == StateView { updated: w1.last().1.updated, ..s }
    &&& w1.last().2 == ok
}

/// Sets field `field` of heist `slug`'s state to `value`.
pub fn set<R: StateRepository, C: Clock>(
    repo: &mut R,
    clock: &mut C,
    slug: &SlugValue,
    field: &str,
    value: &str,
) -> (r: Result<(), SetError>)
    ensures
        r matches Err(SetError::Field(e)) ==> exists|s: StateView, t: Seq<char>|
            spec_apply_set(s, field@, value@, t) == Err::<StateView, ValueErrorView>(e@),
        r is Ok ==> exists|s: StateView, t: Seq<char>|
            #[trigger] spec_apply_set(s, field@, value@, t) is Ok,
        one_load(loads_view(old(repo).loads()@), loads_view(final(repo).loads()@), slug@),
        loads_view(final(repo).loads()@).last().1 is None ==> (r matches Err(SetError::Load(_))
            && writes_view(final(repo).writes()@) == writes_view(old(repo).writes()@)),
        loads_view(final(repo).loads()@).last().1 matches Some(s) ==> match spec_set_field(
            s,
            field@,
            value@,
        ) {
            Err(e) => r matches Err(SetError::Field(x)) && x@ == e && writes_view(
                final(repo).writes()@,
            ) == writes_view(old(repo).writes()@),
            Ok(s2) => one_stamped_write(
                writes_view(old(repo).writes()@),
                writes_view(final(repo).writes()@),
                slug@,
                s2,
                r is Ok,
            ) && (r is Ok || r matches Err(SetError::Save(_))),
        },
{
    let mut state = match repo.load(slug) {
        Ok(s) => s,
        Err(e) => {
            assert(loads_view(repo.loads()@).drop_last() =~= loads_view(old(repo).loads()@));
            return Err(SetError::Load(e));
        },
    };
    assert(loads_view(repo.loads()@).drop_last() =~= loads_view(old(repo).loads()@));
    let today = clock.today();
    let ghost before = state@;
    if let Err(e) = apply_set(&mut state, field, value, today) {
        return Err(SetError::Field(e));
    }
    let ghost w0 = writes_view(repo.writes()@);
    let r = repo.save(slug, &state);
    assert(writes_view(repo.writes()@).drop_last() =~= w0);
    match r {
        Ok(()) => Ok(()),
        Err(e) => Err(SetError::Save(e)),
    }
}

/// Why `incr` failed.
#[derive(Debug)]
pub enum IncrError {
    Load(StateError),
    Field(ValueError),
    Save(StateError),
}

/// The state after incrementing `field` on `today`: the field must read as
/// a `u32` below its maximum, and the state takes the next number.
pub open spec fn spec_apply_incr(s: StateView, field: Seq<char>, today: Seq<char>) -> Result<
    StateView,
    ValueErrorView,
> {
    match spec_incr_value(s, field) {
        Err(e) => Err(e),
        Ok(v) => spec_apply_set(s, field, v, today),
    }
}

/// The text `field` takes when incremented: the next number after the one
/// it reads as, which must be a `u32` below its maximum.
pub open spec fn spec_incr_value(s: StateView, field: Seq<char>) -> Result<Seq<char>, ValueErrorView> {
    match spec_get_field(s, field) {
        None => Err(ValueErrorView::Unknown(field)),
        Some(current) => match parse_u32(current) {
            None => Err(ValueErrorView::NotIncrementable(field)),
            Some(n) => if n == u32::MAX {
                Err(invalid_numeric(field, current))
            } else {
                Ok(decimal((n + 1) as nat))
            },
        },
    }
}

/// Increments the numeric field `field` and stamps the state as updated
/// `today`; a refusal leaves the state as it was.
pub fn apply_incr(state: &mut State, field: &str, today: DateValue) -> (r: Result<(), ValueError>)
    ensures
        r is Ok ==> spec_apply_incr(old(state)@, field@, today@) == Ok::<
            StateView,
            ValueErrorView,
        >(final(state)@),
        r matches Err(e) ==> spec_apply_incr(old(state)@, field@, today@) == Err::<
            StateView,
            ValueErrorView,
        >(e@) && final(state)@ == old(state)@,
{
    let current = state.get_field(field)?;
    let cv = string_chars(&current);
    let parsed = match parse_u32_exec(&cv) {
        Some(n) => n,
        None => {
            return Err(ValueError::NotIncrementable(crate::text::owned(field)));
        },
    };
    if parsed == u32::MAX {
        return Err(ValueError::InvalidNumeric { field: crate::text::owned(field), value: current });
    }
    let next = string_from(&decimal_exec((parsed + 1) as u64));
    apply_set(state, field, next.as_str(), today)
}

/// Increments the numeric field `field` of heist `slug`'s state.
pub fn incr<R: StateRepository, C: Clock>(
    repo: &mut R,
    clock: &mut C,
    slug: &SlugValue,
    field: &str,
) -> (r: Result<(), IncrError>)
    ensures
        r matches Err(IncrError::Field(e)) ==> exists|s: StateView, t: Seq<char>|
            spec_apply_incr(s, field@, t) == Err::<StateView, ValueErrorView>(e@),
        r is Ok ==> exists|s: StateView, t: Seq<char>|
            #[trigger] spec_apply_incr(s, field@, t) is Ok,
        one_load(loads_view(old(repo).loads()@), loads_view(final(repo).loads()@), slug@),
        loads_view(final(repo).loads()@).last().1 is None ==> (r matches Err(IncrError::Load(_))
            && writes_view(final(repo).writes()@) == writes_view(old(repo).writes()@)),
        loads_view(final(repo).loads()@).last().1 matches Some(s) ==> match spec_incr_value(
            s,
            field@,
        ) {
            Err(e) => r matches Err(IncrError::Field(x)) && x@ == e && writes_view(
                final(repo).writes()@,
            ) == writes_view(old(repo).writes()@),
            Ok(v) => match spec_set_field(s, field@, v) {
                Err(e) => r matches Err(IncrError::Field(x)) && x@ == e && writes_view(
                    final(repo).writes()@,
                ) == writes_view(old(repo).writes()@),
                Ok(s2) => one_stamped_write(
                    writes_view(old(repo).writes()@),
                    writes_view(final(repo).writes()@),
                    slug@,
                    s2,
                    r is Ok,
                ) && (r is Ok || r matches Err(IncrError::Save(_))),
            },
        },
{
    let mut state = match repo.load(slug) {
        Ok(s) => s,
        Err(e) => {
            assert(loads_view(repo.loads()@).drop_last() =~= loads_view(old(repo).loads()@));
            return Err(IncrError::Load(e));
        },
    };
    assert(loads_view(repo.loads()@).drop_last() =~= loads_view(old(repo).loads()@));
    let today = clock.today();
    if let Err(e) = apply_incr(&mut state, field, today) {
        return Err(IncrError::Field(e));
    }
    let ghost w0 = writes_view(repo.writes()@);
    let r = repo.save(slug, &state);
    assert(writes_view(repo.writes()@).drop_last() =~= w0);
    match r {
        Ok(()) => Ok(()),
        Err(e) => Err(IncrError::Save(e)),
    }
}

/// The fields of the state and their types, one per line.
pub open spec fn field_list_text() -> Seq<char> {
    "schema_version: u32\nslug: string\nstage: string (casing|planning|fence_review|human_review|forging|safehouse|implementing|cleaning|done)\nmode: string (heavy|medium|light)\nworktree: string|null\nbranch: string|null\nbase: string|null\nscore_wave: u32\nscore_waves_total: u32\nscore_steps_total: u32\nfence_rounds: u32\ncreated: string\nupdated: string"@
}

/// The fields of the state and their types, as `state schema` lists them.
pub fn field_list() -> (r: &'static str)
    ensures
        r@ == field_list_text(),
{
    "schema_version: u32\nslug: string\nstage: string (casing|planning|fence_review|human_review|forging|safehouse|implementing|cleaning|done)\nmode: string (heavy|medium|light)\nworktree: string|null\nbranch: string|null\nbase: string|null\nscore_wave: u32\nscore_waves_total: u32\nscore_steps_total: u32\nfence_rounds: u32\ncreated: string\nupdated: string"
}

/// Incrementing a field and then reading it gives the number after the one
/// it read before (the `updated` stamp aside, which incrementing sets).
pub proof fn law_incr_reads_next(s: StateView, f: Seq<char>, t: Seq<char>)
    requires
        spec_apply_incr(s, f, t) is Ok,
        f != "updated"@,
    ensures
        spec_get_field(spec_apply_incr(s, f, t)->Ok_0, f) == Some(
            decimal((parse_u32(spec_get_field(s, f)->Some_0)->Some_0 + 1) as nat),
        ),
{
    let cur = spec_get_field(s, f)->Some_0;
    let n = parse_u32(cur)->Some_0;
    let v = decimal((n + 1) as nat);
    let s1 = spec_set_field(s, f, v)->Ok_0;
    crate::domain::state::lemma_decimal_parses((n + 1) as u32);
    if f == "schema_version"@ {
        crate::domain::state::lemma_decimal_parses(1);
        reveal_strlit("1");
        assert(decimal(1) =~= "1"@);
        assert(n == 1);
        assert(spec_set_field(s, f, v) is Err);
    } else {
        crate::domain::state::law_get_after_set(s, f, v);
        assert(spec_get_field(StateView { updated: t, ..s1 }, f) == spec_get_field(s1, f));
    }
}

} // verus!
