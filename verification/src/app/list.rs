//! `list`: every heist with where it stands.
use crate::domain::error::StateError;
use crate::domain::state::{opt_view, spec_route, Mode, Routing, Stage, State, StateView};
use crate::domain::value::{NonBlankValue, SlugValue};
use crate::ports::state_repository::{loads_view, StateRepository};
use vstd::prelude::*;

verus! {

/// One heist in the list.
#[derive(Debug)]
pub struct ListRow {
    pub slug: SlugValue,
    pub stage: Stage,
    pub next: Option<Routing>,
    pub worktree: Option<NonBlankValue>,
    pub mode: Mode,
}

impl ListRow {
    /// The row of a state: its slug, stage, mode, worktree and where its
    /// pipeline goes next.
    pub fn from_state(state: &State) -> (r: ListRow)
        ensures
            r.slug@ == state.slug@,
            r.stage == state.stage,
            r.mode == state.mode,
            r.next == spec_route(state.stage, state.mode),
            opt_view(r.worktree) == opt_view(state.worktree),
    {
        ListRow {
            slug: state.slug.duplicate(),
            stage: state.stage,
            next: crate::domain::state::route(state.stage, state.mode),
            worktree: match &state.worktree {
                Some(w) => Some(w.duplicate()),
                None => None,
            },
            mode: state.mode,
        }
    }
}

/// `row` is the row of the loaded state `l`.
pub open spec fn row_of_load(l: (Seq<char>, Option<StateView>), row: ListRow) -> bool {
    l.1 matches Some(s) && row.slug@ == s.slug && row.stage == s.stage && row.mode == s.mode
        && opt_view(row.worktree) == s.worktree && row.next == spec_route(s.stage, s.mode)
}

/// One row per load, in order, each the row of the state loaded, every load
/// having succeeded.
pub open spec fn rows_of_loads(n: Seq<(Seq<char>, Option<StateView>)>, rows: Seq<ListRow>) -> bool {
    n.len() == rows.len() && forall|k: int| 0 <= k < rows.len() ==> #[trigger] row_of_load(n[k], rows[k])
}

/// Why `list` failed.
#[derive(Debug)]
pub enum ListError {
    ListSlugs(StateError),
    Load { slug: SlugValue, error: StateError },
}

/// A row per heist, in the order the repository lists them.
pub fn list<R: StateRepository>(repo: &mut R) -> (r: Result<Vec<ListRow>, ListError>)
    ensures
        r matches Ok(rows) ==> forall|i: int|
            0 <= i < rows@.len() ==> (#[trigger] rows@[i]).next == spec_route(
                rows@[i].stage,
                rows@[i].mode,
            ),
        loads_view(final(repo).loads()@).len() >= loads_view(old(repo).loads()@).len(),
        loads_view(final(repo).loads()@).take(loads_view(old(repo).loads()@).len() as int)
            == loads_view(old(repo).loads()@),
        r matches Ok(rows) ==> rows_of_loads(
            loads_view(final(repo).loads()@).skip(loads_view(old(repo).loads()@).len() as int),
            rows@,
        ),
{
    let slugs = match repo.list_slugs() {
        Ok(s) => s,
        Err(e) => return Err(ListError::ListSlugs(e)),
    };
    let ghost l0 = loads_view(repo.loads()@);
    let mut rows: Vec<ListRow> = Vec::new();
    assert(loads_view(repo.loads()@).skip(l0.len() as int) =~= Seq::empty());
    let mut i: usize = 0;
    while i < slugs.len()
        invariant
            i <= slugs.len(),
            rows@.len() == i,
            l0 == loads_view(old(repo).loads()@),
            loads_view(repo.loads()@).len() >= l0.len(),
            loads_view(repo.loads()@).take(l0.len() as int) == l0,
            rows_of_loads(loads_view(repo.loads()@).skip(l0.len() as int), rows@),
            forall|k: int|
                0 <= k < rows@.len() ==> (#[trigger] rows@[k]).next == spec_route(
                    rows@[k].stage,
                    rows@[k].mode,
                ),
        decreases slugs.len() - i,
    {
        let ghost before = loads_view(repo.loads()@);
        let got = repo.load(&slugs[i]);
        proof {
            let after = loads_view(repo.loads()@);
            assert(after.take(l0.len() as int) =~= l0);
            assert(after.skip(l0.len() as int) =~= before.skip(l0.len() as int).push(after.last()));
        }
        let state = match got {
            Ok(s) => s,
            Err(error) => return Err(ListError::Load { slug: slugs[i].duplicate(), error }),
        };
        let ghost rows_before = rows@;
        rows.push(ListRow::from_state(&state));
        proof {
            let n = loads_view(repo.loads()@).skip(l0.len() as int);
            assert forall|k: int| 0 <= k < rows@.len() implies #[trigger] row_of_load(n[k], rows@[k]) by {
                if k < rows_before.len() {
                    assert(rows@[k] == rows_before[k]);
                    assert(n[k] == before.skip(l0.len() as int)[k]);
                }
            }
        }
        i += 1;
    }
    Ok(rows)
}

} // verus!
