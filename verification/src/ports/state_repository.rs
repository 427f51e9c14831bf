use crate::domain::error::StateError;
use crate::domain::state::{State, StateView};
use crate::domain::value::SlugValue;
use vstd::prelude::*;

verus! {

/// The states written by a log: the heist, the state, and whether the
/// write succeeded.
pub open spec fn writes_view(v: Seq<(String, State, bool)>) -> Seq<(Seq<char>, StateView, bool)> {
    v.map_values(|w: (String, State, bool)| (w.0@, w.1@, w.2))
}

/// The loads of a log: the heist, and the state loaded (`None` when the
/// load failed).
pub open spec fn loads_view(v: Seq<(String, Option<State>)>) -> Seq<(Seq<char>, Option<StateView>)> {
    v.map_values(
        |l: (String, Option<State>)|
            (
                l.0@,
                match l.1 {
                    Some(s) => Some(s@),
                    None => None,
                },
            ),
    )
}

/// Where the state of each heist is kept. Each implementation keeps the log
/// of the states it was asked to write (by `init` and `save`) and of what
/// each `load` gave; the other operations neither write nor load.
pub trait StateRepository {
    /// The writes asked so far, in order.
    spec fn writes(&self) -> Vec<(String, State, bool)>;

    /// The loads asked so far, in order.
    spec fn loads(&self) -> Vec<(String, Option<State>)>;

    fn has_state(&mut self, slug: &SlugValue) -> (r: bool)
        ensures
            writes_view(final(self).writes()@) == writes_view(old(self).writes()@),
            loads_view(final(self).loads()@) == loads_view(old(self).loads()@),
    ;

    /// Creates a heist's state for the first time.
    fn init(&mut self, slug: &SlugValue, state: &State) -> (r: Result<(), StateError>)
        ensures
            writes_view(final(self).writes()@) == writes_view(old(self).writes()@).push(
                (slug@, state@, r is Ok),
            ),
            loads_view(final(self).loads()@) == loads_view(old(self).loads()@),
    ;

    fn load(&mut self, slug: &SlugValue) -> (r: Result<State, StateError>)
        ensures
            writes_view(final(self).writes()@) == writes_view(old(self).writes()@),
            loads_view(final(self).loads()@) == loads_view(old(self).loads()@).push(
                (
                    slug@,
                    match r {
                        Ok(s) => Some(s@),
                        Err(_) => None,
                    },
                ),
            ),
    ;

    fn save(&mut self, slug: &SlugValue, state: &State) -> (r: Result<(), StateError>)
        ensures
            writes_view(final(self).writes()@) == writes_view(old(self).writes()@).push(
                (slug@, state@, r is Ok),
            ),
            loads_view(final(self).loads()@) == loads_view(old(self).loads()@),
    ;

    fn list_slugs(&mut self) -> (r: Result<Vec<SlugValue>, StateError>)
        ensures
            writes_view(final(self).writes()@) == writes_view(old(self).writes()@),
            loads_view(final(self).loads()@) == loads_view(old(self).loads()@),
    ;
}

} // verus!
