use crate::domain::value::DateValue;
use vstd::prelude::*;

verus! {

/// Today's date.
pub trait Clock {
    fn today(&mut self) -> DateValue;
}

} // verus!
