//! Binding the boxes of a carton to new box numbers, and undoing bindings.
use vstd::prelude::*;

pub mod work;
pub mod view;

verus! {

} // verus!
