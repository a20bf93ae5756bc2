//! Queries of modules by carton, box or serial number, and their export.
use vstd::prelude::*;

pub mod works;
pub mod screen;
pub mod rows;

verus! {

/// The query runner: box, carton and serial-number queries and their export.
pub struct DatasQueryer;

} // verus!
