//! The carton export: query a carton's modules, then fill the templates of
//! its product type.
use vstd::prelude::*;

pub mod works;
pub mod screen;

verus! {

/// The exporter: runs carton queries and fills export templates.
pub struct Exporter;

} // verus!
