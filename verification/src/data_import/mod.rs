//! Importing measured modules from sheets into the test table.
use vstd::prelude::*;

pub mod work;

verus! {

/// The importer: reads sheets and writes their modules to the test table.
pub struct DataImporter;

} // verus!
