use vstd::prelude::*;

pub mod named;
pub mod column_map_config;
pub mod type_config;
pub mod decimal_config;
pub mod get_all_column_name;

verus! {

} // verus!
