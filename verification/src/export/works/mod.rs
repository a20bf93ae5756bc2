use vstd::prelude::*;

pub mod carton_query;
pub mod query_utils;
pub mod export2excel;
pub mod sn_query;

verus! {

} // verus!
