use vstd::prelude::*;

pub mod row_scan;
pub mod query_utils;
pub mod carton_querys;
pub mod box_querys;
pub mod carton_q_sn;
pub mod sn_query;
pub mod batch_query;
pub mod export2excel;

verus! {

} // verus!
