use vstd::prelude::*;

pub mod text;
pub mod strmap;
pub mod error;
pub mod records;
pub mod sorting;
pub mod app_data_bridge;
pub mod configs;
pub mod export;
pub mod querys;
pub mod box_band;
pub mod data_import;
pub mod navigation;
pub mod login;

verus! {

} // verus!
