//! The names of every data column the exports can use.
use vstd::prelude::*;
use crate::strmap::{assoc_keys, StrMap};
use crate::text::{text, views};

verus! {

/// Where the column names are stored.
pub const TOML_FILE_PATH: &'static str = "configs/all_column_name.toml";

/// Every data column name with its description.
pub struct AllColumnNames {
    /// Column name to description.
    pub columns: StrMap<String>,
}

/// The path of the stored column names.
pub fn get_file_path() -> (r: String)
    ensures
        r@ == TOML_FILE_PATH@,
{
    text(TOML_FILE_PATH)
}

/// The column names, without their descriptions.
pub fn load_all_column_names(all_names: &AllColumnNames) -> (r: Vec<String>)
    ensures
        views(r@) == assoc_keys(all_names.columns@),
{
    let keys = all_names.columns.keys();
    assert(views(keys@) =~= keys@.map_values(|s: String| s@));
    keys
}

} // verus!
