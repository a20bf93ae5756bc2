//! The sheet of a query export: one column per key of the first row, one row
//! per result.
use vstd::prelude::*;
use crate::app_data_bridge::Record;
use crate::error::MyError;
use crate::strmap::assoc_keys;
use crate::text::{concat, str_eq, text, views};

verus! {

/// The message of an export without rows.
pub open spec fn no_data_message() -> Seq<char> {
    "警告,没有数据."@
}

/// The message of an export that could not be saved.
pub const SAVE_FAILED: &'static str = "数据导出错误，请注意软件目录下是否存在同名文件以及是否有读写权限!!!";

/// The column headers of an export: the keys of its first row; an error when
/// there is no row.
pub fn export_headers(datas: &Vec<Record>) -> (r: Result<Vec<String>, MyError>)
    ensures
        datas@.len() == 0 ==> (r matches Err(MyError::Zdyknown(m)) && m@ == no_data_message()),
        datas@.len() > 0 ==> (r matches Ok(h) && views(h@) == assoc_keys(datas@[0]@)),
{
    if datas.len() == 0 {
        return Err(MyError::Zdyknown(text("警告,没有数据.")));
    }
    let keys = datas[0].keys();
    assert(views(keys@) =~= keys@.map_values(|s: String| s@));
    Ok(keys)
}

/// The wide columns: serial number, test time, carton and box numbers and
/// their packing times.
pub open spec fn wide_column(key: Seq<char>) -> bool {
    key == "sn"@ || key == "testtime"@ || key == "carton_no"@ || key == "carton_packtime"@ || key == "box_no"@
        || key == "pack_packtime"@
}

/// The width of a column in pixels: 160 for a wide column, else 80.
pub fn column_width(key: &str) -> (r: u16)
    ensures
        wide_column(key@) ==> r == 160,
        !wide_column(key@) ==> r == 80,
{
    if str_eq(key, "sn") || str_eq(key, "testtime") || str_eq(key, "carton_no") || str_eq(key, "carton_packtime")
        || str_eq(key, "box_no") || str_eq(key, "pack_packtime") {
        160
    } else {
        80
    }
}

/// The file an export is saved to, named by the time of the export.
pub fn sn_export_path(datetime: &str) -> (r: String)
    ensures
        r@ == "sn_export-"@ + datetime@ + ".xlsx"@,
{
    let mut r = concat("sn_export-", datetime);
    r.append(".xlsx");
    r
}

} // verus!
