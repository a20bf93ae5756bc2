//! The serial numbers of a carton with their latest test records.
use vstd::prelude::*;
use crate::error::MyError;
use crate::export::works::carton_query::first_sn_at;
use crate::export::works::query_utils::data_sns;
use crate::querys::works::carton_querys::{carton_empty_message, missing_box_message};
use crate::querys::works::row_scan::{scan_keys, scan_rows, KeyedRow};
use crate::records::{or_empty, text_or_empty, BandData, CartonData, Data, Datas, PackData};
use crate::text::{concat, str_eq};

verus! {

/// Start of the query of a carton's serial numbers, before the carton number.
pub const CARTON_SN_HEAD: &'static str = "select a.sn, a.Pack_no, b.CartonNo\n            from [mes_Factory].[dbo].[MaterialPackSn] a\n            inner join [mes_Factory].[dbo].[packing_carton] b on a.Pack_no = b.Packing_no\n            where b.CartonNo = '";

/// End of the query of a carton's serial numbers, after the carton number.
pub const CARTON_SN_TAIL: &'static str = "' and b.PnOptionID = '-100'\n            order by b.CreateTime desc, b.Packing_no desc, a.Pack_no asc";

/// The query of the serial numbers packed into `carton`.
pub fn build_carton_sn_sql(carton: &str) -> (r: String)
    ensures
        r@ == CARTON_SN_HEAD@ + carton@ + CARTON_SN_TAIL@,
{
    let mut r = concat(CARTON_SN_HEAD, carton);
    r.append(CARTON_SN_TAIL);
    r
}

/// One row of the query of a carton's serial numbers.
pub struct SnBoxRow {
    /// Serial number.
    pub sn: Option<String>,
    /// Box number.
    pub box_no: Option<String>,
}

/// Such a row is named by its serial number.
impl KeyedRow for SnBoxRow {
    open spec fn row_key(&self) -> Option<Seq<char>> {
        match self.sn {
            Some(s) => Some(s@),
            None => None,
        }
    }

    fn key_ref(&self) -> (r: Option<&String>) {
        match &self.sn {
            Some(s) => Some(s),
            None => None,
        }
    }
}

/// `d` is the module a kept row describes: its serial number and box, nothing else.
pub open spec fn datas_of_sn_box_row(d: Datas, x: SnBoxRow) -> bool {
    &&& d.carton_data.is_blank()
    &&& d.pack_data.box_no@ == or_empty(x.box_no)
    &&& d.pack_data.pack_worker@.len() == 0
    &&& d.pack_data.pack_packtime@.len() == 0
    &&& d.sn_data.sn@ == or_empty(x.sn)
    &&& d.sn_data.is_blank_but_sn()
    &&& d.band_data.is_blank()
}

/// The modules of a carton from the rows of its query: the first row of each
/// serial number, in order; an error naming the carton at the first row
/// without a serial number, or when there is no row.
pub fn carton_sn_datas_from_rows(rows: Vec<SnBoxRow>, carton: &str) -> (r: Result<Vec<Datas>, MyError>)
    ensures
        scan_keys(rows@).0 ==> (r matches Err(MyError::Zdyknown(m)) && m@ == missing_box_message(carton@)),
        !scan_keys(rows@).0 && scan_keys(rows@).1.len() == 0 ==> (r matches Err(MyError::Zdyknown(m)) && m@ == carton_empty_message(carton@)),
        !scan_keys(rows@).0 && scan_keys(rows@).1.len() > 0 ==> (r matches Ok(v) && v@.len() == scan_keys(rows@).1.len()
            && forall|i: int| 0 <= i < v@.len() ==> datas_of_sn_box_row(#[trigger] v@[i], scan_keys(rows@).1[i])),
{
    let (failed, kept) = scan_rows(rows);
    if failed {
        let mut m = concat("箱号:", carton);
        m.append(",没有找到sn信息，请注意箱号是否正确!!!");
        return Err(MyError::Zdyknown(m));
    }
    if kept.len() == 0 {
        let mut m = concat("箱号 '", carton);
        m.append("' 没有找到数据");
        return Err(MyError::Zdyknown(m));
    }
    let mut out: Vec<Datas> = Vec::new();
    let mut i: usize = 0;
    while i < kept.len()
        invariant
            i <= kept@.len(),
            out@.len() == i,
            forall|k: int| 0 <= k < i ==> datas_of_sn_box_row(#[trigger] out@[k], kept@[k]),
        decreases kept.len() - i,
    {
        let x = &kept[i];
        let mut sn_data = Data::empty();
        sn_data.sn = text_or_empty(&x.sn);
        let d = Datas {
            carton_data: CartonData::empty(),
            pack_data: PackData { box_no: text_or_empty(&x.box_no), pack_worker: String::new(), pack_packtime: String::new() },
            sn_data,
            band_data: BandData::empty(),
        };
        out.push(d);
        i = i + 1;
    }
    Ok(out)
}

/// Every module has a test record among `datas`.
pub open spec fn all_have_records(all: Seq<Datas>, datas: Seq<Data>) -> bool {
    forall|i: int| 0 <= i < all.len() ==> data_sns(datas).contains(#[trigger] all[i].sn_data.sn@)
}

/// Whether every module has a test record among `datas`.
pub fn have_all_records(all: &Vec<Datas>, datas: &Vec<Data>) -> (r: bool)
    ensures
        r == all_have_records(all@, datas@),
{
    let mut i: usize = 0;
    while i < all.len()
        invariant
            i <= all@.len(),
            forall|k: int| 0 <= k < i ==> data_sns(datas@).contains(#[trigger] all@[k].sn_data.sn@),
        decreases all.len() - i,
    {
        let mut q: usize = 0;
        let mut found = false;
        while q < datas.len()
            invariant
                q <= datas@.len(),
                i < all@.len(),
                found ==> data_sns(datas@).contains(all@[i as int].sn_data.sn@),
                !found ==> forall|k: int| 0 <= k < q ==> datas@[k].sn@ != all@[i as int].sn_data.sn@,
            decreases datas.len() - q,
        {
            if !found && str_eq(datas[q].sn.as_str(), all[i].sn_data.sn.as_str()) {
                assert(data_sns(datas@)[q as int] == all@[i as int].sn_data.sn@);
                found = true;
            }
            q = q + 1;
        }
        if !found {
            proof {
                if data_sns(datas@).contains(all@[i as int].sn_data.sn@) {
                    let w = choose|w: int| 0 <= w < datas@.len() && data_sns(datas@)[w] == all@[i as int].sn_data.sn@;
                    assert(datas@[w].sn@ == all@[i as int].sn_data.sn@);
                }
            }
            return false;
        }
        i = i + 1;
    }
    true
}

/// Gives every module the first test record of its serial number.
pub fn attach_test_records(all: Vec<Datas>, datas: &Vec<Data>) -> (r: Vec<Datas>)
    requires
        all_have_records(all@, datas@),
    ensures
        r@.len() == all@.len(),
        forall|i: int| 0 <= i < r@.len() ==> (#[trigger] r@[i]).carton_data == all@[i].carton_data
            && r@[i].pack_data == all@[i].pack_data
            && r@[i].band_data == all@[i].band_data
            && exists|j: int| first_sn_at(datas@, all@[i].sn_data.sn@, j) && r@[i].sn_data == datas@[j],
{
    let ghost s = all@;
    let n = all.len();
    let mut rest = all;
    let mut out: Vec<Datas> = Vec::new();
    let mut i: usize = 0;
    while i < n
        invariant
            i <= n,
            n == s.len(),
            rest@ == s.skip(i as int),
            all_have_records(s, datas@),
            out@.len() == i,
            forall|k: int| 0 <= k < i ==> (#[trigger] out@[k]).carton_data == s[k].carton_data
                && out@[k].pack_data == s[k].pack_data
                && out@[k].band_data == s[k].band_data
                && exists|j: int| first_sn_at(datas@, s[k].sn_data.sn@, j) && out@[k].sn_data == datas@[j],
        decreases n - i,
    {
        let mut d = rest.remove(0);
        assert(d == s[i as int]);
        assert(rest@ =~= s.skip(i + 1));
        assert(data_sns(datas@).contains(s[i as int].sn_data.sn@));
        let mut q: usize = 0;
        while q < datas.len()
            invariant
                q <= datas@.len(),
                d == s[i as int],
                data_sns(datas@).contains(d.sn_data.sn@),
                forall|k: int| 0 <= k < q ==> datas@[k].sn@ != d.sn_data.sn@,
            ensures
                q <= datas@.len(),
                forall|k: int| 0 <= k < q ==> datas@[k].sn@ != d.sn_data.sn@,
                q < datas@.len() ==> datas@[q as int].sn@ == d.sn_data.sn@,
            decreases datas.len() - q,
        {
            if str_eq(datas[q].sn.as_str(), d.sn_data.sn.as_str()) {
                break;
            }
            q = q + 1;
        }
        if q >= datas.len() {
            proof {
                let w = choose|w: int| 0 <= w < datas@.len() && data_sns(datas@)[w] == d.sn_data.sn@;
                assert(datas@[w].sn@ == d.sn_data.sn@);
            }
        }
        assert(q < datas@.len());
        assert(first_sn_at(datas@, s[i as int].sn_data.sn@, q as int));
        d.sn_data = datas[q].copy();
        out.push(d);
        i = i + 1;
    }
    out
}

} // verus!
