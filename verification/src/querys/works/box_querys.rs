//! The box query: the modules packed into a box, or under a part number or
//! in a time span, with their latest test records, ordered by box number.
use vstd::prelude::*;
use crate::app_data_bridge::Record;
use crate::error::MyError;
use crate::export::works::carton_query::{carton_record, flatten_datas, merge_test_data, merged_rows, merged_with, lemma_record_box_no};
use crate::export::works::query_utils::{latest_per_sn, latest_per_sn_spec, found_or_no_result, data_sns};
use crate::querys::works::row_scan::{scan_keys, scan_rows, KeyedRow};
use crate::records::{or_empty, text_or_empty, BandData, CartonData, Data, Datas, PackData};
use crate::sorting::{sort_by_box_no, stable_sort_of, BoxKeyed};
use crate::text::{concat, decimal, decimal_text, join_texts, quote, quoted, seq_join, text, views, lemma_unique_contains};

verus! {

/// Start of the box query, before its conditions.
pub const BOX_HEAD: &'static str = "\n        SELECT sn, Pack_no, pn, creator, createtime\n        FROM [mes_Factory].[dbo].[MaterialPackSn]\n        WHERE PnOptionID = '-100'\n    ";

/// The conditions of the box query and the values bound to them: box number,
/// part number and packing-time span, each when given, numbered `@P1`, `@P2`,
/// ... in that order.
pub open spec fn box_query_spec(box_no: Seq<char>, pn: Seq<char>, use_time: bool, start: Seq<char>, end: Seq<char>) -> (Seq<char>, Seq<Seq<char>>) {
    let b: nat = if box_no.len() > 0 { 1 } else { 0 };
    let p: nat = if pn.len() > 0 { 1 } else { 0 };
    let box_part = if b == 1 { " AND Pack_no = @P"@ + decimal(1) } else { Seq::empty() };
    let pn_part = if p == 1 { " AND pn = @P"@ + decimal(1 + b) } else { Seq::empty() };
    let time_part = if use_time {
        " AND createtime BETWEEN @P"@ + decimal(1 + b + p) + " AND @P"@ + decimal(2 + b + p)
    } else {
        Seq::empty()
    };
    let params = (if b == 1 { seq![box_no] } else { Seq::empty() })
        + (if p == 1 { seq![pn] } else { Seq::empty() })
        + (if use_time { seq![start, end] } else { Seq::empty() });
    (BOX_HEAD@ + box_part + pn_part + time_part + " ORDER BY CreateTime DESC"@, params)
}

/// The message of a time query without both bounds.
pub open spec fn box_time_message() -> Seq<char> {
    "使用时间查询时，开始时间和结束时间不能为空"@
}

/// The box query and its bound values; an error when the time switch is on
/// and a bound is missing.
pub fn build_box_query(box_no: &str, pn: &str, use_time: bool, start: &str, end: &str) -> (r: Result<(String, Vec<String>), MyError>)
    ensures
        use_time && (start@.len() == 0 || end@.len() == 0) ==> (r matches Err(MyError::Zdyknown(m)) && m@ == box_time_message()),
        !(use_time && (start@.len() == 0 || end@.len() == 0)) ==> (r matches Ok(q) && q.0@ == box_query_spec(box_no@, pn@, use_time, start@, end@).0
            && views(q.1@) == box_query_spec(box_no@, pn@, use_time, start@, end@).1),
{
    let mut sql = text(BOX_HEAD);
    let mut params: Vec<String> = Vec::new();
    let mut k: usize = 1;
    let ghost b: nat = if box_no@.len() > 0 { 1 } else { 0 };
    let ghost p: nat = if pn@.len() > 0 { 1 } else { 0 };
    if box_no.unicode_len() > 0 {
        sql.append(" AND Pack_no = @P");
        sql.append(decimal_text(k).as_str());
        params.push(text(box_no));
        k = k + 1;
    }
    assert(k == 1 + b);
    if pn.unicode_len() > 0 {
        sql.append(" AND pn = @P");
        sql.append(decimal_text(k).as_str());
        params.push(text(pn));
        k = k + 1;
    }
    assert(k == 1 + b + p);
    if use_time {
        if start.unicode_len() == 0 || end.unicode_len() == 0 {
            return Err(MyError::Zdyknown(text("使用时间查询时，开始时间和结束时间不能为空")));
        }
        sql.append(" AND createtime BETWEEN @P");
        sql.append(decimal_text(k).as_str());
        sql.append(" AND @P");
        sql.append(decimal_text(k + 1).as_str());
        params.push(text(start));
        params.push(text(end));
    }
    sql.append(" ORDER BY CreateTime DESC");
    let ghost spec = box_query_spec(box_no@, pn@, use_time, start@, end@);
    assert(sql@ =~= spec.0);
    assert(views(params@) =~= spec.1);
    Ok((sql, params))
}

/// One row of the box query, as read from the database.
pub struct BoxRow {
    /// Serial number.
    pub sn: Option<String>,
    /// Box number.
    pub box_no: Option<String>,
    /// Part number.
    pub yypn: Option<String>,
    /// Box packer.
    pub pack_worker: Option<String>,
    /// Box packing time, formatted.
    pub pack_time: String,
}

/// A box row is named by its serial number.
impl KeyedRow for BoxRow {
    open spec fn row_key(&self) -> Option<Seq<char>> {
        match self.sn {
            Some(s) => Some(s@),
            None => None,
        }
    }

    fn key_ref(&self) -> (r: Option<&String>) {
        match &self.sn {
            Some(s) => Some(s),
            None => None,
        }
    }
}

/// The row holds every value the query reads from a kept row.
pub open spec fn box_row_complete(x: BoxRow) -> bool {
    &&& x.sn is Some
    &&& x.box_no is Some
    &&& x.yypn is Some
    &&& x.pack_worker is Some
}

/// `d` is the module a kept box row describes.
pub open spec fn datas_of_box_row(d: Datas, x: BoxRow) -> bool {
    &&& d.carton_data.is_blank()
    &&& d.pack_data.box_no@ == or_empty(x.box_no)
    &&& d.pack_data.pack_worker@ == or_empty(x.pack_worker)
    &&& d.pack_data.pack_packtime == x.pack_time
    &&& d.sn_data.sn@ == or_empty(x.sn)
    &&& d.sn_data.yypn@ == or_empty(x.yypn)
    &&& d.band_data.is_blank()
    &&& d.sn_data.ith@.len() == 0
    &&& d.sn_data.testdate@.len() == 0
    &&& d.sn_data.mdpid@.len() == 0
    &&& d.sn_data.box_no is None
    &&& d.sn_data.carton_no is None
}

/// The module a complete box row describes.
pub fn datas_from_box_row(x: &BoxRow) -> (d: Datas)
    requires
        box_row_complete(*x),
    ensures
        datas_of_box_row(d, *x),
{
    let mut sn_data = Data::empty();
    sn_data.sn = text_or_empty(&x.sn);
    sn_data.yypn = text_or_empty(&x.yypn);
    Datas {
        carton_data: CartonData::empty(),
        pack_data: PackData {
            box_no: text_or_empty(&x.box_no),
            pack_worker: text_or_empty(&x.pack_worker),
            pack_packtime: x.pack_time.clone(),
        },
        sn_data,
        band_data: BandData::empty(),
    }
}

/// The message of a box row without a serial number.
pub open spec fn missing_sn_message() -> Seq<char> {
    "查询结果中缺少 SN 信息。"@
}

/// The modules of the box query from its rows: the first row of each serial
/// number, in order; an error at the first row without one.
pub fn box_datas_from_rows(rows: Vec<BoxRow>) -> (r: Result<Vec<Datas>, MyError>)
    requires
        forall|i: int| 0 <= i < scan_keys(rows@).1.len() ==> box_row_complete(#[trigger] scan_keys(rows@).1[i]),
    ensures
        scan_keys(rows@).0 ==> (r matches Err(MyError::Zdyknown(m)) && m@ == missing_sn_message()),
        !scan_keys(rows@).0 ==> (r matches Ok(v) && v@.len() == scan_keys(rows@).1.len()
            && forall|i: int| 0 <= i < v@.len() ==> datas_of_box_row(#[trigger] v@[i], scan_keys(rows@).1[i])),
{
    let (failed, kept) = scan_rows(rows);
    if failed {
        return Err(MyError::Zdyknown(text("查询结果中缺少 SN 信息。")));
    }
    let mut out: Vec<Datas> = Vec::new();
    let mut i: usize = 0;
    while i < kept.len()
        invariant
            i <= kept@.len(),
            forall|k: int| 0 <= k < kept@.len() ==> box_row_complete(#[trigger] kept@[k]),
            out@.len() == i,
            forall|k: int| 0 <= k < i ==> datas_of_box_row(#[trigger] out@[k], kept@[k]),
        decreases kept.len() - i,
    {
        out.push(datas_from_box_row(&kept[i]));
        i = i + 1;
    }
    Ok(out)
}

/// The serial numbers of the modules, quoted and separated by ",".
pub fn sn_in_list(all: &Vec<Datas>) -> (r: String)
    ensures
        r@ == seq_join(all@.map_values(|d: Datas| quoted(d.sn_data.sn@)), ","@),
{
    let mut q: Vec<String> = Vec::new();
    let mut i: usize = 0;
    while i < all.len()
        invariant
            i <= all@.len(),
            q@.len() == i,
            forall|k: int| 0 <= k < i ==> (#[trigger] q@[k])@ == quoted(all@[k].sn_data.sn@),
        decreases all.len() - i,
    {
        q.push(quote(all[i].sn_data.sn.as_str()));
        i = i + 1;
    }
    assert(views(q@) =~= all@.map_values(|d: Datas| quoted(d.sn_data.sn@)));
    join_texts(&q, ",")
}

/// The latest test record of each module found, or `NoResult` when none was.
pub fn get_sn_info(datas: &Vec<Data>) -> (r: Result<Vec<Data>, MyError>)
    ensures
        datas@.len() == 0 ==> (r matches Err(MyError::NoResult(m)) && m@.len() == 0),
        datas@.len() > 0 ==> (r matches Ok(v) && latest_per_sn_spec(v@, datas@)),
{
    let latest = latest_per_sn(datas);
    proof {
        if datas@.len() > 0 {
            assert(data_sns(datas@)[0] == datas@[0].sn@);
            assert(data_sns(datas@).contains(datas@[0].sn@));
            lemma_unique_contains(data_sns(datas@), datas@[0].sn@);
            assert(datas@.take(datas@.len() as int) =~= datas@);
            assert(data_sns(latest@).len() > 0);
        } else {
            assert(datas@.take(0) =~= datas@);
            assert(data_sns(datas@) =~= Seq::<Seq<char>>::empty());
            assert(data_sns(latest@).len() == 0);
        }
    }
    found_or_no_result(latest)
}

/// Files every module under the carton `carton_no`.
pub fn apply_carton_no(all: Vec<Datas>, carton_no: &str) -> (r: Vec<Datas>)
    ensures
        r@.len() == all@.len(),
        forall|i: int| 0 <= i < r@.len() ==> (#[trigger] r@[i]).carton_data.carton_no@ == carton_no@
            && r@[i].carton_data.pch == all@[i].carton_data.pch
            && r@[i].carton_data.yypn == all@[i].carton_data.yypn
            && r@[i].carton_data.carton_worker == all@[i].carton_data.carton_worker
            && r@[i].carton_data.carton_packtime == all@[i].carton_data.carton_packtime
            && r@[i].pack_data == all@[i].pack_data
            && r@[i].sn_data == all@[i].sn_data
            && r@[i].band_data == all@[i].band_data,
{
    let ghost s = all@;
    let n = all.len();
    let mut rest = all;
    let mut out: Vec<Datas> = Vec::new();
    let mut i: usize = 0;
    while i < n
        invariant
            i <= n,
            n == s.len(),
            rest@ == s.skip(i as int),
            out@.len() == i,
            forall|k: int| 0 <= k < i ==> (#[trigger] out@[k]).carton_data.carton_no@ == carton_no@
                && out@[k].carton_data.pch == s[k].carton_data.pch
                && out@[k].carton_data.yypn == s[k].carton_data.yypn
                && out@[k].carton_data.carton_worker == s[k].carton_data.carton_worker
                && out@[k].carton_data.carton_packtime == s[k].carton_data.carton_packtime
                && out@[k].pack_data == s[k].pack_data
                && out@[k].sn_data == s[k].sn_data
                && out@[k].band_data == s[k].band_data,
        decreases n - i,
    {
        let mut d = rest.remove(0);
        assert(d == s[i as int]);
        assert(rest@ =~= s.skip(i + 1));
        d.carton_data.carton_no = text(carton_no);
        out.push(d);
        i = i + 1;
    }
    out
}

/// `pre` holds, for each module of `all`, its result row with its test record
/// from `sn_datas` (the first one found, if any).
pub open spec fn formatted_rows(pre: Seq<Record>, all: Seq<Datas>, sn_datas: Seq<Data>) -> bool {
    exists|m: Seq<Datas>| #[trigger] merged_rows(m, pre, all, sn_datas)
}

/// Each module with its test record, as a result row.
pub fn merge_and_format_results(all: Vec<Datas>, sn_datas: &Vec<Data>) -> (r: Vec<Record>)
    ensures
        formatted_rows(r@, all@, sn_datas@),
{
    let ghost s = all@;
    let n = all.len();
    let mut rest = all;
    let mut out: Vec<Record> = Vec::new();
    let ghost mut ms: Seq<Datas> = Seq::empty();
    let mut i: usize = 0;
    while i < n
        invariant
            i <= n,
            n == s.len(),
            rest@ == s.skip(i as int),
            out@.len() == i,
            ms.len() == i,
            forall|k: int| 0 <= k < i ==> merged_with(#[trigger] ms[k], s[k], sn_datas@),
            forall|k: int| 0 <= k < i ==> (#[trigger] out@[k])@ == carton_record(ms[k]),
        decreases n - i,
    {
        let d = rest.remove(0);
        assert(d == s[i as int]);
        assert(rest@ =~= s.skip(i + 1));
        let m = merge_test_data(d, sn_datas);
        proof {
            ms = ms.push(m);
        }
        out.push(flatten_datas(m));
        i = i + 1;
    }
    assert(merged_rows(ms, out@, s, sn_datas@));
    out
}

/// What a box query that found nothing names: the box number if given, else
/// the part number if given, else the time span.
pub open spec fn query_key(box_no: Seq<char>, pn: Seq<char>) -> Seq<char> {
    if box_no.len() > 0 {
        box_no
    } else if pn.len() > 0 {
        pn
    } else {
        "时间范围"@
    }
}

/// The message of a box query that found nothing.
pub open spec fn box_empty_message(box_no: Seq<char>, pn: Seq<char>) -> Seq<char> {
    "查询条件 '"@ + query_key(box_no, pn) + "' 没有找到数据"@
}

/// The result rows of the box query: each module with its test record, ordered
/// by box number; an error naming the query when it found no module.
pub fn box_result_rows(all: Vec<Datas>, sn_datas: &Vec<Data>, box_no: &str, pn: &str) -> (r: Result<Vec<Record>, MyError>)
    ensures
        all@.len() == 0 ==> (r matches Err(MyError::Zdyknown(m)) && m@ == box_empty_message(box_no@, pn@)),
        all@.len() > 0 ==> (r matches Ok(v) && exists|pre: Seq<Record>| #[trigger] formatted_rows(pre, all@, sn_datas@) && stable_sort_of(v@, pre)),
{
    let ghost s = all@;
    let rows = merge_and_format_results(all, sn_datas);
    if rows.len() == 0 {
        let key = if box_no.unicode_len() > 0 {
            text(box_no)
        } else if pn.unicode_len() > 0 {
            text(pn)
        } else {
            text("时间范围")
        };
        let mut m = concat("查询条件 '", key.as_str());
        m.append("' 没有找到数据");
        return Err(MyError::Zdyknown(m));
    }
    proof {
        let ms = choose|ms: Seq<Datas>| #[trigger] merged_rows(ms, rows@, s, sn_datas@);
        assert forall|k: int| 0 <= k < rows@.len() implies #[trigger] rows@[k].has_box_key() by {
            lemma_record_box_no(ms[k]);
        }
    }
    let ghost pre = rows@;
    let sorted = sort_by_box_no(rows);
    assert(formatted_rows(pre, s, sn_datas@));
    Ok(sorted)
}

/// The query of the carton a box was packed into.
pub fn carton_of_box_sql(box_no: &str) -> (r: String)
    ensures
        r@ == "SELECT TOP 1 CartonNo FROM [mes_Factory].[dbo].[packing_carton] WHERE Packing_no = '"@ + box_no@ + "'"@,
{
    let mut r = concat("SELECT TOP 1 CartonNo FROM [mes_Factory].[dbo].[packing_carton] WHERE Packing_no = '", box_no);
    r.append("'");
    r
}

} // verus!
