//! The carton query: the boxes of a carton, or of a part number or a time
//! span, one per box number, ordered by box number.
use vstd::prelude::*;
use crate::app_data_bridge::Record;
use crate::error::MyError;
use crate::querys::works::row_scan::{scan_keys, scan_rows, KeyedRow};
use crate::records::{or_empty, BandData, CartonData, Data, Datas, PackData};
use crate::sorting::{sort_by_box_no, stable_sort_of};
use crate::strmap::{entries_view, StrMap};
use crate::text::{concat, text};

verus! {

/// Start of the carton query, up to its conditions.
pub const CARTON_LIST_HEAD: &'static str = "select  a.Pack_no, a.pn, a.creator, a.createtime, b.creator, b.createtime, b.CartonNo\n            from [mes_Factory].[dbo].[MaterialPackSn] a\n            inner join [mes_Factory].[dbo].[packing_carton] b on a.Pack_no = b.Packing_no\n            where ";

/// End of the carton query, after its conditions.
pub const CARTON_LIST_TAIL: &'static str = "\n            order by b.CreateTime desc, b.Packing_no desc, a.Pack_no asc";

/// The conditions of the carton query: whichever of carton number, part
/// number and packing-time span are given, and always the packing option.
pub open spec fn carton_where(carton: Seq<char>, pn: Seq<char>, use_time: bool, start: Seq<char>, end: Seq<char>) -> Seq<char> {
    let c = carton.len() > 0;
    let p = pn.len() > 0;
    let span = " and b.createtime between '"@ + start + "' and '"@ + end + "'"@;
    if c && !p && !use_time {
        "b.CartonNo = '"@ + carton + "' and b.PnOptionID = '-100'"@
    } else if c && p && !use_time {
        "b.CartonNo = '"@ + carton + "' and b.PnOptionID = '-100' and b.pn = '"@ + pn + "'"@
    } else if c && !p && use_time {
        "b.CartonNo = '"@ + carton + "' and b.PnOptionID = '-100'"@ + span
    } else if !c && p && use_time {
        "b.pn = '"@ + pn + "' and b.PnOptionID = '-100'"@ + span
    } else if c && p && use_time {
        "b.CartonNo = '"@ + carton + "' and b.pn = '"@ + pn + "' and b.PnOptionID = '-100'"@ + span
    } else if !c && !p && use_time {
        "b.PnOptionID = '-100'"@ + span
    } else if !c && p && !use_time {
        "b.pn = '"@ + pn + "' and b.PnOptionID = '-100'"@
    } else {
        "b.PnOptionID = '-100'"@
    }
}

/// The carton query text.
pub open spec fn carton_list_sql(carton: Seq<char>, pn: Seq<char>, use_time: bool, start: Seq<char>, end: Seq<char>) -> Seq<char> {
    CARTON_LIST_HEAD@ + carton_where(carton, pn, use_time, start, end) + CARTON_LIST_TAIL@
}

/// With the time switch on, the conditions end with the packing-time span,
/// whatever carton number and part number are given; with it off, the
/// conditions are those of the carton number and part number alone, and a
/// given carton number always opens them.
pub proof fn law_carton_where_time_span(carton: Seq<char>, pn: Seq<char>, start: Seq<char>, end: Seq<char>)
    ensures
        (" and b.createtime between '"@ + start + "' and '"@ + end + "'"@).is_suffix_of(
            carton_where(carton, pn, true, start, end),
        ),
        carton.len() > 0 ==> ("b.CartonNo = '"@ + carton + "'"@).is_prefix_of(carton_where(carton, pn, true, start, end)),
        carton.len() > 0 ==> ("b.CartonNo = '"@ + carton + "'"@).is_prefix_of(carton_where(carton, pn, false, start, end)),
        carton_where(carton, pn, false, start, end) == carton_where(carton, pn, false, Seq::empty(), Seq::empty()),
{
    let span = " and b.createtime between '"@ + start + "' and '"@ + end + "'"@;
    let w = carton_where(carton, pn, true, start, end);
    let c = carton.len() > 0;
    let p = pn.len() > 0;
    let pre: Seq<char> = if c && !p {
        "b.CartonNo = '"@ + carton + "' and b.PnOptionID = '-100'"@
    } else if !c && p {
        "b.pn = '"@ + pn + "' and b.PnOptionID = '-100'"@
    } else if c && p {
        "b.CartonNo = '"@ + carton + "' and b.pn = '"@ + pn + "' and b.PnOptionID = '-100'"@
    } else {
        "b.PnOptionID = '-100'"@
    };
    assert(w == pre + span);
    assert((pre + span).subrange(pre.len() as int, (pre + span).len() as int) =~= span);
    if c {
        let head = "b.CartonNo = '"@ + carton + "'"@;
        let wf = carton_where(carton, pn, false, start, end);
        proof_carton_prefix(carton, pn, start, end);
        assert(head.is_prefix_of(w));
        assert(head.is_prefix_of(wf));
    }
}

/// A given carton number opens the conditions.
proof fn proof_carton_prefix(carton: Seq<char>, pn: Seq<char>, start: Seq<char>, end: Seq<char>)
    requires
        carton.len() > 0,
    ensures
        ("b.CartonNo = '"@ + carton + "'"@).is_prefix_of(carton_where(carton, pn, true, start, end)),
        ("b.CartonNo = '"@ + carton + "'"@).is_prefix_of(carton_where(carton, pn, false, start, end)),
{
    reveal_strlit("'");
    reveal_strlit("b.CartonNo = '");
    reveal_strlit("' and b.PnOptionID = '-100'");
    reveal_strlit("' and b.PnOptionID = '-100' and b.pn = '");
    reveal_strlit("' and b.pn = '");
    let head = "b.CartonNo = '"@ + carton + "'"@;
    let w1 = carton_where(carton, pn, true, start, end);
    let w0 = carton_where(carton, pn, false, start, end);
    assert(head =~= w1.subrange(0, head.len() as int));
    assert(head =~= w0.subrange(0, head.len() as int));
}

/// Appends a quoted value: `'v'`.
fn push_quoted(s: &mut String, v: &str)
    ensures
        final(s)@ == old(s)@ + "'"@ + v@ + "'"@,
{
    s.append("'");
    s.append(v);
    s.append("'");
}

/// The carton query text for the given conditions.
pub fn build_carton_list_sql(carton: &str, pn: &str, use_time: bool, start: &str, end: &str) -> (r: String)
    ensures
        r@ == carton_list_sql(carton@, pn@, use_time, start@, end@),
{
    let c = carton.unicode_len() > 0;
    let p = pn.unicode_len() > 0;
    let mut span = text(" and b.createtime between ");
    push_quoted(&mut span, start);
    span.append(" and ");
    push_quoted(&mut span, end);
    let mut w = String::new();
    if c && !p && !use_time {
        w.append("b.CartonNo = ");
        push_quoted(&mut w, carton);
        w.append(" and b.PnOptionID = '-100'");
    } else if c && p && !use_time {
        w.append("b.CartonNo = ");
        push_quoted(&mut w, carton);
        w.append(" and b.PnOptionID = '-100' and b.pn = ");
        push_quoted(&mut w, pn);
    } else if c && !p && use_time {
        w.append("b.CartonNo = ");
        push_quoted(&mut w, carton);
        w.append(" and b.PnOptionID = '-100'");
        w.append(span.as_str());
    } else if !c && p && use_time {
        w.append("b.pn = ");
        push_quoted(&mut w, pn);
        w.append(" and b.PnOptionID = '-100'");
        w.append(span.as_str());
    } else if c && p && use_time {
        w.append("b.CartonNo = ");
        push_quoted(&mut w, carton);
        w.append(" and b.pn = ");
        push_quoted(&mut w, pn);
        w.append(" and b.PnOptionID = '-100'");
        w.append(span.as_str());
    } else if !c && !p && use_time {
        w.append("b.PnOptionID = '-100'");
        w.append(span.as_str());
    } else if !c && p && !use_time {
        w.append("b.pn = ");
        push_quoted(&mut w, pn);
        w.append(" and b.PnOptionID = '-100'");
    } else {
        w.append("b.PnOptionID = '-100'");
    }
    proof {
        reveal_strlit("'");
        reveal_strlit(" and b.createtime between ");
        reveal_strlit(" and ");
        reveal_strlit("b.CartonNo = ");
        reveal_strlit(" and b.PnOptionID = '-100'");
        reveal_strlit(" and b.PnOptionID = '-100' and b.pn = ");
        reveal_strlit("b.pn = ");
        reveal_strlit(" and b.pn = ");
        reveal_strlit("b.PnOptionID = '-100'");
        reveal_strlit("b.CartonNo = '");
        reveal_strlit("' and b.PnOptionID = '-100'");
        reveal_strlit("' and b.PnOptionID = '-100' and b.pn = '");
        reveal_strlit("b.pn = '");
        reveal_strlit("' and b.pn = '");
        reveal_strlit(" and b.createtime between '");
        reveal_strlit("' and '");
    }
    assert(w@ =~= carton_where(carton@, pn@, use_time, start@, end@));
    let mut r = text(CARTON_LIST_HEAD);
    r.append(w.as_str());
    r.append(CARTON_LIST_TAIL);
    r
}

/// One row of the carton query, as read from the database.
pub struct CartonRow {
    /// Box number.
    pub box_no: Option<String>,
    /// Part number.
    pub yypn: Option<String>,
    /// Box packer.
    pub pack_worker: Option<String>,
    /// Box packing time, formatted.
    pub pack_time: String,
    /// Carton packer.
    pub carton_worker: Option<String>,
    /// Carton packing time, formatted.
    pub carton_time: String,
    /// Carton number.
    pub carton_no: Option<String>,
}

/// A carton row is named by its box number.
impl KeyedRow for CartonRow {
    open spec fn row_key(&self) -> Option<Seq<char>> {
        match self.box_no {
            Some(b) => Some(b@),
            None => None,
        }
    }

    fn key_ref(&self) -> (r: Option<&String>) {
        match &self.box_no {
            Some(b) => Some(b),
            None => None,
        }
    }
}

/// The row holds every value the query reads from a kept row.
pub open spec fn carton_row_complete(x: CartonRow) -> bool {
    &&& x.box_no is Some
    &&& x.yypn is Some
    &&& x.pack_worker is Some
    &&& x.carton_worker is Some
    &&& x.carton_no is Some
}

/// `d` is the box a kept carton row describes.
pub open spec fn datas_of_carton_row(d: Datas, x: CartonRow) -> bool {
    &&& d.carton_data.carton_no@ == or_empty(x.carton_no)
    &&& d.carton_data.yypn@ == or_empty(x.yypn)
    &&& d.carton_data.carton_worker@ == or_empty(x.carton_worker)
    &&& d.carton_data.carton_packtime == x.carton_time
    &&& d.carton_data.pch@.len() == 0
    &&& d.pack_data.box_no@ == or_empty(x.box_no)
    &&& d.pack_data.pack_worker@ == or_empty(x.pack_worker)
    &&& d.pack_data.pack_packtime == x.pack_time
    &&& d.sn_data.is_blank()
    &&& d.band_data.is_blank()
}

/// The box a complete carton row describes.
pub fn datas_from_carton_row(x: &CartonRow) -> (d: Datas)
    requires
        carton_row_complete(*x),
    ensures
        datas_of_carton_row(d, *x),
{
    Datas {
        carton_data: CartonData {
            carton_no: crate::records::text_or_empty(&x.carton_no),
            pch: String::new(),
            yypn: crate::records::text_or_empty(&x.yypn),
            carton_worker: crate::records::text_or_empty(&x.carton_worker),
            carton_packtime: x.carton_time.clone(),
        },
        pack_data: PackData {
            box_no: crate::records::text_or_empty(&x.box_no),
            pack_worker: crate::records::text_or_empty(&x.pack_worker),
            pack_packtime: x.pack_time.clone(),
        },
        sn_data: Data::empty(),
        band_data: BandData::empty(),
    }
}

/// The message of a carton row without a box number.
pub open spec fn missing_box_message(carton: Seq<char>) -> Seq<char> {
    "箱号:"@ + carton + ",没有找到sn信息，请注意箱号是否正确!!!"@
}

/// The message of a carton query that found nothing.
pub open spec fn carton_empty_message(carton: Seq<char>) -> Seq<char> {
    "箱号 '"@ + carton + "' 没有找到数据"@
}

/// `v` are the boxes of the kept rows `kept`, ordered by box number, rows of
/// one box number in their order.
pub open spec fn sorted_boxes_of(v: Seq<Datas>, kept: Seq<CartonRow>) -> bool {
    exists|d: Seq<Datas>| {
        &&& #[trigger] d.len() == kept.len()
        &&& forall|i: int| 0 <= i < d.len() ==> datas_of_carton_row(#[trigger] d[i], kept[i])
        &&& stable_sort_of(v, d)
    }
}

/// The outcome of the carton query from its rows: an error naming the carton
/// at the first row without a box number, or when no row was read; else the
/// first row of each box, ordered by box number.
pub fn carton_datas_from_rows(rows: Vec<CartonRow>, carton: &str) -> (r: Result<Vec<Datas>, MyError>)
    requires
        forall|i: int| 0 <= i < scan_keys(rows@).1.len() ==> carton_row_complete(#[trigger] scan_keys(rows@).1[i]),
    ensures
        scan_keys(rows@).0 ==> (r matches Err(MyError::Zdyknown(m)) && m@ == missing_box_message(carton@)),
        !scan_keys(rows@).0 && scan_keys(rows@).1.len() == 0 ==> (r matches Err(MyError::Zdyknown(m)) && m@ == carton_empty_message(carton@)),
        !scan_keys(rows@).0 && scan_keys(rows@).1.len() > 0 ==> (r matches Ok(v) && sorted_boxes_of(v@, scan_keys(rows@).1)),
{
    let (failed, kept) = scan_rows(rows);
    if failed {
        let mut m = concat("箱号:", carton);
        m.append(",没有找到sn信息，请注意箱号是否正确!!!");
        return Err(MyError::Zdyknown(m));
    }
    if kept.len() == 0 {
        let mut m = concat("箱号 '", carton);
        m.append("' 没有找到数据");
        return Err(MyError::Zdyknown(m));
    }
    let mut out: Vec<Datas> = Vec::new();
    let mut i: usize = 0;
    while i < kept.len()
        invariant
            i <= kept@.len(),
            forall|k: int| 0 <= k < kept@.len() ==> carton_row_complete(#[trigger] kept@[k]),
            out@.len() == i,
            forall|k: int| 0 <= k < i ==> datas_of_carton_row(#[trigger] out@[k], kept@[k]),
        decreases kept.len() - i,
    {
        out.push(datas_from_carton_row(&kept[i]));
        i = i + 1;
    }
    let ghost d = out@;
    let sorted = sort_by_box_no(out);
    assert(d.len() == kept@.len());
    Ok(sorted)
}

/// The result row of a box: its carton, its box and its module's serial number.
pub open spec fn box_list_record(d: Datas) -> Seq<(Seq<char>, String)> {
    seq![
        ("carton_no"@, d.carton_data.carton_no),
        ("yypn"@, d.carton_data.yypn),
        ("carton_worker"@, d.carton_data.carton_worker),
        ("carton_packtime"@, d.carton_data.carton_packtime),
        ("box_no"@, d.pack_data.box_no),
        ("pack_worker"@, d.pack_data.pack_worker),
        ("pack_packtime"@, d.pack_data.pack_packtime),
        ("sn"@, d.sn_data.sn),
    ]
}

/// The result rows of a list of boxes, in order.
pub fn format_data(all_datas: Vec<Datas>) -> (r: Vec<Record>)
    ensures
        r@.len() == all_datas@.len(),
        forall|i: int| 0 <= i < r@.len() ==> (#[trigger] r@[i])@ == box_list_record(all_datas@[i]),
{
    let ghost s = all_datas@;
    let n = all_datas.len();
    let mut rest = all_datas;
    let mut out: Vec<Record> = Vec::new();
    let mut i: usize = 0;
    while i < n
        invariant
            i <= n,
            n == s.len(),
            rest@ == s.skip(i as int),
            out@.len() == i,
            forall|k: int| 0 <= k < i ==> (#[trigger] out@[k])@ == box_list_record(s[k]),
        decreases n - i,
    {
        let d = rest.remove(0);
        assert(d == s[i as int]);
        assert(rest@ =~= s.skip(i + 1));
        let ghost dv = d;
        let mut e: Vec<(String, String)> = Vec::new();
        e.push((text("carton_no"), d.carton_data.carton_no));
        e.push((text("yypn"), d.carton_data.yypn));
        e.push((text("carton_worker"), d.carton_data.carton_worker));
        e.push((text("carton_packtime"), d.carton_data.carton_packtime));
        e.push((text("box_no"), d.pack_data.box_no));
        e.push((text("pack_worker"), d.pack_data.pack_worker));
        e.push((text("pack_packtime"), d.pack_data.pack_packtime));
        e.push((text("sn"), d.sn_data.sn));
        assert(entries_view(e@) =~= box_list_record(dv));
        out.push(StrMap::from_entries(e));
        i = i + 1;
    }
    out
}

} // verus!
