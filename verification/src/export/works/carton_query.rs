//! The carton query behind the export: which modules a carton holds, their
//! latest test records, and the rows the export writes.
use vstd::prelude::*;
use crate::app_data_bridge::Record;
use crate::records::{or_empty, text_or_empty, BandData, CartonData, Data, Datas, PackData};
use crate::strmap::{entries_view, StrMap};
use crate::text::{concat, contains_text, join_texts, seq_join, text, utf8, views};
use vstd::utf8::{decode_utf8, encode_utf8_decode_utf8, is_char_boundary};
use vstd::string::StringSliceAdditionalSpecFns;
use crate::configs::type_config::Infos;
use crate::error::MyError;
use crate::export::works::query_utils::{data_sns, trim_union, union_of};
use crate::sorting::{sort_by_box_no, stable_sort_of, BoxKeyed};
use crate::strmap::{lemma_first_key_unique, text_lookup};
use crate::text::{quote, quoted, str_eq};

verus! {

/// The result row of one module: every field of its carton, box, label
/// binding and test record under its column name.
pub open spec fn carton_record(d: Datas) -> Seq<(Seq<char>, String)> {
    seq![
        ("carton_no"@, d.carton_data.carton_no),
        ("pch"@, d.carton_data.pch),
        ("yypn"@, d.carton_data.yypn),
        ("carton_worker"@, d.carton_data.carton_worker),
        ("carton_packtime"@, d.carton_data.carton_packtime),
        ("box_no"@, d.pack_data.box_no),
        ("pack_worker"@, d.pack_data.pack_worker),
        ("pack_packtime"@, d.pack_data.pack_packtime),
        ("w_sn"@, d.band_data.w_sn),
        ("b_sn"@, d.band_data.b_sn),
        ("bandtime"@, d.band_data.band_time),
        ("band_worker"@, d.band_data.band_worker),
        ("sn"@, d.sn_data.sn),
        ("ith"@, d.sn_data.ith),
        ("vf"@, d.sn_data.vf),
        ("im"@, d.sn_data.im),
        ("po"@, d.sn_data.po),
        ("rs"@, d.sn_data.rs),
        ("se"@, d.sn_data.se),
        ("iop"@, d.sn_data.iop),
        ("kink"@, d.sn_data.kink),
        ("imkink"@, d.sn_data.imkink),
        ("sen"@, d.sn_data.sen),
        ("vbr"@, d.sn_data.vbr),
        ("res"@, d.sn_data.res),
        ("icc"@, d.sn_data.icc),
        ("idark"@, d.sn_data.idark),
        ("testdate"@, d.sn_data.testdate),
        ("result"@, d.sn_data.result),
        ("tester"@, d.sn_data.tester),
        ("i_xtalk"@, d.sn_data.i_xtalk),
        ("mdpid"@, d.sn_data.mdpid),
    ]
}

/// One module as a result row: every field of its carton, box, label binding
/// and test record under its column name.
pub fn flatten_datas(d: Datas) -> (r: Record)
    ensures
        r@ == carton_record(d),
{
    let ghost dv = d;
    let mut e: Vec<(String, String)> = Vec::new();
    e.push((text("carton_no"), d.carton_data.carton_no));
    e.push((text("pch"), d.carton_data.pch));
    e.push((text("yypn"), d.carton_data.yypn));
    e.push((text("carton_worker"), d.carton_data.carton_worker));
    e.push((text("carton_packtime"), d.carton_data.carton_packtime));
    e.push((text("box_no"), d.pack_data.box_no));
    e.push((text("pack_worker"), d.pack_data.pack_worker));
    e.push((text("pack_packtime"), d.pack_data.pack_packtime));
    e.push((text("w_sn"), d.band_data.w_sn));
    e.push((text("b_sn"), d.band_data.b_sn));
    e.push((text("bandtime"), d.band_data.band_time));
    e.push((text("band_worker"), d.band_data.band_worker));
    e.push((text("sn"), d.sn_data.sn));
    e.push((text("ith"), d.sn_data.ith));
    e.push((text("vf"), d.sn_data.vf));
    e.push((text("im"), d.sn_data.im));
    e.push((text("po"), d.sn_data.po));
    e.push((text("rs"), d.sn_data.rs));
    e.push((text("se"), d.sn_data.se));
    e.push((text("iop"), d.sn_data.iop));
    e.push((text("kink"), d.sn_data.kink));
    e.push((text("imkink"), d.sn_data.imkink));
    e.push((text("sen"), d.sn_data.sen));
    e.push((text("vbr"), d.sn_data.vbr));
    e.push((text("res"), d.sn_data.res));
    e.push((text("icc"), d.sn_data.icc));
    e.push((text("idark"), d.sn_data.idark));
    e.push((text("testdate"), d.sn_data.testdate));
    e.push((text("result"), d.sn_data.result));
    e.push((text("tester"), d.sn_data.tester));
    e.push((text("i_xtalk"), d.sn_data.i_xtalk));
    e.push((text("mdpid"), d.sn_data.mdpid));
    assert(entries_view(e@) =~= carton_record(dv));
    StrMap::from_entries(e)
}

/// The batch window of the carton query: the latest packing time of the carton.
pub const BASE_CTE: &'static str = "WITH LatestBatchTime AS (\n        -- 查找该箱号的绝对最新 CreateTime (T_max)\n        SELECT TOP 1 CreateTime AS MaxTime \n        FROM [mes_Factory].[dbo].[packing_carton]\n        WHERE CartonNo = @P1 AND PnOptionID = '-100'\n        ORDER BY CreateTime DESC\n    )";
/// Year of the batch code, cut out of the label print parameters.
pub const YEAR_EXPR: &'static str = "SUBSTRING(pch_log.parameter, CHARINDEX('YEAR=', pch_log.parameter) + 5, CHARINDEX(';', pch_log.parameter + ';', CHARINDEX('YEAR=', pch_log.parameter)) - (CHARINDEX('YEAR=', pch_log.parameter) + 5)) AS ExtractedYear";
/// Week of the batch code, cut out of the label print parameters.
pub const WEEK_EXPR: &'static str = "SUBSTRING(pch_log.parameter, CHARINDEX('WEEK=', pch_log.parameter) + 6, CHARINDEX(';', pch_log.parameter + ';', CHARINDEX('WEEK=', pch_log.parameter)) - (CHARINDEX('WEEK=', pch_log.parameter) + 6)) AS ExtractedWeek";
/// Join keeping the cartons packed within five seconds of the latest one.
pub const BATCH_JOIN: &'static str = "INNER JOIN LatestBatchTime lbt ON b.CreateTime <= lbt.MaxTime AND DATEDIFF(SECOND, b.CreateTime, lbt.MaxTime) < 5";

/// The columns the carton query reads, which depend on whether boxes are
/// custom boxes bound to cartons.
pub struct BaseFields {
    /// FROM clause.
    pub from_clause: &'static str,
    /// Serial number column.
    pub sn_field: &'static str,
    /// Box number column.
    pub box_no_field: &'static str,
    /// Part number column.
    pub yypn_field: &'static str,
    /// Box packer column.
    pub pack_worker_field: &'static str,
    /// Box packing time column.
    pub pack_time_field: &'static str,
    /// Second ordering column.
    pub order_by_pack_no: &'static str,
    /// Label key when the batch code comes from the carton label.
    pub pch_join_key_carton: &'static str,
    /// Label key when the batch code comes from the box label.
    pub pch_join_key_box: &'static str,
}

/// The columns for custom boxes (`zdy`) or standard boxes.
pub open spec fn base_fields_spec(zdy: bool) -> BaseFields {
    if zdy {
        BaseFields {
            from_clause: "FROM [mes_Factory].[dbo].[jz_carton_bind] a",
            sn_field: "d.sn",
            box_no_field: "a.pkg_no",
            yypn_field: "d.pn",
            pack_worker_field: "d.creator",
            pack_time_field: "d.createtime",
            order_by_pack_no: "d.Pack_no",
            pch_join_key_carton: "a.Pack_no",
            pch_join_key_box: "d.Pack_no",
        }
    } else {
        BaseFields {
            from_clause: "FROM [mes_Factory].[dbo].[MaterialPackSn] a",
            sn_field: "a.sn",
            box_no_field: "a.Pack_no",
            yypn_field: "a.pn",
            pack_worker_field: "a.creator",
            pack_time_field: "a.createtime",
            order_by_pack_no: "a.Pack_no",
            pch_join_key_carton: "b.CartonNo",
            pch_join_key_box: "a.Pack_no",
        }
    }
}

/// The columns for custom boxes (`zdy`) or standard boxes.
pub fn base_fields(zdy: bool) -> (r: BaseFields)
    ensures
        r == base_fields_spec(zdy),
{
    if zdy {
        BaseFields {
            from_clause: "FROM [mes_Factory].[dbo].[jz_carton_bind] a",
            sn_field: "d.sn",
            box_no_field: "a.pkg_no",
            yypn_field: "d.pn",
            pack_worker_field: "d.creator",
            pack_time_field: "d.createtime",
            order_by_pack_no: "d.Pack_no",
            pch_join_key_carton: "a.Pack_no",
            pch_join_key_box: "d.Pack_no",
        }
    } else {
        BaseFields {
            from_clause: "FROM [mes_Factory].[dbo].[MaterialPackSn] a",
            sn_field: "a.sn",
            box_no_field: "a.Pack_no",
            yypn_field: "a.pn",
            pack_worker_field: "a.creator",
            pack_time_field: "a.createtime",
            order_by_pack_no: "a.Pack_no",
            pch_join_key_carton: "b.CartonNo",
            pch_join_key_box: "a.Pack_no",
        }
    }
}

/// The joins of the carton query, before the optional ones.
pub open spec fn base_joins_spec(zdy: bool) -> Seq<Seq<char>> {
    if zdy {
        seq![
            "INNER JOIN [mes_Factory].[dbo].[packing_carton] b ON a.box_no = b.Packing_no"@,
            BATCH_JOIN@,
            "INNER JOIN [mes_Factory].[dbo].[MaterialPackSn] d ON d.Pack_no = b.Packing_no"@,
        ]
    } else {
        seq!["INNER JOIN [mes_Factory].[dbo].[packing_carton] b ON a.Pack_no = b.Packing_no"@, BATCH_JOIN@]
    }
}

/// All joins of the carton query.
pub open spec fn base_joins(infos: Infos) -> Seq<Seq<char>> {
    let f = base_fields_spec(infos.zdy_box);
    let j1 = if infos.is_have_pch {
        let key = if infos.carton_pch { f.pch_join_key_carton } else { f.pch_join_key_box };
        base_joins_spec(infos.zdy_box).push(
            "OUTER APPLY (SELECT TOP 1 c.parameter FROM [mes_Factory].[dbo].[packing_LABEL_PRINT_LOG] c WHERE c.LABEL_KEY = "@
                + key@ + " ORDER BY c.CreateTime DESC) AS pch_log"@,
        )
    } else {
        base_joins_spec(infos.zdy_box)
    };
    if infos.jz_band {
        j1.push("LEFT JOIN [mes_Factory].[dbo].[QA_snRelation] qr ON "@ + f.sn_field@ + " = qr.sn"@)
    } else {
        j1
    }
}

/// The selected columns of the carton query.
pub open spec fn base_selects(infos: Infos) -> Seq<Seq<char>> {
    let f = base_fields_spec(infos.zdy_box);
    let s0 = seq![
        f.sn_field@ + " AS sn"@,
        f.box_no_field@ + " AS box_no"@,
        f.yypn_field@ + " AS yypn"@,
        f.pack_worker_field@ + " AS pack_worker"@,
        f.pack_time_field@ + " AS pack_time_dt"@,
        "b.creator AS carton_worker"@,
        "b.createtime AS carton_time_dt"@,
    ];
    let s1 = if infos.is_have_pch {
        s0.push(YEAR_EXPR@).push(WEEK_EXPR@)
    } else {
        s0.push("'' AS ExtractedYear"@).push("'' AS ExtractedWeek"@)
    };
    if infos.jz_band {
        s1.push("qr.SN_ShipMent AS b_sn"@).push(f.sn_field@ + " AS w_sn"@).push("qr.userno AS band_worker"@).push(
            "qr.Relationtime AS band_time"@,
        )
    } else {
        s1.push("'' AS b_sn"@).push(f.sn_field@ + " AS w_sn"@).push("'' AS band_worker"@).push("'' AS band_time"@)
    }
}

/// The carton query: every module of the latest packing batch of carton `@P1`,
/// with its box, part number, packers and times, and, as the product type
/// asks, its batch code and label binding.
pub open spec fn base_data_sql(infos: Infos) -> Seq<char> {
    let f = base_fields_spec(infos.zdy_box);
    BASE_CTE@ + " SELECT "@ + seq_join(base_selects(infos), ", "@) + " "@ + f.from_clause@ + " "@ + seq_join(
        base_joins(infos),
        " "@,
    ) + " WHERE b.CartonNo = @P1 AND b.PnOptionID = '-100' ORDER BY b.Packing_no desc, "@ + f.order_by_pack_no@
        + " asc"@
}

fn join3(a: &str, b: &str, c: &str) -> (r: String)
    ensures
        r@ == a@ + b@ + c@,
{
    let mut r = text(a);
    r.append(b);
    r.append(c);
    r
}

/// The carton query for a product type's lookups.
pub fn build_base_data_sql(infos: &Infos) -> (r: String)
    ensures
        r@ == base_data_sql(*infos),
{
    let f = base_fields(infos.zdy_box);
    let mut join_list: Vec<String> = Vec::new();
    if infos.zdy_box {
        join_list.push(text("INNER JOIN [mes_Factory].[dbo].[packing_carton] b ON a.box_no = b.Packing_no"));
        join_list.push(text(BATCH_JOIN));
        join_list.push(text("INNER JOIN [mes_Factory].[dbo].[MaterialPackSn] d ON d.Pack_no = b.Packing_no"));
    } else {
        join_list.push(text("INNER JOIN [mes_Factory].[dbo].[packing_carton] b ON a.Pack_no = b.Packing_no"));
        join_list.push(text(BATCH_JOIN));
    }
    assert(views(join_list@) =~= base_joins_spec(infos.zdy_box));
    let mut select_list: Vec<String> = Vec::new();
    select_list.push(concat(f.sn_field, " AS sn"));
    select_list.push(concat(f.box_no_field, " AS box_no"));
    select_list.push(concat(f.yypn_field, " AS yypn"));
    select_list.push(concat(f.pack_worker_field, " AS pack_worker"));
    select_list.push(concat(f.pack_time_field, " AS pack_time_dt"));
    select_list.push(text("b.creator AS carton_worker"));
    select_list.push(text("b.createtime AS carton_time_dt"));
    if infos.is_have_pch {
        let join_key = if infos.carton_pch { f.pch_join_key_carton } else { f.pch_join_key_box };
        join_list.push(join3(
            "OUTER APPLY (SELECT TOP 1 c.parameter FROM [mes_Factory].[dbo].[packing_LABEL_PRINT_LOG] c WHERE c.LABEL_KEY = ",
            join_key,
            " ORDER BY c.CreateTime DESC) AS pch_log",
        ));
        select_list.push(text(YEAR_EXPR));
        select_list.push(text(WEEK_EXPR));
    } else {
        select_list.push(text("'' AS ExtractedYear"));
        select_list.push(text("'' AS ExtractedWeek"));
    }
    if infos.jz_band {
        join_list.push(join3("LEFT JOIN [mes_Factory].[dbo].[QA_snRelation] qr ON ", f.sn_field, " = qr.sn"));
        select_list.push(text("qr.SN_ShipMent AS b_sn"));
        select_list.push(concat(f.sn_field, " AS w_sn"));
        select_list.push(text("qr.userno AS band_worker"));
        select_list.push(text("qr.Relationtime AS band_time"));
    } else {
        select_list.push(text("'' AS b_sn"));
        select_list.push(concat(f.sn_field, " AS w_sn"));
        select_list.push(text("'' AS band_worker"));
        select_list.push(text("'' AS band_time"));
    }
    assert(views(join_list@) =~= base_joins(*infos));
    assert(views(select_list@) =~= base_selects(*infos));
    let select_clause = join_texts(&select_list, ", ");
    let join_clause = join_texts(&join_list, " ");
    let mut sql = text(BASE_CTE);
    sql.append(" SELECT ");
    sql.append(select_clause.as_str());
    sql.append(" ");
    sql.append(f.from_clause);
    sql.append(" ");
    sql.append(join_clause.as_str());
    sql.append(" WHERE b.CartonNo = @P1 AND b.PnOptionID = '-100' ORDER BY b.Packing_no desc, ");
    sql.append(f.order_by_pack_no);
    sql.append(" asc");
    sql
}

/// Whether the batch code can be cut from `year`: when it is taken, the last
/// two bytes of `year` must start at a character boundary.
pub open spec fn pch_cut_ok(year: Seq<char>, week: Seq<char>) -> bool {
    let b = utf8(year);
    (year.len() > 0 && week.len() > 0 && b.len() >= 2) ==> is_char_boundary(b, b.len() - 2)
}

/// The batch code: the last two bytes of the year followed by the week, or
/// "None" when the year is shorter than two bytes or either part is empty.
pub open spec fn pch_spec(year: Seq<char>, week: Seq<char>) -> Seq<char> {
    let b = utf8(year);
    if year.len() > 0 && week.len() > 0 && b.len() >= 2 {
        decode_utf8(b.subrange(b.len() - 2, b.len() as int)) + week
    } else {
        "None"@
    }
}

/// The batch code of a year and a week.
pub fn compute_pch(year: &str, week: &str) -> (r: String)
    requires
        pch_cut_ok(year@, week@),
    ensures
        r@ == pch_spec(year@, week@),
{
    let year_bytes = year.as_bytes().len();
    if !year.is_empty() && !week.is_empty() && year_bytes >= 2 {
        let (_head, tail) = year.split_at(year_bytes - 2);
        proof {
            encode_utf8_decode_utf8(tail@);
        }
        let mut r = tail.to_owned();
        r.append(week);
        r
    } else {
        text("None")
    }
}

/// One row of the carton query, as read from the database.
pub struct BaseRow {
    /// Serial number.
    pub sn: Option<String>,
    /// Year of the batch code.
    pub year: Option<String>,
    /// Week of the batch code.
    pub week: Option<String>,
    /// Part number.
    pub yypn: Option<String>,
    /// Carton packer.
    pub carton_worker: Option<String>,
    /// Carton packing time, formatted.
    pub carton_time: String,
    /// Box number.
    pub box_no: Option<String>,
    /// Box packer.
    pub pack_worker: Option<String>,
    /// Box packing time, formatted.
    pub pack_time: String,
    /// Serial number bound to.
    pub b_sn: Option<String>,
    /// Binding time.
    pub band_time: Option<String>,
    /// Binder.
    pub band_worker: Option<String>,
}

/// The serial numbers of the rows that have one, in order.
pub open spec fn row_sns(rows: Seq<BaseRow>) -> Seq<Seq<char>>
    decreases rows.len(),
{
    if rows.len() == 0 {
        Seq::empty()
    } else {
        match rows.last().sn {
            Some(s) => row_sns(rows.drop_last()).push(s@),
            None => row_sns(rows.drop_last()),
        }
    }
}

/// The rows kept: those with a serial number not seen in an earlier row.
pub open spec fn kept_base_rows(rows: Seq<BaseRow>) -> Seq<BaseRow>
    decreases rows.len(),
{
    if rows.len() == 0 {
        Seq::empty()
    } else {
        let p = kept_base_rows(rows.drop_last());
        match rows.last().sn {
            Some(s) => if row_sns(rows.drop_last()).contains(s@) { p } else { p.push(rows.last()) },
            None => p,
        }
    }
}

/// `d` is the module a kept row of carton `carton` describes.
pub open spec fn datas_of_row(d: Datas, x: BaseRow, carton: String) -> bool {
    &&& d.carton_data.carton_no == carton
    &&& d.carton_data.yypn@ == or_empty(x.yypn)
    &&& d.carton_data.carton_worker@ == or_empty(x.carton_worker)
    &&& d.carton_data.carton_packtime == x.carton_time
    &&& d.carton_data.pch@ == pch_spec(or_empty(x.year), or_empty(x.week))
    &&& d.pack_data.box_no@ == or_empty(x.box_no)
    &&& d.pack_data.pack_worker@ == or_empty(x.pack_worker)
    &&& d.pack_data.pack_packtime == x.pack_time
    &&& d.band_data.w_sn@ == or_empty(x.sn)
    &&& d.band_data.b_sn@ == or_empty(x.b_sn)
    &&& d.band_data.band_time@ == or_empty(x.band_time)
    &&& d.band_data.band_worker@ == or_empty(x.band_worker)
    &&& d.sn_data.sn@ == or_empty(x.sn)
    &&& d.sn_data.is_blank_but_sn()
}

/// The modules of carton `carton`: one per serial number, from the first row
/// that has it; rows without a serial number are skipped.
pub fn collect_base_rows(rows: Vec<BaseRow>, carton: &String) -> (r: Vec<Datas>)
    requires
        forall|i: int| 0 <= i < kept_base_rows(rows@).len() ==> pch_cut_ok(
            or_empty((#[trigger] kept_base_rows(rows@)[i]).year),
            or_empty(kept_base_rows(rows@)[i].week),
        ),
    ensures
        r@.len() == kept_base_rows(rows@).len(),
        forall|i: int| 0 <= i < r@.len() ==> datas_of_row(#[trigger] r@[i], kept_base_rows(rows@)[i], *carton),
{
    let ghost all = rows@;
    let n = rows.len();
    let mut rest = rows;
    let mut seen: Vec<String> = Vec::new();
    let mut out: Vec<Datas> = Vec::new();
    let mut i: usize = 0;
    assert(all.take(0) =~= Seq::<BaseRow>::empty());
    while i < n
        invariant
            i <= n,
            n == all.len(),
            rest@ == all.skip(i as int),
            views(seen@) == row_sns(all.take(i as int)),
            out@.len() == kept_base_rows(all.take(i as int)).len(),
            forall|j: int| 0 <= j < out@.len() ==> datas_of_row(#[trigger] out@[j], kept_base_rows(all.take(i as int))[j], *carton),
            forall|j: int| 0 <= j < kept_base_rows(all).len() ==> pch_cut_ok(
                or_empty((#[trigger] kept_base_rows(all)[j]).year),
                or_empty(kept_base_rows(all)[j].week),
            ),
            kept_base_rows(all.take(i as int)).len() <= kept_base_rows(all).len(),
            forall|j: int| 0 <= j < kept_base_rows(all.take(i as int)).len() ==> #[trigger] kept_base_rows(all.take(i as int))[j] == kept_base_rows(all)[j],
        decreases n - i,
    {
        let x = rest.remove(0);
        let ghost t = all.take(i as int);
        proof {
            assert(x == all[i as int]);
            assert(rest@ =~= all.skip(i + 1));
            assert(all.take(i + 1).drop_last() =~= t);
            assert(all.take(i + 1).last() == x);
            lemma_kept_prefix(all, i + 1);
        }
        match &x.sn {
            Some(sn) => {
                if !contains_text(&seen, sn.as_str()) {
                    let ghost k = out@.len() as int;
                    proof {
                        assert(kept_base_rows(all.take(i + 1)) == kept_base_rows(t).push(x));
                        assert(kept_base_rows(all.take(i + 1))[k] == x);
                        assert(kept_base_rows(all)[k] == x);
                    }
                    let pch = compute_pch(text_or_empty(&x.year).as_str(), text_or_empty(&x.week).as_str());
                    let mut sn_data = Data::empty();
                    sn_data.sn = sn.clone();
                    let d = Datas {
                        carton_data: CartonData {
                            carton_no: carton.clone(),
                            pch,
                            yypn: text_or_empty(&x.yypn),
                            carton_worker: text_or_empty(&x.carton_worker),
                            carton_packtime: x.carton_time.clone(),
                        },
                        pack_data: PackData {
                            box_no: text_or_empty(&x.box_no),
                            pack_worker: text_or_empty(&x.pack_worker),
                            pack_packtime: x.pack_time.clone(),
                        },
                        sn_data,
                        band_data: BandData {
                            w_sn: sn.clone(),
                            b_sn: text_or_empty(&x.b_sn),
                            band_time: text_or_empty(&x.band_time),
                            band_worker: text_or_empty(&x.band_worker),
                        },
                    };
                    out.push(d);
                    let ghost before_seen = seen@;
                    seen.push(sn.clone());
                    assert(views(seen@) =~= views(before_seen).push(sn@));
                } else {
                    let ghost before_seen = seen@;
                    seen.push(sn.clone());
                    assert(views(seen@) =~= views(before_seen).push(sn@));
                }
            },
            None => {},
        }
        i = i + 1;
    }
    assert(all.take(n as int) =~= all);
    out
}

/// Keeping rows only adds at the end: the rows kept from a prefix start the
/// rows kept from the whole.
proof fn lemma_kept_prefix(all: Seq<BaseRow>, i: int)
    requires
        0 <= i <= all.len(),
    ensures
        kept_base_rows(all.take(i)).len() <= kept_base_rows(all).len(),
        forall|j: int| 0 <= j < kept_base_rows(all.take(i)).len() ==> #[trigger] kept_base_rows(all.take(i))[j] == kept_base_rows(all)[j],
    decreases all.len() - i,
{
    if i == all.len() {
        assert(all.take(i) =~= all);
    } else {
        lemma_kept_prefix(all, i + 1);
        let a = all.take(i + 1);
        assert(a.drop_last() =~= all.take(i));
        let p = kept_base_rows(all.take(i));
        assert(kept_base_rows(a) == p || kept_base_rows(a) == p.push(a.last()));
        assert forall|j: int| 0 <= j < p.len() implies #[trigger] p[j] == kept_base_rows(all)[j] by {
            assert(p[j] == kept_base_rows(a)[j]);
        }
    }
}

/// Under "box_no" a result row holds the number of the module's box.
pub proof fn lemma_record_box_no(d: Datas)
    ensures
        text_lookup(carton_record(d), "box_no"@) == Some(d.pack_data.box_no@),
{
    reveal_strlit("carton_no");
    reveal_strlit("pch");
    reveal_strlit("yypn");
    reveal_strlit("carton_worker");
    reveal_strlit("carton_packtime");
    reveal_strlit("box_no");
    let s = carton_record(d);
    assert(s[0].0 == "carton_no"@ && s[1].0 == "pch"@ && s[2].0 == "yypn"@);
    assert(s[3].0 == "carton_worker"@ && s[4].0 == "carton_packtime"@ && s[5].0 == "box_no"@);
    assert("carton_no"@.len() != "box_no"@.len());
    assert("pch"@.len() != "box_no"@.len());
    assert("yypn"@[0] != "box_no"@[0]);
    assert("carton_worker"@.len() != "box_no"@.len());
    assert("carton_packtime"@.len() != "box_no"@.len());
    lemma_first_key_unique(s, "box_no"@, 5);
}

/// The serial numbers of the modules, each between single quotes.
pub open spec fn quoted_sns(all: Seq<Datas>) -> Seq<Seq<char>> {
    all.map_values(|d: Datas| quoted(d.sn_data.sn@))
}

/// Each module's serial number between single quotes, as an SQL list item.
pub fn sn_placeholders(all: &Vec<Datas>) -> (r: Vec<String>)
    ensures
        views(r@) == quoted_sns(all@),
{
    let mut r: Vec<String> = Vec::new();
    let mut i: usize = 0;
    while i < all.len()
        invariant
            i <= all@.len(),
            r@.len() == i,
            forall|k: int| 0 <= k < i ==> (#[trigger] r@[k])@ == quoted(all@[k].sn_data.sn@),
        decreases all.len() - i,
    {
        r.push(quote(all[i].sn_data.sn.as_str()));
        i = i + 1;
    }
    assert(views(r@) =~= quoted_sns(all@));
    r
}

/// How many serial numbers one test query asks for at most.
pub const SN_CHUNK: usize = 1000;

/// Where chunk `j` of a list of `len` items ends.
pub open spec fn chunk_end(len: int, j: int) -> int {
    if (j + 1) * 1000 <= len {
        (j + 1) * 1000
    } else {
        len
    }
}

/// Chunk `j` of `s`: the items from `1000 * j` on, at most 1000 of them.
pub open spec fn chunk_at(s: Seq<Seq<char>>, j: int) -> Seq<Seq<char>> {
    s.subrange(j * 1000, chunk_end(s.len() as int, j))
}

/// `r` is `s` cut into chunks of 1000 items (the last one may be shorter),
/// each joined with ", ".
pub open spec fn joined_chunks(r: Seq<Seq<char>>, s: Seq<Seq<char>>) -> bool {
    &&& r.len() * 1000 >= s.len()
    &&& (r.len() == 0 || (r.len() - 1) * 1000 < s.len())
    &&& forall|j: int| 0 <= j < r.len() ==> #[trigger] r[j] == seq_join(chunk_at(s, j), ", "@)
}

/// Cuts the serial-number list into chunks of 1000, each joined with ", ".
pub fn sn_list_chunks(placeholders: &Vec<String>) -> (r: Vec<String>)
    ensures
        joined_chunks(views(r@), views(placeholders@)),
{
    let ghost s = views(placeholders@);
    let n = placeholders.len();
    let mut out: Vec<String> = Vec::new();
    let mut start: usize = 0;
    while start < n
        invariant
            n == s.len(),
            s == views(placeholders@),
            start as int == (if out@.len() * 1000 <= n { (out@.len() * 1000) as int } else { n as int }),
            out@.len() == 0 || (out@.len() - 1) * 1000 < n,
            forall|j: int| 0 <= j < out@.len() ==> (#[trigger] out@[j])@ == seq_join(chunk_at(s, j), ", "@),
        decreases n - start,
    {
        let end = if n - start > SN_CHUNK { start + SN_CHUNK } else { n };
        let ghost j = out@.len() as int;
        assert(start == j * 1000);
        assert(end == chunk_end(n as int, j));
        let mut chunk: Vec<String> = Vec::new();
        let mut q: usize = start;
        while q < end
            invariant
                start <= q <= end <= n,
                n == placeholders@.len(),
                chunk@.len() == q - start,
                forall|k: int| 0 <= k < chunk@.len() ==> (#[trigger] chunk@[k])@ == placeholders@[start + k]@,
            decreases end - q,
        {
            chunk.push(placeholders[q].clone());
            q = q + 1;
        }
        assert(views(chunk@) =~= chunk_at(s, j));
        let joined = join_texts(&chunk, ", ");
        out.push(joined);
        start = end;
    }
    proof {
        assert(views(out@).len() == out@.len());
        assert forall|j: int| 0 <= j < views(out@).len() implies #[trigger] views(out@)[j] == seq_join(chunk_at(s, j), ", "@) by {
            assert(views(out@)[j] == out@[j]@);
        }
    }
    out
}

/// Test record columns of the 10G table, with the device id and part number.
pub const TESTTYPE: &'static str = "SN,Ith,Pf,Vop,Im,Rs,Se,Sen,Res,ICC,Vbr,Kink,imkink,TestDate,Idark,Result,ProductBill,iop,ixtalk,MDPId,testtype";

/// Test record columns of the 2.5G tables, with the device id and part number.
pub const TESTTYPE_12: &'static str = "SN,Ith,Po,Vf,Im,Rs,Pslop,Sen,Res,ICC,Vbr,Kink_I,kinkim_i,TestDate,Idark,Result,ProductBill,io,xtalk,Te,testtype";

/// The test query of the carton export: for each module of `sn_list` that
/// passed, only its newest record (numbered 1 when each module's records are
/// ordered newest first).
pub open spec fn test_query_spec(sn_list: Seq<char>, tables: Seq<Seq<char>>) -> Seq<char> {
    let sql_10 = "SELECT "@ + TESTTYPE@ + " FROM [BOSAautotest_Data].[dbo].[MAC_10GBOSADATA] "@;
    let base = "SELECT *, ROW_NUMBER() OVER(PARTITION BY SN ORDER BY TestDate DESC) as rn FROM ("@
        + trim_union(union_of(sql_10, TESTTYPE_12@, tables)) + ") AllData"@;
    let cond = if sn_list.len() == 0 {
        "WHERE Result = 'OK'"@
    } else {
        "WHERE SN IN ("@ + sn_list + ") AND Result = 'OK'"@
    };
    "SELECT * FROM ("@ + base + ") tmp "@ + cond + " AND tmp.rn = 1"@
}

/// The test query of the carton export over the 10G table and `tables`.
pub fn build_query_sql(sn_list: &str, tables: &Vec<String>) -> (r: String)
    ensures
        r@ == test_query_spec(sn_list@, views(tables@)),
{
    let mut sql_10 = text("SELECT ");
    sql_10.append(TESTTYPE);
    sql_10.append(" FROM [BOSAautotest_Data].[dbo].[MAC_10GBOSADATA] ");
    let sql_text = crate::export::works::query_utils::build_union(sql_10.as_str(), TESTTYPE_12, tables);
    let mut base = text("SELECT *, ROW_NUMBER() OVER(PARTITION BY SN ORDER BY TestDate DESC) as rn FROM (");
    base.append(sql_text.as_str());
    base.append(") AllData");
    let cond = if sn_list.unicode_len() == 0 {
        text("WHERE Result = 'OK'")
    } else {
        let mut c = text("WHERE SN IN (");
        c.append(sn_list);
        c.append(") AND Result = 'OK'");
        c
    };
    let mut r = text("SELECT * FROM (");
    r.append(base.as_str());
    r.append(") tmp ");
    r.append(cond.as_str());
    r.append(" AND tmp.rn = 1");
    r
}

/// The records of every successful chunk query, in order.
pub open spec fn ok_records(results: Seq<Result<Vec<Data>, MyError>>) -> Seq<Data>
    decreases results.len(),
{
    if results.len() == 0 {
        Seq::empty()
    } else {
        let rest = ok_records(results.drop_last());
        match results.last() {
            Ok(v) => rest + v@,
            Err(_) => rest,
        }
    }
}

/// The test records of all chunk queries. With one chunk its outcome is the
/// outcome, error included; with several, failed chunks are left out.
pub fn merge_chunk_results(results: Vec<Result<Vec<Data>, MyError>>) -> (r: Result<Vec<Data>, MyError>)
    ensures
        results@.len() == 1 ==> r == results@[0],
        results@.len() != 1 ==> (r matches Ok(v) && v@ == ok_records(results@)),
{
    if results.len() == 1 {
        let mut results = results;
        return results.remove(0);
    }
    let ghost all = results@;
    let n = results.len();
    let mut rest = results;
    let mut out: Vec<Data> = Vec::new();
    let mut i: usize = 0;
    assert(all.take(0) =~= Seq::<Result<Vec<Data>, MyError>>::empty());
    while i < n
        invariant
            i <= n,
            n == all.len(),
            rest@ == all.skip(i as int),
            out@ == ok_records(all.take(i as int)),
        decreases n - i,
    {
        let x = rest.remove(0);
        assert(x == all[i as int]);
        assert(rest@ =~= all.skip(i + 1));
        assert(all.take(i + 1).drop_last() =~= all.take(i as int));
        match x {
            Ok(v) => {
                let mut v = v;
                let ghost before = out@;
                out.append(&mut v);
                assert(out@ =~= before + x->Ok_0@);
            },
            Err(_) => {},
        }
        i = i + 1;
    }
    assert(all.take(n as int) =~= all);
    Ok(out)
}

/// `j` is the first test record of module `sn`.
pub open spec fn first_sn_at(datas: Seq<Data>, sn: Seq<char>, j: int) -> bool {
    &&& 0 <= j < datas.len()
    &&& datas[j].sn@ == sn
    &&& forall|k: int| 0 <= k < j ==> datas[k].sn@ != sn
}

/// `r` is `d` with the test record of its module taken from `datas` (the
/// first one found), or `d` itself when `datas` has none.
pub open spec fn merged_with(r: Datas, d: Datas, datas: Seq<Data>) -> bool {
    &&& r.carton_data == d.carton_data
    &&& r.pack_data == d.pack_data
    &&& r.band_data == d.band_data
    &&& if data_sns(datas).contains(d.sn_data.sn@) {
        exists|j: int| first_sn_at(datas, d.sn_data.sn@, j) && r.sn_data == datas[j]
    } else {
        r.sn_data == d.sn_data
    }
}

/// Gives a module the test record of its serial number, if one was found.
pub fn merge_test_data(d: Datas, datas: &Vec<Data>) -> (r: Datas)
    ensures
        merged_with(r, d, datas@),
{
    let mut q: usize = 0;
    while q < datas.len()
        invariant
            q <= datas@.len(),
            forall|k: int| 0 <= k < q ==> datas@[k].sn@ != d.sn_data.sn@,
        decreases datas.len() - q,
    {
        if str_eq(datas[q].sn.as_str(), d.sn_data.sn.as_str()) {
            let ghost j = q as int;
            assert(first_sn_at(datas@, d.sn_data.sn@, j));
            assert(data_sns(datas@)[j] == d.sn_data.sn@);
            let mut r = d;
            r.sn_data = datas[q].copy();
            return r;
        }
        q = q + 1;
    }
    proof {
        if data_sns(datas@).contains(d.sn_data.sn@) {
            let w = choose|w: int| 0 <= w < datas@.len() && data_sns(datas@)[w] == d.sn_data.sn@;
            assert(datas@[w].sn@ == d.sn_data.sn@);
        }
    }
    d
}

/// `m` holds each module of `all` with its test record from `datas`, and
/// `pre` the result row of each.
pub open spec fn merged_rows(m: Seq<Datas>, pre: Seq<Record>, all: Seq<Datas>, datas: Seq<Data>) -> bool {
    &&& m.len() == all.len()
    &&& pre.len() == all.len()
    &&& forall|i: int| 0 <= i < m.len() ==> merged_with(#[trigger] m[i], all[i], datas)
    &&& forall|i: int| 0 <= i < pre.len() ==> (#[trigger] pre[i])@ == carton_record(m[i])
}

/// The rows of the carton export: each module with its test record, as a
/// result row, ordered by box number (stable).
pub fn carton_result_rows(all: Vec<Datas>, datas: &Vec<Data>) -> (r: Vec<Record>)
    ensures
        exists|m: Seq<Datas>, pre: Seq<Record>| #[trigger] merged_rows(m, pre, all@, datas@) && stable_sort_of(r@, pre),
{
    let ghost s = all@;
    let n = all.len();
    let mut rest = all;
    let mut rows: Vec<Record> = Vec::new();
    let ghost mut m: Seq<Datas> = Seq::empty();
    let mut i: usize = 0;
    while i < n
        invariant
            i <= n,
            n == s.len(),
            rest@ == s.skip(i as int),
            m.len() == i,
            rows@.len() == i,
            forall|k: int| 0 <= k < i ==> merged_with(#[trigger] m[k], s[k], datas@),
            forall|k: int| 0 <= k < i ==> (#[trigger] rows@[k])@ == carton_record(m[k]),
        decreases n - i,
    {
        let d = rest.remove(0);
        assert(d == s[i as int]);
        assert(rest@ =~= s.skip(i + 1));
        let merged = merge_test_data(d, datas);
        proof {
            m = m.push(merged);
        }
        rows.push(flatten_datas(merged));
        i = i + 1;
    }
    proof {
        assert forall|k: int| 0 <= k < rows@.len() implies #[trigger] rows@[k].has_box_key() by {
            lemma_record_box_no(m[k]);
        }
    }
    let ghost pre = rows@;
    let r = sort_by_box_no(rows);
    assert(merged_rows(m, pre, s, datas@));
    r
}

/// The carton export needs a carton number.
pub fn check_carton(carton: &str) -> (r: Result<(), MyError>)
    ensures
        carton@.len() == 0 <==> r == Err::<(), MyError>(MyError::CartonNoEmpty),
        carton@.len() > 0 <==> r is Ok,
{
    if carton.unicode_len() == 0 {
        Err(MyError::CartonNoEmpty)
    } else {
        Ok(())
    }
}

/// The message of a carton that holds no module.
pub open spec fn carton_not_found(carton: Seq<char>) -> Seq<char> {
    "箱号:"@ + carton
}

/// The modules of a carton, or `NoResult` naming the carton when it holds none.
pub fn base_datas_found(all: Vec<Datas>, carton: &str) -> (r: Result<Vec<Datas>, MyError>)
    ensures
        all@.len() > 0 ==> r == Ok::<Vec<Datas>, MyError>(all),
        all@.len() == 0 ==> (r matches Err(MyError::NoResult(m)) && m@ == carton_not_found(carton@)),
{
    if all.len() == 0 {
        Err(MyError::NoResult(concat("箱号:", carton)))
    } else {
        Ok(all)
    }
}

/// A batch export reads its cartons from a file: it is asked for with no
/// carton number and the batch switch on.
pub fn is_batch_query(carton: &str, is_multi: bool) -> (r: bool)
    ensures
        r == (carton@.len() == 0 && is_multi),
{
    carton.unicode_len() == 0 && is_multi
}

/// The chunks cover the list exactly: item `k` is item `k % 1000` of chunk
/// `k / 1000`, every chunk but the last holds 1000 items, and none is empty.
pub proof fn law_chunks_cover(s: Seq<Seq<char>>, m: int)
    requires
        m * 1000 >= s.len(),
        m == 0 || (m - 1) * 1000 < s.len(),
    ensures
        forall|k: int| 0 <= k < s.len() ==> #[trigger] s[k] == chunk_at(s, k / 1000)[k % 1000] && k / 1000 < m,
        forall|j: int| 0 <= j < m ==> 0 < #[trigger] chunk_at(s, j).len() <= 1000,
        forall|j: int| 0 <= j < m - 1 ==> #[trigger] chunk_at(s, j).len() == 1000,
{
    assert forall|k: int| 0 <= k < s.len() implies #[trigger] s[k] == chunk_at(s, k / 1000)[k % 1000] && k / 1000 < m by {
        let j = k / 1000;
        assert(j * 1000 <= k < j * 1000 + 1000);
        assert(j < m) by {
            if j >= m {
                assert(j * 1000 >= m * 1000) by (nonlinear_arith)
                    requires j >= m;
            }
        }
        assert(k % 1000 == k - j * 1000);
        assert(chunk_end(s.len() as int, j) > k);
    }
    assert forall|j: int| 0 <= j < m implies 0 < #[trigger] chunk_at(s, j).len() <= 1000 by {
        assert(j * 1000 < s.len()) by {
            assert(j <= m - 1);
            assert(j * 1000 <= (m - 1) * 1000) by (nonlinear_arith)
                requires j <= m - 1;
        }
    }
    assert forall|j: int| 0 <= j < m - 1 implies #[trigger] chunk_at(s, j).len() == 1000 by {
        assert((j + 1) * 1000 <= (m - 1) * 1000) by (nonlinear_arith)
            requires j + 1 <= m - 1;
    }
}

/// The serial numbers of rows that all have one.
pub open spec fn kept_sns(kept: Seq<BaseRow>) -> Seq<Seq<char>> {
    kept.map_values(|x: BaseRow| x.sn->0@)
}

/// The carton query keeps one row per module: the rows kept have serial
/// numbers, and these are the distinct serial numbers of the rows, in the
/// order they first occur.
pub proof fn law_base_rows_each_sn_once(rows: Seq<BaseRow>)
    ensures
        forall|i: int| 0 <= i < kept_base_rows(rows).len() ==> (#[trigger] kept_base_rows(rows)[i]).sn is Some,
        kept_sns(kept_base_rows(rows)) == crate::text::unique_in_order(row_sns(rows)),
        forall|i: int, j: int|
            0 <= i < j < kept_base_rows(rows).len() ==> (#[trigger] kept_base_rows(rows)[i]).sn != (#[trigger] kept_base_rows(rows)[j]).sn,
    decreases rows.len(),
{
    if rows.len() == 0 {
        assert(kept_sns(kept_base_rows(rows)) =~= Seq::<Seq<char>>::empty());
    } else {
        let t = rows.drop_last();
        let x = rows.last();
        law_base_rows_each_sn_once(t);
        let kt = kept_base_rows(t);
        match x.sn {
            Some(sn) => {
                assert(row_sns(rows).drop_last() =~= row_sns(t));
                assert(row_sns(rows).last() == sn@);
                crate::text::lemma_unique_contains(row_sns(t), sn@);
                if !row_sns(t).contains(sn@) {
                    assert(kept_sns(kt.push(x)) =~= kept_sns(kt).push(sn@));
                }
            },
            None => {},
        }
    }
    let kept = kept_base_rows(rows);
    crate::text::lemma_unique_distinct(row_sns(rows));
    assert forall|i: int, j: int|
        0 <= i < j < kept.len() implies (#[trigger] kept[i]).sn != (#[trigger] kept[j]).sn by {
        assert(kept_sns(kept)[i] == kept[i].sn->0@);
        assert(kept_sns(kept)[j] == kept[j].sn->0@);
    }
}

} // verus!
