//! The serial-number query: test records filtered by serial numbers, result,
//! part number, tester and test time, with each module's latest box and carton.
use vstd::prelude::*;
use crate::app_data_bridge::Record;
use crate::error::MyError;
use crate::records::{or_empty, Data};
use crate::strmap::StrMap;
use crate::text::{concat, decimal, decimal_text, join_texts, seq_join, str_eq, text, views};

verus! {

/// The texts of a record's entries.
pub open spec fn text_entries(s: Seq<(Seq<char>, String)>) -> Seq<(Seq<char>, Seq<char>)> {
    s.map_values(|e: (Seq<char>, String)| (e.0, e.1@))
}

/// The result row of a test record: its fields under their column names; the
/// device id only when it is not empty; box and carton empty when unknown.
pub open spec fn sn_record(d: Data) -> Seq<(Seq<char>, Seq<char>)> {
    let head = seq![
        ("sn"@, d.sn@),
        ("ith"@, d.ith@),
        ("vf"@, d.vf@),
        ("im"@, d.im@),
        ("po"@, d.po@),
        ("rs"@, d.rs@),
        ("se"@, d.se@),
        ("sen"@, d.sen@),
        ("res"@, d.res@),
        ("icc"@, d.icc@),
        ("vbr"@, d.vbr@),
        ("kink"@, d.kink@),
        ("imkink"@, d.imkink@),
        ("testdate"@, d.testdate@),
        ("tester"@, d.tester@),
        ("iop"@, d.iop@),
        ("idark"@, d.idark@),
        ("result"@, d.result@),
        ("i_xtalk"@, d.i_xtalk@),
    ];
    let mid = if d.mdpid@.len() > 0 { seq![("mdpid"@, d.mdpid@)] } else { Seq::empty() };
    head + mid + seq![("yypn"@, d.yypn@), ("box_no"@, or_empty(d.box_no)), ("carton_no"@, or_empty(d.carton_no))]
}

/// The result rows of a list of test records, in order.
pub fn format_data(data: Vec<Data>) -> (r: Vec<Record>)
    ensures
        r@.len() == data@.len(),
        forall|i: int| 0 <= i < r@.len() ==> text_entries((#[trigger] r@[i])@) == sn_record(data@[i]),
{
    let ghost s = data@;
    let n = data.len();
    let mut rest = data;
    let mut out: Vec<Record> = Vec::new();
    let mut i: usize = 0;
    while i < n
        invariant
            i <= n,
            n == s.len(),
            rest@ == s.skip(i as int),
            out@.len() == i,
            forall|k: int| 0 <= k < i ==> text_entries((#[trigger] out@[k])@) == sn_record(s[k]),
        decreases n - i,
    {
        let d = rest.remove(0);
        assert(d == s[i as int]);
        assert(rest@ =~= s.skip(i + 1));
        let ghost dv = d;
        let has_mdpid = d.mdpid.unicode_len() > 0;
        let box_no = crate::records::text_or_empty(&d.box_no);
        let carton_no = crate::records::text_or_empty(&d.carton_no);
        let mut e: Vec<(String, String)> = Vec::new();
        e.push((text("sn"), d.sn));
        e.push((text("ith"), d.ith));
        e.push((text("vf"), d.vf));
        e.push((text("im"), d.im));
        e.push((text("po"), d.po));
        e.push((text("rs"), d.rs));
        e.push((text("se"), d.se));
        e.push((text("sen"), d.sen));
        e.push((text("res"), d.res));
        e.push((text("icc"), d.icc));
        e.push((text("vbr"), d.vbr));
        e.push((text("kink"), d.kink));
        e.push((text("imkink"), d.imkink));
        e.push((text("testdate"), d.testdate));
        e.push((text("tester"), d.tester));
        e.push((text("iop"), d.iop));
        e.push((text("idark"), d.idark));
        e.push((text("result"), d.result));
        e.push((text("i_xtalk"), d.i_xtalk));
        if has_mdpid {
            e.push((text("mdpid"), d.mdpid));
        }
        e.push((text("yypn"), d.yypn));
        e.push((text("box_no"), box_no));
        e.push((text("carton_no"), carton_no));
        let m = StrMap::from_entries(e);
        assert(text_entries(m@) =~= sn_record(dv));
        out.push(m);
        i = i + 1;
    }
    out
}

/// The placeholders `@P1`, ..., `@Pn`.
pub open spec fn numbered_placeholders(n: nat) -> Seq<Seq<char>> {
    Seq::new(n, |i: int| "@P"@ + decimal((i + 1) as nat))
}

/// The conditions of the serial-number query and the values bound to them,
/// numbered in order: the serial numbers, the result unless it is "全部",
/// the part number, the tester, and the test-time span, each when given.
pub open spec fn sn_conditions(sns: Seq<Seq<char>>, test_result: Seq<char>, pn: Seq<char>, worker: Seq<char>, use_time: bool, start: Seq<char>, end: Seq<char>) -> (Seq<Seq<char>>, Seq<Seq<char>>) {
    let n = sns.len();
    let r: nat = if test_result != "全部"@ { 1 } else { 0 };
    let p: nat = if pn.len() > 0 { 1 } else { 0 };
    let w: nat = if worker.len() > 0 { 1 } else { 0 };
    let k1 = n + 1;
    let c_sn = if n > 0 { seq!["FinalData.SN IN ("@ + seq_join(numbered_placeholders(n), ", "@) + ")"@] } else { Seq::empty() };
    let c_r = if r == 1 { seq!["FinalData.Result = @P"@ + decimal(k1)] } else { Seq::empty() };
    let c_p = if p == 1 { seq!["FinalData.Yypn = @P"@ + decimal(k1 + r)] } else { Seq::empty() };
    let c_w = if w == 1 { seq!["FinalData.Tester = @P"@ + decimal(k1 + r + p)] } else { Seq::empty() };
    let c_t = if use_time {
        seq!["FinalData.TestDate BETWEEN @P"@ + decimal(k1 + r + p + w) + " AND @P"@ + decimal(k1 + r + p + w + 1)]
    } else {
        Seq::empty()
    };
    let params = sns + (if r == 1 { seq![test_result] } else { Seq::empty() })
        + (if p == 1 { seq![pn] } else { Seq::empty() })
        + (if w == 1 { seq![worker] } else { Seq::empty() })
        + (if use_time { seq![start, end] } else { Seq::empty() });
    (c_sn + c_r + c_p + c_w + c_t, params)
}

/// The WHERE clause of a list of conditions: empty when there are none.
pub open spec fn where_clause(conds: Seq<Seq<char>>) -> Seq<char> {
    if conds.len() == 0 {
        Seq::empty()
    } else {
        "WHERE "@ + seq_join(conds, " AND "@)
    }
}

/// The message of a time query without both bounds.
pub open spec fn sn_time_message() -> Seq<char> {
    "启用时间查询时，开始和结束时间不能为空"@
}

/// The WHERE clause of the serial-number query and its bound values; an error
/// when the time switch is on and a bound is missing.
pub fn build_sn_where(
    sns: &Vec<String>,
    test_result: &str,
    pn: &str,
    worker: &str,
    use_time: bool,
    start: &str,
    end: &str,
) -> (r: Result<(String, Vec<String>), MyError>)
    requires
        sns@.len() + 6 < usize::MAX,
    ensures
        use_time && (start@.len() == 0 || end@.len() == 0) ==> (r matches Err(MyError::Zdyknown(m)) && m@ == sn_time_message()),
        !(use_time && (start@.len() == 0 || end@.len() == 0)) ==> (r matches Ok(q)
            && q.0@ == where_clause(sn_conditions(views(sns@), test_result@, pn@, worker@, use_time, start@, end@).0)
            && views(q.1@) == sn_conditions(views(sns@), test_result@, pn@, worker@, use_time, start@, end@).1),
{
    let ghost spec = sn_conditions(views(sns@), test_result@, pn@, worker@, use_time, start@, end@);
    let mut params: Vec<String> = Vec::new();
    let mut conds: Vec<String> = Vec::new();
    let n = sns.len();
    if n > 0 {
        let mut ph: Vec<String> = Vec::new();
        let mut i: usize = 0;
        while i < n
            invariant
                i <= n,
                n == sns@.len(),
                n + 6 < usize::MAX,
                ph@.len() == i,
                params@.len() == i,
                forall|k: int| 0 <= k < i ==> (#[trigger] ph@[k])@ == "@P"@ + decimal((k + 1) as nat),
                forall|k: int| 0 <= k < i ==> (#[trigger] params@[k])@ == sns@[k]@,
            decreases n - i,
        {
            ph.push(concat("@P", decimal_text(i + 1).as_str()));
            params.push(sns[i].clone());
            i = i + 1;
        }
        assert(views(ph@) =~= numbered_placeholders(n as nat));
        assert(views(params@) =~= views(sns@));
        let mut c = text("FinalData.SN IN (");
        c.append(join_texts(&ph, ", ").as_str());
        c.append(")");
        conds.push(c);
    } else {
        assert(views(params@) =~= views(sns@));
    }
    let mut k: usize = n + 1;
    if !str_eq(test_result, "全部") {
        conds.push(concat("FinalData.Result = @P", decimal_text(k).as_str()));
        params.push(text(test_result));
        k = k + 1;
    }
    if pn.unicode_len() > 0 {
        conds.push(concat("FinalData.Yypn = @P", decimal_text(k).as_str()));
        params.push(text(pn));
        k = k + 1;
    }
    if worker.unicode_len() > 0 {
        conds.push(concat("FinalData.Tester = @P", decimal_text(k).as_str()));
        params.push(text(worker));
        k = k + 1;
    }
    if use_time {
        if start.unicode_len() == 0 || end.unicode_len() == 0 {
            return Err(MyError::Zdyknown(text("启用时间查询时，开始和结束时间不能为空")));
        }
        let mut c = concat("FinalData.TestDate BETWEEN @P", decimal_text(k).as_str());
        c.append(" AND @P");
        c.append(decimal_text(k + 1).as_str());
        conds.push(c);
        params.push(text(start));
        params.push(text(end));
    }
    assert(views(conds@) =~= spec.0);
    assert(views(params@) =~= spec.1);
    let w = if conds.len() == 0 {
        String::new()
    } else {
        concat("WHERE ", join_texts(&conds, " AND ").as_str())
    };
    Ok((w, params))
}

/// Start of the serial-number query, before the test-table query.
pub const SN_FINAL_HEAD: &'static str = "\n        WITH LatestPack AS (\n            SELECT\n                a.sn,\n                a.Pack_no,\n                b.cartonno,\n                ROW_NUMBER() OVER(PARTITION BY a.sn ORDER BY a.CreateTime DESC) as rn\n            FROM [mes_Factory].[dbo].[MaterialPackSn] a\n            INNER JOIN [mes_Factory].[dbo].[packing_carton] b ON a.Pack_no = b.Packing_no\n            WHERE a.PnOptionID = '-100'\n        )\n        SELECT\n            FinalData.sn, FinalData.ith, FinalData.po, FinalData.vf, FinalData.im, FinalData.rs,\n            FinalData.se, FinalData.sen, FinalData.res, FinalData.icc, FinalData.vbr,\n            FinalData.kink, FinalData.imkink, FinalData.testtime, FinalData.idark,\n            FinalData.result, FinalData.tester, FinalData.iop, FinalData.i_xtalk,\n            FinalData.mdpid, FinalData.yypn,\n            lp.Pack_no as box_no,\n            lp.cartonno as carton_no\n        FROM (\n            ";

/// Middle of the serial-number query, between the test-table query and the
/// WHERE clause.
pub const SN_FINAL_MID: &'static str = "\n        ) AS FinalData\n        LEFT JOIN LatestPack lp ON FinalData.sn = lp.sn AND lp.rn = 1\n        ";

/// End of the serial-number query.
pub const SN_FINAL_TAIL: &'static str = "\n        ";

/// The serial-number query: the test-table query, each record with its
/// module's latest box and carton, filtered by the WHERE clause.
pub fn build_sn_final_sql(base_sql: &str, where_sql: &str) -> (r: String)
    ensures
        r@ == SN_FINAL_HEAD@ + base_sql@ + SN_FINAL_MID@ + where_sql@ + SN_FINAL_TAIL@,
{
    let mut r = concat(SN_FINAL_HEAD, base_sql);
    r.append(SN_FINAL_MID);
    r.append(where_sql);
    r.append(SN_FINAL_TAIL);
    r
}

} // verus!
