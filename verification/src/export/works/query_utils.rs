//! Test-record queries over the 10G table and the 2.5G tables, and picking the
//! latest test record of each module.
use vstd::prelude::*;
use crate::error::MyError;
use crate::records::{or_empty, text_or_empty, Data};
use crate::sorting::{lemma_bytes_lt_irreflexive, lemma_bytes_lt_total, lemma_bytes_lt_transitive};
use crate::text::{
    bytes_lt, drop_last_chars, ends_with_text, lemma_unique_contains, lemma_unique_distinct, str_eq, str_lt, text,
    unique_in_order, utf8, views,
};

verus! {

/// Test record columns of the 10G table, older query.
pub const TESTTYPE: &'static str = "SN,Ith,Pf,Vop,Im,Rs,Se,Sen,Res,ICC,Vbr,Kink,imkink,TestDate,Idark,Result,ProductBill,iop,ixtalk";

/// Test record columns of the 2.5G tables, older query.
pub const TESTTYPE_12: &'static str = "SN,Ith,Po,Vf,Im,Rs,Pslop,Sen,Res,ICC,Vbr,Kink_I,kinkim_i,TestDate,Idark,Result,ProductBill,io,xtalk";

/// `head` followed by one `UNION ALL SELECT cols FROM table ` per table.
pub open spec fn union_of(head: Seq<char>, cols: Seq<char>, tables: Seq<Seq<char>>) -> Seq<char>
    decreases tables.len(),
{
    if tables.len() == 0 {
        head
    } else {
        union_of(head, cols, tables.drop_last()) + "UNION ALL SELECT "@ + cols + " FROM "@ + tables.last() + " "@
    }
}

/// `s` without a trailing `" UNION ALL "`.
pub open spec fn trim_union(s: Seq<char>) -> Seq<char> {
    let u = " UNION ALL "@;
    if u.len() <= s.len() && s.subrange(s.len() - u.len(), s.len() as int) == u {
        s.subrange(0, s.len() - u.len())
    } else {
        s
    }
}

/// The union of the test tables: the 10G table then every 2.5G table.
pub fn build_union(head: &str, cols: &str, tables: &Vec<String>) -> (r: String)
    ensures
        r@ == trim_union(union_of(head@, cols@, views(tables@))),
{
    let mut sql_text = text(head);
    let mut i: usize = 0;
    assert(views(tables@).take(0) =~= Seq::<Seq<char>>::empty());
    while i < tables.len()
        invariant
            i <= tables@.len(),
            sql_text@ == union_of(head@, cols@, views(tables@).take(i as int)),
        decreases tables.len() - i,
    {
        assert(views(tables@).take(i + 1).drop_last() =~= views(tables@).take(i as int));
        assert(views(tables@).take(i + 1).last() == tables@[i as int]@);
        sql_text.append("UNION ALL SELECT ");
        sql_text.append(cols);
        sql_text.append(" FROM ");
        sql_text.append(tables[i].as_str());
        sql_text.append(" ");
        i = i + 1;
    }
    assert(views(tables@).take(tables@.len() as int) =~= views(tables@));
    proof {
        reveal_strlit(" UNION ALL ");
    }
    if ends_with_text(sql_text.as_str(), " UNION ALL ") {
        drop_last_chars(sql_text.as_str(), 11)
    } else {
        sql_text
    }
}

/// The older test-record query: the records of the modules in `sn_list` that
/// passed, newest first.
pub open spec fn query_sql_spec(sn_list: Seq<char>, tables: Seq<Seq<char>>) -> Seq<char> {
    let sql_10 = "SELECT "@ + TESTTYPE@ + " FROM [BOSAautotest_Data].[dbo].[MAC_10GBOSADATA] "@;
    "SELECT * FROM ("@ + trim_union(union_of(sql_10, TESTTYPE_12@, tables)) + ") tmp "@
        + "WHERE SN IN ("@ + sn_list + ") AND Result = 'OK' ORDER BY TestDate DESC"@
}

/// The older test-record query over the 10G table and `tables`.
pub fn build_query_sql(sn_list: &str, tables: &Vec<String>) -> (r: String)
    ensures
        r@ == query_sql_spec(sn_list@, views(tables@)),
{
    let mut sql_10 = text("SELECT ");
    sql_10.append(TESTTYPE);
    sql_10.append(" FROM [BOSAautotest_Data].[dbo].[MAC_10GBOSADATA] ");
    let sql_text = build_union(sql_10.as_str(), TESTTYPE_12, tables);
    let mut r = text("SELECT * FROM (");
    r.append(sql_text.as_str());
    r.append(") tmp ");
    r.append("WHERE SN IN (");
    r.append(sn_list);
    r.append(") AND Result = 'OK' ORDER BY TestDate DESC");
    r
}

/// Among the first `n` records, `items[j]` is the newest of its module, and
/// the first such: no record of that module is newer, and every earlier one is
/// older (test times compare as text).
pub open spec fn newest_first(items: Seq<Data>, n: int, j: int) -> bool {
    &&& 0 <= j < n <= items.len()
    &&& forall|k: int| 0 <= k < n && items[k].sn@ == items[j].sn@ ==> !bytes_lt(
        utf8(items[j].testdate@),
        utf8(#[trigger] items[k].testdate@),
    )
    &&& forall|k: int| 0 <= k < j && items[k].sn@ == items[j].sn@ ==> bytes_lt(
        utf8(#[trigger] items[k].testdate@),
        utf8(items[j].testdate@),
    )
}

/// The serial numbers of a list of test records.
pub open spec fn data_sns(items: Seq<Data>) -> Seq<Seq<char>> {
    items.map_values(|d: Data| d.sn@)
}

/// `r` holds, for each module among the first `n` records in the order the
/// modules first occur, its newest record (the first of them on a tie).
pub open spec fn latest_in(r: Seq<Data>, items: Seq<Data>, n: int) -> bool {
    &&& data_sns(r) == unique_in_order(data_sns(items.take(n)))
    &&& forall|i: int|
        #![trigger r[i]]
        0 <= i < r.len() ==> exists|j: int| #[trigger] newest_first(items, n, j) && items[j] == r[i]
}

/// `r` holds, for each module of `items` in the order the modules first occur,
/// its newest record (the first of them on a tie).
pub open spec fn latest_per_sn_spec(r: Seq<Data>, items: Seq<Data>) -> bool {
    latest_in(r, items, items.len() as int)
}

/// The position in `acc` of the record of module `sn`, if there is one.
fn find_sn(acc: &Vec<Data>, sn: &str) -> (r: Option<usize>)
    ensures
        match r {
            Some(p) => p < acc@.len() && acc@[p as int].sn@ == sn@,
            None => !data_sns(acc@).contains(sn@),
        },
{
    let mut q: usize = 0;
    while q < acc.len()
        invariant
            q <= acc@.len(),
            forall|k: int| 0 <= k < q ==> acc@[k].sn@ != sn@,
        decreases acc.len() - q,
    {
        if str_eq(acc[q].sn.as_str(), sn) {
            return Some(q);
        }
        q = q + 1;
    }
    proof {
        if data_sns(acc@).contains(sn@) {
            let w = choose|w: int| 0 <= w < acc@.len() && data_sns(acc@)[w] == sn@;
            assert(acc@[w].sn@ == sn@);
        }
    }
    None
}

/// Keeps, for each module, its newest test record: a later record replaces
/// the kept one only when its test time sorts strictly after it. Modules come
/// in the order they first occur.
pub fn latest_per_sn(items: &Vec<Data>) -> (r: Vec<Data>)
    ensures
        latest_per_sn_spec(r@, items@),
{
    let mut acc: Vec<Data> = Vec::new();
    let mut i: usize = 0;
    assert(data_sns(items@.take(0)) =~= Seq::<Seq<char>>::empty());
    assert(data_sns(acc@) =~= Seq::<Seq<char>>::empty());
    while i < items.len()
        invariant
            i <= items@.len(),
            latest_in(acc@, items@, i as int),
        decreases items.len() - i,
    {
        let ghost old_acc = acc@;
        let ghost n = i as int;
        let item = &items[i];
        assert(data_sns(items@.take(n + 1)) =~= data_sns(items@.take(n)).push(item.sn@));
        assert(data_sns(items@.take(n + 1)).drop_last() =~= data_sns(items@.take(n)));
        assert(data_sns(items@.take(n + 1)).last() == item.sn@);
        proof {
            lemma_unique_distinct(data_sns(items@.take(n)));
            lemma_bytes_lt_irreflexive(utf8(item.testdate@));
        }
        match find_sn(&acc, item.sn.as_str()) {
            Some(p) => {
                assert(data_sns(old_acc)[p as int] == item.sn@);
                assert(data_sns(old_acc).contains(item.sn@));
                let ghost jw = choose|j: int| #[trigger] newest_first(items@, n, j) && items@[j] == old_acc[p as int];
                if str_lt(acc[p].testdate.as_str(), item.testdate.as_str()) {
                    acc.set(p, item.copy());
                    assert(data_sns(acc@) =~= data_sns(old_acc));
                    assert forall|x: int| #![trigger acc@[x]] 0 <= x < acc@.len() implies exists|j: int|
                        #[trigger] newest_first(items@, n + 1, j) && items@[j] == acc@[x] by {
                        if x == p {
                            assert forall|k: int| 0 <= k < n + 1 && items@[k].sn@ == items@[n].sn@ implies !bytes_lt(
                                utf8(items@[n].testdate@),
                                utf8(#[trigger] items@[k].testdate@),
                            ) by {
                                if k < n {
                                    assert(!bytes_lt(utf8(items@[jw].testdate@), utf8(items@[k].testdate@)));
                                    if utf8(items@[k].testdate@) != utf8(items@[jw].testdate@) {
                                        lemma_bytes_lt_total(utf8(items@[k].testdate@), utf8(items@[jw].testdate@));
                                        lemma_bytes_lt_transitive(utf8(items@[k].testdate@), utf8(items@[jw].testdate@), utf8(items@[n].testdate@));
                                        if bytes_lt(utf8(items@[n].testdate@), utf8(items@[k].testdate@)) {
                                            lemma_bytes_lt_transitive(utf8(items@[n].testdate@), utf8(items@[k].testdate@), utf8(items@[n].testdate@));
                                        }
                                    } else if bytes_lt(utf8(items@[n].testdate@), utf8(items@[k].testdate@)) {
                                        lemma_bytes_lt_transitive(utf8(items@[n].testdate@), utf8(items@[jw].testdate@), utf8(items@[n].testdate@));
                                    }
                                }
                            }
                            assert forall|k: int| 0 <= k < n && items@[k].sn@ == items@[n].sn@ implies bytes_lt(
                                utf8(#[trigger] items@[k].testdate@),
                                utf8(items@[n].testdate@),
                            ) by {
                                assert(!bytes_lt(utf8(items@[jw].testdate@), utf8(items@[k].testdate@)));
                                if utf8(items@[k].testdate@) != utf8(items@[jw].testdate@) {
                                    lemma_bytes_lt_total(utf8(items@[k].testdate@), utf8(items@[jw].testdate@));
                                    lemma_bytes_lt_transitive(utf8(items@[k].testdate@), utf8(items@[jw].testdate@), utf8(items@[n].testdate@));
                                }
                            }
                            assert(newest_first(items@, n + 1, n));
                        } else {
                            let jx = choose|j: int| #[trigger] newest_first(items@, n, j) && items@[j] == old_acc[x];
                            assert(data_sns(old_acc)[x] != data_sns(old_acc)[p as int]);
                            assert(newest_first(items@, n + 1, jx));
                        }
                    }
                } else {
                    assert forall|x: int| #![trigger acc@[x]] 0 <= x < acc@.len() implies exists|j: int|
                        #[trigger] newest_first(items@, n + 1, j) && items@[j] == acc@[x] by {
                        let jx = choose|j: int| #[trigger] newest_first(items@, n, j) && items@[j] == old_acc[x];
                        if x != p {
                            assert(data_sns(old_acc)[x] != data_sns(old_acc)[p as int]);
                        }
                        assert(newest_first(items@, n + 1, jx));
                    }
                }
                assert(unique_in_order(data_sns(items@.take(n + 1))) == unique_in_order(data_sns(items@.take(n))));
                assert(latest_in(acc@, items@, n + 1));
            },
            None => {
                acc.push(item.copy());
                assert(data_sns(acc@) =~= data_sns(old_acc).push(item.sn@));
                proof {
                    lemma_unique_contains(data_sns(items@.take(n)), item.sn@);
                }
                assert forall|x: int| #![trigger acc@[x]] 0 <= x < acc@.len() implies exists|j: int|
                    #[trigger] newest_first(items@, n + 1, j) && items@[j] == acc@[x] by {
                    if x == old_acc.len() {
                        assert forall|k: int| 0 <= k < n implies items@[k].sn@ != items@[n].sn@ by {
                            assert(data_sns(items@.take(n))[k] == items@[k].sn@);
                        }
                        assert(newest_first(items@, n + 1, n));
                    } else {
                        let jx = choose|j: int| #[trigger] newest_first(items@, n, j) && items@[j] == old_acc[x];
                        assert(data_sns(old_acc)[x] == old_acc[x].sn@);
                        assert(data_sns(old_acc).contains(old_acc[x].sn@));
                        assert(newest_first(items@, n + 1, jx));
                    }
                }
                assert(unique_in_order(data_sns(items@.take(n + 1))) == unique_in_order(data_sns(items@.take(n))).push(item.sn@));
                assert(data_sns(acc@) == unique_in_order(data_sns(items@.take(n + 1))));
                assert(acc@[old_acc.len() as int] == items@[n]);
                assert(exists|j: int| #[trigger] newest_first(items@, n + 1, j) && items@[j] == acc@[old_acc.len() as int]);
                assert(forall|x: int|
                    #![trigger acc@[x]]
                    0 <= x < acc@.len() ==> exists|j: int| #[trigger] newest_first(items@, n + 1, j) && items@[j] == acc@[x]);
                assert(latest_in(acc@, items@, n + 1));
            },
        }
        i = i + 1;
    }
    assert(items@.take(items@.len() as int) =~= items@);
    acc
}

/// One row of a test-record query, as read from the database: the columns in
/// query order, each absent when the database holds no value.
pub struct TestRow {
    /// Serial number.
    pub sn: Option<String>,
    /// Threshold current.
    pub ith: Option<String>,
    /// Output power.
    pub po: Option<String>,
    /// Forward voltage.
    pub vf: Option<String>,
    /// Monitor current.
    pub im: Option<String>,
    /// Series resistance.
    pub rs: Option<String>,
    /// Slope efficiency.
    pub se: Option<String>,
    /// Sensitivity.
    pub sen: Option<String>,
    /// Responsivity.
    pub res: Option<String>,
    /// Supply current.
    pub icc: Option<String>,
    /// Breakdown voltage.
    pub vbr: Option<String>,
    /// Kink.
    pub kink: Option<String>,
    /// Monitor-current kink.
    pub imkink: Option<String>,
    /// Test time, formatted as `YYYY-MM-DD hh:mm:ss`.
    pub testdate: String,
    /// Dark current.
    pub idark: Option<String>,
    /// Test verdict.
    pub result: Option<String>,
    /// Tester.
    pub tester: Option<String>,
    /// Operating current.
    pub iop: Option<String>,
    /// Crosstalk.
    pub i_xtalk: Option<String>,
    /// Device id; the older query has no such column.
    pub mdpid: Option<String>,
    /// Part number; the older query has no such column.
    pub yypn: Option<String>,
}

/// The breakdown voltage shown when the database has none.
pub open spec fn vbr_or_default(o: Option<String>) -> Seq<char> {
    match o {
        Some(s) => s@,
        None => "0.00"@,
    }
}

/// The device id shown: a device id of "0" means none.
pub open spec fn mdpid_shown(o: Option<String>) -> Seq<char> {
    if or_empty(o) == "0"@ {
        Seq::empty()
    } else {
        or_empty(o)
    }
}

/// `d` is the test record that row `x` reads as.
pub open spec fn test_row_data(x: TestRow, d: Data) -> bool {
    &&& x.sn is Some
    &&& d.sn@ == x.sn->0@
    &&& d.ith@ == or_empty(x.ith)
    &&& d.vf@ == or_empty(x.vf)
    &&& d.im@ == or_empty(x.im)
    &&& d.po@ == or_empty(x.po)
    &&& d.rs@ == or_empty(x.rs)
    &&& d.se@ == or_empty(x.se)
    &&& d.sen@ == or_empty(x.sen)
    &&& d.res@ == or_empty(x.res)
    &&& d.icc@ == or_empty(x.icc)
    &&& d.vbr@ == vbr_or_default(x.vbr)
    &&& d.kink@ == or_empty(x.kink)
    &&& d.imkink@ == or_empty(x.imkink)
    &&& d.testdate@ == x.testdate@
    &&& d.tester@ == or_empty(x.tester)
    &&& d.iop@ == or_empty(x.iop)
    &&& d.idark@ == or_empty(x.idark)
    &&& d.result@ == or_empty(x.result)
    &&& d.i_xtalk@ == or_empty(x.i_xtalk)
    &&& d.mdpid@ == mdpid_shown(x.mdpid)
    &&& d.yypn@ == or_empty(x.yypn)
    &&& d.box_no is None
    &&& d.carton_no is None
}

/// Reads a test row as a test record; a row without a serial number has no
/// record.
pub fn data_from_test_row(x: &TestRow) -> (d: Data)
    requires
        x.sn is Some,
    ensures
        test_row_data(*x, d),
{
    let vbr = match &x.vbr {
        Some(v) => v.clone(),
        None => text("0.00"),
    };
    let mdpid_raw = text_or_empty(&x.mdpid);
    proof {
        reveal_strlit("0");
    }
    let mdpid = if str_eq(mdpid_raw.as_str(), "0") { String::new() } else { mdpid_raw };
    let sn = match &x.sn {
        Some(s) => s.clone(),
        None => String::new(),
    };
    proof {
        reveal_strlit("0.00");
    }
    Data {
        sn,
        ith: text_or_empty(&x.ith),
        vf: text_or_empty(&x.vf),
        im: text_or_empty(&x.im),
        po: text_or_empty(&x.po),
        rs: text_or_empty(&x.rs),
        se: text_or_empty(&x.se),
        sen: text_or_empty(&x.sen),
        res: text_or_empty(&x.res),
        icc: text_or_empty(&x.icc),
        vbr,
        kink: text_or_empty(&x.kink),
        imkink: text_or_empty(&x.imkink),
        testdate: x.testdate.clone(),
        tester: text_or_empty(&x.tester),
        iop: text_or_empty(&x.iop),
        idark: text_or_empty(&x.idark),
        result: text_or_empty(&x.result),
        i_xtalk: text_or_empty(&x.i_xtalk),
        mdpid,
        yypn: text_or_empty(&x.yypn),
        box_no: None,
        carton_no: None,
    }
}

/// Every row has a serial number.
pub open spec fn rows_have_sn(rows: Seq<TestRow>) -> bool {
    forall|i: int| 0 <= i < rows.len() ==> (#[trigger] rows[i]).sn is Some
}

/// `d` lists the test records that `rows` read as, in order.
pub open spec fn rows_read_as(rows: Seq<TestRow>, d: Seq<Data>) -> bool {
    &&& d.len() == rows.len()
    &&& forall|i: int| 0 <= i < rows.len() ==> test_row_data(#[trigger] rows[i], d[i])
}

/// Reads every test row as a test record.
pub fn datas_from_test_rows(rows: &Vec<TestRow>) -> (r: Vec<Data>)
    requires
        rows_have_sn(rows@),
    ensures
        rows_read_as(rows@, r@),
{
    let mut out: Vec<Data> = Vec::new();
    let mut i: usize = 0;
    while i < rows.len()
        invariant
            i <= rows@.len(),
            rows_have_sn(rows@),
            out@.len() == i,
            forall|k: int| 0 <= k < i ==> test_row_data(#[trigger] rows@[k], out@[k]),
        decreases rows.len() - i,
    {
        let d = data_from_test_row(&rows[i]);
        out.push(d);
        i = i + 1;
    }
    out
}

/// The records a test query found, or `NoResult` with an empty message when
/// it found none.
pub fn found_or_no_result(datas: Vec<Data>) -> (r: Result<Vec<Data>, MyError>)
    ensures
        datas@.len() == 0 ==> (r matches Err(MyError::NoResult(m)) && m@.len() == 0),
        datas@.len() > 0 ==> r == Ok::<Vec<Data>, MyError>(datas),
{
    if datas.len() == 0 {
        Err(MyError::NoResult(String::new()))
    } else {
        Ok(datas)
    }
}

/// The outcome of the older test query: for each module found, its newest
/// record; `NoResult` when the query returned no row.
pub fn latest_test_datas(rows: &Vec<TestRow>) -> (r: Result<Vec<Data>, MyError>)
    requires
        rows_have_sn(rows@),
    ensures
        rows@.len() == 0 ==> (r matches Err(MyError::NoResult(m)) && m@.len() == 0),
        rows@.len() > 0 ==> (r matches Ok(v) && exists|d: Seq<Data>| rows_read_as(rows@, d) && latest_per_sn_spec(v@, d)),
{
    let datas = datas_from_test_rows(rows);
    let latest = latest_per_sn(&datas);
    proof {
        if rows@.len() > 0 {
            assert(data_sns(datas@)[0] == datas@[0].sn@);
            assert(data_sns(datas@).contains(datas@[0].sn@));
            lemma_unique_contains(data_sns(datas@), datas@[0].sn@);
            assert(data_sns(latest@).len() > 0);
            assert(datas@.take(datas@.len() as int) =~= datas@);
        }
    }
    found_or_no_result(latest)
}

/// The latest records name each module once, and exactly the modules of the
/// records they were picked from.
pub proof fn law_latest_each_module_once(r: Seq<Data>, items: Seq<Data>)
    requires
        latest_per_sn_spec(r, items),
    ensures
        forall|i: int, j: int| 0 <= i < j < r.len() ==> #[trigger] r[i].sn@ != #[trigger] r[j].sn@,
        forall|sn: Seq<char>| #[trigger] data_sns(r).contains(sn) <==> data_sns(items).contains(sn),
{
    assert(items.take(items.len() as int) =~= items);
    lemma_unique_distinct(data_sns(items));
    assert forall|i: int, j: int| 0 <= i < j < r.len() implies #[trigger] r[i].sn@ != #[trigger] r[j].sn@ by {
        assert(data_sns(r)[i] == r[i].sn@);
        assert(data_sns(r)[j] == r[j].sn@);
    }
    assert forall|sn: Seq<char>| #[trigger] data_sns(r).contains(sn) <==> data_sns(items).contains(sn) by {
        lemma_unique_contains(data_sns(items), sn);
    }
}

/// A record picked is the newest of its module: no record of that module
/// among those it was picked from has a later test time.
pub proof fn law_latest_is_newest(r: Seq<Data>, items: Seq<Data>, i: int, k: int)
    requires
        latest_per_sn_spec(r, items),
        0 <= i < r.len(),
        0 <= k < items.len(),
        items[k].sn@ == r[i].sn@,
    ensures
        !bytes_lt(utf8(r[i].testdate@), utf8(items[k].testdate@)),
{
    let j = choose|j: int| #[trigger] newest_first(items, items.len() as int, j) && items[j] == r[i];
    assert(newest_first(items, items.len() as int, j));
}

} // verus!
