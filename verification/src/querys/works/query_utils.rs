//! Checks and SQL shared by the box, carton and serial-number queries.
use vstd::prelude::*;
use chrono::Datelike;
use crate::error::MyError;
use crate::text::{concat, join_texts, seq_join, str_eq, text, utf8, views};
use vstd::utf8::{decode_utf8, encode_utf8_decode_utf8, is_char_boundary};
use vstd::string::StringSliceAdditionalSpecFns;

verus! {

/// A query needs at least one condition: a number, a part number, a time
/// bound, or the time switch.
pub open spec fn no_condition(key: Seq<char>, pn: Seq<char>, start: Seq<char>, end: Seq<char>, use_time: bool) -> bool {
    key.len() == 0 && pn.len() == 0 && start.len() == 0 && end.len() == 0 && !use_time
}

/// Refuses a query without any condition.
pub fn check_conditions(key: &str, pn: &str, start: &str, end: &str, use_time: bool) -> (r: Result<(), MyError>)
    ensures
        no_condition(key@, pn@, start@, end@, use_time) ==> (r matches Err(MyError::Zdyknown(m)) && m@ == "所有条件不能为空"@),
        !no_condition(key@, pn@, start@, end@, use_time) ==> r is Ok,
{
    if key.unicode_len() == 0 && pn.unicode_len() == 0 && start.unicode_len() == 0 && end.unicode_len() == 0
        && !use_time {
        Err(MyError::Zdyknown(crate::text::text("所有条件不能为空")))
    } else {
        Ok(())
    }
}

/// The test record columns of the 10G table, under the names of the query.
pub const SELECT_10G: &'static str = "\n    SN, Ith, Pf as Po, Vop as Vf, Im, Rs, Se, Sen, Res, ICC, Vbr, Kink, \n    imkink as Imkink, TestDate as testtime, Idark, Result, \n    ProductBill as Tester, iop as Iop, ixtalk as I_xtalk, \n    MDPId as Mdpid, testtype as Yypn\n";

/// The test record columns of a 2.5G table, under the names of the query.
pub const SELECT_2_5G: &'static str = "\n    SN, Ith, Po, Vf, Im, Rs, Pslop as Se, Sen, Res, ICC, Vbr, Kink_I as Kink, \n    kinkim_i as Imkink, TestDate as testtime, Idark, Result, \n    ProductBill as Tester, io as Iop, xtalk as I_xtalk, \n    Te as Mdpid, testtype as Yypn\n";

/// The 10G table.
pub const MAC_10G_TABLE: &'static str = "[BOSAautotest_Data].[dbo].[MAC_10GBOSADATA]";

/// The year, month and day chrono reads from `s` with the pattern `fmt`,
/// `None` where chrono does not accept it.
pub uninterp spec fn chrono_ymd(s: Seq<char>, fmt: Seq<char>) -> Option<(int, int, int)>;

/// `chrono::NaiveDate::parse_from_str(s, fmt)`, as year, month and day. The
/// contract only names the result (`chrono_ymd`): which texts chrono accepts,
/// and how it reads them, is left to chrono's parser.
#[verifier::external_body]
fn parse_date(s: &str, fmt: &str) -> (r: Option<(i32, u32, u32)>)
    ensures
        match r {
            Some(t) => chrono_ymd(s@, fmt@) == Some((t.0 as int, t.1 as int, t.2 as int)),
            None => chrono_ymd(s@, fmt@) is None,
        },
{
    match chrono::NaiveDate::parse_from_str(s, fmt) {
        Ok(d) => Some((d.year(), d.month(), d.day())),
        Err(_) => None,
    }
}

/// The upper-case form of a text, as `str::to_uppercase` gives it.
pub uninterp spec fn unicode_upper(s: Seq<char>) -> Seq<char>;

/// `str::to_uppercase`. Its documentation defines upper case by the Unicode
/// derived core property Uppercase; the contract only names the result
/// (`unicode_upper`).
#[verifier::external_body]
fn to_upper(s: &str) -> (r: String)
    ensures
        r@ == unicode_upper(s@),
{
    s.to_uppercase()
}

/// Whether one date is not after another, comparing year, then month, then day.
pub open spec fn ymd_le(a: (int, int, int), b: (int, int, int)) -> bool {
    a.0 < b.0 || (a.0 == b.0 && (a.1 < b.1 || (a.1 == b.1 && a.2 <= b.2)))
}

fn ymd_le_exec(a: (i32, u32, u32), b: (i32, u32, u32)) -> (r: bool)
    ensures
        r == ymd_le((a.0 as int, a.1 as int, a.2 as int), (b.0 as int, b.1 as int, b.2 as int)),
{
    a.0 < b.0 || (a.0 == b.0 && (a.1 < b.1 || (a.1 == b.1 && a.2 <= b.2)))
}

/// The date text of a time text: its first ten bytes.
pub open spec fn date_prefix(s: Seq<char>) -> Seq<char> {
    decode_utf8(utf8(s).subrange(0, 10))
}

/// The first ten bytes of the text can be cut off: there are that many, and
/// they end on a character boundary.
pub open spec fn date_prefix_ok(s: Seq<char>) -> bool {
    utf8(s).len() >= 10 && is_char_boundary(utf8(s), 10)
}

/// The first ten bytes of a time text.
fn date_prefix_of(s: &str) -> (r: &str)
    requires
        date_prefix_ok(s@),
    ensures
        r@ == date_prefix(s@),
{
    let (head, _tail) = s.split_at(10);
    proof {
        encode_utf8_decode_utf8(head@);
    }
    head
}

/// The part of a table name after its last '_' (the whole name if it has none).
pub open spec fn last_segment(s: Seq<char>) -> Seq<char>
    decreases s.len(),
{
    if s.len() == 0 {
        s
    } else if s.last() == '_' {
        Seq::empty()
    } else {
        last_segment(s.drop_last()).push(s.last())
    }
}

/// The part of a table name after its last '_'.
pub fn last_segment_of(s: &str) -> (r: String)
    ensures
        r@ == last_segment(s@),
{
    let n = s.unicode_len();
    let mut j: usize = n;
    assert(s@.subrange(0, n as int) =~= s@);
    assert(last_segment(s@) + s@.subrange(n as int, n as int) =~= last_segment(s@));
    while j > 0 && s.get_char(j - 1) != '_'
        invariant
            j <= n,
            n == s@.len(),
            last_segment(s@) == last_segment(s@.subrange(0, j as int)) + s@.subrange(j as int, n as int),
        decreases j,
    {
        let ghost t = s@.subrange(0, j as int);
        assert(t.drop_last() =~= s@.subrange(0, j - 1));
        assert(t.last() == s@[j - 1]);
        assert(last_segment(t) == last_segment(s@.subrange(0, j - 1)).push(s@[j - 1]));
        assert(last_segment(s@.subrange(0, j - 1)).push(s@[j - 1]) + s@.subrange(j as int, n as int)
            =~= last_segment(s@.subrange(0, j - 1)) + s@.subrange(j - 1, n as int));
        j = j - 1;
    }
    if j > 0 {
        assert(s@.subrange(0, j as int).last() == '_');
    } else {
        assert(s@.subrange(0, 0) =~= Seq::<char>::empty());
    }
    assert(Seq::<char>::empty() + s@.subrange(j as int, n as int) =~= s@.subrange(j as int, n as int));
    s.substring_char(j, n).to_owned()
}

/// The month a 2.5G table holds, as chrono reads the last part of its name
/// with "01" appended under `%Y%m%d`; none when that part is not six bytes or
/// chrono does not accept it.
pub open spec fn table_month(table: Seq<char>) -> Option<(int, int, int)> {
    let part = last_segment(table);
    if utf8(part).len() == 6 {
        chrono_ymd(part + "01"@, "%Y%m%d"@)
    } else {
        None
    }
}

/// A table is in the time span when its month lies between the months of the
/// bounds (each taken at day 1).
pub open spec fn table_in_span(table: Seq<char>, lo: (int, int, int), hi: (int, int, int)) -> bool {
    match table_month(table) {
        Some(t) => ymd_le((lo.0, lo.1, 1), t) && ymd_le(t, (hi.0, hi.1, 1)),
        None => false,
    }
}

/// The span test goes by month and is inclusive at both ends: a table of
/// month `m` of year `y` lies in the span exactly when that month is not
/// before the month of `lo` and not after the month of `hi`; the days of the
/// bounds play no part, and a table without a month never lies in it.
pub proof fn law_table_span_inclusive(table: Seq<char>, y: int, m: int, lo: (int, int, int), hi: (int, int, int))
    ensures
        table_month(table) == Some((y, m, 1int)) ==> (table_in_span(table, lo, hi) <==> (
            (lo.0 < y || (lo.0 == y && lo.1 <= m)) && (y < hi.0 || (y == hi.0 && m <= hi.1)))),
        table_month(table) is None ==> !table_in_span(table, lo, hi),
        table_month(table) == Some((lo.0, lo.1, 1int)) && ymd_le(lo, hi) ==> table_in_span(table, lo, hi),
        table_month(table) == Some((hi.0, hi.1, 1int)) && ymd_le(lo, hi) ==> table_in_span(table, lo, hi),
{
}

/// Whether a table lies in the time span between the months `lo` and `hi`.
pub fn table_in_span_of(table: &str, lo: (i32, u32, u32), hi: (i32, u32, u32)) -> (r: bool)
    ensures
        r == table_in_span(table@, (lo.0 as int, lo.1 as int, lo.2 as int), (hi.0 as int, hi.1 as int, hi.2 as int)),
{
    let part = last_segment_of(table);
    if part.as_str().as_bytes().len() != 6 {
        return false;
    }
    let s = concat(part.as_str(), "01");
    match parse_date(s.as_str(), "%Y%m%d") {
        Some(t) => ymd_le_exec((lo.0, lo.1, 1), t) && ymd_le_exec(t, (hi.0, hi.1, 1)),
        None => false,
    }
}

/// The tables kept by the time filter, in order.
pub open spec fn tables_in_span(tables: Seq<Seq<char>>, lo: (int, int, int), hi: (int, int, int)) -> Seq<Seq<char>> {
    tables.filter(|t: Seq<char>| table_in_span(t, lo, hi))
}

/// The tables that are not the 10G table (compared in upper case).
pub open spec fn not_10g(tables: Seq<Seq<char>>) -> Seq<Seq<char>> {
    tables.filter(|t: Seq<char>| unicode_upper(t) != MAC_10G_TABLE@)
}

/// Whether the device choice includes the 10G table.
pub open spec fn with_10g(devices: Seq<char>) -> bool {
    devices == "10G"@ || devices == "全部"@
}

/// Whether the device choice includes the 2.5G tables.
pub open spec fn with_25g(devices: Seq<char>) -> bool {
    devices == "2.5G"@ || devices == "全部"@
}

/// The query over the test tables: the 10G table and the given 2.5G tables
/// (but the 10G table), joined by " UNION ALL ".
pub open spec fn union_query_spec(devices: Seq<char>, tables: Seq<Seq<char>>) -> Seq<char> {
    let head: Seq<Seq<char>> = if with_10g(devices) {
        seq!["SELECT "@ + SELECT_10G@ + " FROM [BOSAautotest_Data].[dbo].[MAC_10GBOSADATA]"@]
    } else {
        Seq::empty()
    };
    let rest: Seq<Seq<char>> = if with_25g(devices) {
        not_10g(tables).map_values(|t: Seq<char>| "SELECT "@ + SELECT_2_5G@ + " FROM "@ + t)
    } else {
        Seq::empty()
    };
    seq_join(head + rest, " UNION ALL "@)
}

/// Keeps the tables that lie in the time span.
fn filter_tables_in_span(tables: &Vec<String>, lo: (i32, u32, u32), hi: (i32, u32, u32)) -> (r: Vec<String>)
    ensures
        views(r@) == tables_in_span(views(tables@), (lo.0 as int, lo.1 as int, lo.2 as int), (hi.0 as int, hi.1 as int, hi.2 as int)),
{
    let ghost lov = (lo.0 as int, lo.1 as int, lo.2 as int);
    let ghost hiv = (hi.0 as int, hi.1 as int, hi.2 as int);
    let mut r: Vec<String> = Vec::new();
    let mut i: usize = 0;
    assert(views(tables@).take(0) =~= Seq::<Seq<char>>::empty());
    proof {
        reveal(Seq::filter);
    }
    while i < tables.len()
        invariant
            i <= tables@.len(),
            lov == (lo.0 as int, lo.1 as int, lo.2 as int),
            hiv == (hi.0 as int, hi.1 as int, hi.2 as int),
            views(r@) == tables_in_span(views(tables@).take(i as int), lov, hiv),
        decreases tables.len() - i,
    {
        let ghost t = views(tables@).take(i + 1);
        assert(t.drop_last() =~= views(tables@).take(i as int));
        assert(t.last() == tables@[i as int]@);
        proof {
            reveal(Seq::filter);
        }
        assert(t =~= t.drop_last().push(t.last()));
        if table_in_span_of(tables[i].as_str(), lo, hi) {
            let ghost before = r@;
            r.push(tables[i].clone());
            assert(views(r@) =~= views(before).push(tables@[i as int]@));
        }
        i = i + 1;
    }
    assert(views(tables@).take(tables@.len() as int) =~= views(tables@));
    r
}

/// The message of a device choice that names no table set.
pub open spec fn devices_message(devices: Seq<char>) -> Seq<char> {
    "无效的 test_devices 参数: "@ + devices
}

/// The 2.5G tables the query reads: all of them, or with the time switch on
/// and both bounds given, those of the months between the bounds' months;
/// an error when chrono does not read a bound's date.
fn chosen_tables(tables: &Vec<String>, use_time: bool, start: &str, end: &str) -> (r: Result<Vec<String>, MyError>)
    requires
        use_time && start@.len() > 0 && end@.len() > 0 ==> date_prefix_ok(start@) && date_prefix_ok(end@),
    ensures
        !(use_time && start@.len() > 0 && end@.len() > 0) ==> (r matches Ok(c) && views(c@) == views(tables@)),
        use_time && start@.len() > 0 && end@.len() > 0 ==> {
            let lo = chrono_ymd(date_prefix(start@), "%Y-%m-%d"@);
            let hi = chrono_ymd(date_prefix(end@), "%Y-%m-%d"@);
            &&& lo is None ==> (r matches Err(MyError::Zdyknown(m)) && m@ == "无效的开始日期格式"@)
            &&& lo is Some && hi is None ==> (r matches Err(MyError::Zdyknown(m)) && m@ == "无效的结束日期格式"@)
            &&& lo is Some && hi is Some ==> (r matches Ok(c) && views(c@) == tables_in_span(views(tables@), lo->0, hi->0))
        },
{
    if use_time && start.unicode_len() > 0 && end.unicode_len() > 0 {
        let lo = match parse_date(date_prefix_of(start), "%Y-%m-%d") {
            Some(d) => d,
            None => {
                return Err(MyError::Zdyknown(text("无效的开始日期格式")));
            },
        };
        let hi = match parse_date(date_prefix_of(end), "%Y-%m-%d") {
            Some(d) => d,
            None => {
                return Err(MyError::Zdyknown(text("无效的结束日期格式")));
            },
        };
        Ok(filter_tables_in_span(tables, lo, hi))
    } else {
        let mut c: Vec<String> = Vec::new();
        let mut k: usize = 0;
        while k < tables.len()
            invariant
                k <= tables@.len(),
                c@.len() == k,
                forall|x: int| 0 <= x < k ==> #[trigger] c@[x] == tables@[x],
            decreases tables.len() - k,
        {
            c.push(tables[k].clone());
            k = k + 1;
        }
        assert(views(c@) =~= views(tables@));
        Ok(c)
    }
}

/// The query of one 2.5G table.
pub open spec fn select_25g(t: Seq<char>) -> Seq<char> {
    "SELECT "@ + SELECT_2_5G@ + " FROM "@ + t
}

/// The queries of the tables that are not the 10G table, in order.
fn select_25g_parts(tables: &Vec<String>) -> (r: Vec<String>)
    ensures
        views(r@) == not_10g(views(tables@)).map_values(|t: Seq<char>| select_25g(t)),
{
    let mut parts: Vec<String> = Vec::new();
    let mut i: usize = 0;
    assert(views(tables@).take(0) =~= Seq::<Seq<char>>::empty());
    proof {
        reveal(Seq::filter);
    }
    assert(not_10g(Seq::<Seq<char>>::empty()).map_values(|t: Seq<char>| select_25g(t)) =~= Seq::<Seq<char>>::empty());
    while i < tables.len()
        invariant
            i <= tables@.len(),
            views(parts@) == not_10g(views(tables@).take(i as int)).map_values(|t: Seq<char>| select_25g(t)),
        decreases tables.len() - i,
    {
        let ghost t = views(tables@).take(i + 1);
        assert(t.drop_last() =~= views(tables@).take(i as int));
        assert(t.last() == tables@[i as int]@);
        proof {
            reveal(Seq::filter);
        }
        let up = to_upper(tables[i].as_str());
        if !str_eq(up.as_str(), MAC_10G_TABLE) {
            let mut q = text("SELECT ");
            q.append(SELECT_2_5G);
            q.append(" FROM ");
            q.append(tables[i].as_str());
            let ghost before = views(parts@);
            parts.push(q);
            assert(views(parts@) =~= before.push(q@));
            assert(not_10g(t) == not_10g(t.drop_last()).push(t.last()));
            assert(not_10g(t).map_values(|x: Seq<char>| select_25g(x))
                =~= not_10g(t.drop_last()).map_values(|x: Seq<char>| select_25g(x)).push(q@));
        } else {
            assert(not_10g(t) == not_10g(t.drop_last()));
        }
        i = i + 1;
    }
    assert(views(tables@).take(tables@.len() as int) =~= views(tables@));
    parts
}

/// The query over the test tables chosen by `devices` ("10G", "2.5G" or
/// "全部"); with the time switch on and both bounds given, only the 2.5G
/// tables of the months between the bounds' months. Errors: a device choice
/// that names no tables, and a bound chrono does not read as a date.
pub fn build_base_union_query(devices: &str, tables: &Vec<String>, use_time: bool, start: &str, end: &str) -> (r: Result<String, MyError>)
    requires
        with_25g(devices@) && use_time && start@.len() > 0 && end@.len() > 0 ==> date_prefix_ok(start@) && date_prefix_ok(end@),
    ensures
        !with_10g(devices@) && !with_25g(devices@) ==> (r matches Err(MyError::Zdyknown(m)) && m@ == devices_message(devices@)),
        with_10g(devices@) && !with_25g(devices@) ==> (r matches Ok(q) && q@ == union_query_spec(devices@, views(tables@))),
        with_25g(devices@) && !(use_time && start@.len() > 0 && end@.len() > 0) ==> (r matches Ok(q) && q@ == union_query_spec(devices@, views(tables@))),
        with_25g(devices@) && use_time && start@.len() > 0 && end@.len() > 0 ==> {
            let lo = chrono_ymd(date_prefix(start@), "%Y-%m-%d"@);
            let hi = chrono_ymd(date_prefix(end@), "%Y-%m-%d"@);
            &&& lo is None ==> (r matches Err(MyError::Zdyknown(m)) && m@ == "无效的开始日期格式"@)
            &&& lo is Some && hi is None ==> (r matches Err(MyError::Zdyknown(m)) && m@ == "无效的结束日期格式"@)
            &&& lo is Some && hi is Some ==> (r matches Ok(q) && q@ == union_query_spec(devices@, tables_in_span(views(tables@), lo->0, hi->0)))
        },
{
    let inc10 = str_eq(devices, "10G") || str_eq(devices, "全部");
    let inc25 = str_eq(devices, "2.5G") || str_eq(devices, "全部");
    if !inc10 && !inc25 {
        return Err(MyError::Zdyknown(concat("无效的 test_devices 参数: ", devices)));
    }
    let mut parts: Vec<String> = Vec::new();
    if inc10 {
        let mut q = text("SELECT ");
        q.append(SELECT_10G);
        q.append(" FROM [BOSAautotest_Data].[dbo].[MAC_10GBOSADATA]");
        parts.push(q);
    }
    let ghost head = views(parts@);
    assert(head =~= (if with_10g(devices@) {
        seq!["SELECT "@ + SELECT_10G@ + " FROM [BOSAautotest_Data].[dbo].[MAC_10GBOSADATA]"@]
    } else {
        Seq::<Seq<char>>::empty()
    }));
    if inc25 {
        let chosen = chosen_tables(tables, use_time, start, end);
        let chosen = match chosen {
            Ok(c) => c,
            Err(e) => {
                return Err(e);
            },
        };
        let mut more = select_25g_parts(&chosen);
        let ghost before = parts@;
        parts.append(&mut more);
        assert(views(parts@) =~= views(before) + not_10g(views(chosen@)).map_values(|t: Seq<char>| select_25g(t)));
        assert(not_10g(views(chosen@)).map_values(|t: Seq<char>| select_25g(t))
            =~= not_10g(views(chosen@)).map_values(|t: Seq<char>| "SELECT "@ + SELECT_2_5G@ + " FROM "@ + t));
    } else {
        assert(views(parts@) =~= head + Seq::<Seq<char>>::empty());
    }
    Ok(join_texts(&parts, " UNION ALL "))
}

} // verus!
