use yy_dps::app_data_bridge::Record;
use yy_dps::configs::type_config::Infos;
use yy_dps::error::MyError;
use yy_dps::export::works::carton_query::{
    base_datas_found, base_fields, build_base_data_sql, build_query_sql, carton_result_rows, check_carton,
    collect_base_rows, compute_pch, flatten_datas, is_batch_query, merge_chunk_results, merge_test_data,
    sn_list_chunks, sn_placeholders, BaseRow, BASE_CTE,
};
use yy_dps::export::works::query_utils::{self as old_query, data_from_test_row, latest_per_sn, latest_test_datas, TestRow};
use yy_dps::export::works::sn_query::sn_list_text;
use yy_dps::records::{Data, Datas};

fn s(x: &str) -> String {
    x.to_string()
}

fn data(sn: &str, testdate: &str, ith: &str) -> Data {
    let mut d = Data::empty();
    d.sn = s(sn);
    d.testdate = s(testdate);
    d.ith = s(ith);
    d
}

fn datas(sn: &str, box_no: &str) -> Datas {
    let mut d = Datas::empty();
    d.sn_data.sn = s(sn);
    d.pack_data.box_no = s(box_no);
    d
}

fn test_row(sn: &str) -> TestRow {
    TestRow {
        sn: Some(s(sn)),
        ith: Some(s("10.5")),
        po: Some(s("1200")),
        vf: None,
        im: None,
        rs: None,
        se: None,
        sen: None,
        res: None,
        icc: None,
        vbr: None,
        kink: None,
        imkink: None,
        testdate: s("2024-01-02 03:04:05"),
        idark: None,
        result: Some(s("OK")),
        tester: Some(s("p1")),
        iop: None,
        i_xtalk: None,
        mdpid: Some(s("0")),
        yypn: Some(s("PN1")),
    }
}

#[test]
fn test_rows_read_with_defaults() {
    let d = data_from_test_row(&test_row("S1"));
    assert_eq!(d.sn, "S1");
    assert_eq!(d.ith, "10.5");
    assert_eq!(d.po, "1200");
    assert_eq!(d.vf, "");
    assert_eq!(d.vbr, "0.00");
    assert_eq!(d.mdpid, "");
    assert_eq!(d.yypn, "PN1");
    assert_eq!(d.tester, "p1");
    assert_eq!(d.testdate, "2024-01-02 03:04:05");
    let mut r = test_row("S2");
    r.mdpid = Some(s("M7"));
    r.vbr = Some(s("31.2"));
    let d = data_from_test_row(&r);
    assert_eq!(d.mdpid, "M7");
    assert_eq!(d.vbr, "31.2");
}

#[test]
fn latest_record_per_module() {
    let items = vec![
        data("S1", "2024-01-01 00:00:00", "a"),
        data("S2", "2024-01-03 00:00:00", "b"),
        data("S1", "2024-01-05 00:00:00", "c"),
        data("S1", "2024-01-05 00:00:00", "d"),
        data("S2", "2024-01-02 00:00:00", "e"),
    ];
    let r = latest_per_sn(&items);
    assert_eq!(r.len(), 2);
    assert_eq!(r[0].sn, "S1");
    assert_eq!(r[0].ith, "c");
    assert_eq!(r[1].sn, "S2");
    assert_eq!(r[1].ith, "b");
    assert!(latest_per_sn(&vec![]).is_empty());
}

#[test]
fn older_test_query_outcome() {
    assert_eq!(latest_test_datas(&vec![]), Err(MyError::NoResult(s(""))));
    let r = latest_test_datas(&vec![test_row("S1"), test_row("S1")]).unwrap();
    assert_eq!(r.len(), 1);
}

#[test]
fn older_test_query_text() {
    let sql = old_query::build_query_sql("'S1', 'S2'", &vec![s("T_202401"), s("T_202402")]);
    assert_eq!(
        sql,
        "SELECT * FROM (SELECT SN,Ith,Pf,Vop,Im,Rs,Se,Sen,Res,ICC,Vbr,Kink,imkink,TestDate,Idark,Result,ProductBill,iop,ixtalk FROM [BOSAautotest_Data].[dbo].[MAC_10GBOSADATA] UNION ALL SELECT SN,Ith,Po,Vf,Im,Rs,Pslop,Sen,Res,ICC,Vbr,Kink_I,kinkim_i,TestDate,Idark,Result,ProductBill,io,xtalk FROM T_202401 UNION ALL SELECT SN,Ith,Po,Vf,Im,Rs,Pslop,Sen,Res,ICC,Vbr,Kink_I,kinkim_i,TestDate,Idark,Result,ProductBill,io,xtalk FROM T_202402 ) tmp WHERE SN IN ('S1', 'S2') AND Result = 'OK' ORDER BY TestDate DESC"
    );
}

#[test]
fn newest_record_query_text() {
    let sql = build_query_sql("'S1'", &vec![]);
    assert_eq!(
        sql,
        "SELECT * FROM (SELECT *, ROW_NUMBER() OVER(PARTITION BY SN ORDER BY TestDate DESC) as rn FROM (SELECT SN,Ith,Pf,Vop,Im,Rs,Se,Sen,Res,ICC,Vbr,Kink,imkink,TestDate,Idark,Result,ProductBill,iop,ixtalk,MDPId,testtype FROM [BOSAautotest_Data].[dbo].[MAC_10GBOSADATA] ) AllData) tmp WHERE SN IN ('S1') AND Result = 'OK' AND tmp.rn = 1"
    );
    let sql = build_query_sql("", &vec![]);
    assert!(sql.ends_with(") tmp WHERE Result = 'OK' AND tmp.rn = 1"));
}

#[test]
fn placeholders_and_chunks() {
    let all = vec![datas("S1", "B1"), datas("S2", "B1")];
    let p = sn_placeholders(&all);
    assert_eq!(p, vec![s("'S1'"), s("'S2'")]);
    assert_eq!(sn_list_chunks(&p), vec![s("'S1', 'S2'")]);
    assert!(sn_list_chunks(&vec![]).is_empty());
    let many: Vec<String> = (0..2500).map(|i| format!("'S{}'", i)).collect();
    let chunks = sn_list_chunks(&many);
    assert_eq!(chunks.len(), 3);
    assert!(chunks[0].starts_with("'S0', 'S1'"));
    assert!(chunks[0].ends_with("'S999'"));
    assert!(chunks[1].starts_with("'S1000'"));
    assert!(chunks[2].starts_with("'S2000'"));
    assert!(chunks[2].ends_with("'S2499'"));
    assert_eq!(chunks[2].matches(", ").count(), 499);
}

#[test]
fn chunk_results_merge() {
    let one = merge_chunk_results(vec![Err(MyError::NoResult(s("")))]);
    assert_eq!(one, Err(MyError::NoResult(s(""))));
    let many = merge_chunk_results(vec![
        Ok(vec![data("S1", "t", "a")]),
        Err(MyError::NoResult(s(""))),
        Ok(vec![data("S2", "t", "b"), data("S3", "t", "c")]),
    ]);
    let v = many.unwrap();
    assert_eq!(v.len(), 3);
    assert_eq!(v[2].sn, "S3");
    assert_eq!(merge_chunk_results(vec![]), Ok(vec![]));
}

#[test]
fn modules_take_their_test_records_and_sort_by_box() {
    let tests = vec![data("S2", "t", "x2"), data("S1", "t", "x1"), data("S1", "t", "y1")];
    let m = merge_test_data(datas("S1", "B2"), &tests);
    assert_eq!(m.sn_data.ith, "x1");
    assert_eq!(m.pack_data.box_no, "B2");
    let m = merge_test_data(datas("S9", "B2"), &tests);
    assert_eq!(m.sn_data.sn, "S9");
    assert_eq!(m.sn_data.ith, "");
    let rows: Vec<Record> = carton_result_rows(vec![datas("S1", "B2"), datas("S2", "B1"), datas("S3", "B2")], &tests);
    let boxes: Vec<String> = rows.iter().map(|r| r.get("box_no").unwrap().clone()).collect();
    assert_eq!(boxes, vec![s("B1"), s("B2"), s("B2")]);
    let sns: Vec<String> = rows.iter().map(|r| r.get("sn").unwrap().clone()).collect();
    assert_eq!(sns, vec![s("S2"), s("S1"), s("S3")]);
    assert_eq!(rows[1].get("ith"), Some(&s("x1")));
    assert_eq!(rows[0].len(), 32);
}

#[test]
fn flattened_row_keys() {
    let r = flatten_datas(datas("S1", "B1"));
    let keys = r.keys();
    assert_eq!(keys.len(), 32);
    assert_eq!(keys[0], "carton_no");
    assert_eq!(keys[5], "box_no");
    assert_eq!(keys[10], "bandtime");
    assert_eq!(keys[31], "mdpid");
}

#[test]
fn carton_checks() {
    assert_eq!(check_carton(""), Err(MyError::CartonNoEmpty));
    assert_eq!(check_carton("C1"), Ok(()));
    assert_eq!(base_datas_found(vec![], "C1"), Err(MyError::NoResult(s("箱号:C1"))));
    assert_eq!(base_datas_found(vec![datas("S", "B")], "C1").unwrap().len(), 1);
    assert!(is_batch_query("", true));
    assert!(!is_batch_query("C1", true));
    assert!(!is_batch_query("", false));
}

#[test]
fn batch_codes() {
    assert_eq!(compute_pch("2024", "15"), "2415");
    assert_eq!(compute_pch("4", "15"), "None");
    assert_eq!(compute_pch("", "15"), "None");
    assert_eq!(compute_pch("2024", ""), "None");
}

fn base_row(sn: Option<&str>, box_no: &str) -> BaseRow {
    BaseRow {
        sn: sn.map(s),
        year: Some(s("2023")),
        week: Some(s("07")),
        yypn: Some(s("PN")),
        carton_worker: None,
        carton_time: s("ct"),
        box_no: Some(s(box_no)),
        pack_worker: Some(s("w")),
        pack_time: s("pt"),
        b_sn: None,
        band_time: None,
        band_worker: None,
    }
}

#[test]
fn carton_base_rows() {
    let rows = vec![base_row(Some("S1"), "B1"), base_row(None, "B2"), base_row(Some("S1"), "B3"), base_row(Some("S2"), "B4")];
    let r = collect_base_rows(rows, &s("C1"));
    assert_eq!(r.len(), 2);
    assert_eq!(r[0].carton_data.carton_no, "C1");
    assert_eq!(r[0].carton_data.pch, "2307");
    assert_eq!(r[0].pack_data.box_no, "B1");
    assert_eq!(r[0].band_data.w_sn, "S1");
    assert_eq!(r[0].carton_data.carton_worker, "");
    assert_eq!(r[1].sn_data.sn, "S2");
}

#[test]
fn carton_base_query_text() {
    let infos = Infos { is_have_pch: false, carton_pch: false, box_pch: false, jz_band: false, zdy_box: false };
    let sql = build_base_data_sql(&infos);
    assert!(sql.starts_with(BASE_CTE));
    assert!(sql.contains("FROM [mes_Factory].[dbo].[MaterialPackSn] a"));
    assert!(sql.contains("'' AS ExtractedYear"));
    assert!(sql.ends_with("WHERE b.CartonNo = @P1 AND b.PnOptionID = '-100' ORDER BY b.Packing_no desc, a.Pack_no asc"));
    let infos = Infos { is_have_pch: true, carton_pch: true, box_pch: false, jz_band: true, zdy_box: true };
    let sql = build_base_data_sql(&infos);
    assert!(sql.contains("FROM [mes_Factory].[dbo].[jz_carton_bind] a"));
    assert!(sql.contains("WHERE c.LABEL_KEY = a.Pack_no"));
    assert!(sql.contains("LEFT JOIN [mes_Factory].[dbo].[QA_snRelation] qr ON d.sn = qr.sn"));
    assert_eq!(base_fields(true).box_no_field, "a.pkg_no");
    assert_eq!(base_fields(false).sn_field, "a.sn");
}

#[test]
fn export_sn_list() {
    assert_eq!(sn_list_text(&vec![]), Err(s("SN为空")));
    assert_eq!(sn_list_text(&vec![s("A"), s("B")]), Ok(s("'A', 'B'")));
}
