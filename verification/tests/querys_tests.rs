use yy_dps::error::MyError;
use yy_dps::querys::rows::{carton_row_texts, import_row_texts, sn_row_texts, with_carton_data};
use yy_dps::querys::screen::{day_span, plan_query, sn_filters_visible, QueryPlan};
use yy_dps::querys::works::batch_query::{batch_kind, check_batch_lines, collect_batch_results, BatchKind};
use yy_dps::querys::works::box_querys::{
    apply_carton_no, box_datas_from_rows, box_result_rows, build_box_query, carton_of_box_sql, get_sn_info,
    sn_in_list, BoxRow, BOX_HEAD,
};
use yy_dps::querys::works::carton_q_sn::{
    attach_test_records, build_carton_sn_sql, carton_sn_datas_from_rows, have_all_records, SnBoxRow,
};
use yy_dps::querys::works::carton_querys::{
    build_carton_list_sql, carton_datas_from_rows, format_data as box_list_rows, CartonRow, CARTON_LIST_HEAD,
    CARTON_LIST_TAIL,
};
use yy_dps::querys::works::export2excel::{column_width, export_headers, sn_export_path};
use yy_dps::querys::works::query_utils::{build_base_union_query, check_conditions, last_segment_of, SELECT_10G, SELECT_2_5G};
use yy_dps::querys::works::sn_query::{build_sn_final_sql, build_sn_where, format_data as sn_rows, SN_FINAL_HEAD};
use yy_dps::records::{CartonData, Data, Datas, ImportDBDatas};
use yy_dps::strmap::StrMap;

fn s(x: &str) -> String {
    x.to_string()
}

#[test]
fn conditions_are_needed() {
    assert_eq!(check_conditions("", "", "", "", false), Err(MyError::Zdyknown(s("所有条件不能为空"))));
    assert_eq!(check_conditions("", "", "", "", true), Ok(()));
    assert_eq!(check_conditions("C1", "", "", "", false), Ok(()));
}

#[test]
fn carton_list_query_variants() {
    let q = build_carton_list_sql("C1", "", false, "", "");
    assert_eq!(q, format!("{}b.CartonNo = 'C1' and b.PnOptionID = '-100'{}", CARTON_LIST_HEAD, CARTON_LIST_TAIL));
    let q = build_carton_list_sql("C1", "P1", false, "", "");
    assert!(q.contains("where b.CartonNo = 'C1' and b.PnOptionID = '-100' and b.pn = 'P1'\n"));
    let q = build_carton_list_sql("", "P1", true, "a", "b");
    assert!(q.contains("where b.pn = 'P1' and b.PnOptionID = '-100' and b.createtime between 'a' and 'b'\n"));
    let q = build_carton_list_sql("C1", "P1", true, "a", "b");
    assert!(q.contains("where b.CartonNo = 'C1' and b.pn = 'P1' and b.PnOptionID = '-100' and b.createtime between 'a' and 'b'\n"));
    let q = build_carton_list_sql("", "", true, "a", "b");
    assert!(q.contains("where b.PnOptionID = '-100' and b.createtime between 'a' and 'b'\n"));
    let q = build_carton_list_sql("", "", false, "", "");
    assert!(q.contains("where b.PnOptionID = '-100'\n"));
    assert!(q.ends_with("order by b.CreateTime desc, b.Packing_no desc, a.Pack_no asc"));
}

fn carton_row(box_no: Option<&str>) -> CartonRow {
    CartonRow {
        box_no: box_no.map(s),
        yypn: Some(s("PN")),
        pack_worker: Some(s("w")),
        pack_time: s("pt"),
        carton_worker: Some(s("cw")),
        carton_time: s("ct"),
        carton_no: Some(s("C1")),
    }
}

#[test]
fn carton_rows_become_sorted_boxes() {
    let r = carton_datas_from_rows(vec![carton_row(Some("B2")), carton_row(Some("B1")), carton_row(Some("B2"))], "C1").unwrap();
    assert_eq!(r.len(), 2);
    assert_eq!(r[0].pack_data.box_no, "B1");
    assert_eq!(r[1].pack_data.box_no, "B2");
    assert_eq!(r[0].carton_data.carton_no, "C1");
    let e = carton_datas_from_rows(vec![carton_row(Some("B2")), carton_row(None)], "C1").err();
    assert_eq!(e, Some(MyError::Zdyknown(s("箱号:C1,没有找到sn信息，请注意箱号是否正确!!!"))));
    let e = carton_datas_from_rows(vec![], "C1").err();
    assert_eq!(e, Some(MyError::Zdyknown(s("箱号 'C1' 没有找到数据"))));
    let rows = box_list_rows(r);
    assert_eq!(rows[0].keys(), vec![s("carton_no"), s("yypn"), s("carton_worker"), s("carton_packtime"), s("box_no"), s("pack_worker"), s("pack_packtime"), s("sn")]);
}

#[test]
fn box_query_text_and_params() {
    let (sql, params) = build_box_query("B1", "P1", true, "a", "b").unwrap();
    assert_eq!(sql, format!("{} AND Pack_no = @P1 AND pn = @P2 AND createtime BETWEEN @P3 AND @P4 ORDER BY CreateTime DESC", BOX_HEAD));
    assert_eq!(params, vec![s("B1"), s("P1"), s("a"), s("b")]);
    let (sql, params) = build_box_query("", "P1", false, "", "").unwrap();
    assert_eq!(sql, format!("{} AND pn = @P1 ORDER BY CreateTime DESC", BOX_HEAD));
    assert_eq!(params, vec![s("P1")]);
    let e = build_box_query("B1", "", true, "", "b").err();
    assert_eq!(e, Some(MyError::Zdyknown(s("使用时间查询时，开始时间和结束时间不能为空"))));
    assert_eq!(carton_of_box_sql("B1"), "SELECT TOP 1 CartonNo FROM [mes_Factory].[dbo].[packing_carton] WHERE Packing_no = 'B1'");
}

fn box_row(sn: Option<&str>, b: &str) -> BoxRow {
    BoxRow { sn: sn.map(s), box_no: Some(s(b)), yypn: Some(s("PN")), pack_worker: Some(s("w")), pack_time: s("t") }
}

fn test_data(sn: &str, date: &str, ith: &str) -> Data {
    let mut d = Data::empty();
    d.sn = s(sn);
    d.testdate = s(date);
    d.ith = s(ith);
    d
}

#[test]
fn box_query_flow() {
    let all = box_datas_from_rows(vec![box_row(Some("S1"), "B2"), box_row(Some("S2"), "B1"), box_row(Some("S1"), "B3")]).unwrap();
    assert_eq!(all.len(), 2);
    assert_eq!(all[0].sn_data.yypn, "PN");
    assert_eq!(box_datas_from_rows(vec![box_row(None, "B")]).err(), Some(MyError::Zdyknown(s("查询结果中缺少 SN 信息。"))));
    assert_eq!(sn_in_list(&all), "'S1','S2'");
    let all = apply_carton_no(all, "C9");
    assert_eq!(all[1].carton_data.carton_no, "C9");
    assert_eq!(get_sn_info(&vec![]), Err(MyError::NoResult(s(""))));
    let latest = get_sn_info(&vec![test_data("S1", "2024-01-01", "old"), test_data("S1", "2024-02-01", "new")]).unwrap();
    assert_eq!(latest.len(), 1);
    assert_eq!(latest[0].ith, "new");
    let rows = box_result_rows(all, &latest, "B1", "").unwrap();
    assert_eq!(rows[0].get("box_no"), Some(&s("B1")));
    assert_eq!(rows[1].get("ith"), Some(&s("new")));
    assert_eq!(rows[1].get("carton_no"), Some(&s("C9")));
    assert_eq!(box_result_rows(vec![], &latest, "B1", "P").err(), Some(MyError::Zdyknown(s("查询条件 'B1' 没有找到数据"))));
    assert_eq!(box_result_rows(vec![], &latest, "", "P").err(), Some(MyError::Zdyknown(s("查询条件 'P' 没有找到数据"))));
    assert_eq!(box_result_rows(vec![], &latest, "", "").err(), Some(MyError::Zdyknown(s("查询条件 '时间范围' 没有找到数据"))));
}

#[test]
fn carton_serial_numbers() {
    let q = build_carton_sn_sql("C1");
    assert!(q.starts_with("select a.sn, a.Pack_no, b.CartonNo"));
    assert!(q.contains("where b.CartonNo = 'C1' and b.PnOptionID = '-100'"));
    let rows = vec![SnBoxRow { sn: Some(s("S1")), box_no: None }, SnBoxRow { sn: Some(s("S1")), box_no: Some(s("B")) }, SnBoxRow { sn: Some(s("S2")), box_no: Some(s("B2")) }];
    let all = carton_sn_datas_from_rows(rows, "C1").unwrap();
    assert_eq!(all.len(), 2);
    assert_eq!(all[0].pack_data.box_no, "");
    assert_eq!(carton_sn_datas_from_rows(vec![], "C1").err(), Some(MyError::Zdyknown(s("箱号 'C1' 没有找到数据"))));
    let tests = vec![test_data("S2", "t", "b"), test_data("S1", "t", "a")];
    assert!(have_all_records(&all, &tests));
    assert!(!have_all_records(&all, &vec![test_data("S1", "t", "a")]));
    let merged = attach_test_records(all, &tests);
    assert_eq!(merged[0].sn_data.ith, "a");
    assert_eq!(merged[1].sn_data.ith, "b");
}

#[test]
fn serial_number_query_filters() {
    let (w, p) = build_sn_where(&vec![s("S1"), s("S2")], "OK", "P1", "", true, "a", "b").unwrap();
    assert_eq!(w, "WHERE FinalData.SN IN (@P1, @P2) AND FinalData.Result = @P3 AND FinalData.Yypn = @P4 AND FinalData.TestDate BETWEEN @P5 AND @P6");
    assert_eq!(p, vec![s("S1"), s("S2"), s("OK"), s("P1"), s("a"), s("b")]);
    let (w, p) = build_sn_where(&vec![], "全部", "", "", false, "", "").unwrap();
    assert_eq!(w, "");
    assert!(p.is_empty());
    let (w, _) = build_sn_where(&vec![], "全部", "", "Tom", false, "", "").unwrap();
    assert_eq!(w, "WHERE FinalData.Tester = @P1");
    let e = build_sn_where(&vec![], "全部", "", "", true, "", "").err();
    assert_eq!(e, Some(MyError::Zdyknown(s("启用时间查询时，开始和结束时间不能为空"))));
    let q = build_sn_final_sql("BASE", "WHERE x");
    assert!(q.starts_with(SN_FINAL_HEAD));
    assert!(q.contains("BASE\n        ) AS FinalData"));
    assert!(q.contains("lp.rn = 1\n        WHERE x\n"));
}

#[test]
fn serial_number_rows() {
    let mut d = test_data("S1", "2024-01-01 00:00:00", "1");
    d.box_no = Some(s("B1"));
    let rows = sn_rows(vec![d.clone()]);
    assert_eq!(rows[0].len(), 22);
    assert_eq!(rows[0].get("box_no"), Some(&s("B1")));
    assert_eq!(rows[0].get("carton_no"), Some(&s("")));
    assert_eq!(rows[0].get("mdpid"), None);
    d.mdpid = s("M1");
    let rows = sn_rows(vec![d]);
    assert_eq!(rows[0].len(), 23);
    assert_eq!(rows[0].get("mdpid"), Some(&s("M1")));
}

#[test]
fn test_table_union() {
    let tables = vec![s("BOSA_2G5DATA_202401"), s("BOSA_2G5DATA_202403"), s("[BOSAautotest_Data].[dbo].[MAC_10GBOSADATA]")];
    let q = build_base_union_query("10G", &tables, false, "", "").unwrap();
    assert_eq!(q, format!("SELECT {} FROM [BOSAautotest_Data].[dbo].[MAC_10GBOSADATA]", SELECT_10G));
    let q = build_base_union_query("2.5G", &tables, false, "", "").unwrap();
    assert_eq!(q.matches(" UNION ALL ").count(), 2);
    assert!(q.starts_with(&format!("SELECT {} FROM BOSA_2G5DATA_202401", SELECT_2_5G)));
    let q = build_base_union_query("全部", &tables, true, "2024-02-15 00:00:00", "2024-03-20 23:59:59").unwrap();
    assert_eq!(q, format!("SELECT {} FROM [BOSAautotest_Data].[dbo].[MAC_10GBOSADATA] UNION ALL SELECT {} FROM BOSA_2G5DATA_202403", SELECT_10G, SELECT_2_5G));
    assert_eq!(build_base_union_query("5G", &tables, false, "", "").err(), Some(MyError::Zdyknown(s("无效的 test_devices 参数: 5G"))));
    assert_eq!(build_base_union_query("2.5G", &tables, true, "2024-13-01 00:00", "2024-03-20 00:00").err(), Some(MyError::Zdyknown(s("无效的开始日期格式"))));
    assert_eq!(build_base_union_query("2.5G", &tables, true, "2024-01-01 00:00", "2024-03-40 00:00").err(), Some(MyError::Zdyknown(s("无效的结束日期格式"))));
    assert_eq!(build_base_union_query("2.5G", &vec![], false, "", "").unwrap(), "");
    assert_eq!(last_segment_of("a_b_202401"), "202401");
    assert_eq!(last_segment_of("plain"), "plain");
    assert_eq!(last_segment_of("ends_"), "");
}

#[test]
fn time_filter_drops_tables_without_a_month() {
    let tables = vec![s("BOSA_2G5DATA_202402"), s("BOSA_LOG_2024"), s("BOSA_X_2024ab"), s("BOSA_2G5DATA_202501")];
    let q = build_base_union_query("2.5G", &tables, true, "2024-01-01 00:00:00", "2024-12-31 23:59:59").unwrap();
    assert_eq!(q, format!("SELECT {} FROM BOSA_2G5DATA_202402", SELECT_2_5G));
    let q = build_base_union_query("2.5G", &tables, false, "", "").unwrap();
    assert_eq!(q.matches(" UNION ALL ").count(), 3);
}

#[test]
fn batch_queries() {
    assert_eq!(batch_kind("箱号"), BatchKind::Carton);
    assert_eq!(batch_kind("盒号"), BatchKind::Box);
    assert_eq!(batch_kind("Sn"), BatchKind::Sn);
    assert_eq!(check_batch_lines(&vec![]), Err(MyError::Zdyknown(s("文件内未找到条码数据，请确认文件是否正确."))));
    assert_eq!(check_batch_lines(&vec![s("C1")]), Ok(()));
    let r: Vec<u32> = collect_batch_results(vec![Ok(vec![1, 2]), Err(MyError::AllNone), Ok(vec![3])]);
    assert_eq!(r, vec![1, 2, 3]);
}

#[test]
fn sheet_of_query_export() {
    assert_eq!(export_headers(&vec![]).err(), Some(MyError::Zdyknown(s("警告,没有数据."))));
    let mut row = StrMap::new();
    row.insert(s("sn"), s("S1"));
    row.insert(s("ith"), s("1"));
    assert_eq!(export_headers(&vec![row]).unwrap(), vec![s("sn"), s("ith")]);
    assert_eq!(column_width("sn"), 160);
    assert_eq!(column_width("pack_packtime"), 160);
    assert_eq!(column_width("ith"), 80);
    assert_eq!(sn_export_path("2024-01-02-03-04-05"), "sn_export-2024-01-02-03-04-05.xlsx");
}

#[test]
fn query_page_plans() {
    assert_eq!(plan_query("Sn", "", "", "", "", ""), Err(MyError::AllNone));
    assert_eq!(plan_query("Sn", "S1", "", "", "", ""), Ok(QueryPlan::Sn(vec![s("S1")])));
    assert_eq!(plan_query("Sn", "", "", "", "P1", ""), Ok(QueryPlan::Sn(vec![])));
    assert_eq!(plan_query("盒号", "B1", "", "", "", ""), Ok(QueryPlan::Box));
    assert_eq!(plan_query("箱号", "C1", "", "", "", ""), Ok(QueryPlan::Carton));
    assert_eq!(day_span("2024-05-06"), (s("2024-05-06 00:00:00"), s("2024-05-06 23:59:59")));
    assert!(sn_filters_visible("Sn"));
    assert!(!sn_filters_visible("盒号"));
}

#[test]
fn table_rows() {
    let mut d = Datas::empty();
    d.carton_data.carton_no = s("C1");
    d.pack_data.box_no = s("B1");
    d.sn_data.sn = s("S1");
    assert_eq!(carton_row_texts(&d), vec![s("C1"), s("B1"), s(""), s(""), s("")]);
    let t = sn_row_texts(&d);
    assert_eq!(t.len(), 20);
    assert_eq!(t[2], "S1");
    let mut i = ImportDBDatas::empty();
    i.sn = s("X");
    assert_eq!(import_row_texts(&i)[0], "X");
    let mut c = CartonData::empty();
    c.carton_no = s("C2");
    let r = with_carton_data(vec![d], &c);
    assert_eq!(r[0].carton_data.carton_no, "C2");
    assert_eq!(r[0].sn_data.sn, "S1");
}
