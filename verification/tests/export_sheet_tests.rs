use yy_dps::configs::type_config::Infos;
use yy_dps::error::MyError;
use yy_dps::export::screen::{bool2string, is_batch_label, query_button_text, type_labels, ExportState};
use yy_dps::export::works::export2excel::{
    cell_row, clean_headers, export_outcome, fixed_cell_value, numbered_value, output_file_name, po_in_milliwatts,
    resolve_header, row_value, row_value_kind, strip_unit_quotes, template_failure, template_file_path,
    test_date_value, text_config_value, RowValueKind, TEMPLATE_DIR,
};
use yy_dps::records::Datas;
use yy_dps::strmap::StrMap;

fn s(x: &str) -> String {
    x.to_string()
}

#[test]
fn fixed_cells() {
    assert_eq!(fixed_cell_value("Date", 3, "2024-05-06", "2024-05-06 07:08:09"), "2024-05-06");
    assert_eq!(fixed_cell_value("DateTime", 3, "2024-05-06", "2024-05-06 07:08:09"), "2024-05-06 07:08:09");
    assert_eq!(fixed_cell_value("Quantity", 120, "d", "t"), "120");
    assert_eq!(fixed_cell_value("Lot 7", 120, "d", "t"), "Lot 7");
}

#[test]
fn headers_and_mapping() {
    assert_eq!(clean_headers(&vec![s("Po\r\n(mW)"), s("Ith\r")]), vec![s("Po(mW)"), s("Ith")]);
    let mut m = StrMap::new();
    m.insert(s("光功率"), s("po"));
    m.insert(s("编号"), s("none"));
    m.insert(s("备注"), s(""));
    assert_eq!(resolve_header("光功率", &m), "po");
    assert_eq!(resolve_header("编号", &m), "编号");
    assert_eq!(resolve_header("备注", &m), "备注");
    assert_eq!(resolve_header("其他", &m), "其他");
}

#[test]
fn value_kinds() {
    assert_eq!(row_value_kind("beforeTC-Ith(mA)"), RowValueKind::BeforeIth);
    assert_eq!(row_value_kind("beforeTC-Im(uA)"), RowValueKind::BeforeIm);
    assert_eq!(row_value_kind("beforeTC-Po(mW)"), RowValueKind::BeforePo);
    assert_eq!(row_value_kind("po"), RowValueKind::Po);
    assert_eq!(row_value_kind("beforeTC-Vf(V)"), RowValueKind::BeforeVf);
    assert_eq!(row_value_kind("beforeTC-SE(W/A)"), RowValueKind::BeforeSe);
    assert_eq!(row_value_kind("deltaP（dB）"), RowValueKind::DeltaP);
    assert_eq!(row_value_kind("testtime"), RowValueKind::TestTime);
    assert_eq!(row_value_kind("sn"), RowValueKind::Plain);
}

#[test]
fn plain_values_and_numbering() {
    let mut row = StrMap::new();
    row.insert(s("sn"), s("S1"));
    row.insert(s("testtime"), s("2024-03-04 05:06:07"));
    assert_eq!(row_value("sn", &row), "S1");
    assert_eq!(row_value("ith", &row), "");
    assert_eq!(numbered_value("NO.", 4, s("x")), "5");
    assert_eq!(numbered_value("deviceinfo_id", 0, s("x")), "1");
    assert_eq!(numbered_value("sn", 4, s("x")), "x");
    assert_eq!(test_date_value(&row), Some(s("2024-03-04")));
    let mut bad = StrMap::new();
    bad.insert(s("testtime"), s("not a time"));
    assert_eq!(test_date_value(&bad), None);
}

#[test]
fn units_and_texts() {
    assert_eq!(strip_unit_quotes("\\\"mW\\\""), "mW");
    assert_eq!(strip_unit_quotes("\"uW\""), "uW");
    assert_eq!(strip_unit_quotes("mW"), "mW");
    assert_eq!(strip_unit_quotes("a\\b"), "a\\b");
    assert!(po_in_milliwatts("mW", "po"));
    assert!(!po_in_milliwatts("uW", "po"));
    assert!(po_in_milliwatts("uW", "beforeTC-Po(mW)"));
    assert_eq!(text_config_value("1.5", &Some(s("N/A"))), "N/A");
    assert_eq!(text_config_value("1.5", &Some(s("mw"))), "1.5");
    assert_eq!(text_config_value("1.5", &Some(s(""))), "1.5");
    assert_eq!(text_config_value("1.5", &None), "1.5");
}

#[test]
fn cells_files_and_outcome() {
    assert_eq!(cell_row(3, 0), 4);
    assert_eq!(cell_row(3, 5), 9);
    assert_eq!(template_file_path(TEMPLATE_DIR, "T1"), format!("{}T1.xlsx", TEMPLATE_DIR));
    assert_eq!(output_file_name("T1", "2024-05-06"), "T1-2024-05-06.xlsx");
    assert_eq!(template_failure("T1", "bad"), "T1: bad");
    assert_eq!(export_outcome(&vec![]), Ok(()));
    assert_eq!(export_outcome(&vec![s("T1: a"), s("T2: b")]), Err(MyError::Zdyknown(s("T1: a;T2: b"))));
}

#[test]
fn export_page_texts() {
    assert_eq!(bool2string(true), "启用");
    assert_eq!(bool2string(false), "未启用");
    assert_eq!(query_button_text(""), "批量查询");
    assert_eq!(query_button_text("C1"), "箱号查询");
    assert!(is_batch_label("批量查询"));
    assert!(!is_batch_label("箱号查询"));
    let infos = Infos { is_have_pch: true, carton_pch: false, box_pch: true, jz_band: false, zdy_box: true };
    assert_eq!(type_labels(&vec![], &infos), None);
    let labels = type_labels(&vec![s("T1"), s("T2")], &infos).unwrap();
    assert_eq!(
        labels,
        vec![
            s("批次号查询: 启用"),
            s("批次号-箱号查询: 未启用"),
            s("批次号-盒号查询: 启用"),
            s("尾标绑定查询: 未启用"),
            s("自定义盒号查询: 启用"),
            s("关联模板: T1, T2"),
        ]
    );
}

fn with_box(b: &str) -> Datas {
    let mut d = Datas::empty();
    d.pack_data.box_no = s(b);
    d
}

#[test]
fn export_state_sorts_when_all_arrived() {
    let mut st = ExportState::new();
    assert!(!st.can_export());
    assert_eq!(st.on_qty(2), "总数量: 2 PCS");
    assert_eq!(st.on_qty(1), "总数量: 3 PCS");
    assert!(!st.on_back(with_box("B3")));
    assert!(!st.on_back(with_box("B1")));
    assert_eq!(st.export_datas[0].pack_data.box_no, "B3");
    assert!(st.on_back(with_box("B2")));
    let boxes: Vec<String> = st.export_datas.iter().map(|d| d.pack_data.box_no.clone()).collect();
    assert_eq!(boxes, vec![s("B1"), s("B2"), s("B3")]);
    assert!(st.can_export());
    st.reset();
    assert_eq!(st.qty, 0);
    assert!(!st.can_export());
}
