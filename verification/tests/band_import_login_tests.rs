use yy_dps::box_band::view::{
    bound_notice, boxes_count_text, buttons_enabled, check_bind, check_query_carton, confirm_new_box_no,
    set_new_box_no, unbind_dialog, unbind_target, unbound_notice, UnbindTarget,
};
use yy_dps::box_band::work::{band_params, carton_boxes_from_rows, check_binded, first_error, BandRow};
use yy_dps::data_import::work::{db_data, extract_rows, import_params, pn_from_file_name, qty_text, SheetRow};
use yy_dps::data_import::DataImporter;
use yy_dps::error::MyError;
use yy_dps::export::Exporter;
use yy_dps::login::{free_login, login, login_layout, LoginResult, LoginStore};
use yy_dps::navigation::{navigate_to, Page};
use yy_dps::querys::DatasQueryer;
use yy_dps::records::{BoxBandData, ImportDBDatas};

fn s(x: &str) -> String {
    x.to_string()
}

fn band_row(b: Option<&str>) -> BandRow {
    BandRow { box_no: b.map(s), pn: Some(s("PN")), carton_no: Some(s("C1")), create_time: s("t") }
}

#[test]
fn boxes_of_a_carton() {
    let r = carton_boxes_from_rows(vec![band_row(Some("B2")), band_row(Some("B1")), band_row(Some("B2")), band_row(None), band_row(None)]).unwrap();
    let boxes: Vec<String> = r.iter().map(|d| d.box_no.clone()).collect();
    assert_eq!(boxes, vec![s(""), s("B1"), s("B2")]);
    assert_eq!(r[1].carton_no, "C1");
    assert_eq!(r[1].new_box_no, "");
    assert_eq!(carton_boxes_from_rows(vec![]).err(), Some(MyError::Zdyknown(s("未查询到相关信息!!!"))));
    assert_eq!(check_binded("C1", true), Err(MyError::Zdyknown(s("箱号: C1 已经绑定过。"))));
    assert_eq!(check_binded("C1", false), Ok(()));
}

#[test]
fn binding_rows_and_outcome() {
    let d = BoxBandData { box_no: s("B1"), pn: s("PN"), carton_no: s("C1"), new_box_no: s("N1"), create_time: s("t") };
    assert_eq!(band_params(&d, "2024-01-01 00:00:00"), vec![s("C1"), s("N1"), s("B1"), s("0"), s("PN"), s("0"), s("2024-01-01 00:00:00")]);
    assert_eq!(first_error(vec![Ok(()), Ok(())]), Ok(()));
    assert_eq!(first_error(vec![Ok(()), Err(MyError::DatabaseNotConnected), Err(MyError::AllNone)]), Err(MyError::DatabaseNotConnected));
}

#[test]
fn binding_page() {
    assert_eq!(check_query_carton(""), Err(MyError::Zdyknown(s("请输入箱号!!!"))));
    assert_eq!(check_query_carton("C1"), Ok(()));
    assert!(!buttons_enabled(""));
    assert!(buttons_enabled("C"));
    assert_eq!(boxes_count_text(12), "一共: 12 盒");
    assert_eq!(check_bind(&vec![]), Err(MyError::Zdyknown(s("没有数据，无法绑定!!!"))));
    assert_eq!(bound_notice("C1"), "箱号: C1 绑定成功.");
    assert_eq!(unbind_target("C1", "箱号"), UnbindTarget::Carton(s("C1")));
    assert_eq!(unbind_target("B1", "盒号"), UnbindTarget::Box(s("B1")));
    assert_eq!(unbound_notice(&UnbindTarget::Carton(s("C1"))), "箱号: C1 解绑成功.");
    assert_eq!(unbound_notice(&UnbindTarget::Box(s("B1"))), "盒号: B1 解绑成功.");
    assert_eq!(unbind_dialog("", "Unbind", "箱号"), Err(s("输入框不能为空!!")));
    assert_eq!(unbind_dialog("C1", "", "箱号"), Err(s("密码框不能为空!!")));
    assert_eq!(unbind_dialog("C1", "x", ""), Err(s("类型选择不能为空!!")));
    assert_eq!(unbind_dialog("C1", "x", "箱号"), Err(s("密码错误!!")));
    assert_eq!(unbind_dialog("C1", "Unbind", "箱号"), Ok((s("箱号"), s("C1"))));
}

#[test]
fn new_box_numbers() {
    let d = BoxBandData { box_no: s("B1"), pn: s("PN"), carton_no: s("C1"), new_box_no: s(""), create_time: s("t") };
    let mut v = vec![d.clone(), d.clone()];
    set_new_box_no(&mut v, 5, s("X"));
    assert_eq!(v[0].new_box_no, "");
    assert_eq!(confirm_new_box_no(&mut v, 0, s("N1")), Ok(Some(1)));
    assert_eq!(v[0].new_box_no, "N1");
    assert_eq!(v[0].box_no, "B1");
    assert_eq!(confirm_new_box_no(&mut v, 1, s("N2")), Ok(None));
    assert_eq!(v[1].new_box_no, "N2");
    assert_eq!(confirm_new_box_no(&mut v, 0, s("")), Err(MyError::Zdyknown(s("输入不能为空!!!"))));
    assert_eq!(v[0].new_box_no, "N1");
}

fn sheet_row(n: usize, tag: &str) -> SheetRow {
    SheetRow { cells: (0..n).map(|i| format!("{}{}", tag, i)).collect(), po: format!("{}po", tag) }
}

#[test]
fn import_sheets() {
    let sheet1 = vec![sheet_row(9, "h"), sheet_row(9, "h"), sheet_row(9, "h"), sheet_row(9, "h"), sheet_row(9, "a"), sheet_row(5, "short"), sheet_row(10, "b")];
    let sheet2 = vec![sheet_row(9, "x"), sheet_row(9, "y")];
    let sheet3 = vec![sheet_row(9, "h"), sheet_row(9, "h"), sheet_row(9, "h"), sheet_row(9, "h"), sheet_row(9, "c")];
    let r = extract_rows(&vec![sheet1, sheet2, sheet3]);
    assert_eq!(r.len(), 3);
    assert_eq!(r[0].sn, "a0");
    assert_eq!(r[0].condition_unit, "a1");
    assert_eq!(r[0].po, "apo");
    assert_eq!(r[0].icc, "a8");
    assert_eq!(r[1].sn, "b0");
    assert_eq!(r[2].sn, "c0");
    assert_eq!(pn_from_file_name("PN123456-test.xlsx"), "PN123456");
    let d = db_data(r.clone(), "PN123456-test.xlsx", s("/tmp/PN123456-test.xlsx"));
    assert_eq!(d.pn, "PN123456");
    assert_eq!(d.data.len(), 3);
    assert_eq!(qty_text(3), "总数量: 3 PCS");
    let mut m = ImportDBDatas::empty();
    m.sn = s("S1");
    m.po = s("1.20");
    let p = import_params(&m, "PN", "2024-01-01 00:00:00");
    assert_eq!(p.len(), 16);
    assert_eq!(p[0], "S1");
    assert_eq!(p[1], "hyd_wx");
    assert_eq!(p[3], "PN");
    assert_eq!(p[9], "1.20");
    assert_eq!(p[11], "Ok");
    assert_eq!(p[15], "point");
}

#[test]
fn logins() {
    let mut st = LoginStore { logined: false, free_login: false };
    assert_eq!(login(&mut st, "", "x"), Err(MyError::LoginError(s("用户名不能为空!!!"))));
    assert_eq!(login(&mut st, "admin", ""), Err(MyError::LoginError(s("密码不能为空!!!"))));
    assert_eq!(login(&mut st, "admin", "bad"), Err(MyError::LoginError(s("用户名或者密码错误!!!"))));
    assert!(!st.logined);
    assert_eq!(login(&mut st, "admin", "123456"), Ok(LoginResult::Logined));
    assert_eq!(st, LoginStore { logined: true, free_login: false });
    let mut st2 = LoginStore { logined: false, free_login: false };
    assert_eq!(free_login(&mut st2), LoginResult::FreeLogin);
    assert_eq!(st2, LoginStore { logined: true, free_login: true });
    let l = login_layout(true, LoginResult::FreeLogin);
    assert!(!l.show_login && l.show_app && !l.show_settings && l.hide_providers_tab);
    let l = login_layout(true, LoginResult::Logined);
    assert!(l.show_settings && !l.hide_providers_tab);
}

#[test]
fn one_page_at_a_time() {
    let v = navigate_to(Page::Export);
    assert!(v.export && !v.providers && !v.box_band && !v.querys && !v.data_import);
    let v = navigate_to(Page::DataImport);
    assert!(v.data_import && !v.export);
    let _ = (DataImporter, Exporter, DatasQueryer);
}
