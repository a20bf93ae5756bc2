use yy_dps::configs::column_map_config::{
    add_new_template_map, delete_template_map, get_map_templates, get_template_map_config, update_template_map,
    ColumnMapConfig,
};
use yy_dps::configs::decimal_config::{
    add_new_template, combine_headers, delete_template, ensure_new_template, get_decimal_config_value, get_templates,
    header_rows_to_scan, update_template, InfoDetail, Template, TemplateConfig,
};
use yy_dps::configs::get_all_column_name::{load_all_column_names, AllColumnNames};
use yy_dps::configs::type_config::{
    add_new_type, delete_type, get_kind_names, get_last_template_index, get_type_infos, update_type, ConfigType, Infos,
};
use yy_dps::configs::{column_map_config, decimal_config, get_all_column_name, type_config};
use yy_dps::error::{MyError, MyTip};
use yy_dps::strmap::StrMap;

fn s(x: &str) -> String {
    x.to_string()
}

fn fields(pairs: &[(&str, &str)]) -> StrMap<String> {
    let mut m = StrMap::new();
    for (k, v) in pairs {
        m.insert(s(k), s(v));
    }
    m
}

#[test]
fn file_paths() {
    assert_eq!(column_map_config::get_file_path(), "././configs/column_map_config.toml");
    assert_eq!(decimal_config::get_file_path(), "././configs/decimal_config.toml");
    assert_eq!(type_config::get_file_path(), "././configs/type_config.toml");
    assert_eq!(get_all_column_name::get_file_path(), "configs/all_column_name.toml");
}

#[test]
fn column_maps_add_get_update_delete() {
    let mut data: Vec<ColumnMapConfig> = Vec::new();
    assert_eq!(get_map_templates(&data).err(), Some(MyError::UnLoadedTemplates));
    assert!(get_template_map_config(&data, "T1").is_err());
    add_new_template_map(&mut data, s("T1"), fields(&[("SN", "sn"), ("Ith", "ith"), ("id", "9")]), s("2024-01-01"));
    add_new_template_map(&mut data, s("T2"), fields(&[("SN", "sn")]), s("2024-01-02"));
    assert_eq!(data[0].id, 1);
    assert_eq!(data[1].id, 2);
    assert_eq!(get_map_templates(&data).unwrap(), vec![s("T1"), s("T2")]);
    let m = get_template_map_config(&data, "T1").unwrap();
    assert_eq!(m.get("SN"), Some(&s("sn")));
    assert_eq!(m.get("Ith"), Some(&s("ith")));
    assert_eq!(m.get("id"), None);
    let r = update_template_map(&mut data, "T1", fields(&[("Ith", "none"), ("Po", "po")]), s("2024-02-01"));
    assert_eq!(r, Ok(MyTip::UpdateDone(s("映射模板: T1"))));
    let m = get_template_map_config(&data, "T1").unwrap();
    assert_eq!(m.get("Ith"), Some(&s("")));
    assert_eq!(m.get("Po"), Some(&s("po")));
    assert_eq!(m.get("SN"), Some(&s("sn")));
    assert_eq!(data[0].update_time, Some(s("2024-02-01")));
    let r = update_template_map(&mut data, "T9", fields(&[]), s("x"));
    assert_eq!(r, Err(MyError::NotFound(s("映射模板: T9"))));
    assert_eq!(delete_template_map(&mut data, "T1"), Ok(MyTip::DeleteDone(s("映射模板: T1"))));
    assert_eq!(get_map_templates(&data).unwrap(), vec![s("T2")]);
    assert_eq!(delete_template_map(&mut data, "T1"), Err(MyError::NotFound(s("映射模板: T1"))));
}

#[test]
fn later_mapping_of_a_template_wins() {
    let mut data: Vec<ColumnMapConfig> = Vec::new();
    add_new_template_map(&mut data, s("T1"), fields(&[("SN", "sn"), ("Po", "po")]), s("a"));
    add_new_template_map(&mut data, s("T1"), fields(&[("Po", "po_mw")]), s("b"));
    let m = get_template_map_config(&data, "T1").unwrap();
    assert_eq!(m.get("Po"), Some(&s("po_mw")));
    assert_eq!(m.get("SN"), Some(&s("sn")));
}

#[test]
fn types_add_get_update_delete() {
    let mut data: Vec<ConfigType> = Vec::new();
    assert_eq!(get_kind_names(&data).err(), Some(MyError::UnLoadedTypes));
    assert_eq!(get_type_infos(&data, "A").err(), Some(MyError::NoResult(s("型号: A"))));
    let infos = Infos { is_have_pch: true, carton_pch: true, box_pch: false, jz_band: false, zdy_box: false };
    let r = add_new_type(&mut data, s("A"), vec![s("t1"), s("t2")], infos, s("now"));
    assert_eq!(r, Ok(MyTip::AddDone(s("型号: A"))));
    assert_eq!(data[0].id, 1);
    assert_eq!(data[0].template.get("1"), Some(&s("t1")));
    assert_eq!(data[0].template.get("2"), Some(&s("t2")));
    let r = add_new_type(&mut data, s("A"), vec![s("t3")], Infos::default(), s("now"));
    assert_eq!(r, Err(MyError::Haved(s("型号: A"))));
    let (templates, got) = get_type_infos(&data, "A").unwrap();
    assert_eq!(templates, vec![s("t1"), s("t2")]);
    assert_eq!(got, infos);
    let (templates, got) = get_type_infos(&data, "B").unwrap();
    assert!(templates.is_empty());
    assert_eq!(got, Infos::default());
    assert_eq!(get_last_template_index(&data, "A"), 2);
    let r = update_type(&mut data, "A", vec![s("t9")], Infos::default(), s("later"));
    assert_eq!(r, Ok(MyTip::UpdateDone(s("型号: A"))));
    assert_eq!(data[0].template.get("3"), Some(&s("t9")));
    assert_eq!(data[0].template.len(), 1);
    assert_eq!(data[0].update_time, Some(s("later")));
    assert_eq!(get_kind_names(&data).unwrap(), vec![s("A")]);
    assert_eq!(delete_type(&mut data, "A"), Ok(MyTip::DeleteDone(s("型号: A"))));
    assert!(data.is_empty());
    assert_eq!(delete_type(&mut data, "A"), Err(MyError::NotFound(s("型号: A"))));
}

fn template(name: &str, with_infos: bool) -> Template {
    let mut infos = StrMap::new();
    if with_infos {
        infos.insert(s("SN"), InfoDetail::empty());
    }
    Template {
        id: 1,
        template_name: s(name),
        create_time: s("c"),
        update_time: None,
        row: s("1"),
        infos,
        tables: StrMap::new(),
    }
}

#[test]
fn decimal_templates() {
    let data = vec![template("T1", true), template("T2", false)];
    assert_eq!(get_templates(&data).unwrap(), vec![s("T1"), s("T2")]);
    assert_eq!(get_templates(&vec![]).err(), Some(MyError::UnLoadedTemplates));
    let c = get_decimal_config_value(vec![template("T1", true)], "T1").unwrap();
    assert_eq!(c.row, "1");
    assert_eq!(c.infos.len(), 1);
    let e = get_decimal_config_value(vec![template("T2", false)], "T2").err();
    assert_eq!(e, Some(MyError::NotFound(s("模板: T2 的 infos 和 tables 字段均为空"))));
    let e = get_decimal_config_value(vec![template("T2", false)], "T3").err();
    assert_eq!(e, Some(MyError::NotFound(s("模板: T3"))));
    assert_eq!(get_decimal_config_value(vec![], "T3").err(), Some(MyError::UnLoadedTemplates));
    assert_eq!(ensure_new_template(&data, "T1"), Err(MyError::Haved(s("模板：T1 已存在"))));
    assert_eq!(ensure_new_template(&data, "T3"), Ok(()));
}

#[test]
fn header_rows_and_headers() {
    assert_eq!(header_rows_to_scan(5, "1"), vec![5]);
    assert_eq!(header_rows_to_scan(5, "2"), vec![4, 5]);
    let cells = vec![
        vec![Some(s("Test")), Some(s("  ")), Some(s("Po"))],
        vec![Some(s("Ith")), Some(s("Vf")), None, Some(s("x"))],
    ];
    assert_eq!(combine_headers(&cells), vec![s("TestIth"), s("Vf"), s("Po"), s("x")]);
    let cells = vec![vec![Some(s("A")), None, Some(s("C"))]];
    assert_eq!(combine_headers(&cells), vec![s("A")]);
}

#[test]
fn decimal_templates_add_update_delete() {
    let mut data = vec![template("T1", true)];
    let cells = vec![vec![Some(s("SN")), Some(s("Po\n(mW)")), Some(s("SN"))]];
    let r = add_new_template(&mut data, s("T2"), s("1"), &cells, s("now"));
    assert_eq!(r, Ok(MyTip::AddDone(s("模板: T2"))));
    assert_eq!(data[1].id, 2);
    assert_eq!(data[1].infos.len(), 2);
    assert!(data[1].infos.get("SN").is_some());
    assert!(data[1].infos.get("Po(mW)").is_some());
    let r = add_new_template(&mut data, s("T2"), s("1"), &cells, s("now"));
    assert_eq!(r, Err(MyError::Haved(s("模板：T2 已存在"))));
    let mut tables = StrMap::new();
    tables.insert(s("B2"), s("Date"));
    let cfg = TemplateConfig { row: s("2"), infos: StrMap::new(), tables };
    assert_eq!(update_template(&mut data, "T2", cfg, s("later")), Ok(MyTip::UpdateDone(s("模板: T2"))));
    assert_eq!(data[1].row, "2");
    assert_eq!(data[1].tables.get("B2"), Some(&s("Date")));
    assert_eq!(data[1].update_time, Some(s("later")));
    let cfg = TemplateConfig { row: s("2"), infos: StrMap::new(), tables: StrMap::new() };
    assert_eq!(update_template(&mut data, "T9", cfg, s("x")), Err(MyError::NotFound(s("模板: T9"))));
    assert_eq!(delete_template(&mut data, "T1"), Ok(MyTip::DeleteDone(s("模板: T1"))));
    assert_eq!(data.len(), 1);
    assert_eq!(delete_template(&mut data, "T1"), Err(MyError::NotFound(s("模板: T1"))));
}

#[test]
fn all_column_names_in_order() {
    let mut columns = StrMap::new();
    columns.insert(s("sn"), s("serial"));
    columns.insert(s("po"), s("power"));
    let all = AllColumnNames { columns };
    assert_eq!(load_all_column_names(&all), vec![s("sn"), s("po")]);
}
