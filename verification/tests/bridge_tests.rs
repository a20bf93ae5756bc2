use yy_dps::app_data_bridge::{
    bridge_bus_event, get_import_datas, get_query_datas, get_query_datas_vec, init_bridge, init_import_bridge,
    query_data_len, set_import_datas, set_query_datas, BusEvent, DataBridge, Record, SharedImportData,
    SharedQueryData,
};
use yy_dps::records::{Datas, ImportDBDatas};
use yy_dps::strmap::StrMap;

fn record(sn: &str) -> Record {
    let mut m = StrMap::new();
    m.insert("sn".to_string(), sn.to_string());
    m
}

#[test]
fn query_slot_reads_back_last_write() {
    let mut bridge: SharedQueryData = DataBridge::new();
    init_bridge(&mut bridge);
    assert_eq!(query_data_len(&mut bridge), 0);
    set_query_datas(&mut bridge, vec![record("S1"), record("S2")]);
    set_query_datas(&mut bridge, vec![record("S3")]);
    let rows = get_query_datas_vec(&mut bridge);
    assert_eq!(rows.len(), 1);
    assert_eq!(rows[0].get("sn"), Some(&"S3".to_string()));
    assert_eq!(query_data_len(&mut bridge), 1);
    let _ = get_query_datas(&mut bridge);
    assert_eq!(query_data_len(&mut bridge), 1);
}

#[test]
fn import_slot_reads_back_last_write() {
    let mut bridge: SharedImportData = DataBridge::new();
    init_import_bridge(&mut bridge);
    assert!(get_import_datas(&mut bridge).is_empty());
    let mut d = ImportDBDatas::empty();
    d.sn = "X1".to_string();
    set_import_datas(&mut bridge, vec![d.clone()]);
    assert_eq!(get_import_datas(&mut bridge), vec![d]);
}

#[test]
fn bus_stores_query_results_only() {
    let mut bridge: SharedQueryData = DataBridge::new();
    bridge_bus_event(&mut bridge, &BusEvent::ExportResult(vec![Datas::empty()]));
    assert_eq!(query_data_len(&mut bridge), 0);
    bridge_bus_event(&mut bridge, &BusEvent::QueryResult(vec![record("A"), record("B")]));
    let rows = get_query_datas_vec(&mut bridge);
    assert_eq!(rows.len(), 2);
    assert_eq!(rows[1].get("sn"), Some(&"B".to_string()));
}
