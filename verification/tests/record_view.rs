use ntdsextract2::cell::{CellValue, RawRow};
use ntdsextract2::error::Error;
use ntdsextract2::record::{AsDataTableRecord, DataTableRecord};
use ntdsextract2::schema::{AttributeMap, RawColumn};

fn col(name: &str, id: i32) -> RawColumn {
    RawColumn { name: name.to_string(), id }
}

fn data_columns() -> Vec<RawColumn> {
    vec![
        col("DNT_col", 1),
        col("PDNT_col", 2),
        col("time_col", 3),
        col("Ancestors_col", 4),
        col("ATTb590606", 5),
        col("ATTm3", 6),
        col("ATTm589825", 7),
        col("ATTr589970", 8),
        col("ATTm590045", 9),
        col("ATTj590126", 10),
        col("ATTm590480", 11),
        col("ATTj589832", 12),
        col("ATTq589876", 13),
        col("ATTq591520", 14),
        col("ATTq589983", 15),
        col("ATTq589920", 16),
        col("ATTq589873", 17),
        col("ATTj589993", 18),
        col("ATTj589836", 19),
        col("ATTj589922", 20),
        col("ATTk589914", 21),
        col("ATTk589879", 22),
        col("ATTk589918", 23),
        col("ATTk589984", 24),
        col("ATTb590605", 25),
    ]
}

fn map() -> AttributeMap {
    AttributeMap::resolve(&data_columns()).unwrap()
}

#[test]
fn attribute_map_resolves_by_exact_name() {
    let m = map();
    assert_eq!(m.record_id, 1);
    assert_eq!(m.parent_id, 2);
    assert_eq!(m.rdn, 7);
    assert_eq!(m.sid, Some(8));
    assert_eq!(m.password_last_set, Some(16));
}

#[test]
fn typed_view_decodes_the_row() {
    let row = RawRow {
        cells: vec![
            (1, CellValue::I32(42)),
            (2, CellValue::I32(7)),
            (5, CellValue::I32(101)),
            (7, CellValue::Text("node".to_string())),
            (13, CellValue::Currency(116444736000000000)),
        ],
    };
    let m = map();
    let record = DataTableRecord::new(&row, &m);
    assert_eq!(record.ds_record_id().unwrap(), 42);
    assert_eq!(record.ds_parent_record_id().unwrap(), 7);
    assert_eq!(record.ds_object_type_id_opt().unwrap(), Some(101));
    assert_eq!(record.ds_object_name2().unwrap(), "node");
    assert_eq!(record.ds_object_name_opt().unwrap(), None);
    assert_eq!(record.ds_record_time_opt().unwrap(), None);
    let logon = record.file_time_at(m.last_logon).unwrap().unwrap();
    assert_eq!(logon.unix_timestamp(), 0);
    assert!(matches!(record.get(1), Some(CellValue::I32(42))));
    assert!(record.get(99).is_none());
    assert_eq!(record.raw_row().cells.len(), 5);
}

#[test]
fn typed_view_reports_missing_and_mismatched_values() {
    let row = RawRow { cells: vec![(1, CellValue::Text("x".to_string()))] };
    let m = map();
    let record = DataTableRecord::new(&row, &m);
    assert!(matches!(record.ds_record_id(), Err(Error::InvalidValueDetected { .. })));
    assert!(matches!(record.ds_parent_record_id(), Err(Error::ValueIsMissing)));
    assert!(matches!(record.ds_object_name2(), Err(Error::ValueIsMissing)));
}
