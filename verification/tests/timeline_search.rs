use ntdsextract2::cell::{CellValue, RawRow};
use ntdsextract2::datatable::DataTable;
use ntdsextract2::error::Error;
use ntdsextract2::schema::RawColumn;

fn col(name: &str, id: i32) -> RawColumn {
    RawColumn { name: name.to_string(), id }
}

fn data_columns() -> Vec<RawColumn> {
    vec![
        col("DNT_col", 1),
        col("PDNT_col", 2),
        col("time_col", 3),
        col("Ancestors_col", 4),
        col("ATTb590606", 5),
        col("ATTm3", 6),
        col("ATTm589825", 7),
        col("ATTr589970", 8),
        col("ATTm590045", 9),
        col("ATTj590126", 10),
        col("ATTm590480", 11),
        col("ATTj589832", 12),
        col("ATTq589876", 13),
        col("ATTq591520", 14),
        col("ATTq589983", 15),
        col("ATTq589920", 16),
        col("ATTq589873", 17),
        col("ATTj589993", 18),
        col("ATTj589836", 19),
        col("ATTj589922", 20),
        col("ATTk589914", 21),
        col("ATTk589879", 22),
        col("ATTk589918", 23),
        col("ATTk589984", 24),
        col("ATTb590605", 25),
    ]
}

fn link_columns() -> Vec<RawColumn> {
    vec![col("link_base", 1), col("link_DNT", 2), col("backlink_DNT", 3)]
}

fn sd_columns() -> Vec<RawColumn> {
    vec![col("sd_id", 1), col("sd_value", 2)]
}

fn row(cells: Vec<(i32, CellValue)>) -> RawRow {
    RawRow { cells }
}

fn base_rows() -> Vec<RawRow> {
    vec![
        row(vec![(1, CellValue::I32(2)), (2, CellValue::I32(0)), (7, CellValue::Text("root".to_string()))]),
        row(vec![(1, CellValue::I32(100)), (2, CellValue::I32(2)), (7, CellValue::Text("Schema".to_string()))]),
        row(vec![(1, CellValue::I32(101)), (2, CellValue::I32(100)), (7, CellValue::Text("Person".to_string()))]),
        row(vec![(1, CellValue::I32(102)), (2, CellValue::I32(100)), (7, CellValue::Text("Group".to_string()))]),
        row(vec![(1, CellValue::I32(103)), (2, CellValue::I32(100)), (7, CellValue::Text("Computer".to_string()))]),
        row(vec![
            (1, CellValue::I32(200)),
            (2, CellValue::I32(50)),
            (5, CellValue::I32(101)),
            (7, CellValue::Text("R1".to_string())),
            (9, CellValue::Text("person1".to_string())),
            (16, CellValue::Currency(116444736000000000)),
        ]),
        row(vec![
            (1, CellValue::I32(201)),
            (2, CellValue::I32(50)),
            (5, CellValue::I32(101)),
            (7, CellValue::Text("R2".to_string())),
            (9, CellValue::Text("person2".to_string())),
            (13, CellValue::Currency(116444736010000000)),
        ]),
    ]
}

fn build(rows: Vec<RawRow>) -> DataTable {
    DataTable::new(data_columns(), rows, link_columns(), vec![], sd_columns(), vec![]).unwrap()
}

#[test]
fn timeline_emits_one_line_per_present_timestamp() {
    let dt = build(base_rows());
    let report = dt.show_timeline(false, false);
    assert_eq!(report.output.skipped, 0);
    assert!(report.deleted.is_none());
    assert_eq!(
        report.output.lines,
        vec![
            "0|person1 (password last set)|5||0|0|0|-1|0|-1|-1".to_string(),
            "0|person2 (last logon)|6||0|0|0|1|-1|-1|-1".to_string(),
        ]
    );
}

#[test]
fn timeline_all_objects_mode_widens_the_scope() {
    let mut rows = base_rows();
    // A discovered but unsupported type, and a record of it: the generic
    // fallback projects its record time only.
    rows.push(row(vec![
        (1, CellValue::I32(104)),
        (2, CellValue::I32(100)),
        (7, CellValue::Text("Container".to_string())),
    ]));
    rows.push(row(vec![
        (1, CellValue::I32(700)),
        (2, CellValue::I32(2)),
        (5, CellValue::I32(104)),
        (7, CellValue::Text("staff".to_string())),
        (3, CellValue::Currency(1164447360500000)),
        (13, CellValue::Currency(116444736000000000)),
    ]));
    let dt = build(rows);
    let narrow = dt.show_timeline(false, false);
    assert_eq!(narrow.output.lines.len(), 2);
    let wide = dt.show_timeline(true, false);
    assert_eq!(wide.output.lines.len(), 3);
    // The unsupported type's record projects only its creation time, even
    // though a logon timestamp is present on the row.
    assert_eq!(wide.output.lines[2], "0|staff (record created)|8||0|0|0|-1|-1|-1|5");
}

#[test]
fn deleted_inclusive_export_lists_a_doubly_deleted_record_once() {
    let mut rows = base_rows();
    rows.push(row(vec![
        (1, CellValue::I32(300)),
        (2, CellValue::I32(2)),
        (7, CellValue::Text("Deleted Objects".to_string())),
    ]));
    rows.push(row(vec![
        (1, CellValue::I32(301)),
        (2, CellValue::I32(300)),
        (5, CellValue::I32(101)),
        (7, CellValue::Text("gone".to_string())),
        (9, CellValue::Text("ghost".to_string())),
        (25, CellValue::I32(300)),
        (13, CellValue::Currency(116444736020000000)),
    ]));
    let dt = build(rows);
    let report = dt.show_timeline(false, true);
    let deleted = report.deleted.unwrap();
    assert_eq!(deleted.lines, vec!["0|ghost (last logon)|8||0|0|0|2|-1|-1|-1".to_string()]);
    assert_eq!(deleted.skipped, 0);
}

#[test]
fn deleted_export_without_a_container_is_empty() {
    let dt = build(base_rows());
    let report = dt.show_timeline(false, true);
    let deleted = report.deleted.unwrap();
    assert!(deleted.lines.is_empty());
    assert_eq!(deleted.skipped, 0);
}

#[test]
fn search_matches_and_stays_tabular() {
    let dt = build(base_rows());
    let out = dt.search_entries("Sch", false).unwrap();
    assert_eq!(out.columns, vec![1, 2, 6, 7, 5]);
    assert_eq!(
        out.header,
        vec!["DNT_col", "PDNT_col", "ATTm3", "ATTm589825", "ATTb590606"]
    );
    assert_eq!(out.rows.len(), 1);
    assert_eq!(out.rows[0], vec!["100", "2", "", "Schema", ""]);
}

#[test]
fn search_case_insensitive_mode_widens_matching() {
    let dt = build(base_rows());
    assert_eq!(dt.search_entries("schema", false).unwrap().rows.len(), 0);
    assert_eq!(dt.search_entries("schema", true).unwrap().rows.len(), 1);
    assert_eq!(dt.search_entries("SCHE.A", true).unwrap().rows.len(), 1);
}

#[test]
fn search_rejects_an_invalid_pattern() {
    let dt = build(base_rows());
    assert!(matches!(
        dt.search_entries("(", false),
        Err(Error::MiscConversionError { .. })
    ));
}

#[test]
fn search_escapes_line_breaks_in_values() {
    let mut rows = base_rows();
    rows.push(row(vec![
        (1, CellValue::I32(600)),
        (2, CellValue::I32(2)),
        (7, CellValue::Text("zz\nqq".to_string())),
    ]));
    let dt = build(rows);
    let out = dt.search_entries("zz", false).unwrap();
    assert_eq!(out.rows.len(), 1);
    assert_eq!(out.rows[0][3], "zz\\nqq");
}

#[test]
fn search_appends_matched_columns_behind_the_prefix() {
    let mut rows = base_rows();
    rows.push(row(vec![
        (1, CellValue::I32(601)),
        (2, CellValue::I32(2)),
        (11, CellValue::Text("unique-principal".to_string())),
    ]));
    let dt = build(rows);
    let out = dt.search_entries("unique-principal", false).unwrap();
    assert_eq!(out.columns, vec![1, 2, 6, 7, 5, 11]);
    assert_eq!(out.header[5], "ATTm590480");
    assert_eq!(out.rows, vec![vec![
        "601".to_string(),
        "2".to_string(),
        "".to_string(),
        "".to_string(),
        "".to_string(),
        "unique-principal".to_string(),
    ]]);
}
