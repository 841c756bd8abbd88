use ntdsextract2::cell::{CellValue, RawRow};
use ntdsextract2::datatable::{DataTable, EntryId};
use ntdsextract2::error::Error;
use ntdsextract2::index::DATA_TABLE_ID;
use ntdsextract2::objects::ObjectType;
use ntdsextract2::schema::RawColumn;
use ntdsextract2::RecordPointer;

fn col(name: &str, id: i32) -> RawColumn {
    RawColumn { name: name.to_string(), id }
}

fn data_columns() -> Vec<RawColumn> {
    vec![
        col("DNT_col", 1),
        col("PDNT_col", 2),
        col("time_col", 3),
        col("Ancestors_col", 4),
        col("ATTb590606", 5),
        col("ATTm3", 6),
        col("ATTm589825", 7),
        col("ATTr589970", 8),
        col("ATTm590045", 9),
        col("ATTj590126", 10),
        col("ATTm590480", 11),
        col("ATTj589832", 12),
        col("ATTq589876", 13),
        col("ATTq591520", 14),
        col("ATTq589983", 15),
        col("ATTq589920", 16),
        col("ATTq589873", 17),
        col("ATTj589993", 18),
        col("ATTj589836", 19),
        col("ATTj589922", 20),
        col("ATTk589914", 21),
        col("ATTk589879", 22),
        col("ATTk589918", 23),
        col("ATTk589984", 24),
        col("ATTb590605", 25),
    ]
}

fn link_columns() -> Vec<RawColumn> {
    vec![col("link_base", 1), col("link_DNT", 2), col("backlink_DNT", 3)]
}

fn sd_columns() -> Vec<RawColumn> {
    vec![col("sd_id", 1), col("sd_value", 2)]
}

fn row(cells: Vec<(i32, CellValue)>) -> RawRow {
    RawRow { cells }
}

fn r1_sid_bytes() -> Vec<u8> {
    // revision 1, two sub-authorities, authority 5; 21 little-endian, then
    // the final sub-authority 500 big-endian.
    vec![1, 2, 0, 0, 0, 0, 0, 5, 21, 0, 0, 0, 0, 0, 1, 244]
}

fn base_rows() -> Vec<RawRow> {
    vec![
        row(vec![(1, CellValue::I32(2)), (2, CellValue::I32(0)), (7, CellValue::Text("root".to_string()))]),
        row(vec![(1, CellValue::I32(100)), (2, CellValue::I32(2)), (7, CellValue::Text("Schema".to_string()))]),
        row(vec![(1, CellValue::I32(101)), (2, CellValue::I32(100)), (7, CellValue::Text("Person".to_string()))]),
        row(vec![(1, CellValue::I32(102)), (2, CellValue::I32(100)), (7, CellValue::Text("Group".to_string()))]),
        row(vec![(1, CellValue::I32(103)), (2, CellValue::I32(100)), (7, CellValue::Text("Computer".to_string()))]),
        row(vec![
            (1, CellValue::I32(200)),
            (2, CellValue::I32(50)),
            (5, CellValue::I32(101)),
            (7, CellValue::Text("R1".to_string())),
            (8, CellValue::Binary(r1_sid_bytes())),
            (9, CellValue::Text("person1".to_string())),
            (16, CellValue::Currency(116444736000000000)),
        ]),
        row(vec![
            (1, CellValue::I32(201)),
            (2, CellValue::I32(50)),
            (5, CellValue::I32(101)),
            (7, CellValue::Text("R2".to_string())),
            (9, CellValue::Text("person2".to_string())),
            (13, CellValue::Currency(116444736010000000)),
        ]),
    ]
}

fn build(rows: Vec<RawRow>) -> DataTable {
    DataTable::new(data_columns(), rows, link_columns(), vec![], sd_columns(), vec![]).unwrap()
}

#[test]
fn schema_resolution_finds_anchor_and_types() {
    let dt = build(base_rows());
    assert_eq!(dt.schema.anchor_id, 100);
    assert_eq!(dt.schema.anchor_row, 1);
    assert_eq!(dt.schema.person_type_id, 101);
    assert_eq!(dt.schema.group_type_id, 102);
    assert_eq!(dt.schema.computer_type_id, 103);
    let names = dt.show_type_names();
    assert_eq!(names, vec!["Person", "Group", "Computer"]);
}

#[test]
fn schema_resolution_is_deterministic_and_idempotent() {
    let a = build(base_rows());
    let b = build(base_rows());
    assert_eq!(a.schema.anchor_id, b.schema.anchor_id);
    assert_eq!(a.schema.person_type_id, b.schema.person_type_id);
    assert_eq!(a.schema.group_type_id, b.schema.group_type_id);
    assert_eq!(a.schema.computer_type_id, b.schema.computer_type_id);
    assert_eq!(a.show_type_names(), b.show_type_names());
    assert_eq!(a.map, b.map);
}

#[test]
fn missing_required_column_is_fatal() {
    let mut cols = data_columns();
    cols.retain(|c| c.name != "DNT_col");
    let r = DataTable::new(cols, base_rows(), link_columns(), vec![], sd_columns(), vec![]);
    assert!(matches!(r, Err(Error::MissingColumn { .. })));
}

#[test]
fn missing_schema_record_is_fatal() {
    let rows = vec![row(vec![(1, CellValue::I32(2)), (2, CellValue::I32(0)), (7, CellValue::Text("root".to_string()))])];
    let r = DataTable::new(data_columns(), rows, link_columns(), vec![], sd_columns(), vec![]);
    assert!(matches!(r, Err(Error::MissingSchemaRecord)));
}

#[test]
fn schema_record_without_children_is_fatal() {
    let rows = vec![
        row(vec![(1, CellValue::I32(2)), (2, CellValue::I32(0)), (7, CellValue::Text("root".to_string()))]),
        row(vec![(1, CellValue::I32(100)), (2, CellValue::I32(2)), (7, CellValue::Text("Schema".to_string()))]),
    ];
    let r = DataTable::new(data_columns(), rows, link_columns(), vec![], sd_columns(), vec![]);
    assert!(matches!(r, Err(Error::SchemaRecordHasNoChildren)));
}

#[test]
fn missing_supported_type_is_fatal() {
    let mut rows = base_rows();
    rows.retain(|r| {
        !r.cells.iter().any(|(id, v)| *id == 7 && matches!(v, CellValue::Text(s) if s == "Computer"))
    });
    let r = DataTable::new(data_columns(), rows, link_columns(), vec![], sd_columns(), vec![]);
    assert!(matches!(r, Err(Error::MissingTypeDefinition { .. })));
}

#[test]
fn duplicate_record_id_is_fatal() {
    let mut rows = base_rows();
    rows.push(row(vec![(1, CellValue::I32(200)), (2, CellValue::I32(50))]));
    let r = DataTable::new(data_columns(), rows, link_columns(), vec![], sd_columns(), vec![]);
    assert!(matches!(r, Err(Error::DuplicateRecordId { record_id: 200 })));
}

#[test]
fn lookup_returns_exactly_one_pointer() {
    let dt = build(base_rows());
    let p = dt.index.lookup(200).unwrap();
    assert_eq!(p, RecordPointer { table: DATA_TABLE_ID, row: 5 });
    assert_eq!(dt.index.lookup(201).unwrap().row, 6);
    assert!(dt.index.lookup(999).is_none());
}

#[test]
fn children_of_returns_exactly_the_stored_children() {
    let dt = build(base_rows());
    let kids = dt.index.children_of(100);
    let rows: Vec<u32> = kids.iter().map(|p| p.row).collect();
    assert_eq!(rows, vec![2, 3, 4]);
    let kids50 = dt.index.children_of(50);
    let rows50: Vec<u32> = kids50.iter().map(|p| p.row).collect();
    assert_eq!(rows50, vec![5, 6]);
    assert!(dt.index.children_of(12345).is_empty());
}

#[test]
fn entries_of_type_returns_exactly_the_type_members() {
    let dt = build(base_rows());
    let persons = dt.index.entries_of_type(101);
    let rows: Vec<u32> = persons.iter().map(|p| p.row).collect();
    assert_eq!(rows, vec![5, 6]);
    assert!(dt.index.entries_of_type(102).is_empty());
}

#[test]
fn tree_has_one_root_and_reports_orphans() {
    let dt = build(base_rows());
    assert_eq!(dt.tree.roots.len(), 1);
    assert_eq!(dt.tree.roots[0].row, 0);
    let orphan_rows: Vec<u32> = dt.tree.orphans.iter().map(|p| p.row).collect();
    assert_eq!(orphan_rows, vec![5, 6]);
}

#[test]
fn tree_rendering_honours_the_depth_bound() {
    let dt = build(base_rows());
    assert_eq!(dt.show_tree(0).unwrap(), "root\n");
    assert_eq!(dt.show_tree(1).unwrap(), "root\n  Schema\n");
    assert_eq!(
        dt.show_tree(2).unwrap(),
        "root\n  Schema\n    Person\n    Group\n    Computer\n"
    );
}

#[test]
fn tree_without_a_unique_root_is_an_error() {
    let mut rows = base_rows();
    rows.push(row(vec![(1, CellValue::I32(500)), (2, CellValue::I32(0))]));
    let dt = build(rows);
    assert!(matches!(dt.show_tree(1), Err(Error::MiscConversionError { .. })));
}

#[test]
fn typed_listing_decodes_users() {
    let dt = build(base_rows());
    let listing = dt.show_users();
    assert_eq!(listing.skipped, 0);
    assert_eq!(listing.objects.len(), 2);
    let r1 = &listing.objects[0];
    assert_eq!(r1.record_id, 200);
    assert_eq!(r1.parent_id, 50);
    assert_eq!(r1.object_type, ObjectType::Person);
    assert_eq!(r1.name.as_deref(), Some("R1"));
    assert_eq!(r1.sam_account_name.as_deref(), Some("person1"));
    assert_eq!(r1.sid.as_deref(), Some("S-1-5-21-500"));
    assert_eq!(r1.password_last_set.as_deref(), Some("1970-01-01T00:00:00Z"));
    assert_eq!(r1.last_logon, None);
    let r2 = &listing.objects[1];
    assert_eq!(r2.record_id, 201);
    assert_eq!(r2.last_logon.as_deref(), Some("1970-01-01T00:00:01Z"));
    assert_eq!(r2.password_last_set, None);
    assert!(dt.show_groups().objects.is_empty());
    assert!(dt.show_computers().objects.is_empty());
}

#[test]
fn typed_listing_skips_and_counts_undecodable_records() {
    let mut rows = base_rows();
    rows.push(row(vec![
        (1, CellValue::I32(210)),
        (2, CellValue::I32(50)),
        (5, CellValue::I32(101)),
        (9, CellValue::I32(7)),
    ]));
    let dt = build(rows);
    let listing = dt.show_users();
    assert_eq!(listing.skipped, 1);
    assert_eq!(listing.objects.len(), 2);
}

#[test]
fn membership_is_resolved_through_the_link_table() {
    let mut rows = base_rows();
    rows.push(row(vec![
        (1, CellValue::I32(400)),
        (2, CellValue::I32(2)),
        (5, CellValue::I32(102)),
        (7, CellValue::Text("admins".to_string())),
        (9, CellValue::Text("admins".to_string())),
    ]));
    let link_rows = vec![row(vec![
        (1, CellValue::I32(2)),
        (2, CellValue::I32(400)),
        (3, CellValue::I32(200)),
    ])];
    let dt = DataTable::new(data_columns(), rows, link_columns(), link_rows, sd_columns(), vec![])
        .unwrap();
    let listing = dt.show_users();
    assert_eq!(listing.objects[0].member_of, vec![400]);
    assert_eq!(listing.objects[1].member_of, Vec::<i32>::new());
    let groups = dt.show_groups();
    assert_eq!(groups.objects.len(), 1);
    assert_eq!(groups.objects[0].sam_account_name.as_deref(), Some("admins"));
    assert_eq!(dt.links.targets_of(2, 400), vec![200]);
    assert_eq!(dt.links.sources_of(2, 200), vec![400]);
}

#[test]
fn find_type_records_resolves_requested_types() {
    let dt = build(base_rows());
    let r = dt.find_type_records(&vec![ObjectType::Person, ObjectType::Computer]);
    assert_eq!(r, vec![(ObjectType::Person, 101), (ObjectType::Computer, 103)]);
}

#[test]
fn dangling_link_target_surfaces_on_dereference() {
    let dt = build(base_rows());
    assert_eq!(dt.dereference_link_target(200).unwrap().row, 5);
    assert!(matches!(
        dt.dereference_link_target(888),
        Err(Error::DanglingLinkTarget { record_id: 888 })
    ));
}

#[test]
fn show_entry_finds_by_id_and_by_rid() {
    let dt = build(base_rows());
    let fields = dt.show_entry(EntryId::Id(100)).unwrap();
    assert_eq!(fields.len(), 25);
    assert!(fields.contains(&("record id".to_string(), "100".to_string())));
    assert!(fields.contains(&("relative name".to_string(), "Schema".to_string())));
    let by_rid = dt.show_entry(EntryId::Rid(500)).unwrap();
    assert!(by_rid.contains(&("record id".to_string(), "200".to_string())));
    assert!(by_rid.contains(&("account name".to_string(), "person1".to_string())));
    assert!(dt.show_entry(EntryId::Id(999)).is_none());
    assert!(dt.show_entry(EntryId::Rid(777)).is_none());
}
