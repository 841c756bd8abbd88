use ntdsextract2::cell::{cell_as_hex, cell_as_i32, cell_as_text, cell_as_ticks, CellValue};
use ntdsextract2::descriptor::{parse_security_descriptor, SdColumns, SdTable};
use ntdsextract2::cell::RawRow;
use ntdsextract2::error::Error;
use ntdsextract2::schema::RawColumn;
use ntdsextract2::sid::Sid;
use ntdsextract2::timestamp::{
    civil_from_days, rfc3339_of_seconds, DatabaseTime, ToRfc3339, WindowsFileTime,
};

fn sid_bytes() -> Vec<u8> {
    // revision 1, two sub-authorities, authority 5; 21 little-endian, then
    // the final sub-authority 500 big-endian.
    vec![1, 2, 0, 0, 0, 0, 0, 5, 21, 0, 0, 0, 0, 0, 1, 244]
}

#[test]
fn sid_decodes_to_its_rendered_components() {
    let sid = Sid::parse(&sid_bytes()).unwrap();
    assert_eq!(sid.revision, 1);
    assert_eq!(sid.authority, 5);
    assert_eq!(sid.sub_authorities, vec![21, 500]);
    assert_eq!(sid.render(), "S-1-5-21-500");
    assert_eq!(sid.rid(), Some(500));
}

#[test]
fn truncated_sid_fails_without_a_partial_value() {
    let bytes = sid_bytes();
    assert!(matches!(Sid::parse(&bytes[..15]), Err(Error::InvalidValueDetected { .. })));
    assert!(matches!(Sid::parse(&bytes[..7]), Err(Error::InvalidValueDetected { .. })));
    let zero_count = vec![1, 0, 0, 0, 0, 0, 0, 5];
    assert!(Sid::parse(&zero_count).is_err());
}

#[test]
fn tick_count_zero_is_the_epoch() {
    let t = WindowsFileTime::from_ticks(0).unwrap();
    assert_eq!(t.rfc3339(), "1601-01-01T00:00:00Z");
    assert_eq!(t.to_rfc3339(), "1601-01-01T00:00:00Z");
    let d = DatabaseTime::from_units(0).unwrap();
    assert_eq!(d.rfc3339(), "1601-01-01T00:00:00Z");
}

#[test]
fn null_cell_is_absent_never_the_epoch() {
    assert_eq!(cell_as_ticks(&CellValue::Null).unwrap(), None);
    assert_eq!(cell_as_i32(&CellValue::Null).unwrap(), None);
    assert_eq!(cell_as_text(&CellValue::Null).unwrap(), None);
}

#[test]
fn negative_tick_count_fails_rather_than_saturating() {
    assert!(matches!(
        WindowsFileTime::from_ticks(-1),
        Err(Error::IntegerConversionError { .. })
    ));
    assert!(matches!(
        DatabaseTime::from_units(-99),
        Err(Error::IntegerConversionError { .. })
    ));
}

#[test]
fn timestamps_convert_through_the_calendar() {
    let t = WindowsFileTime::from_ticks(116444736000000000).unwrap();
    assert_eq!(t.unix_timestamp(), 0);
    assert_eq!(t.rfc3339(), "1970-01-01T00:00:00Z");
    assert_eq!(rfc3339_of_seconds(13227451200), "2020-02-29T12:00:00Z");
    let civil = civil_from_days(0);
    assert_eq!((civil.year, civil.month, civil.day), (1601, 1, 1));
    let leap = civil_from_days(59 + 365 * 3);
    assert_eq!((leap.year, leap.month), (1604, 2));
}

#[test]
fn variant_mismatch_is_an_error_not_a_cast() {
    assert!(matches!(
        cell_as_i32(&CellValue::Text("7".to_string())),
        Err(Error::InvalidValueDetected { .. })
    ));
    assert!(matches!(
        cell_as_ticks(&CellValue::I32(5)),
        Err(Error::InvalidValueDetected { .. })
    ));
    assert!(matches!(
        cell_as_i32(&CellValue::I64(1 << 40)),
        Err(Error::IntegerConversionError { .. })
    ));
    assert_eq!(cell_as_i32(&CellValue::I64(-5)).unwrap(), Some(-5));
}

#[test]
fn hashes_render_as_lowercase_hexadecimal() {
    let v = CellValue::Binary(vec![0xab, 0x01, 0xff]);
    assert_eq!(cell_as_hex(&v).unwrap().unwrap(), "ab01ff");
    let w = CellValue::LargeBinary(vec![]);
    assert_eq!(cell_as_hex(&w).unwrap().unwrap(), "");
}

fn owner_sid() -> Vec<u8> {
    sid_bytes()
}

fn group_sid() -> Vec<u8> {
    vec![1, 1, 0, 0, 0, 0, 0, 5, 0, 0, 0, 32]
}

fn descriptor_blob() -> Vec<u8> {
    let mut b = vec![
        1, 0, // revision, padding
        4, 0, // control: discretionary list present
        20, 0, 0, 0, // owner offset
        36, 0, 0, 0, // group offset
        0, 0, 0, 0, // audit list offset, absent
        48, 0, 0, 0, // discretionary list offset
    ];
    b.extend(owner_sid());
    b.extend(group_sid());
    // list header: revision, padding, size, one entry, padding
    b.extend(vec![2, 0, 32, 0, 1, 0, 0, 0]);
    // entry: type, flags, size, mask, trustee
    b.extend(vec![0, 0, 24, 0, 0xff, 0x01, 0x1f, 0x00]);
    b.extend(owner_sid());
    b
}

#[test]
fn security_descriptor_decodes_fully() {
    let sd = parse_security_descriptor(&descriptor_blob()).unwrap();
    assert_eq!(sd.revision, 1);
    assert_eq!(sd.control, 4);
    assert_eq!(sd.owner.render(), "S-1-5-21-500");
    assert_eq!(sd.group.render(), "S-1-5-32");
    assert_eq!(sd.aces.len(), 1);
    assert_eq!(sd.aces[0].ace_type, 0);
    assert_eq!(sd.aces[0].flags, 0);
    assert_eq!(sd.aces[0].mask, 0x001f01ff);
    assert_eq!(sd.aces[0].trustee.render(), "S-1-5-21-500");
}

#[test]
fn malformed_descriptor_keeps_the_blob_in_the_error() {
    match parse_security_descriptor(&[0u8]) {
        Err(Error::DescriptorDecodeError { encoded }) => assert_eq!(encoded, "AA=="),
        other => panic!("unexpected: {:?}", other),
    }
    let mut truncated = descriptor_blob();
    truncated.truncate(30);
    assert!(matches!(
        parse_security_descriptor(&truncated),
        Err(Error::DescriptorDecodeError { .. })
    ));
}

#[test]
fn descriptor_table_serves_blobs_by_id() {
    let cols = vec![
        RawColumn { name: "sd_id".to_string(), id: 1 },
        RawColumn { name: "sd_value".to_string(), id: 2 },
    ];
    let sd_cols = SdColumns::resolve(&cols).unwrap();
    let rows = vec![
        RawRow { cells: vec![(1, CellValue::I64(7)), (2, CellValue::Binary(descriptor_blob()))] },
        RawRow { cells: vec![(1, CellValue::I16(8)), (2, CellValue::Binary(vec![0]))] },
    ];
    let table = SdTable::new(&rows, &sd_cols);
    assert_eq!(table.skipped, 0);
    let good = table.descriptor(7).unwrap().unwrap();
    assert_eq!(good.owner.render(), "S-1-5-21-500");
    assert!(matches!(
        table.descriptor(8).unwrap(),
        Err(Error::DescriptorDecodeError { .. })
    ));
    assert!(table.descriptor(9).is_none());
}
