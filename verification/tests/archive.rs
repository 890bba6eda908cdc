use std::io::{Cursor, Write};

use mesh_thumbnail::archive::extract_entry;
use mesh_thumbnail::error::ErrorKind;
use mesh_thumbnail::tube::parse_gcode_zip;
use zip::write::SimpleFileOptions;
use zip::ZipWriter;

fn build_zip(entries: &[(&str, &[u8])]) -> Vec<u8> {
    let mut writer = ZipWriter::new(Cursor::new(Vec::new()));
    for (name, data) in entries {
        writer.start_file(*name, SimpleFileOptions::default()).unwrap();
        writer.write_all(data).unwrap();
    }
    writer.finish().unwrap().into_inner()
}

#[test]
fn extracts_first_matching_entry() {
    let data = build_zip(&[
        ("readme.txt", b"hello"),
        ("a/model.gcode", b"G1 X1 Y1 E1\n"),
        ("b/other.gcode", b"G1 X2 Y2 E1\n"),
    ]);
    let content = extract_entry(&data, b".gcode").unwrap();
    assert_eq!(content, b"G1 X1 Y1 E1\n".to_vec());
}

#[test]
fn missing_entry_is_reported() {
    let data = build_zip(&[("readme.txt", b"hello")]);
    let err = extract_entry(&data, b".stl").unwrap_err();
    assert_eq!(err.kind, ErrorKind::ArchiveEntryNotFound);
}

#[test]
fn corrupt_archive_is_a_read_error() {
    let err = extract_entry(b"this is not a zip archive", b".stl").unwrap_err();
    assert_eq!(err.kind, ErrorKind::ReadError);
}

#[test]
fn archived_toolpath_parses_through_the_container() {
    let gcode: &[u8] = b"G1 X10 Y10\nG1 X10 Y10 E0.5\nG1 X10 Y20 E0.7\n";
    let data = build_zip(&[("print.gcode", gcode)]);
    let m = parse_gcode_zip(&data).unwrap();
    assert!(m.positions.len() >= 6);
    assert_eq!(m.indices.len() % 3, 0);
    for &i in m.indices.iter() {
        assert!(i < m.positions.len());
    }
}

#[test]
fn archived_toolpath_without_entry_fails() {
    let data = build_zip(&[("print.txt", b"G1 X1 Y1 E1\n")]);
    let err = parse_gcode_zip(&data).unwrap_err();
    assert_eq!(err.kind, ErrorKind::ArchiveEntryNotFound);
}
