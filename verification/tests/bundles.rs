use std::io::Read;

use tifiles::bundle::{Kind, Writer};
use tifiles::VariableType;

#[test]
fn crc_matches_metafile() {
    let mut w = Writer::new(Kind::B83);

    w.start_var(VariableType::AppVar, "A", false).unwrap();
    w.write(b"var one data").unwrap();
    w.start_var(VariableType::AppVar, "B", false).unwrap();
    w.write(b"var two data").unwrap();
    let data = w.close();

    let mut zip = zip::ZipArchive::new(std::io::Cursor::new(data)).unwrap();
    let mut actual_crc = 0u32;
    for i in 0..zip.len() - 1 {
        let file = zip.by_index(i).unwrap();
        assert_ne!(file.name(), "_CHECKSUM", "checksum file should be last");
        actual_crc = actual_crc.wrapping_add(file.crc32());
    }

    let mut checksum_file = zip.by_name("_CHECKSUM").unwrap();
    let mut checksum_string = String::new();
    checksum_file.read_to_string(&mut checksum_string).unwrap();

    assert_eq!(
        u32::from_str_radix(&checksum_string, 16).unwrap(),
        actual_crc,
        "Actual zip CRCs did not match CHECKSUM file"
    );
}

#[test]
fn entries_come_in_bundle_order() {
    let mut w = Writer::new(Kind::B84);
    w.start_var(VariableType::ProtectedProgram, "NOP", false).unwrap();
    w.write(&[0xbb, 0x6d, 0xc9]).unwrap();
    w.start_var(VariableType::AppVar, "GREETZ", true).unwrap();
    w.write(b"Hello, world!").unwrap();
    let data = w.close();

    let mut zip = zip::ZipArchive::new(std::io::Cursor::new(data)).unwrap();
    let names: Vec<String> = (0..zip.len())
        .map(|i| zip.by_index(i).unwrap().name().to_string())
        .collect();
    assert_eq!(names, vec!["NOP.8xp", "GREETZ.8xv", "METADATA", "_CHECKSUM"]);
}

#[test]
fn bundle_entries_are_variable_files() {
    let mut w = Writer::new(Kind::B83);
    w.start_var(VariableType::Program, "PRGM", false).unwrap();
    w.write(&[1, 2, 3]).unwrap();
    let data = w.close();

    let mut zip = zip::ZipArchive::new(std::io::Cursor::new(data)).unwrap();
    let mut entry = zip.by_name("PRGM.8xp").unwrap();
    let mut bytes = Vec::new();
    entry.read_to_end(&mut bytes).unwrap();
    drop(entry);

    let mut reader = tifiles::Reader::new(bytes).unwrap();
    assert_eq!(reader.ty(), VariableType::Program);
    assert_eq!(reader.name().as_slice(), b"PRGM\0\0\0\0");
    assert_eq!(reader.read_to_end(), vec![1, 2, 3]);
    reader.finish().unwrap().expect("checksum should be valid");
}

#[test]
fn metadata_records_the_kind() {
    for (kind, device) in [(Kind::B83, "83CE"), (Kind::B84, "84CE")] {
        let mut w = Writer::new(kind);
        w.start_var(VariableType::AppVar, "V", false).unwrap();
        let data = w.close();

        let mut zip = zip::ZipArchive::new(std::io::Cursor::new(data)).unwrap();
        let mut meta = String::new();
        zip.by_name("METADATA")
            .unwrap()
            .read_to_string(&mut meta)
            .unwrap();
        assert!(meta.contains("bundle_identifier:TI Bundle\n"));
        assert!(meta.contains("bundle_format_version:1\n"));
        assert!(meta.contains(&format!("bundle_target_device:{}\n", device)));
        assert!(meta.contains("bundle_target_type:CUSTOM\n"));
    }
}

#[test]
fn empty_bundle_checksums_metadata_alone() {
    let w = Writer::new(Kind::B84);
    let data = w.close();

    let mut zip = zip::ZipArchive::new(std::io::Cursor::new(data)).unwrap();
    assert_eq!(zip.len(), 2);
    let meta_crc = zip.by_name("METADATA").unwrap().crc32();
    let mut checksum_string = String::new();
    zip.by_name("_CHECKSUM")
        .unwrap()
        .read_to_string(&mut checksum_string)
        .unwrap();
    assert_eq!(u32::from_str_radix(&checksum_string, 16).unwrap(), meta_crc);
}

#[test]
fn bundle_rejects_illegal_names() {
    let mut w = Writer::new(Kind::B83);
    assert!(w.start_var(VariableType::Program, "bad", false).is_err());
    // The bundle is still usable afterwards.
    w.start_var(VariableType::Program, "GOOD", false).unwrap();
    w.write(&[42]).unwrap();
    let data = w.close();
    let zip = zip::ZipArchive::new(std::io::Cursor::new(data)).unwrap();
    assert_eq!(zip.len(), 3);
}

#[test]
fn bundle_kind_extensions() {
    assert_eq!(Kind::B83.file_extension(), "b83");
    assert_eq!(Kind::B84.file_extension(), "b84");
}

#[test]
fn variable_type_extensions() {
    assert_eq!(VariableType::Real.file_extension(), "8xn");
    assert_eq!(VariableType::Program.file_extension(), "8xp");
    assert_eq!(VariableType::ProtectedProgram.file_extension(), "8xp");
    assert_eq!(VariableType::AppVar.file_extension(), "8xv");
    assert_eq!(VariableType::Group.file_extension(), "8xg");
}
