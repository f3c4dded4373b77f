use std::io::Write;

use efile::EfError;
use efile::archive::{ArchiveEntry, pack_entries, path_is_safe, unpack_entries};

fn file_entry(path: &str, data: &[u8]) -> ArchiveEntry {
    ArchiveEntry { path: path.to_string(), data: data.to_vec(), is_dir: false }
}

#[test]
fn archive_roundtrip() {
    let bin: Vec<u8> = (0u8..=255u8).collect();
    let entries = vec![
        file_entry("tree/a.txt", b"hi"),
        file_entry("tree/sub/b.bin", &bin),
    ];
    let blob = pack_entries(&entries).unwrap();
    let unpacked = unpack_entries(&blob).unwrap();
    assert_eq!(unpacked.len(), 2);
    assert_eq!(unpacked[0].path, "tree/a.txt");
    assert_eq!(unpacked[0].data, b"hi");
    assert!(!unpacked[0].is_dir);
    assert_eq!(unpacked[1].path, "tree/sub/b.bin");
    assert_eq!(unpacked[1].data, bin);
    assert!(!unpacked[1].is_dir);
}

#[test]
fn empty_archive_roundtrip() {
    let blob = pack_entries(&Vec::new()).unwrap();
    assert!(unpack_entries(&blob).unwrap().is_empty());
}

#[test]
fn archive_compresses_repetitive_content() {
    let entries = vec![file_entry("tree/zeros.bin", &vec![0u8; 100_000])];
    let blob = pack_entries(&entries).unwrap();
    assert!(blob.len() < 10_000, "blob holds {} bytes", blob.len());
    assert_eq!(unpack_entries(&blob).unwrap()[0].data, vec![0u8; 100_000]);
}

#[test]
fn pack_rejects_escaping_path() {
    let entries = vec![file_entry("../evil.txt", b"x")];
    assert_eq!(pack_entries(&entries).unwrap_err(), EfError::Archive);
    let entries = vec![file_entry("/abs.txt", b"x")];
    assert_eq!(pack_entries(&entries).unwrap_err(), EfError::Archive);
}

#[test]
fn pack_rejects_duplicate_path() {
    let entries = vec![file_entry("tree/a.txt", b"one"), file_entry("tree/a.txt", b"two")];
    assert_eq!(pack_entries(&entries).unwrap_err(), EfError::Archive);
}

#[test]
fn pack_rejects_trailing_separator_path() {
    // A stored name ending in '/' would read back as a directory entry.
    let entries = vec![file_entry("tree/sub/", b"x")];
    assert_eq!(pack_entries(&entries).unwrap_err(), EfError::Archive);
}

#[test]
fn pack_rejects_overlong_name() {
    // The zip format stores name lengths in 16 bits.
    let long = "d/".repeat(40_000);
    let entries = vec![file_entry(&long, b"x")];
    assert_eq!(pack_entries(&entries).unwrap_err(), EfError::Archive);
}

#[test]
fn unpack_accepts_directory_entries() {
    // Explicit directory entries (trailing slash) in a foreign archive pass
    // the escape guard and come back flagged as directories.
    let mut writer = zip::ZipWriter::new(std::io::Cursor::new(Vec::new()));
    let opts = zip::write::SimpleFileOptions::default();
    writer.add_directory("sub", opts).unwrap();
    let blob = writer.finish().unwrap().into_inner();
    let entries = unpack_entries(&blob).unwrap();
    assert_eq!(entries.len(), 1);
    assert_eq!(entries[0].path, "sub/");
    assert!(entries[0].is_dir);
}

#[test]
fn pack_is_deterministic() {
    let entries = vec![file_entry("tree/a.txt", b"same bytes")];
    assert_eq!(pack_entries(&entries).unwrap(), pack_entries(&entries).unwrap());
}

#[test]
fn pack_rejects_directory_entry() {
    let entries = vec![ArchiveEntry { path: "d".to_string(), data: Vec::new(), is_dir: true }];
    assert_eq!(pack_entries(&entries).unwrap_err(), EfError::Archive);
}

#[test]
fn unpack_rejects_escaping_entry() {
    // A blob this library never packs: an entry that climbs out of the
    // destination. Built with the zip crate directly.
    let mut writer = zip::ZipWriter::new(std::io::Cursor::new(Vec::new()));
    let opts = zip::write::SimpleFileOptions::default()
        .compression_method(zip::CompressionMethod::Stored);
    writer.start_file("../outside.txt", opts).unwrap();
    writer.write_all(b"escape").unwrap();
    let blob = writer.finish().unwrap().into_inner();
    assert_eq!(unpack_entries(&blob).unwrap_err(), EfError::Archive);
}

#[test]
fn unpack_rejects_garbage() {
    assert_eq!(unpack_entries(b"not a zip at all").unwrap_err(), EfError::Archive);
}

#[test]
fn path_safety_rules() {
    for safe in ["a", "a/b.txt", "a..b", "...", "tree/sub/c", "..double/x"] {
        assert!(path_is_safe(safe), "{safe:?} should be safe");
    }
    for unsafe_path in ["", "/abs", "a\\b", "..", "../x", "a/../b", "a/..", "x/..\\y/../z"] {
        assert!(!path_is_safe(unsafe_path), "{unsafe_path:?} should be unsafe");
    }
}
