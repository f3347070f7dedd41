use fat32_scan::geometry::parse_geometry;
use fat32_scan::scanner::{parse_entry, scan, Record};

const DIR_ATTR: u8 = 0x10;
const LFN_ATTR: u8 = 0x0F;

/// A small volume: 512-byte sectors, 1 sector per cluster, 1 reserved
/// sector, 1 FAT of 1 sector. The data region starts at byte 1024, so
/// cluster `c` sits at byte `1024 + (c - 2) * 512`.
fn blank_image(len: usize) -> Vec<u8> {
    let mut img = vec![0u8; len];
    img[11..13].copy_from_slice(&512u16.to_le_bytes());
    img[13] = 1;
    img[14..16].copy_from_slice(&1u16.to_le_bytes());
    img[16] = 1;
    img[36..40].copy_from_slice(&1u32.to_le_bytes());
    img[44..48].copy_from_slice(&2u32.to_le_bytes());
    img[510] = 0x55;
    img[511] = 0xAA;
    img
}

fn cluster_start(cluster: u32) -> usize {
    1024 + (cluster as usize - 2) * 512
}

fn entry(name: &[u8], ext: &[u8], attr: u8, cluster: u32, size: u32) -> [u8; 32] {
    let mut e = [0u8; 32];
    e[0..8].fill(0x20);
    e[0..name.len()].copy_from_slice(name);
    e[8..11].fill(0x20);
    e[8..8 + ext.len()].copy_from_slice(ext);
    e[11] = attr;
    e[20..22].copy_from_slice(&((cluster >> 16) as u16).to_le_bytes());
    e[26..28].copy_from_slice(&((cluster & 0xFFFF) as u16).to_le_bytes());
    e[28..32].copy_from_slice(&size.to_le_bytes());
    e
}

fn put(img: &mut [u8], off: usize, bytes: &[u8]) {
    img[off..off + bytes.len()].copy_from_slice(bytes);
}

fn scan_root(img: &[u8]) -> Vec<Record> {
    let geo = parse_geometry(img).unwrap();
    scan(img, &geo, geo.root_cluster, 64)
}

#[test]
fn end_marker_yields_zero_records() {
    let img = blank_image(4096);
    // The root directory's first entry byte is already 0x00.
    assert_eq!(scan_root(&img), Vec::<Record>::new());
}

#[test]
fn deleted_and_long_name_entries_yield_nothing() {
    let mut img = blank_image(4096);
    let root = cluster_start(2);
    // A deleted directory entry that points at a cluster holding a file:
    // were it not skipped, the file would be reported.
    let mut deleted = entry(b"GONE", b"", DIR_ATTR, 3, 0);
    deleted[0] = 0xE5;
    put(&mut img, root, &deleted);
    put(&mut img, root + 32, &entry(b"FRAGMENT", b"", LFN_ATTR, 4, 0));
    let sub = cluster_start(3);
    put(&mut img, sub, &entry(b"HIDDEN", b"TXT", 0x00, 5, 4));
    assert_eq!(scan_root(&img), Vec::<Record>::new());
}

#[test]
fn zero_cluster_folder_yields_nothing() {
    let mut img = blank_image(4096);
    let root = cluster_start(2);
    put(&mut img, root, &entry(b"BROKEN", b"", DIR_ATTR, 0, 0));
    assert_eq!(scan_root(&img), Vec::<Record>::new());
}

#[test]
fn dot_entries_are_reported_but_never_recursed() {
    let mut img = blank_image(4096);
    let root = cluster_start(2);
    // `.` and `..` wired to reference the root itself: a cycle if followed.
    put(&mut img, root, &entry(b".", b"", DIR_ATTR, 2, 0));
    put(&mut img, root + 32, &entry(b"..", b"", DIR_ATTR, 2, 0));
    put(&mut img, root + 64, &entry(b"NOTE", b"TXT", 0x00, 3, 2));
    put(&mut img, cluster_start(3), b"hi");
    let records = scan_root(&img);
    assert_eq!(records.len(), 3);
    assert_eq!(records[0].name, b".".to_vec());
    assert!(records[0].is_directory);
    assert_eq!(records[1].name, b"..".to_vec());
    assert!(records[1].is_directory);
    assert_eq!(records[2].name, b"NOTE".to_vec());
}

#[test]
fn preview_is_capped_at_64_bytes_and_mapped_to_printable() {
    let mut img = blank_image(4096);
    let root = cluster_start(2);
    put(&mut img, root, &entry(b"BIG", b"BIN", 0x00, 3, 100));
    put(&mut img, root + 32, &entry(b"SMALL", b"BIN", 0x00, 4, 5));
    let data = cluster_start(3);
    for k in 0..100 {
        img[data + k] = b'A';
    }
    // Bytes outside [32, 126] become spaces; the boundaries stay.
    put(&mut img, cluster_start(4), &[0x00, 32, 126, 127, 200]);
    let records = scan_root(&img);
    assert_eq!(records.len(), 2);
    assert_eq!(records[0].size_bytes, 100);
    assert_eq!(records[0].preview.as_ref().unwrap().len(), 64);
    assert_eq!(records[0].preview.as_ref().unwrap(), &vec![b'A'; 64]);
    assert_eq!(records[1].size_bytes, 5);
    assert_eq!(
        records[1].preview.as_ref().unwrap(),
        &vec![b' ', 32, 126, b' ', b' ']
    );
}

#[test]
fn zero_size_file_has_no_preview() {
    let mut img = blank_image(4096);
    put(&mut img, cluster_start(2), &entry(b"EMPTY", b"TXT", 0x00, 3, 0));
    let records = scan_root(&img);
    assert_eq!(records.len(), 1);
    assert_eq!(records[0].size_bytes, 0);
    assert_eq!(records[0].preview, None);
}

#[test]
fn out_of_bounds_preview_is_skipped_silently() {
    let mut img = blank_image(4096);
    let root = cluster_start(2);
    // Cluster 200 maps far past the image's end.
    put(&mut img, root, &entry(b"FAR", b"TXT", 0x00, 200, 10));
    let records = scan_root(&img);
    assert_eq!(records.len(), 1);
    assert_eq!(records[0].name, b"FAR".to_vec());
    assert_eq!(records[0].size_bytes, 10);
    assert_eq!(records[0].preview, None);
}

#[test]
fn truncated_directory_listing_ends_locally() {
    let mut img = blank_image(2048 + 16);
    let root = cluster_start(2);
    // A subdirectory at cluster 4 whose listing area holds only 16 bytes
    // before the image ends: its one entry cannot be read in full.
    put(&mut img, root, &entry(b"DEEP", b"", DIR_ATTR, 4, 0));
    put(&mut img, root + 32, &entry(b"AFTER", b"TXT", 0x00, 3, 0));
    img[cluster_start(4)] = b'X';
    let records = scan_root(&img);
    // The truncated subdirectory yields nothing, and the parent continues.
    assert_eq!(records.len(), 2);
    assert_eq!(records[0].name, b"DEEP".to_vec());
    assert!(records[0].is_directory);
    assert_eq!(records[1].name, b"AFTER".to_vec());
}

#[test]
fn directory_past_image_end_yields_nothing() {
    let mut img = blank_image(4096);
    // A root cluster whose data address lies beyond the image.
    img[44..48].copy_from_slice(&100u32.to_le_bytes());
    assert_eq!(scan_root(&img), Vec::<Record>::new());
}

#[test]
fn subdirectories_are_scanned_depth_first() {
    let mut img = blank_image(4096);
    let root = cluster_start(2);
    put(&mut img, root, &entry(b"SUB", b"", DIR_ATTR, 3, 0));
    put(&mut img, root + 32, &entry(b"LAST", b"TXT", 0x00, 4, 3));
    put(&mut img, cluster_start(3), &entry(b"INNER", b"TXT", 0x00, 5, 2));
    put(&mut img, cluster_start(4), b"end");
    put(&mut img, cluster_start(5), b"in");
    let records = scan_root(&img);
    assert_eq!(records.len(), 3);
    assert_eq!(records[0].name, b"SUB".to_vec());
    assert!(records[0].is_directory);
    assert_eq!(records[1].name, b"INNER".to_vec());
    assert_eq!(records[1].preview.as_ref().unwrap(), &b"in".to_vec());
    assert_eq!(records[2].name, b"LAST".to_vec());
    assert_eq!(records[2].preview.as_ref().unwrap(), &b"end".to_vec());
}

#[test]
fn depth_limit_stops_recursion() {
    let mut img = blank_image(4096);
    // Root holds folder A (cluster 3); A holds folder B (cluster 4);
    // B holds a file.
    put(&mut img, cluster_start(2), &entry(b"A", b"", DIR_ATTR, 3, 0));
    put(&mut img, cluster_start(3), &entry(b"B", b"", DIR_ATTR, 4, 0));
    put(&mut img, cluster_start(4), &entry(b"LEAF", b"TXT", 0x00, 5, 0));
    let geo = parse_geometry(&img).unwrap();
    let none = scan(&img, &geo, 2, 0);
    assert_eq!(none.len(), 1);
    assert_eq!(none[0].name, b"A".to_vec());
    let one = scan(&img, &geo, 2, 1);
    assert_eq!(one.len(), 2);
    assert_eq!(one[1].name, b"B".to_vec());
    let two = scan(&img, &geo, 2, 2);
    assert_eq!(two.len(), 3);
    assert_eq!(two[2].name, b"LEAF".to_vec());
}

#[test]
fn entry_fields_are_decoded_with_trailing_padding_stripped() {
    let mut img = blank_image(4096);
    let off = cluster_start(2);
    let mut e = entry(b"AB CD", b"H I", 0x00, 0x0001_0002, 7);
    e[0 + 7] = 0x20;
    put(&mut img, off, &e);
    let d = parse_entry(&img, off);
    // Interior spaces survive; only trailing padding is stripped.
    assert_eq!(d.name, b"AB CD".to_vec());
    assert_eq!(d.extension, b"H I".to_vec());
    assert!(!d.is_directory);
    assert!(!d.is_deleted);
    assert!(!d.is_long_name_fragment);
    // High word 1, low word 2.
    assert_eq!(d.starting_cluster, 0x0001_0002);
    assert_eq!(d.size_bytes, 7);
}

#[test]
fn all_padding_name_strips_to_empty() {
    let mut img = blank_image(4096);
    let off = cluster_start(2);
    put(&mut img, off, &entry(b"", b"", 0x00, 3, 0));
    let d = parse_entry(&img, off);
    assert_eq!(d.name, Vec::<u8>::new());
    assert_eq!(d.extension, Vec::<u8>::new());
}

#[test]
fn minimal_volume_end_to_end() {
    let mut img = blank_image(4096);
    put(&mut img, cluster_start(2), &entry(b"TEST", b"TXT", 0x00, 3, 10));
    put(&mut img, cluster_start(3), b"HelloWorld");
    let geo = parse_geometry(&img).unwrap();
    assert_eq!(geo.root_cluster, 2);
    let records = scan(&img, &geo, geo.root_cluster, 64);
    assert_eq!(records.len(), 1);
    let r = &records[0];
    assert_eq!(r.name, b"TEST".to_vec());
    assert_eq!(r.extension, b"TXT".to_vec());
    assert!(!r.is_directory);
    assert_eq!(r.size_bytes, 10);
    assert_eq!(r.preview.as_ref().unwrap(), &b"HelloWorld".to_vec());
}
