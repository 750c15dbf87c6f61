use pfs3::cli::{
    entry_type_label, image_too_small, is_ambiguous, last_segment_start, mkfs_total_blocks,
    needs_partition_scan, nesting_too_deep, offset_plan, parse_usize, partition_offset,
    path_components, protect_target, select_deldir_entry, select_partition, set_volume_name,
    OffsetPlan, UndeleteError,
};
use pfs3::text::{push_decimal, str_eq_ignore_ascii_case};

fn names(v: &[&str]) -> Vec<String> {
    v.iter().map(|s| s.to_string()).collect()
}

#[test]
fn parse_indices() {
    assert_eq!(parse_usize("0"), Some(0));
    assert_eq!(parse_usize("42"), Some(42));
    assert_eq!(parse_usize("+5"), Some(5));
    assert_eq!(parse_usize("007"), Some(7));
    assert_eq!(parse_usize(""), None);
    assert_eq!(parse_usize("+"), None);
    assert_eq!(parse_usize("-1"), None);
    assert_eq!(parse_usize("1a"), None);
    assert_eq!(parse_usize(" 1"), None);
    assert_eq!(parse_usize("99999999999999999999999"), None);
    let max = usize::MAX.to_string();
    assert_eq!(parse_usize(&max), Some(usize::MAX));
}

#[test]
fn parse_usize_agrees_with_std() {
    for s in ["", "0", "12", "+3", "++3", "3+", "x", "18446744073709551615", "18446744073709551616"] {
        assert_eq!(parse_usize(s), s.parse::<usize>().ok(), "input {:?}", s);
    }
}

#[test]
fn partition_selection() {
    let ns = names(&["DH0", "WORK", "7"]);
    assert_eq!(select_partition(&ns, "dh0"), Some(0));
    assert_eq!(select_partition(&ns, "Work"), Some(1));
    assert_eq!(select_partition(&ns, "1"), Some(1));
    assert_eq!(select_partition(&ns, "7"), Some(2));
    assert_eq!(select_partition(&ns, "3"), None);
    assert_eq!(select_partition(&ns, "DH9"), None);
    let offs = vec![1024, 4096, 8192];
    assert_eq!(partition_offset(&ns, &offs, "work"), Some(4096));
    assert_eq!(partition_offset(&ns, &offs, "0"), Some(1024));
    assert_eq!(partition_offset(&ns, &offs, "nope"), None);
}

#[test]
fn offset_plans() {
    assert_eq!(offset_plan(true, 0), OffsetPlan::ScanPartitions);
    assert_eq!(offset_plan(true, 512), OffsetPlan::ScanPartitions);
    assert_eq!(offset_plan(false, 0), OffsetPlan::DetectPartition);
    assert_eq!(offset_plan(false, 512), OffsetPlan::Use(512));
    assert!(needs_partition_scan(false, 0));
    assert!(!needs_partition_scan(true, 0));
    assert!(!needs_partition_scan(false, 1));
    assert!(is_ambiguous(2));
    assert!(!is_ambiguous(1));
    assert!(!is_ambiguous(0));
}

#[test]
fn undelete_selection() {
    let files = names(&["a.txt", "B.TXT", "c"]);
    assert_eq!(select_deldir_entry("1", &files), Ok(1));
    assert_eq!(select_deldir_entry("b.txt", &files), Ok(1));
    assert_eq!(select_deldir_entry("C", &files), Ok(2));
    assert_eq!(select_deldir_entry("3", &files), Err(UndeleteError::IndexOutOfRange { index: 3, max: 2 }));
    assert_eq!(select_deldir_entry("zzz", &files), Err(UndeleteError::NotFound));
    assert_eq!(select_deldir_entry("a.txt", &Vec::new()), Err(UndeleteError::Empty));
}

#[test]
fn mkfs_sizes() {
    assert_eq!(mkfs_total_blocks(1), 2048);
    assert_eq!(mkfs_total_blocks(10), 20480);
    assert_eq!(mkfs_total_blocks(0), 0);
    assert!(image_too_small(63));
    assert!(!image_too_small(64));
}

#[test]
fn volume_name_is_written_as_bcpl_string() {
    let mut rb = vec![0xFFu8; 64];
    set_volume_name(&mut rb, 20, "Work");
    assert_eq!(rb[20], 4);
    assert_eq!(&rb[21..25], b"Work");
    assert!(rb[25..52].iter().all(|&b| b == 0));
    assert!(rb[..20].iter().all(|&b| b == 0xFF));
    assert!(rb[52..].iter().all(|&b| b == 0xFF));
    let long = "abcdefghijklmnopqrstuvwxyz0123456789";
    set_volume_name(&mut rb, 20, long);
    assert_eq!(rb[20], 30);
    assert_eq!(&rb[21..51], &long.as_bytes()[..30]);
    assert_eq!(rb[51], 0);
}

#[test]
fn listing_labels() {
    assert_eq!(entry_type_label(true, false), "DIR");
    assert_eq!(entry_type_label(true, true), "DIR");
    assert_eq!(entry_type_label(false, true), "LINK");
    assert_eq!(entry_type_label(false, false), "FILE");
}

#[test]
fn path_helpers() {
    assert!(nesting_too_deep("/a/b/c", 2));
    assert!(!nesting_too_deep("/a/b", 2));
    assert_eq!(last_segment_start(b"/dir/file"), 5);
    assert_eq!(last_segment_start(b"file"), 0);
    assert_eq!(last_segment_start(b"dir/"), 4);
    let comps = path_components("//a/bc///d/");
    assert_eq!(comps, vec![b"a".to_vec(), b"bc".to_vec(), b"d".to_vec()]);
    assert!(path_components("///").is_empty());
    assert!(path_components("").is_empty());
}

#[test]
fn protect_targets() {
    assert!(protect_target("/").is_none());
    let t = protect_target("/file").unwrap();
    assert_eq!(t.name, b"file".to_vec());
    assert!(t.parent.is_none());
    let t = protect_target("a//b/c/").unwrap();
    assert_eq!(t.name, b"c".to_vec());
    assert_eq!(t.parent, Some(b"a/b".to_vec()));
}

#[test]
fn text_helpers() {
    let mut s = String::from("x");
    push_decimal(&mut s, 0);
    push_decimal(&mut s, 4096);
    assert_eq!(s, "x04096");
    assert!(str_eq_ignore_ascii_case("DH0", "dh0"));
    assert!(!str_eq_ignore_ascii_case("DH0", "dh1"));
    assert!(!str_eq_ignore_ascii_case("DH0", "DH00"));
}
