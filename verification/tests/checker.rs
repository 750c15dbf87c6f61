use pfs3::check::{
    data_area, slash_count, CheckCtx, EntryScan, ExtensionCheck, ReservedCheck, RootblockCheck,
    ScanEntry, Verdict,
};

fn file(name: &str, anode: u32, size: u64) -> ScanEntry {
    ScanEntry { name: name.to_string(), anode, is_dir: false, is_file: true, is_rollover: false, file_size: size }
}

#[test]
fn fresh_checker_is_clean() {
    let c = CheckCtx::new();
    assert_eq!(c.verdict(), Verdict::Clean);
    assert!(!c.needs_repair(true));
}

#[test]
fn rootblock_checks() {
    let mut c = CheckCtx::new();
    assert_eq!(c.check_rootblock(2, 1, 100), RootblockCheck::InvalidReserved);
    assert_eq!(c.check_rootblock(2, 2, 100), RootblockCheck::InvalidReserved);
    assert_eq!(c.check_rootblock(2, 10, 0), RootblockCheck::ZeroDisksize);
    assert_eq!(c.check_rootblock(2, 10, 100), RootblockCheck::Valid);
    assert_eq!(c.errors, 3);
    assert_eq!(c.check_extension(false, false), ExtensionCheck::Absent);
    assert_eq!(c.check_extension(true, true), ExtensionCheck::Valid);
    assert_eq!(c.check_extension(true, false), ExtensionCheck::Unreadable);
    assert_eq!(c.errors, 4);
    assert_eq!(c.verdict(), Verdict::Errors(4));
}

#[test]
fn duplicate_blocks_are_errors() {
    let mut c = CheckCtx::new();
    let a = "/a".to_string();
    let b = "/b".to_string();
    assert!(c.record_blocks(vec![10, 11], &a).is_empty());
    let conflicts = c.record_blocks(vec![11, 12, 10], &b);
    assert_eq!(conflicts, vec![(11, a.clone()), (10, a.clone())]);
    assert_eq!(c.errors, 2);
    assert_eq!(c.used_blocks.get(&12), Some(&b));
    assert_eq!(c.used_blocks.get(&11), Some(&b));
    assert_eq!(c.used_blocks.get(&10), Some(&b));
}

#[test]
fn scanning_files() {
    let mut c = CheckCtx::new();
    let p = "/f".to_string();
    match c.scan_entry(5, &file("f", 20, 1000), &p, Some(vec![100, 101]), 512) {
        EntryScan::Counted { short, conflicts } => {
            assert_eq!(short, None);
            assert!(conflicts.is_empty());
        }
        _ => panic!("expected a counted file"),
    }
    let q = "/g".to_string();
    match c.scan_entry(5, &file("g", 21, 1500), &q, Some(vec![102]), 512) {
        EntryScan::Counted { short, .. } => assert_eq!(short, Some((1, 3))),
        _ => panic!("expected a counted file"),
    }
    assert_eq!(c.wrong_size, vec![(5, "g".to_string(), 512)]);
    let r = "/h".to_string();
    match c.scan_entry(5, &file("h", 22, 10), &r, None, 512) {
        EntryScan::BrokenChain => {}
        _ => panic!("expected a broken chain"),
    }
    assert_eq!(c.broken_files, vec![(5, "h".to_string())]);
    assert_eq!(c.files, 3);
    assert_eq!(c.errors, 1);
    assert_eq!(c.warnings, 1);
    let other = ScanEntry { name: "l".to_string(), anode: 1, is_dir: false, is_file: false, is_rollover: false, file_size: 0 };
    match c.scan_entry(5, &other, &"/l".to_string(), None, 512) {
        EntryScan::Skipped => {}
        _ => panic!("expected a skipped entry"),
    }
    assert_eq!(c.files, 3);
    assert!(c.needs_repair(true));
    assert!(!c.needs_repair(false));
    assert_eq!(c.verdict(), Verdict::Errors(1));
}

#[test]
fn scanning_directories() {
    let mut c = CheckCtx::new();
    let d = ScanEntry { name: "d".to_string(), anode: 30, is_dir: true, is_file: false, is_rollover: false, file_size: 0 };
    match c.scan_entry(5, &d, &"/d".to_string(), Some(vec![7]), 512) {
        EntryScan::Descend { conflicts } => assert!(conflicts.is_empty()),
        _ => panic!("expected to descend"),
    }
    assert_eq!(c.dirs, 1);
    assert!(c.enter_dir("/d", 4));
    assert!(!c.enter_dir("/a/b/c/d/e", 4));
    assert_eq!(c.errors, 1);
    c.dir_unreadable();
    assert_eq!(c.errors, 2);
}

#[test]
fn anode_and_bitmap_checks() {
    let mut c = CheckCtx::new();
    c.record_anode_chain(Some(vec![7, 8]));
    c.record_anode_chain(None);
    assert!(c.check_anodes());
    assert!(c.check_bitmap(10, 10, true));
    assert!(!c.check_bitmap(9, 10, false));
    assert_eq!(c.correct_blocksfree, None);
    assert!(!c.check_bitmap(9, 10, true));
    assert_eq!(c.correct_blocksfree, Some(9));
    assert_eq!(c.check_reserved(4, None, true), ReservedCheck::Skipped);
    assert_eq!(c.check_reserved(4, Some(4), true), ReservedCheck::Valid);
    assert_eq!(c.check_reserved(4, Some(3), true), ReservedCheck::Mismatch);
    assert_eq!(c.correct_reserved_free, Some(3));
    c.record_anode_chain(Some(vec![0]));
    assert!(!c.check_anodes());
    assert_eq!(c.warnings, 4);
    assert_eq!(c.verdict(), Verdict::WarningsOnly(4));
    c.note_repair();
    assert_eq!(c.repairs, 1);
}

#[test]
fn check_helpers() {
    assert_eq!(data_area(1000, 9), 990);
    assert_eq!(slash_count("/a/b/"), 3);
    assert_eq!(slash_count(""), 0);
}
