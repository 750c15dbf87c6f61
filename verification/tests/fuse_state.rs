use pfs3::fuse::{
    anode_to_ino, chmod_protection, is_protection_xattr, is_trashcan_name, make_attr, statfs_reply,
    trashcan_attr, xattr_reply, AmigaStamp, AttrTime, DeletedFile, EntryInfo, Errno, FileKind,
    LookupStep, OpenStep, Pfs3Fs, ProtLookup, ReaddirStep, ReleaseStep, StatFs, XattrReply, FUSE_ROOT_INO,
    TRASHCAN_INO,
};

fn stamp(day: u16) -> AmigaStamp {
    AmigaStamp { day, minute: 10, tick: 5 }
}

fn deleted(name: &str, anode: u32, size: u64) -> DeletedFile {
    DeletedFile { filename: name.to_string(), anode, file_size: size, stamp: stamp(1) }
}

fn file_entry(name: &str, anode: u32, size: u64) -> EntryInfo {
    EntryInfo {
        name: name.to_string(),
        anode,
        is_dir: false,
        is_softlink: false,
        file_size: size,
        protection: 0,
        mode: 0o100644,
        stamp: stamp(3),
    }
}

fn dir_entry(name: &str, anode: u32) -> EntryInfo {
    EntryInfo {
        name: name.to_string(),
        anode,
        is_dir: true,
        is_softlink: false,
        file_size: 0,
        protection: 0,
        mode: 0o40755,
        stamp: stamp(4),
    }
}

fn fs(writable: bool, deleted_files: Vec<DeletedFile>) -> Pfs3Fs {
    Pfs3Fs::new(512, 1000, 100, stamp(2), writable, deleted_files)
}

#[test]
fn inode_numbers() {
    assert_eq!(anode_to_ino(5), FUSE_ROOT_INO);
    assert_eq!(anode_to_ino(6), 106);
    assert_eq!(anode_to_ino(0), 100);
    assert_eq!(anode_to_ino(7), 107);
    assert_ne!(anode_to_ino(1), TRASHCAN_INO);
}

#[test]
fn new_volume_knows_only_the_root() {
    let f = fs(false, Vec::new());
    let root = f.getattr(FUSE_ROOT_INO, false).unwrap();
    assert_eq!(root.ino, FUSE_ROOT_INO);
    assert_eq!(root.kind, FileKind::Directory);
    assert_eq!(root.perm, 0o755);
    assert_eq!(root.nlink, 2);
    assert_eq!(root.uid, 1000);
    assert_eq!(root.gid, 100);
    assert_eq!(root.blksize, 512);
    assert_eq!(root.time, AttrTime::Amiga(stamp(2)));
    assert_eq!(f.getattr(200, false), Err(Errno::NoEnt));
    assert_eq!(f.getattr(TRASHCAN_INO, false), Err(Errno::NoEnt));
}

#[test]
fn trashcan_is_shown_only_with_a_deldir() {
    let f = fs(false, vec![deleted("a", 40, 10)]);
    let t = f.getattr(TRASHCAN_INO, true).unwrap();
    assert_eq!(t, trashcan_attr(1000, 100));
    assert_eq!(t.perm, 0o555);
    assert_eq!(t.time, AttrTime::Epoch);
    assert_eq!(f.getattr(TRASHCAN_INO, false), Err(Errno::NoEnt));
    assert!(is_trashcan_name(&".Trashcan".to_string()));
    assert!(!is_trashcan_name(&".trashcan".to_string()));
}

#[test]
fn deldir_names_are_made_unique() {
    let f = fs(false, vec![deleted("a", 40, 10), deleted("A", 41, 20), deleted("b", 42, 0), deleted("a", 43, 5)]);
    let d = &f.inner.deldir;
    assert_eq!(d.len(), 4);
    assert_eq!(d[0].display_name, "a");
    assert_eq!(d[1].display_name, "A.1");
    assert_eq!(d[2].display_name, "b");
    assert_eq!(d[3].display_name, "a.2");
    assert_eq!(d[0].ino, TRASHCAN_INO + 1);
    assert_eq!(d[3].ino, TRASHCAN_INO + 4);
    assert_eq!(d[1].anode, 41);
    assert_eq!(d[1].size, 20);
}

#[test]
fn rebuild_deldir_replaces_the_snapshot() {
    let mut f = fs(false, vec![deleted("a", 40, 10)]);
    f.rebuild_deldir(vec![deleted("x", 50, 1), deleted("X", 51, 2)]);
    assert_eq!(f.inner.deldir.len(), 2);
    assert_eq!(f.inner.deldir[0].display_name, "x");
    assert_eq!(f.inner.deldir[1].display_name, "X.1");
    f.rebuild_deldir(Vec::new());
    assert!(f.inner.deldir.is_empty());
}

#[test]
fn entry_attributes() {
    let (ino, info) = make_attr(&file_entry("f", 9, 1025), 1, 1000, 100, 512);
    assert_eq!(ino, 109);
    assert_eq!(info.attr.size, 1025);
    assert_eq!(info.attr.blocks, 3);
    assert_eq!(info.attr.kind, FileKind::RegularFile);
    assert_eq!(info.attr.perm, 0o644);
    assert_eq!(info.attr.nlink, 1);
    assert_eq!(info.parent_ino, 1);
    assert_eq!(info.name, "f");
    let (_, dinfo) = make_attr(&dir_entry("d", 12), 1, 1000, 100, 512);
    assert_eq!(dinfo.attr.kind, FileKind::Directory);
    assert_eq!(dinfo.attr.nlink, 2);
    assert_eq!(dinfo.attr.perm, 0o755);
}

#[test]
fn lookup_records_the_first_match() {
    let mut f = fs(false, Vec::new());
    let name = "Foo".to_string();
    match f.lookup_start(FUSE_ROOT_INO, &name, false) {
        LookupStep::NeedListing(anode) => assert_eq!(anode, 5),
        _ => panic!("expected a listing request"),
    }
    let listing = vec![file_entry("bar", 20, 1), file_entry("foo", 21, 2), file_entry("FOO", 22, 3)];
    let matches = vec![false, true, true];
    let attr = f.lookup_finish(FUSE_ROOT_INO, name.clone(), Some(listing), &matches).unwrap();
    assert_eq!(attr.ino, 121);
    assert_eq!(attr.size, 2);
    assert_eq!(f.getattr(121, false).unwrap(), attr);
    match f.lookup_start(FUSE_ROOT_INO, &name, false) {
        LookupStep::Reply(a) => assert_eq!(a, attr),
        _ => panic!("expected the cached entry"),
    }
}

#[test]
fn lookup_errors() {
    let mut f = fs(false, Vec::new());
    let name = "x".to_string();
    match f.lookup_start(500, &name, false) {
        LookupStep::Fail(e) => assert_eq!(e, Errno::NoEnt),
        _ => panic!("expected NoEnt"),
    }
    assert_eq!(f.lookup_finish(FUSE_ROOT_INO, name.clone(), None, &Vec::new()), Err(Errno::Io));
    assert_eq!(
        f.lookup_finish(FUSE_ROOT_INO, name, Some(vec![file_entry("y", 3, 0)]), &vec![false]),
        Err(Errno::NoEnt)
    );
}

#[test]
fn lookup_in_trashcan() {
    let mut f = fs(false, vec![deleted("gone", 40, 700)]);
    let name = "GONE".to_string();
    match f.lookup_start(TRASHCAN_INO, &name, true) {
        LookupStep::Reply(a) => {
            assert_eq!(a.ino, TRASHCAN_INO + 1);
            assert_eq!(a.size, 700);
            assert_eq!(a.blocks, 2);
            assert_eq!(a.perm, 0o444);
            assert_eq!(a.kind, FileKind::RegularFile);
        }
        _ => panic!("expected the deleted file"),
    }
    match f.lookup_start(FUSE_ROOT_INO, &".Trashcan".to_string(), true) {
        LookupStep::Reply(a) => assert_eq!(a.ino, TRASHCAN_INO),
        _ => panic!("expected the trashcan"),
    }
}

#[test]
fn readdir_of_root_with_trashcan() {
    let mut f = fs(false, vec![deleted("a", 40, 1)]);
    match f.readdir_start(FUSE_ROOT_INO, 0, true) {
        ReaddirStep::NeedListing { anode, parent_ino } => {
            assert_eq!(anode, 5);
            assert_eq!(parent_ino, FUSE_ROOT_INO);
        }
        _ => panic!("expected a listing request"),
    }
    let list = f
        .readdir_finish(FUSE_ROOT_INO, FUSE_ROOT_INO, Some(vec![file_entry("f", 9, 3), dir_entry("d", 10)]), 0, true)
        .unwrap();
    let names: Vec<&str> = list.iter().map(|l| l.name.as_str()).collect();
    assert_eq!(names, vec![".", "..", "f", "d", ".Trashcan"]);
    let offs: Vec<i64> = list.iter().map(|l| l.next_offset).collect();
    assert_eq!(offs, vec![1, 2, 3, 4, 5]);
    assert_eq!(list[2].ino, 109);
    assert_eq!(list[3].kind, FileKind::Directory);
    assert_eq!(list[4].ino, TRASHCAN_INO);
    assert!(f.getattr(110, false).is_ok());
    let rest = f.readdir_finish(FUSE_ROOT_INO, FUSE_ROOT_INO, Some(vec![file_entry("f", 9, 3)]), 2, false).unwrap();
    assert_eq!(rest.len(), 1);
    assert_eq!(rest[0].name, "f");
    let none = f.readdir_finish(FUSE_ROOT_INO, FUSE_ROOT_INO, Some(Vec::new()), 7, false).unwrap();
    assert!(none.is_empty());
}

#[test]
fn readdir_of_trashcan() {
    let f = fs(false, vec![deleted("a", 40, 1), deleted("a", 41, 2)]);
    match f.readdir_start(TRASHCAN_INO, 0, true) {
        ReaddirStep::Reply(list) => {
            let names: Vec<&str> = list.iter().map(|l| l.name.as_str()).collect();
            assert_eq!(names, vec![".", "..", "a", "a.1"]);
            assert_eq!(list[0].ino, TRASHCAN_INO);
            assert_eq!(list[1].ino, FUSE_ROOT_INO);
        }
        _ => panic!("expected the snapshot"),
    }
}

#[test]
fn write_then_release_updates_size() {
    let mut f = fs(true, Vec::new());
    let name = "new".to_string();
    let parent_anode = f.make_entry_start(FUSE_ROOT_INO, true).unwrap();
    assert_eq!(parent_anode, 5);
    let attr = f
        .create_finish(FUSE_ROOT_INO, parent_anode, name, Some(vec![file_entry("new", 30, 0)]), &vec![true])
        .unwrap();
    let ino = attr.ino;
    assert_eq!(ino, 130);
    assert_eq!(f.write_data(ino, 0, b"hello"), Ok(5));
    assert_eq!(f.write_data(ino, 8, b"!!"), Ok(2));
    assert_eq!(f.getattr(ino, false).unwrap().size, 10);
    match f.release_take(ino) {
        ReleaseStep::Flush { buf, file_anode } => {
            assert_eq!(file_anode, 30);
            assert_eq!(buf.data, b"hello\0\0\0!!".to_vec());
            assert_eq!(buf.parent_anode, 5);
            assert_eq!(buf.name, "new");
            assert_eq!(f.release_finish(ino, buf, true), Ok(()));
        }
        ReleaseStep::Done => panic!("expected a flush"),
    }
    let a = f.getattr(ino, false).unwrap();
    assert_eq!(a.size, 10);
    assert_eq!(a.blocks, 1);
    assert_eq!(f.write_data(ino, 0, b"x"), Err(Errno::Io));
}

#[test]
fn failed_release_keeps_the_buffer() {
    let mut f = fs(true, Vec::new());
    let attr = f
        .create_finish(FUSE_ROOT_INO, 5, "k".to_string(), Some(vec![file_entry("k", 31, 0)]), &vec![true])
        .unwrap();
    let ino = attr.ino;
    f.write_data(ino, 0, b"abc").unwrap();
    let buf = match f.release_take(ino) {
        ReleaseStep::Flush { buf, .. } => buf,
        ReleaseStep::Done => panic!("expected a flush"),
    };
    assert_eq!(f.release_finish(ino, buf, false), Err(Errno::Io));
    match f.release_take(ino) {
        ReleaseStep::Flush { buf, .. } => assert_eq!(buf.data, b"abc".to_vec()),
        ReleaseStep::Done => panic!("the buffer was lost"),
    }
}

#[test]
fn read_only_volume_refuses_changes() {
    let mut f = fs(false, Vec::new());
    assert_eq!(f.make_entry_start(FUSE_ROOT_INO, true), Err(Errno::Perm));
    assert_eq!(f.remove_entry_start(FUSE_ROOT_INO, true), Err(Errno::Perm));
    assert_eq!(f.write_data(FUSE_ROOT_INO, 0, b"x"), Err(Errno::Perm));
    match f.open_start(FUSE_ROOT_INO, false, false) {
        OpenStep::Fail(e) => assert_eq!(e, Errno::IsDir),
        _ => panic!("a directory cannot be opened"),
    }
    match f.open_start(999, false, false) {
        OpenStep::Fail(e) => assert_eq!(e, Errno::NoEnt),
        _ => panic!("unknown inode"),
    }
}

#[test]
fn chmod_keeps_hspa_bits() {
    assert_eq!(chmod_protection(0xF0, 0x05), 0xF5);
    assert_eq!(chmod_protection(0xAF, 0x00), 0xA0);
    assert_eq!(chmod_protection(0x00, 0xFF), 0x0F);
}

#[test]
fn statfs_fields() {
    assert_eq!(
        statfs_reply(1000, 200, 512, 107),
        StatFs { blocks: 1000, bfree: 200, bavail: 200, files: 0, ffree: 0, bsize: 512, namelen: 107, frsize: 0 }
    );
}

#[test]
fn xattr_replies() {
    match xattr_reply(vec![1, 2, 3], 0) {
        XattrReply::Size(n) => assert_eq!(n, 3),
        _ => panic!("size expected"),
    }
    match xattr_reply(vec![1, 2, 3], 2) {
        XattrReply::Fail(e) => assert_eq!(e, Errno::Range),
        _ => panic!("range error expected"),
    }
    match xattr_reply(vec![1, 2, 3], 3) {
        XattrReply::Data(d) => assert_eq!(d, vec![1, 2, 3]),
        _ => panic!("data expected"),
    }
    assert!(is_protection_xattr(&"user.amiga.protection".to_string()));
    assert!(!is_protection_xattr(&"user.other".to_string()));
}

#[test]
fn protection_xattr_of_entries() {
    let mut f = fs(true, Vec::new());
    let mut e = file_entry("p", 33, 1);
    e.protection = 0x42;
    f.lookup_finish(FUSE_ROOT_INO, "p".to_string(), Some(vec![e]), &vec![true]).unwrap();
    assert_eq!(f.getxattr_protection(133, true, true), Ok(0x42));
    assert_eq!(f.getxattr_protection(133, true, false), Err(Errno::NoData));
    assert_eq!(f.getxattr_protection(FUSE_ROOT_INO, true, true), Err(Errno::NoData));
    match f.listxattr(133, 0) {
        XattrReply::Size(n) => assert_eq!(n, 22),
        _ => panic!("size expected"),
    }
    match f.listxattr(FUSE_ROOT_INO, 0) {
        XattrReply::Size(n) => assert_eq!(n, 0),
        _ => panic!("size expected"),
    }
}

#[test]
fn stored_protection_reads_back() {
    let mut f = fs(true, Vec::new());
    let mut e = file_entry("q", 34, 1);
    e.protection = 0x0F;
    f.lookup_finish(FUSE_ROOT_INO, "q".to_string(), Some(vec![e]), &vec![true]).unwrap();
    assert_eq!(f.setxattr_start(134, true, true), Ok(0x0F));
    f.set_protection_done(134, 0xF2, 0o100640);
    assert_eq!(f.getxattr_protection(134, true, true), Ok(0xF2));
    assert_eq!(f.getattr(134, false).unwrap().perm, 0o640);
    assert_eq!(f.setxattr_start(134, true, false), Err(Errno::NotSup));
    let ro = fs(false, Vec::new());
    assert_eq!(ro.setxattr_start(134, true, true), Err(Errno::Perm));
}

#[test]
fn chmod_target_and_bits() {
    let mut f = fs(true, Vec::new());
    let mut e = file_entry("m", 35, 1);
    e.protection = 0xA3;
    f.lookup_finish(FUSE_ROOT_INO, "m".to_string(), Some(vec![e]), &vec![true]).unwrap();
    let t = match f.setattr_mode_start(135) {
        Ok(ProtLookup::Target(t)) => t,
        _ => panic!("expected a target"),
    };
    assert_eq!(t.name, "m");
    assert_eq!(t.parent_anode, 5);
    assert_eq!(t.old_prot, 0xA3);
    assert!(!t.is_dir);
    let p = chmod_protection(t.old_prot, 0x05);
    assert_eq!(p, 0xA5);
    f.set_protection_done(135, p, 0o100644);
    assert_eq!(f.getxattr_protection(135, true, true), Ok(0xA5));
    assert_eq!(f.getattr(135, false).unwrap().perm, 0o644);
    match f.setattr_mode_start(999) {
        Ok(ProtLookup::NoInode) => {}
        _ => panic!("unknown inode"),
    }
    assert!(matches!(fs(false, Vec::new()).setattr_mode_start(135), Err(Errno::Perm)));
}
