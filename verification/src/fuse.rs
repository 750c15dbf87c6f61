//! The FUSE driver's file-system state and the decisions of its request
//! handlers. Reading and writing the volume and answering the kernel are
//! done by the caller; each handler here takes the outcome of that work
//! and says what the state becomes and what to answer.

use vstd::prelude::*;
use std::collections::HashMap;
use crate::namecache::NameCache;
use crate::text::{decimal, eq_ignore_ascii_case, push_decimal, str_eq_ignore_ascii_case};

verus! {

broadcast use vstd::std_specs::hash::group_hash_axioms;

/// Inode number of the mount root.
pub const FUSE_ROOT_INO: u64 = 1;
/// Inode number of the virtual `.Trashcan` directory.
pub const TRASHCAN_INO: u64 = 2;
/// Offset added to PFS3 anode numbers to produce inode numbers; greater
/// than every virtual inode.
pub const INODE_ANODE_OFFSET: u64 = 100;
/// Anode number of the PFS3 root directory.
pub const ANODE_ROOTDIR: u32 = 5;

/// The inode number a PFS3 anode is presented under.
pub open spec fn spec_anode_to_ino(anode: u32) -> u64 {
    if anode == ANODE_ROOTDIR {
        FUSE_ROOT_INO
    } else {
        (anode + INODE_ANODE_OFFSET) as u64
    }
}

/// The inode number of anode `anode`: the root directory is the mount
/// root; every other anode is offset past the virtual inodes.
pub fn anode_to_ino(anode: u32) -> (ino: u64)
    ensures
        ino == spec_anode_to_ino(anode),
{
    if anode == ANODE_ROOTDIR {
        FUSE_ROOT_INO
    } else {
        anode as u64 + INODE_ANODE_OFFSET
    }
}

/// Distinct anodes get distinct inodes; only the root directory gets the
/// mount root's inode; no anode gets the `.Trashcan` inode, and every
/// other anode's inode lies above all virtual inodes.
pub proof fn lemma_anode_to_ino_injective(a: u32, b: u32)
    ensures
        a != b ==> spec_anode_to_ino(a) != spec_anode_to_ino(b),
        (spec_anode_to_ino(a) == FUSE_ROOT_INO) == (a == ANODE_ROOTDIR),
        spec_anode_to_ino(a) != TRASHCAN_INO,
        a != ANODE_ROOTDIR ==> spec_anode_to_ino(a) >= INODE_ANODE_OFFSET,
{
}

/// An Amiga date stamp: days since 1978-01-01, minutes past midnight and
/// ticks (1/50 s) past the minute.
#[derive(Clone, Copy, Debug, PartialEq, Eq, Structural)]
pub struct AmigaStamp {
    pub day: u16,
    pub minute: u16,
    pub tick: u16,
}

/// The time reported for an inode.
#[derive(Clone, Copy, Debug, PartialEq, Eq, Structural)]
pub enum AttrTime {
    /// The Unix epoch.
    Epoch,
    /// An Amiga date stamp.
    Amiga(AmigaStamp),
}

/// The kind of an inode.
#[derive(Clone, Copy, Debug, PartialEq, Eq, Structural)]
pub enum FileKind {
    Directory,
    Symlink,
    RegularFile,
}

/// The attributes reported for an inode.
#[derive(Clone, Copy, Debug, PartialEq, Eq, Structural)]
pub struct Attr {
    pub ino: u64,
    pub size: u64,
    pub blocks: u64,
    /// Access, modification, change and creation time alike.
    pub time: AttrTime,
    pub kind: FileKind,
    pub perm: u16,
    pub nlink: u32,
    pub uid: u32,
    pub gid: u32,
    pub rdev: u32,
    pub blksize: u32,
    pub flags: u32,
}

/// What the driver knows about an inode.
pub struct InodeInfo {
    pub attr: Attr,
    pub anode: u32,
    pub parent_ino: u64,
    pub amiga_protection: u8,
    pub name: String,
}

/// A directory entry as read from the volume, reduced to what the driver
/// uses.
pub struct EntryInfo {
    pub name: String,
    pub anode: u32,
    pub is_dir: bool,
    pub is_softlink: bool,
    pub file_size: u64,
    /// Amiga protection bits (HSPARWED, RWED inverted).
    pub protection: u8,
    /// The Unix mode the volume library derives from the protection bits.
    pub mode: u32,
    pub stamp: AmigaStamp,
}

/// A deleted file listed in the volume's deldir.
pub struct DeletedFile {
    pub filename: String,
    pub anode: u32,
    pub file_size: u64,
    pub stamp: AmigaStamp,
}

/// A deleted file as shown inside the virtual `.Trashcan`.
pub struct DeldirEntry {
    pub ino: u64,
    pub anode: u32,
    pub size: u64,
    pub display_name: String,
    pub time: AmigaStamp,
}

/// `a / b` rounded up.
pub open spec fn div_ceil(a: int, b: int) -> int {
    if a % b == 0 {
        a / b
    } else {
        a / b + 1
    }
}

pub(crate) fn u64_div_ceil(a: u64, b: u64) -> (r: u64)
    requires
        b > 0,
    ensures
        r == div_ceil(a as int, b as int),
{
    if a % b == 0 {
        a / b
    } else {
        proof {
            vstd::arithmetic::div_mod::lemma_fundamental_div_mod(a as int, b as int);
            assert(a / b < u64::MAX) by (nonlinear_arith)
                requires
                    b > 0,
                    a % b != 0,
                    a == b * (a / b) + a % b,
                    0 <= a % b,
            ;
        }
        a / b + 1
    }
}

/// The kind of inode a directory entry is shown as.
pub open spec fn entry_kind(e: EntryInfo) -> FileKind {
    if e.is_dir {
        FileKind::Directory
    } else if e.is_softlink {
        FileKind::Symlink
    } else {
        FileKind::RegularFile
    }
}

/// The attributes of a directory entry.
pub open spec fn entry_attr(e: EntryInfo, uid: u32, gid: u32, bs: u32) -> Attr {
    Attr {
        ino: spec_anode_to_ino(e.anode),
        size: e.file_size,
        blocks: div_ceil(e.file_size as int, bs as int) as u64,
        time: AttrTime::Amiga(e.stamp),
        kind: entry_kind(e),
        perm: (e.mode & 0o777u32) as u16,
        nlink: if e.is_dir {
            2
        } else {
            1
        },
        uid,
        gid,
        rdev: 0,
        blksize: bs,
        flags: 0,
    }
}

/// The inode record made for a directory entry found in `parent_ino`.
pub open spec fn entry_inode(e: EntryInfo, parent_ino: u64, uid: u32, gid: u32, bs: u32) -> InodeInfo {
    InodeInfo {
        attr: entry_attr(e, uid, gid, bs),
        anode: e.anode,
        parent_ino,
        amiga_protection: e.protection,
        name: e.name,
    }
}

/// The inode number and inode record for directory entry `entry` found in
/// directory inode `parent_ino`.
pub fn make_attr(entry: &EntryInfo, parent_ino: u64, uid: u32, gid: u32, bs: u32) -> (r: (
    u64,
    InodeInfo,
))
    requires
        bs > 0,
    ensures
        r.0 == spec_anode_to_ino(entry.anode),
        r.1 == entry_inode(*entry, parent_ino, uid, gid, bs),
        entry.is_dir ==> r.1.attr.kind == FileKind::Directory,
        !entry.is_dir && entry.is_softlink ==> r.1.attr.kind == FileKind::Symlink,
        !entry.is_dir && !entry.is_softlink ==> r.1.attr.kind == FileKind::RegularFile,
{
    let ino = anode_to_ino(entry.anode);
    let kind = if entry.is_dir {
        FileKind::Directory
    } else if entry.is_softlink {
        FileKind::Symlink
    } else {
        FileKind::RegularFile
    };
    let size = entry.file_size;
    let attr = Attr {
        ino,
        size,
        blocks: u64_div_ceil(size, bs as u64),
        time: AttrTime::Amiga(entry.stamp),
        kind,
        perm: (entry.mode & 0o777u32) as u16,
        nlink: if entry.is_dir {
            2
        } else {
            1
        },
        uid,
        gid,
        rdev: 0,
        blksize: bs,
        flags: 0,
    };
    (
        ino,
        InodeInfo {
            attr,
            anode: entry.anode,
            parent_ino,
            amiga_protection: entry.protection,
            name: entry.name.clone(),
        },
    )
}

/// The attributes of the virtual `.Trashcan` directory.
pub open spec fn spec_trashcan_attr(uid: u32, gid: u32) -> Attr {
    Attr {
        ino: TRASHCAN_INO,
        size: 0,
        blocks: 0,
        time: AttrTime::Epoch,
        kind: FileKind::Directory,
        perm: 0o555,
        nlink: 2,
        uid,
        gid,
        rdev: 0,
        blksize: 512,
        flags: 0,
    }
}

/// The attributes of the virtual `.Trashcan` directory: a read-only
/// directory dated at the epoch.
pub fn trashcan_attr(uid: u32, gid: u32) -> (a: Attr)
    ensures
        a == spec_trashcan_attr(uid, gid),
        a.ino == TRASHCAN_INO,
        a.kind == FileKind::Directory,
        a.perm == 0o555,
        a.nlink == 2,
        a.size == 0,
{
    Attr {
        ino: TRASHCAN_INO,
        size: 0,
        blocks: 0,
        time: AttrTime::Epoch,
        kind: FileKind::Directory,
        perm: 0o555,
        nlink: 2,
        uid,
        gid,
        rdev: 0,
        blksize: 512,
        flags: 0,
    }
}


/// The pending contents of a file opened for writing: where it lives
/// (its directory's anode and its name) and its full new contents.
pub struct WriteBuf {
    pub parent_anode: u32,
    pub name: String,
    pub data: Vec<u8>,
}

/// The driver's mutable state.
pub struct FsInner {
    /// Every inode handed out so far.
    pub inodes: HashMap<u64, InodeInfo>,
    /// Names looked up so far.
    pub name_cache: NameCache,
    /// Files open for writing.
    pub write_bufs: HashMap<u64, WriteBuf>,
    /// Snapshot of the deleted files shown in `.Trashcan`.
    pub deldir: Vec<DeldirEntry>,
}

/// The FUSE file system: its state and its fixed settings.
pub struct Pfs3Fs {
    pub inner: FsInner,
    pub uid: u32,
    pub gid: u32,
    pub block_size: u32,
    pub writable: bool,
}

/// Number of names among the first `n` of `names` that equal `target` up
/// to ASCII case.
pub open spec fn count_ci(names: Seq<Seq<char>>, target: Seq<char>, n: int) -> nat
    decreases n,
{
    if n <= 0 {
        0
    } else {
        count_ci(names, target, n - 1) + if eq_ignore_ascii_case(names[n - 1], target) {
            1nat
        } else {
            0nat
        }
    }
}

/// The name under which a deleted file is shown: its own name the first
/// time it occurs (up to ASCII case), then `name.1`, `name.2`, ...
pub open spec fn display_name(base: Seq<char>, rank: nat) -> Seq<char> {
    if rank == 0 {
        base
    } else {
        base + seq!['.'] + decimal(rank)
    }
}

/// The file names of a deldir listing.
pub open spec fn deleted_names(entries: Seq<DeletedFile>) -> Seq<Seq<char>> {
    entries.map_values(|e: DeletedFile| e.filename@)
}

/// The `.Trashcan` entry made for the `i`-th deleted file.
pub open spec fn deldir_entry_matches(d: DeldirEntry, entries: Seq<DeletedFile>, i: int) -> bool {
    &&& d.ino == TRASHCAN_INO + 1 + i
    &&& d.anode == entries[i].anode
    &&& d.size == entries[i].file_size
    &&& d.time == entries[i].stamp
    &&& d.display_name@ == display_name(
        entries[i].filename@,
        count_ci(deleted_names(entries), entries[i].filename@, i),
    )
}

/// The inode numbers used by a `.Trashcan` snapshot.
pub open spec fn deldir_inos(deldir: Seq<DeldirEntry>) -> Set<u64> {
    Set::new(|ino: u64| exists|i: int| 0 <= i < deldir.len() && (#[trigger] deldir[i]).ino == ino)
}

impl Pfs3Fs {
    /// The state is well formed.
    pub open spec fn wf(&self) -> bool {
        &&& self.inner.name_cache.wf()
        &&& self.inner.deldir@.len() < u32::MAX
    }

    /// Makes the state for a volume: only the root inode is known, dated
    /// with the volume's creation stamp; the `.Trashcan` snapshot is built
    /// from the volume's deleted files.
    pub fn new(
        block_size: u32,
        uid: u32,
        gid: u32,
        root_stamp: AmigaStamp,
        writable: bool,
        deleted: Vec<DeletedFile>,
    ) -> (fs: Pfs3Fs)
        requires
            deleted@.len() < u32::MAX,
        ensures
            fs.wf(),
            fs.uid == uid,
            fs.gid == gid,
            fs.block_size == block_size,
            fs.writable == writable,
            fs.inner.inodes@.dom() == set![FUSE_ROOT_INO],
            fs.inner.inodes@[FUSE_ROOT_INO].attr == (Attr {
                ino: FUSE_ROOT_INO,
                size: 0,
                blocks: 0,
                time: AttrTime::Amiga(root_stamp),
                kind: FileKind::Directory,
                perm: 0o755,
                nlink: 2,
                uid,
                gid,
                rdev: 0,
                blksize: block_size,
                flags: 0,
            }),
            fs.inner.inodes@[FUSE_ROOT_INO].anode == ANODE_ROOTDIR,
            fs.inner.inodes@[FUSE_ROOT_INO].parent_ino == FUSE_ROOT_INO,
            fs.inner.inodes@[FUSE_ROOT_INO].amiga_protection == 0,
            fs.inner.inodes@[FUSE_ROOT_INO].name@ == Seq::<char>::empty(),
            fs.inner.name_cache.view() == Map::<(u64, Seq<char>), u64>::empty(),
            fs.inner.write_bufs@ == Map::<u64, WriteBuf>::empty(),
            fs.inner.deldir@.len() == deleted@.len(),
            forall|i: int|
                0 <= i < deleted@.len() ==> deldir_entry_matches(
                    #[trigger] fs.inner.deldir@[i],
                    deleted@,
                    i,
                ),
    {
        let root_attr = Attr {
            ino: FUSE_ROOT_INO,
            size: 0,
            blocks: 0,
            time: AttrTime::Amiga(root_stamp),
            kind: FileKind::Directory,
            perm: 0o755,
            nlink: 2,
            uid,
            gid,
            rdev: 0,
            blksize: block_size,
            flags: 0,
        };
        let mut inodes: HashMap<u64, InodeInfo> = HashMap::new();
        inodes.insert(
            FUSE_ROOT_INO,
            InodeInfo {
                attr: root_attr,
                anode: ANODE_ROOTDIR,
                parent_ino: FUSE_ROOT_INO,
                amiga_protection: 0,
                name: String::new(),
            },
        );
        let mut fs = Pfs3Fs {
            inner: FsInner {
                inodes,
                name_cache: NameCache::new(),
                write_bufs: HashMap::new(),
                deldir: Vec::new(),
            },
            uid,
            gid,
            block_size,
            writable,
        };
        assert(deldir_inos(fs.inner.deldir@) =~= Set::<u64>::empty());
        fs.rebuild_deldir(deleted);
        assert(fs.inner.inodes@.dom() =~= set![FUSE_ROOT_INO]);
        fs
    }

    /// Replaces the `.Trashcan` snapshot with `entries` (the volume's
    /// deleted files): the inodes of the old snapshot are forgotten, and
    /// the `i`-th deleted file gets inode `TRASHCAN_INO + 1 + i`.
    pub fn rebuild_deldir(&mut self, entries: Vec<DeletedFile>)
        requires
            old(self).wf(),
            entries@.len() < u32::MAX,
        ensures
            final(self).wf(),
            final(self).uid == old(self).uid,
            final(self).gid == old(self).gid,
            final(self).block_size == old(self).block_size,
            final(self).writable == old(self).writable,
            final(self).inner.inodes@ == old(self).inner.inodes@.remove_keys(
                deldir_inos(old(self).inner.deldir@),
            ),
            final(self).inner.name_cache == old(self).inner.name_cache,
            final(self).inner.write_bufs == old(self).inner.write_bufs,
            final(self).inner.deldir@.len() == entries@.len(),
            forall|i: int|
                0 <= i < entries@.len() ==> deldir_entry_matches(
                    #[trigger] final(self).inner.deldir@[i],
                    entries@,
                    i,
                ),
    {
        let ghost s0 = *self;
        let ghost old_inodes = self.inner.inodes@;
        let ghost old_deldir = self.inner.deldir@;
        let nold = self.inner.deldir.len();
        let mut k: usize = 0;
        while k < nold
            invariant
                self.uid == s0.uid,
                self.gid == s0.gid,
                self.block_size == s0.block_size,
                self.writable == s0.writable,
                self.inner.name_cache == s0.inner.name_cache,
                self.inner.write_bufs == s0.inner.write_bufs,
                nold == self.inner.deldir@.len(),
                self.inner.deldir@ == old_deldir,
                k <= nold,
                self.inner.inodes@ == old_inodes.remove_keys(
                    Set::new(|ino: u64| exists|i: int| 0 <= i < k && (#[trigger] old_deldir[i]).ino == ino),
                ),
            decreases nold - k,
        {
            let ino = self.inner.deldir[k].ino;
            self.inner.inodes.remove(&ino);
            proof {
                assert(Set::new(|x: u64| exists|i: int| 0 <= i < k + 1 && (#[trigger] old_deldir[i]).ino == x)
                    =~= Set::new(|x: u64| exists|i: int| 0 <= i < k && (#[trigger] old_deldir[i]).ino == x).insert(ino));
                assert(self.inner.inodes@ =~= old_inodes.remove_keys(
                    Set::new(|x: u64| exists|i: int| 0 <= i < k + 1 && (#[trigger] old_deldir[i]).ino == x),
                ));
            }
            k = k + 1;
        }
        assert(Set::new(|x: u64| exists|i: int| 0 <= i < nold && (#[trigger] old_deldir[i]).ino == x)
            =~= deldir_inos(old_deldir));
        self.inner.deldir.clear();

        let n = entries.len();
        let ghost names = deleted_names(entries@);
        let mut i: usize = 0;
        while i < n
            invariant
                self.uid == s0.uid,
                self.gid == s0.gid,
                self.block_size == s0.block_size,
                self.writable == s0.writable,
                self.inner.name_cache == s0.inner.name_cache,
                self.inner.write_bufs == s0.inner.write_bufs,
                self.inner.inodes@ == old_inodes.remove_keys(deldir_inos(old_deldir)),
                n == entries@.len(),
                n < u32::MAX,
                names == deleted_names(entries@),
                i <= n,
                self.inner.deldir@.len() == i,
                forall|j: int|
                    0 <= j < i ==> deldir_entry_matches(#[trigger] self.inner.deldir@[j], entries@, j),
            decreases n - i,
        {
            let mut count: u32 = 0;
            let mut j: usize = 0;
            while j < i
                invariant
                    n == entries@.len(),
                    n < u32::MAX,
                    names == deleted_names(entries@),
                    i < n,
                    j <= i,
                    count == count_ci(names, entries@[i as int].filename@, j as int),
                    count <= j,
                decreases i - j,
            {
                if str_eq_ignore_ascii_case(entries[j].filename.as_str(), entries[i].filename.as_str()) {
                    count = count + 1;
                }
                j = j + 1;
            }
            let e = &entries[i];
            let mut display = e.filename.clone();
            if count > 0 {
                proof {
                    reveal_strlit(".");
                }
                display.append(".");
                push_decimal(&mut display, count);
                assert(display@ =~= display_name(e.filename@, count as nat));
            }
            let ino = TRASHCAN_INO + 1 + i as u64;
            self.inner.deldir.push(
                DeldirEntry { ino, anode: e.anode, size: e.file_size, display_name: display, time: e.stamp },
            );
            i = i + 1;
        }
    }
}


/// Error answers the driver gives.
#[derive(Clone, Copy, Debug, PartialEq, Eq, Structural)]
pub enum Errno {
    /// No such file or directory.
    NoEnt,
    /// Input/output error.
    Io,
    /// Is a directory.
    IsDir,
    /// Not a directory.
    NotDir,
    /// Directory not empty.
    NotEmpty,
    /// Operation not permitted.
    Perm,
    /// No such attribute.
    NoData,
    /// Operation not supported.
    NotSup,
    /// Result too large for the buffer.
    Range,
}

/// Name of the virtual trash directory at the mount root.
pub open spec fn trashcan_name() -> Seq<char> {
    seq!['.', 'T', 'r', 'a', 's', 'h', 'c', 'a', 'n']
}

/// Whether `name` is the name of the virtual trash directory.
pub fn is_trashcan_name(name: &String) -> (r: bool)
    ensures
        r == (name@ == trashcan_name()),
{
    proof {
        reveal_strlit(".Trashcan");
    }
    let t: String = ".Trashcan".to_owned();
    assert(t@ =~= trashcan_name());
    *name == t
}

/// `k` is the first position in `m` that holds `true`.
pub open spec fn is_first_true(m: Seq<bool>, k: int) -> bool {
    &&& 0 <= k < m.len()
    &&& m[k]
    &&& forall|j: int| 0 <= j < k ==> !m[j]
}

/// No position of `m` holds `true`.
pub open spec fn none_true(m: Seq<bool>) -> bool {
    forall|j: int| 0 <= j < m.len() ==> !m[j]
}

/// Position of the first `true` in `m`.
fn first_true(m: &Vec<bool>) -> (r: Option<usize>)
    ensures
        r matches Some(k) ==> is_first_true(m@, k as int),
        r is None ==> none_true(m@),
{
    let n = m.len();
    let mut i: usize = 0;
    while i < n
        invariant
            n == m@.len(),
            i <= n,
            forall|j: int| 0 <= j < i ==> !m@[j],
        decreases n - i,
    {
        if m[i] {
            return Some(i);
        }
        i = i + 1;
    }
    None
}

/// The attributes of a deleted file shown inside `.Trashcan`: a read-only
/// regular file.
pub open spec fn deldir_file_attr(d: DeldirEntry, uid: u32, gid: u32, bs: u32) -> Attr {
    Attr {
        ino: d.ino,
        size: d.size,
        blocks: div_ceil(d.size as int, 512) as u64,
        time: AttrTime::Amiga(d.time),
        kind: FileKind::RegularFile,
        perm: 0o444,
        nlink: 1,
        uid,
        gid,
        rdev: 0,
        blksize: bs,
        flags: 0,
    }
}

/// Position of the first `.Trashcan` entry whose name equals `name` up to
/// ASCII case.
pub open spec fn is_first_deldir_match(deldir: Seq<DeldirEntry>, name: Seq<char>, k: int) -> bool {
    &&& 0 <= k < deldir.len()
    &&& eq_ignore_ascii_case(deldir[k].display_name@, name)
    &&& forall|j: int| 0 <= j < k ==> !eq_ignore_ascii_case(deldir[j].display_name@, name)
}

/// What a lookup needs next.
pub enum LookupStep {
    /// Answer with these attributes.
    Reply(Attr),
    /// Answer with this error.
    Fail(Errno),
    /// List the directory with this anode and call `lookup_finish`.
    NeedListing(u32),
}

/// What an inode record says, field by field, compared with another.
pub open spec fn same_inode(a: InodeInfo, b: InodeInfo) -> bool {
    &&& a.attr == b.attr
    &&& a.anode == b.anode
    &&& a.parent_ino == b.parent_ino
    &&& a.amiga_protection == b.amiga_protection
    &&& a.name@ == b.name@
}

/// One directory entry handed to the kernel, with the offset at which a
/// later listing continues after it.
pub struct DirListing {
    pub ino: u64,
    pub kind: FileKind,
    pub name: String,
    pub next_offset: i64,
}

/// Inode, kind and name of a listed entry.
pub open spec fn listing_item(l: DirListing) -> (u64, FileKind, Seq<char>) {
    (l.ino, l.kind, l.name@)
}

/// `r` is the part of the complete listing `full` from position `offset`
/// on, each entry carrying the position after it as its next offset; a
/// negative offset or one past the end gives nothing.
pub open spec fn listing_from(full: Seq<(u64, FileKind, Seq<char>)>, offset: i64, r: Seq<DirListing>) -> bool {
    if offset < 0 || offset >= full.len() {
        r.len() == 0
    } else {
        &&& r.len() == full.len() - offset
        &&& forall|i: int|
            0 <= i < r.len() ==> listing_item(#[trigger] r[i]) == full[offset + i] && r[i].next_offset
                == (offset + i + 1) as i64
    }
}

/// The name ".".
pub open spec fn dot_name() -> Seq<char> {
    seq!['.']
}

/// The name "..".
pub open spec fn dotdot_name() -> Seq<char> {
    seq!['.', '.']
}

/// The complete listing of the virtual `.Trashcan`.
pub open spec fn trashcan_listing(deldir: Seq<DeldirEntry>) -> Seq<(u64, FileKind, Seq<char>)> {
    seq![(TRASHCAN_INO, FileKind::Directory, dot_name()), (FUSE_ROOT_INO, FileKind::Directory, dotdot_name())]
        + deldir.map_values(|d: DeldirEntry| (d.ino, FileKind::RegularFile, d.display_name@))
}

/// The complete listing of directory inode `ino` (whose parent is
/// `parent_ino`) holding `entries`; the mount root also shows
/// `.Trashcan` when `with_trash`.
pub open spec fn dir_listing(ino: u64, parent_ino: u64, entries: Seq<EntryInfo>, with_trash: bool) -> Seq<
    (u64, FileKind, Seq<char>),
> {
    seq![(ino, FileKind::Directory, dot_name()), (parent_ino, FileKind::Directory, dotdot_name())]
        + entries.map_values(|e: EntryInfo| (spec_anode_to_ino(e.anode), entry_kind(e), e.name@))
        + if with_trash {
        seq![(TRASHCAN_INO, FileKind::Directory, trashcan_name())]
    } else {
        Seq::<(u64, FileKind, Seq<char>)>::empty()
    }
}

/// The inode table after recording every entry of a listing of
/// directory inode `parent`, in order.
pub open spec fn adopt_all(m: Map<u64, InodeInfo>, entries: Seq<EntryInfo>, parent: u64, uid: u32, gid: u32, bs: u32) -> Map<
    u64,
    InodeInfo,
>
    decreases entries.len(),
{
    if entries.len() == 0 {
        m
    } else {
        let e = entries.last();
        adopt_all(m, entries.drop_last(), parent, uid, gid, bs).insert(
            spec_anode_to_ino(e.anode),
            entry_inode(e, parent, uid, gid, bs),
        )
    }
}

/// What a `readdir` needs next.
pub enum ReaddirStep {
    /// Answer with these entries.
    Reply(Vec<DirListing>),
    /// Answer with this error.
    Fail(Errno),
    /// List the directory with this anode and call `readdir_finish`.
    NeedListing { anode: u32, parent_ino: u64 },
}

/// A `String` holding `s`.
fn owned(s: &str) -> (r: String)
    ensures
        r@ == s@,
{
    s.to_owned()
}

/// The entries of `full` from `offset` on.
fn suffix_from(full: Vec<DirListing>, offset: i64) -> (r: Vec<DirListing>)
    requires
        forall|i: int| 0 <= i < full@.len() ==> (#[trigger] full@[i]).next_offset == (i + 1) as i64,
    ensures
        listing_from(full@.map_values(|l: DirListing| listing_item(l)), offset, r@),
{
    if offset < 0 {
        return Vec::new();
    }
    if offset as u64 >= full.len() as u64 {
        return Vec::new();
    }
    let mut f = full;
    let r = f.split_off(offset as usize);
    r
}

impl Pfs3Fs {
    /// The attributes `getattr` answers for inode `ino`.
    pub open spec fn spec_getattr(&self, ino: u64, has_deldir: bool) -> Result<Attr, Errno> {
        if ino == TRASHCAN_INO && has_deldir {
            Ok(spec_trashcan_attr(self.uid, self.gid))
        } else if self.inner.inodes@.contains_key(ino) {
            Ok(self.inner.inodes@[ino].attr)
        } else {
            Err(Errno::NoEnt)
        }
    }

    /// Answers `getattr`: the virtual `.Trashcan` when the volume has a
    /// deldir, otherwise the recorded attributes of a known inode.
    pub fn getattr(&self, ino: u64, has_deldir: bool) -> (r: Result<Attr, Errno>)
        ensures
            r == self.spec_getattr(ino, has_deldir),
    {
        if ino == TRASHCAN_INO && has_deldir {
            return Ok(trashcan_attr(self.uid, self.gid));
        }
        match self.inner.inodes.get(&ino) {
            Some(info) => Ok(info.attr),
            None => Err(Errno::NoEnt),
        }
    }

    /// Records directory entry `k` of `entries` (the first one whose name
    /// matched) as a child named `name` of inode `parent`.
    fn adopt_entry(&mut self, parent: u64, name: String, entries: &Vec<EntryInfo>, matches: &Vec<bool>) -> (r: Option<Attr>)
        requires
            old(self).wf(),
            old(self).block_size > 0,
            entries@.len() == matches@.len(),
        ensures
            final(self).wf(),
            final(self).uid == old(self).uid,
            final(self).gid == old(self).gid,
            final(self).block_size == old(self).block_size,
            final(self).writable == old(self).writable,
            final(self).inner.write_bufs == old(self).inner.write_bufs,
            final(self).inner.deldir == old(self).inner.deldir,
            none_true(matches@) ==> {
                &&& r is None
                &&& final(self).inner.inodes@ == old(self).inner.inodes@
                &&& final(self).inner.name_cache == old(self).inner.name_cache
            },
            forall|k: int| #[trigger] is_first_true(matches@, k) ==> {
                let e = entries@[k];
                let ino = spec_anode_to_ino(e.anode);
                &&& r == Some(entry_attr(e, old(self).uid, old(self).gid, old(self).block_size))
                &&& final(self).inner.inodes@ == old(self).inner.inodes@.insert(
                    ino,
                    entry_inode(e, parent, old(self).uid, old(self).gid, old(self).block_size),
                )
                &&& final(self).inner.name_cache.view() == old(self).inner.name_cache.view().insert(
                    (parent, name@),
                    ino,
                )
            },
    {
        match first_true(matches) {
            None => None,
            Some(k) => {
                let (ino, info) = make_attr(&entries[k], parent, self.uid, self.gid, self.block_size);
                let attr = info.attr;
                self.inner.inodes.insert(ino, info);
                self.inner.name_cache.insert(parent, name, ino);
                proof {
                    assert forall|kk: int| #[trigger] is_first_true(matches@, kk) implies kk == k by {
                        if kk < k {
                            assert(!matches@[kk]);
                        }
                        if k < kk {
                            assert(!matches@[k as int]);
                        }
                    }
                }
                Some(attr)
            },
        }
    }

    /// First step of `lookup` of `name` in directory inode `parent`:
    /// answers the virtual `.Trashcan` and the files inside it, and names
    /// already looked up; otherwise asks for the parent's listing.
    pub fn lookup_start(&mut self, parent: u64, name: &String, has_deldir: bool) -> (r: LookupStep)
        requires
            old(self).wf(),
        ensures
            final(self).wf(),
            final(self).uid == old(self).uid,
            final(self).gid == old(self).gid,
            final(self).block_size == old(self).block_size,
            final(self).writable == old(self).writable,
            final(self).inner.write_bufs == old(self).inner.write_bufs,
            final(self).inner.deldir == old(self).inner.deldir,
            ({
                let s = old(self);
                let key = (parent, name@);
                if parent == FUSE_ROOT_INO && name@ == trashcan_name() && has_deldir {
                    &&& r == LookupStep::Reply(spec_trashcan_attr(s.uid, s.gid))
                    &&& final(self).inner.inodes@ == s.inner.inodes@
                    &&& final(self).inner.name_cache == s.inner.name_cache
                } else if parent == TRASHCAN_INO && has_deldir {
                    &&& (forall|k: int| !#[trigger] is_first_deldir_match(s.inner.deldir@, name@, k))
                        ==> {
                        &&& r == LookupStep::Fail(Errno::NoEnt)
                        &&& final(self).inner.inodes@ == s.inner.inodes@
                        &&& final(self).inner.name_cache == s.inner.name_cache
                    }
                    &&& forall|k: int| #[trigger] is_first_deldir_match(s.inner.deldir@, name@, k) ==> {
                        let d = s.inner.deldir@[k];
                        let a = deldir_file_attr(d, s.uid, s.gid, s.block_size);
                        &&& r == LookupStep::Reply(a)
                        &&& final(self).inner.inodes@.dom() == s.inner.inodes@.dom().insert(d.ino)
                        &&& forall|i: u64| #[trigger] final(self).inner.inodes@.contains_key(i) && i != d.ino
                            ==> final(self).inner.inodes@[i] == s.inner.inodes@[i]
                        &&& final(self).inner.inodes@[d.ino].attr == a
                        &&& final(self).inner.inodes@[d.ino].anode == d.anode
                        &&& final(self).inner.inodes@[d.ino].parent_ino == TRASHCAN_INO
                        &&& final(self).inner.inodes@[d.ino].amiga_protection == 0
                        &&& final(self).inner.inodes@[d.ino].name@ == d.display_name@
                        &&& final(self).inner.name_cache.view() == s.inner.name_cache.view().insert(
                            key,
                            d.ino,
                        )
                    }
                } else {
                    &&& final(self).inner.inodes@ == s.inner.inodes@
                    &&& final(self).inner.name_cache == s.inner.name_cache
                    &&& if s.inner.name_cache.view().contains_key(key)
                        && s.inner.inodes@.contains_key(s.inner.name_cache.view()[key]) {
                        r == LookupStep::Reply(s.inner.inodes@[s.inner.name_cache.view()[key]].attr)
                    } else if s.inner.inodes@.contains_key(parent) {
                        r == LookupStep::NeedListing(s.inner.inodes@[parent].anode)
                    } else {
                        r == LookupStep::Fail(Errno::NoEnt)
                    }
                }
            }),
    {
        if parent == FUSE_ROOT_INO && is_trashcan_name(name) && has_deldir {
            return LookupStep::Reply(trashcan_attr(self.uid, self.gid));
        }
        if parent == TRASHCAN_INO && has_deldir {
            let ghost s0 = *self;
            let n = self.inner.deldir.len();
            let mut i: usize = 0;
            while i < n
                invariant
                    parent == TRASHCAN_INO && has_deldir,
                    *self == s0,
                    s0 == *old(self),
                    s0.wf(),
                    n == self.inner.deldir@.len(),
                    i <= n,
                    forall|j: int|
                        0 <= j < i ==> !eq_ignore_ascii_case(
                            (#[trigger] self.inner.deldir@[j]).display_name@,
                            name@,
                        ),
                decreases n - i,
            {
                if str_eq_ignore_ascii_case(self.inner.deldir[i].display_name.as_str(), name.as_str()) {
                    let de_ino = self.inner.deldir[i].ino;
                    let de_size = self.inner.deldir[i].size;
                    let attr = Attr {
                        ino: de_ino,
                        size: de_size,
                        blocks: u64_div_ceil(de_size, 512),
                        time: AttrTime::Amiga(self.inner.deldir[i].time),
                        kind: FileKind::RegularFile,
                        perm: 0o444,
                        nlink: 1,
                        uid: self.uid,
                        gid: self.gid,
                        rdev: 0,
                        blksize: self.block_size,
                        flags: 0,
                    };
                    let info = InodeInfo {
                        attr,
                        anode: self.inner.deldir[i].anode,
                        parent_ino: TRASHCAN_INO,
                        amiga_protection: 0,
                        name: self.inner.deldir[i].display_name.clone(),
                    };
                    self.inner.inodes.insert(de_ino, info);
                    self.inner.name_cache.insert(parent, name.clone(), de_ino);
                    proof {
                        assert forall|k: int| #[trigger] is_first_deldir_match(old(self).inner.deldir@, name@, k)
                            implies k == i by {
                            if k < i {
                                assert(!eq_ignore_ascii_case(old(self).inner.deldir@[k].display_name@, name@));
                            }
                        }
                        assert(is_first_deldir_match(old(self).inner.deldir@, name@, i as int));
                    }
                    return LookupStep::Reply(attr);
                }
                i = i + 1;
            }
            return LookupStep::Fail(Errno::NoEnt);
        }
        match self.inner.name_cache.get(parent, name) {
            Some(ino) => {
                match self.inner.inodes.get(&ino) {
                    Some(info) => {
                        return LookupStep::Reply(info.attr);
                    },
                    None => {},
                }
            },
            None => {},
        }
        match self.inner.inodes.get(&parent) {
            Some(info) => LookupStep::NeedListing(info.anode),
            None => LookupStep::Fail(Errno::NoEnt),
        }
    }

    /// Last step of `lookup`, given the parent's listing (`None` if it
    /// could not be read) and, for each entry, whether its name matches:
    /// the first matching entry is recorded and answered.
    pub fn lookup_finish(
        &mut self,
        parent: u64,
        name: String,
        listing: Option<Vec<EntryInfo>>,
        matches: &Vec<bool>,
    ) -> (r: Result<Attr, Errno>)
        requires
            old(self).wf(),
            old(self).block_size > 0,
            listing matches Some(es) ==> es@.len() == matches@.len(),
        ensures
            final(self).wf(),
            final(self).uid == old(self).uid,
            final(self).gid == old(self).gid,
            final(self).block_size == old(self).block_size,
            final(self).writable == old(self).writable,
            final(self).inner.write_bufs == old(self).inner.write_bufs,
            final(self).inner.deldir == old(self).inner.deldir,
            listing is None ==> {
                &&& r == Err::<Attr, Errno>(Errno::Io)
                &&& final(self).inner.inodes@ == old(self).inner.inodes@
                &&& final(self).inner.name_cache == old(self).inner.name_cache
            },
            listing is Some && none_true(matches@) ==> {
                &&& r == Err::<Attr, Errno>(Errno::NoEnt)
                &&& final(self).inner.inodes@ == old(self).inner.inodes@
                &&& final(self).inner.name_cache == old(self).inner.name_cache
            },
            listing matches Some(es) ==> forall|k: int| #[trigger] is_first_true(matches@, k) ==> {
                let e = es@[k];
                let ino = spec_anode_to_ino(e.anode);
                &&& r == Ok::<Attr, Errno>(
                    entry_attr(e, old(self).uid, old(self).gid, old(self).block_size),
                )
                &&& final(self).inner.inodes@ == old(self).inner.inodes@.insert(
                    ino,
                    entry_inode(e, parent, old(self).uid, old(self).gid, old(self).block_size),
                )
                &&& final(self).inner.name_cache.view() == old(self).inner.name_cache.view().insert(
                    (parent, name@),
                    ino,
                )
            },
    {
        match listing {
            None => Err(Errno::Io),
            Some(entries) => match self.adopt_entry(parent, name, &entries, matches) {
                Some(attr) => Ok(attr),
                None => Err(Errno::NoEnt),
            },
        }
    }
}


impl Pfs3Fs {
    /// The listing of the virtual `.Trashcan` from `offset` on.
    pub fn readdir_trashcan(&self, offset: i64) -> (r: Vec<DirListing>)
        requires
            self.wf(),
        ensures
            listing_from(trashcan_listing(self.inner.deldir@), offset, r@),
    {
        proof {
            reveal_strlit(".");
            reveal_strlit("..");
        }
        let mut full: Vec<DirListing> = Vec::new();
        full.push(DirListing { ino: TRASHCAN_INO, kind: FileKind::Directory, name: owned("."), next_offset: 1 });
        full.push(DirListing { ino: FUSE_ROOT_INO, kind: FileKind::Directory, name: owned(".."), next_offset: 2 });
        let n = self.inner.deldir.len();
        let mut i: usize = 0;
        assert(full@[0].name@ =~= dot_name());
        assert(full@[1].name@ =~= dotdot_name());
        while i < n
            invariant
                n == self.inner.deldir@.len(),
                n < u32::MAX,
                i <= n,
                full@.len() == i + 2,
                forall|j: int| 0 <= j < full@.len() ==> (#[trigger] full@[j]).next_offset == (j + 1) as i64,
                full@.map_values(|l: DirListing| listing_item(l)) =~~= trashcan_listing(self.inner.deldir@).subrange(0, i + 2),
            decreases n - i,
        {
            let d = &self.inner.deldir[i];
            full.push(DirListing {
                ino: d.ino,
                kind: FileKind::RegularFile,
                name: d.display_name.clone(),
                next_offset: (i as u64 + 3) as i64,
            });
            i = i + 1;
            assert(full@.map_values(|l: DirListing| listing_item(l)) =~~= trashcan_listing(self.inner.deldir@).subrange(0, i + 2));
        }
        assert(trashcan_listing(self.inner.deldir@).subrange(0, n + 2) =~~= trashcan_listing(self.inner.deldir@));
        suffix_from(full, offset)
    }

    /// First step of `readdir` of inode `ino`: answers the virtual
    /// `.Trashcan` directly, refuses unknown inodes and non-directories,
    /// and otherwise asks for the directory's listing.
    pub fn readdir_start(&self, ino: u64, offset: i64, has_deldir: bool) -> (r: ReaddirStep)
        requires
            self.wf(),
        ensures
            ino == TRASHCAN_INO && has_deldir ==> (r matches ReaddirStep::Reply(l) && listing_from(
                trashcan_listing(self.inner.deldir@),
                offset,
                l@,
            )),
            !(ino == TRASHCAN_INO && has_deldir) ==> r == (if !self.inner.inodes@.contains_key(ino) {
                ReaddirStep::Fail(Errno::NoEnt)
            } else if self.inner.inodes@[ino].attr.kind != FileKind::Directory {
                ReaddirStep::Fail(Errno::NotDir)
            } else {
                ReaddirStep::NeedListing {
                    anode: self.inner.inodes@[ino].anode,
                    parent_ino: self.inner.inodes@[ino].parent_ino,
                }
            }),
    {
        if ino == TRASHCAN_INO && has_deldir {
            return ReaddirStep::Reply(self.readdir_trashcan(offset));
        }
        match self.inner.inodes.get(&ino) {
            Some(info) => {
                if info.attr.kind == FileKind::Directory {
                    ReaddirStep::NeedListing { anode: info.anode, parent_ino: info.parent_ino }
                } else {
                    ReaddirStep::Fail(Errno::NotDir)
                }
            },
            None => ReaddirStep::Fail(Errno::NoEnt),
        }
    }

    /// Last step of `readdir` of directory inode `ino` (whose parent is
    /// `parent_ino`), given its listing (`None` if it could not be read):
    /// every entry is recorded as a child of `ino`, and the listing is
    /// answered from `offset` on, with `.Trashcan` added at the mount root
    /// when the volume has a deldir.
    pub fn readdir_finish(
        &mut self,
        ino: u64,
        parent_ino: u64,
        listing: Option<Vec<EntryInfo>>,
        offset: i64,
        has_deldir: bool,
    ) -> (r: Result<Vec<DirListing>, Errno>)
        requires
            old(self).wf(),
            old(self).block_size > 0,
            listing matches Some(es) ==> es@.len() < usize::MAX - 3,
        ensures
            final(self).wf(),
            final(self).uid == old(self).uid,
            final(self).gid == old(self).gid,
            final(self).block_size == old(self).block_size,
            final(self).writable == old(self).writable,
            final(self).inner.write_bufs == old(self).inner.write_bufs,
            final(self).inner.deldir == old(self).inner.deldir,
            final(self).inner.name_cache == old(self).inner.name_cache,
            listing is None ==> {
                &&& r == Err::<Vec<DirListing>, Errno>(Errno::Io)
                &&& final(self).inner.inodes@ == old(self).inner.inodes@
            },
            listing matches Some(es) ==> {
                &&& final(self).inner.inodes@ == adopt_all(
                    old(self).inner.inodes@,
                    es@,
                    ino,
                    old(self).uid,
                    old(self).gid,
                    old(self).block_size,
                )
                &&& (r matches Ok(l) && listing_from(
                    dir_listing(ino, parent_ino, es@, ino == FUSE_ROOT_INO && has_deldir),
                    offset,
                    l@,
                ))
            },
    {
        let entries = match listing {
            None => {
                return Err(Errno::Io);
            },
            Some(es) => es,
        };
        proof {
            reveal_strlit(".");
            reveal_strlit("..");
            reveal_strlit(".Trashcan");
        }
        let ghost m0 = self.inner.inodes@;
        let ghost s0 = *self;
        let mut full: Vec<DirListing> = Vec::new();
        full.push(DirListing { ino, kind: FileKind::Directory, name: owned("."), next_offset: 1 });
        full.push(DirListing { ino: parent_ino, kind: FileKind::Directory, name: owned(".."), next_offset: 2 });
        let n = entries.len();
        let mut i: usize = 0;
        assert(full@[0].name@ =~= dot_name());
        assert(full@[1].name@ =~= dotdot_name());
        while i < n
            invariant
                n == entries@.len(),
                n < usize::MAX - 3,
                s0.wf(),
                i <= n,
                self.uid == s0.uid,
                self.gid == s0.gid,
                self.block_size == s0.block_size,
                self.block_size > 0,
                self.writable == s0.writable,
                self.inner.name_cache == s0.inner.name_cache,
                self.inner.write_bufs == s0.inner.write_bufs,
                self.inner.deldir == s0.inner.deldir,
                self.inner.inodes@ == adopt_all(m0, entries@.subrange(0, i as int), ino, s0.uid, s0.gid, s0.block_size),
                full@.len() == i + 2,
                forall|j: int| 0 <= j < full@.len() ==> (#[trigger] full@[j]).next_offset == (j + 1) as i64,
                full@.map_values(|l: DirListing| listing_item(l)) =~~= dir_listing(ino, parent_ino, entries@, false).subrange(0, i + 2),
            decreases n - i,
        {
            let (child_ino, info) = make_attr(&entries[i], ino, self.uid, self.gid, self.block_size);
            let kind = info.attr.kind;
            self.inner.inodes.insert(child_ino, info);
            full.push(DirListing {
                ino: child_ino,
                kind,
                name: entries[i].name.clone(),
                next_offset: (i as u64 + 3) as i64,
            });
            proof {
                assert(entries@.subrange(0, i + 1).drop_last() =~= entries@.subrange(0, i as int));
            }
            i = i + 1;
            assert(full@.map_values(|l: DirListing| listing_item(l)) =~~= dir_listing(ino, parent_ino, entries@, false).subrange(0, i + 2));
        }
        assert(entries@.subrange(0, n as int) =~= entries@);
        assert(dir_listing(ino, parent_ino, entries@, false).subrange(0, n + 2) =~~= dir_listing(ino, parent_ino, entries@, false));
        let ghost before = full@;
        let with_trash = ino == FUSE_ROOT_INO && has_deldir;
        if with_trash {
            full.push(DirListing {
                ino: TRASHCAN_INO,
                kind: FileKind::Directory,
                name: owned(".Trashcan"),
                next_offset: (n as u64 + 3) as i64,
            });
            assert(full@[n + 2].name@ =~= trashcan_name());
            assert(full@ =~= before.push(full@[n + 2]));
            assert(dir_listing(ino, parent_ino, entries@, true) =~~= dir_listing(ino, parent_ino, entries@, false).push((TRASHCAN_INO, FileKind::Directory, trashcan_name())));
        }
        assert(full@.map_values(|l: DirListing| listing_item(l)) =~~= dir_listing(ino, parent_ino, entries@, with_trash));
        Ok(suffix_from(full, offset))
    }
}


/// What an `open` needs next.
pub enum OpenStep {
    /// Answer with this error.
    Fail(Errno),
    /// The file is open.
    Opened,
    /// Read the file's current contents (`size` bytes at `anode`; nothing
    /// if they cannot be read) and call `open_load_finish`.
    Load { anode: u32, size: u64 },
}

/// `b` is the pending contents `data` of file `name` in the directory
/// with anode `parent_anode`.
pub open spec fn buf_is(b: WriteBuf, parent_anode: u32, name: Seq<char>, data: Seq<u8>) -> bool {
    &&& b.parent_anode == parent_anode
    &&& b.name@ == name
    &&& b.data@ == data
}

/// `new` is `old` with the entry for `ino` set to a buffer as given.
pub open spec fn bufs_set(
    new: Map<u64, WriteBuf>,
    old: Map<u64, WriteBuf>,
    ino: u64,
    parent_anode: u32,
    name: Seq<char>,
    data: Seq<u8>,
) -> bool {
    &&& new.dom() == old.dom().insert(ino)
    &&& forall|k: u64| #[trigger] new.contains_key(k) && k != ino ==> new[k] == old[k]
    &&& buf_is(new[ino], parent_anode, name, data)
}

/// `new` is `old` with the attributes of inode `ino` replaced by `attr`.
pub open spec fn inode_attr_set(new: Map<u64, InodeInfo>, old: Map<u64, InodeInfo>, ino: u64, attr: Attr) -> bool {
    &&& new.dom() == old.dom()
    &&& forall|k: u64| #[trigger] new.contains_key(k) && k != ino ==> new[k] == old[k]
    &&& old.contains_key(ino) ==> {
        &&& new[ino].attr == attr
        &&& new[ino].anode == old[ino].anode
        &&& new[ino].parent_ino == old[ino].parent_ino
        &&& new[ino].amiga_protection == old[ino].amiga_protection
        &&& new[ino].name@ == old[ino].name@
    }
}

/// The contents of `old` after writing `data` at byte offset `off`: the
/// file grows (with zeros) to reach the end of the write if needed.
pub open spec fn write_at(old: Seq<u8>, off: int, data: Seq<u8>) -> Seq<u8> {
    let end = off + data.len();
    Seq::new(
        if end > old.len() {
            end as nat
        } else {
            old.len()
        },
        |i: int|
            if off <= i < end {
                data[i - off]
            } else if i < old.len() {
                old[i]
            } else {
                0u8
            },
    )
}

/// What a `release` needs next.
pub enum ReleaseStep {
    /// Nothing to store; answer success.
    Done,
    /// Store `buf.data` as the new contents of the file with anode
    /// `file_anode` and call `release_finish`.
    Flush { buf: WriteBuf, file_anode: u32 },
}

/// Where the protection bits of an inode live on the volume.
pub struct ProtTarget {
    /// The inode's name in its directory.
    pub name: String,
    /// Anode of the directory holding the entry.
    pub parent_anode: u32,
    /// The current protection bits.
    pub old_prot: u8,
    pub is_dir: bool,
}

/// Result of looking up where an inode's protection bits live.
pub enum ProtLookup {
    /// The inode is unknown.
    NoInode,
    /// The inode's directory is unknown.
    NoParent,
    /// The entry to update.
    Target(ProtTarget),
}

/// An answer to an extended-attribute request.
pub enum XattrReply {
    /// The caller asked for the size only.
    Size(u32),
    /// The attribute value (or list).
    Data(Vec<u8>),
    /// An error.
    Fail(Errno),
}

/// The answer to a file-system statistics request.
#[derive(Clone, Copy, Debug, PartialEq, Eq, Structural)]
pub struct StatFs {
    pub blocks: u64,
    pub bfree: u64,
    pub bavail: u64,
    pub files: u64,
    pub ffree: u64,
    pub bsize: u32,
    pub namelen: u32,
    pub frsize: u32,
}

/// File-system statistics: the volume's size and free blocks, its block
/// size and its maximum file-name length; no inode counts.
pub fn statfs_reply(disksize: u32, blocksfree: u32, bs: u32, fnsize: u32) -> (r: StatFs)
    ensures
        r == (StatFs {
            blocks: disksize as u64,
            bfree: blocksfree as u64,
            bavail: blocksfree as u64,
            files: 0,
            ffree: 0,
            bsize: bs,
            namelen: fnsize,
            frsize: 0,
        }),
{
    StatFs {
        blocks: disksize as u64,
        bfree: blocksfree as u64,
        bavail: blocksfree as u64,
        files: 0,
        ffree: 0,
        bsize: bs,
        namelen: fnsize,
        frsize: 0,
    }
}

/// New protection bits after a `chmod`: the HSPA bits (high nibble) are
/// kept, the RWED bits (low nibble) come from the mode.
pub open spec fn spec_chmod_protection(old_prot: u8, from_mode: u8) -> u8 {
    (old_prot & 0xF0u8) | (from_mode & 0x0Fu8)
}

/// Combines the HSPA bits of `old_prot` with the RWED bits that
/// `from_mode` (the protection derived from a Unix mode) carries.
pub fn chmod_protection(old_prot: u8, from_mode: u8) -> (r: u8)
    ensures
        r == spec_chmod_protection(old_prot, from_mode),
{
    (old_prot & 0xF0u8) | (from_mode & 0x0Fu8)
}

/// A `chmod` keeps the hidden, script, pure and archive bits and takes
/// read, write, execute and delete from the mode.
pub proof fn lemma_chmod_keeps_hspa(old_prot: u8, from_mode: u8)
    ensures
        spec_chmod_protection(old_prot, from_mode) & 0xF0u8 == old_prot & 0xF0u8,
        spec_chmod_protection(old_prot, from_mode) & 0x0Fu8 == from_mode & 0x0Fu8,
{
    assert(((old_prot & 0xF0u8) | (from_mode & 0x0Fu8)) & 0xF0u8 == old_prot & 0xF0u8) by (bit_vector);
    assert(((old_prot & 0xF0u8) | (from_mode & 0x0Fu8)) & 0x0Fu8 == from_mode & 0x0Fu8) by (bit_vector);
}

/// The name of the extended attribute carrying the protection bits.
pub open spec fn protection_xattr_name() -> Seq<char> {
    "user.amiga.protection"@
}

/// Whether `name` is the protection-bits extended attribute.
pub fn is_protection_xattr(name: &String) -> (r: bool)
    ensures
        r == (name@ == protection_xattr_name()),
{
    let t: String = owned("user.amiga.protection");
    *name == t
}

/// The attribute list offered for files: the protection attribute's name
/// followed by a NUL byte.
pub open spec fn protection_xattr_list() -> Seq<u8> {
    seq![117u8, 115, 101, 114, 46, 97, 109, 105, 103, 97, 46, 112, 114, 111, 116, 101, 99, 116, 105, 111, 110, 0]
}

/// The answer to an extended-attribute request with buffer size `size`:
/// the value's length when `size` is 0, too small when `size` is below
/// it, otherwise the value.
pub open spec fn spec_xattr_reply(value: Seq<u8>, size: u32, r: XattrReply) -> bool {
    if size == 0 {
        r == XattrReply::Size(value.len() as u32)
    } else if size < value.len() as u32 {
        r == XattrReply::Fail(Errno::Range)
    } else {
        r matches XattrReply::Data(d) && d@ == value
    }
}

/// Answers an extended-attribute request for `value`.
pub fn xattr_reply(value: Vec<u8>, size: u32) -> (r: XattrReply)
    ensures
        spec_xattr_reply(value@, size, r),
{
    if size == 0 {
        XattrReply::Size(value.len() as u32)
    } else if size < value.len() as u32 {
        XattrReply::Fail(Errno::Range)
    } else {
        XattrReply::Data(value)
    }
}

impl Pfs3Fs {
    /// The anode of the directory holding inode `ino`, or the root
    /// directory's when that directory is unknown.
    pub open spec fn parent_anode_of(&self, ino: u64) -> u32 {
        let p = self.inner.inodes@[ino].parent_ino;
        if self.inner.inodes@.contains_key(p) {
            self.inner.inodes@[p].anode
        } else {
            ANODE_ROOTDIR
        }
    }

    fn parent_anode(&self, ino: u64) -> (r: u32)
        requires
            self.inner.inodes@.contains_key(ino),
        ensures
            r == self.parent_anode_of(ino),
    {
        let p = match self.inner.inodes.get(&ino) {
            Some(info) => info.parent_ino,
            None => 0,
        };
        match self.inner.inodes.get(&p) {
            Some(pi) => pi.anode,
            None => ANODE_ROOTDIR,
        }
    }

    /// First step of `open`: unknown inodes and directories are refused;
    /// a file opened for writing on a writable volume gets a write buffer,
    /// empty when truncating, otherwise loaded with the current contents.
    pub fn open_start(&mut self, ino: u64, wants_write: bool, truncate: bool) -> (r: OpenStep)
        requires
            old(self).wf(),
        ensures
            final(self).wf(),
            final(self).uid == old(self).uid,
            final(self).gid == old(self).gid,
            final(self).block_size == old(self).block_size,
            final(self).writable == old(self).writable,
            final(self).inner.inodes == old(self).inner.inodes,
            final(self).inner.name_cache == old(self).inner.name_cache,
            final(self).inner.deldir == old(self).inner.deldir,
            !old(self).inner.inodes@.contains_key(ino) ==> r == OpenStep::Fail(Errno::NoEnt) && final(self).inner.write_bufs == old(self).inner.write_bufs,
            old(self).inner.inodes@.contains_key(ino) ==> {
                let info = old(self).inner.inodes@[ino];
                if info.attr.kind == FileKind::Directory {
                    &&& r == OpenStep::Fail(Errno::IsDir)
                    &&& final(self).inner.write_bufs == old(self).inner.write_bufs
                } else if old(self).writable && wants_write && truncate {
                    &&& r == OpenStep::Opened
                    &&& bufs_set(
                        final(self).inner.write_bufs@,
                        old(self).inner.write_bufs@,
                        ino,
                        old(self).parent_anode_of(ino),
                        info.name@,
                        Seq::empty(),
                    )
                } else if old(self).writable && wants_write {
                    &&& r == (OpenStep::Load { anode: info.anode, size: info.attr.size })
                    &&& final(self).inner.write_bufs == old(self).inner.write_bufs
                } else {
                    &&& r == OpenStep::Opened
                    &&& final(self).inner.write_bufs == old(self).inner.write_bufs
                }
            },
    {
        let (kind, anode, size, name) = match self.inner.inodes.get(&ino) {
            None => {
                return OpenStep::Fail(Errno::NoEnt);
            },
            Some(info) => (info.attr.kind, info.anode, info.attr.size, info.name.clone()),
        };
        if kind == FileKind::Directory {
            return OpenStep::Fail(Errno::IsDir);
        }
        if self.writable && wants_write {
            if truncate {
                let parent_anode = self.parent_anode(ino);
                self.inner.write_bufs.insert(ino, WriteBuf { parent_anode, name, data: Vec::new() });
                OpenStep::Opened
            } else {
                OpenStep::Load { anode, size }
            }
        } else {
            OpenStep::Opened
        }
    }

    /// Last step of `open` for writing: the file's current contents (empty
    /// if they could not be read) become its write buffer.
    pub fn open_load_finish(&mut self, ino: u64, data: Vec<u8>)
        requires
            old(self).wf(),
            old(self).inner.inodes@.contains_key(ino),
        ensures
            final(self).wf(),
            final(self).uid == old(self).uid,
            final(self).gid == old(self).gid,
            final(self).block_size == old(self).block_size,
            final(self).writable == old(self).writable,
            final(self).inner.inodes == old(self).inner.inodes,
            final(self).inner.name_cache == old(self).inner.name_cache,
            final(self).inner.deldir == old(self).inner.deldir,
            bufs_set(
                final(self).inner.write_bufs@,
                old(self).inner.write_bufs@,
                ino,
                old(self).parent_anode_of(ino),
                old(self).inner.inodes@[ino].name@,
                data@,
            ),
    {
        let parent_anode = self.parent_anode(ino);
        let name = match self.inner.inodes.get(&ino) {
            Some(info) => info.name.clone(),
            None => String::new(),
        };
        self.inner.write_bufs.insert(ino, WriteBuf { parent_anode, name, data });
    }

    /// Where the contents of inode `ino` live: its anode and size.
    pub fn file_location(&self, ino: u64) -> (r: Result<(u32, u64), Errno>)
        ensures
            r == (if self.inner.inodes@.contains_key(ino) {
                Ok((self.inner.inodes@[ino].anode, self.inner.inodes@[ino].attr.size))
            } else {
                Err(Errno::NoEnt)
            }),
    {
        match self.inner.inodes.get(&ino) {
            Some(info) => Ok((info.anode, info.attr.size)),
            None => Err(Errno::NoEnt),
        }
    }

    /// First step of `mkdir` and `create` in directory inode `parent`:
    /// read-only mounts and names that are not UTF-8 are refused, and the
    /// parent must be a known directory. Gives the parent's anode.
    pub fn make_entry_start(&self, parent: u64, name_is_utf8: bool) -> (r: Result<u32, Errno>)
        ensures
            r == (if !self.writable {
                Err(Errno::Perm)
            } else if !name_is_utf8 {
                Err(Errno::Io)
            } else if self.inner.inodes@.contains_key(parent) && self.inner.inodes@[parent].attr.kind
                == FileKind::Directory {
                Ok(self.inner.inodes@[parent].anode)
            } else {
                Err(Errno::NoEnt)
            }),
    {
        if !self.writable {
            return Err(Errno::Perm);
        }
        if !name_is_utf8 {
            return Err(Errno::Io);
        }
        match self.inner.inodes.get(&parent) {
            Some(info) => {
                if info.attr.kind == FileKind::Directory {
                    Ok(info.anode)
                } else {
                    Err(Errno::NoEnt)
                }
            },
            None => Err(Errno::NoEnt),
        }
    }

    /// Last step of `mkdir` of `name` in inode `parent`, given the parent's
    /// listing after the directory was made (`None` if it could not be
    /// read) and which entries match the name: the first match is recorded
    /// and answered; no match is an I/O error.
    pub fn mkdir_finish(
        &mut self,
        parent: u64,
        name: String,
        listing: Option<Vec<EntryInfo>>,
        matches: &Vec<bool>,
    ) -> (r: Result<Attr, Errno>)
        requires
            old(self).wf(),
            old(self).block_size > 0,
            listing matches Some(es) ==> es@.len() == matches@.len(),
        ensures
            final(self).wf(),
            final(self).uid == old(self).uid,
            final(self).gid == old(self).gid,
            final(self).block_size == old(self).block_size,
            final(self).writable == old(self).writable,
            final(self).inner.write_bufs == old(self).inner.write_bufs,
            final(self).inner.deldir == old(self).inner.deldir,
            listing is None || none_true(matches@) ==> {
                &&& r == Err::<Attr, Errno>(Errno::Io)
                &&& final(self).inner.inodes@ == old(self).inner.inodes@
                &&& final(self).inner.name_cache == old(self).inner.name_cache
            },
            listing matches Some(es) ==> forall|k: int| #[trigger] is_first_true(matches@, k) ==> {
                let e = es@[k];
                let ino = spec_anode_to_ino(e.anode);
                &&& r == Ok::<Attr, Errno>(entry_attr(e, old(self).uid, old(self).gid, old(self).block_size))
                &&& final(self).inner.inodes@ == old(self).inner.inodes@.insert(
                    ino,
                    entry_inode(e, parent, old(self).uid, old(self).gid, old(self).block_size),
                )
                &&& final(self).inner.name_cache.view() == old(self).inner.name_cache.view().insert((parent, name@), ino)
            },
    {
        match listing {
            None => Err(Errno::Io),
            Some(entries) => match self.adopt_entry(parent, name, &entries, matches) {
                Some(attr) => Ok(attr),
                None => Err(Errno::Io),
            },
        }
    }

    /// Last step of `create` of `name` in inode `parent` (whose anode is
    /// `parent_anode`): like `mkdir_finish`, and the new file also gets an
    /// empty write buffer.
    pub fn create_finish(
        &mut self,
        parent: u64,
        parent_anode: u32,
        name: String,
        listing: Option<Vec<EntryInfo>>,
        matches: &Vec<bool>,
    ) -> (r: Result<Attr, Errno>)
        requires
            old(self).wf(),
            old(self).block_size > 0,
            listing matches Some(es) ==> es@.len() == matches@.len(),
        ensures
            final(self).wf(),
            final(self).uid == old(self).uid,
            final(self).gid == old(self).gid,
            final(self).block_size == old(self).block_size,
            final(self).writable == old(self).writable,
            final(self).inner.deldir == old(self).inner.deldir,
            listing is None || none_true(matches@) ==> {
                &&& r == Err::<Attr, Errno>(Errno::Io)
                &&& final(self).inner.inodes@ == old(self).inner.inodes@
                &&& final(self).inner.name_cache == old(self).inner.name_cache
                &&& final(self).inner.write_bufs == old(self).inner.write_bufs
            },
            listing matches Some(es) ==> forall|k: int| #[trigger] is_first_true(matches@, k) ==> {
                let e = es@[k];
                let ino = spec_anode_to_ino(e.anode);
                &&& r == Ok::<Attr, Errno>(entry_attr(e, old(self).uid, old(self).gid, old(self).block_size))
                &&& final(self).inner.inodes@ == old(self).inner.inodes@.insert(
                    ino,
                    entry_inode(e, parent, old(self).uid, old(self).gid, old(self).block_size),
                )
                &&& final(self).inner.name_cache.view() == old(self).inner.name_cache.view().insert((parent, name@), ino)
                &&& bufs_set(
                    final(self).inner.write_bufs@,
                    old(self).inner.write_bufs@,
                    ino,
                    parent_anode,
                    name@,
                    Seq::empty(),
                )
            },
    {
        match listing {
            None => Err(Errno::Io),
            Some(entries) => {
                let buf_name = name.clone();
                match self.adopt_entry(parent, name, &entries, matches) {
                    Some(attr) => {
                        self.inner.write_bufs.insert(
                            attr.ino,
                            WriteBuf { parent_anode, name: buf_name, data: Vec::new() },
                        );
                        Ok(attr)
                    },
                    None => Err(Errno::Io),
                }
            },
        }
    }

    /// First step of `unlink` and `rmdir` in inode `parent`: read-only
    /// mounts and names that are not UTF-8 are refused, and the parent must
    /// be known. Gives the parent's anode.
    pub fn remove_entry_start(&self, parent: u64, name_is_utf8: bool) -> (r: Result<u32, Errno>)
        ensures
            r == (if !self.writable {
                Err(Errno::Perm)
            } else if !name_is_utf8 {
                Err(Errno::Io)
            } else if self.inner.inodes@.contains_key(parent) {
                Ok(self.inner.inodes@[parent].anode)
            } else {
                Err(Errno::NoEnt)
            }),
    {
        if !self.writable {
            return Err(Errno::Perm);
        }
        if !name_is_utf8 {
            return Err(Errno::Io);
        }
        match self.inner.inodes.get(&parent) {
            Some(info) => Ok(info.anode),
            None => Err(Errno::NoEnt),
        }
    }

    /// After `name` was removed from inode `parent`: forgets the name and
    /// the inode it was cached as.
    pub fn forget_entry(&mut self, parent: u64, name: &String)
        requires
            old(self).wf(),
        ensures
            final(self).wf(),
            final(self).uid == old(self).uid,
            final(self).gid == old(self).gid,
            final(self).block_size == old(self).block_size,
            final(self).writable == old(self).writable,
            final(self).inner.write_bufs == old(self).inner.write_bufs,
            final(self).inner.deldir == old(self).inner.deldir,
            final(self).inner.name_cache.view() == old(self).inner.name_cache.view().remove((parent, name@)),
            final(self).inner.inodes@ == (if old(self).inner.name_cache.view().contains_key((parent, name@)) {
                old(self).inner.inodes@.remove(old(self).inner.name_cache.view()[(parent, name@)])
            } else {
                old(self).inner.inodes@
            }),
    {
        match self.inner.name_cache.remove(parent, name) {
            Some(ino) => {
                self.inner.inodes.remove(&ino);
            },
            None => {},
        }
    }

    /// After a file `name` was deleted from inode `parent`: forgets it and
    /// rebuilds the `.Trashcan` snapshot from the volume's deleted files.
    pub fn unlink_done(&mut self, parent: u64, name: &String, deleted: Vec<DeletedFile>)
        requires
            old(self).wf(),
            deleted@.len() < u32::MAX,
        ensures
            final(self).wf(),
            final(self).uid == old(self).uid,
            final(self).gid == old(self).gid,
            final(self).block_size == old(self).block_size,
            final(self).writable == old(self).writable,
            final(self).inner.write_bufs == old(self).inner.write_bufs,
            final(self).inner.name_cache.view() == old(self).inner.name_cache.view().remove((parent, name@)),
            final(self).inner.inodes@ == (if old(self).inner.name_cache.view().contains_key((parent, name@)) {
                old(self).inner.inodes@.remove(old(self).inner.name_cache.view()[(parent, name@)])
            } else {
                old(self).inner.inodes@
            }).remove_keys(deldir_inos(old(self).inner.deldir@)),
            final(self).inner.deldir@.len() == deleted@.len(),
            forall|i: int|
                0 <= i < deleted@.len() ==> deldir_entry_matches(
                    #[trigger] final(self).inner.deldir@[i],
                    deleted@,
                    i,
                ),
    {
        self.forget_entry(parent, name);
        self.rebuild_deldir(deleted);
    }

    /// First step of `rename`: read-only mounts and names that are not
    /// UTF-8 are refused, and both directories must be known. Gives the
    /// anodes of the source and destination directories.
    pub fn rename_start(&self, parent: u64, newparent: u64, names_are_utf8: bool) -> (r: Result<(u32, u32), Errno>)
        ensures
            r == (if !self.writable {
                Err(Errno::Perm)
            } else if !names_are_utf8 {
                Err(Errno::Io)
            } else if !self.inner.inodes@.contains_key(parent) || !self.inner.inodes@.contains_key(newparent) {
                Err(Errno::NoEnt)
            } else {
                Ok((self.inner.inodes@[parent].anode, self.inner.inodes@[newparent].anode))
            }),
    {
        if !self.writable {
            return Err(Errno::Perm);
        }
        if !names_are_utf8 {
            return Err(Errno::Io);
        }
        let src = match self.inner.inodes.get(&parent) {
            Some(info) => info.anode,
            None => {
                return Err(Errno::NoEnt);
            },
        };
        let dst = match self.inner.inodes.get(&newparent) {
            Some(info) => info.anode,
            None => {
                return Err(Errno::NoEnt);
            },
        };
        Ok((src, dst))
    }

    /// After `name` in inode `parent` was renamed to `newname` in
    /// `newparent`: a cached inode takes the new name and parent and is
    /// cached under the new key; the old key is forgotten.
    pub fn rename_done(&mut self, parent: u64, name: &String, newparent: u64, newname: String)
        requires
            old(self).wf(),
        ensures
            final(self).wf(),
            final(self).uid == old(self).uid,
            final(self).gid == old(self).gid,
            final(self).block_size == old(self).block_size,
            final(self).writable == old(self).writable,
            final(self).inner.write_bufs == old(self).inner.write_bufs,
            final(self).inner.deldir == old(self).inner.deldir,
            ({
                let c = old(self).inner.name_cache.view();
                let m = old(self).inner.inodes@;
                let key = (parent, name@);
                if c.contains_key(key) {
                    let ino = c[key];
                    &&& final(self).inner.name_cache.view() == c.insert((newparent, newname@), ino).remove(key)
                    &&& final(self).inner.inodes@.dom() == m.dom()
                    &&& forall|k: u64| #[trigger] m.contains_key(k) && k != ino ==> final(self).inner.inodes@[k] == m[k]
                    &&& m.contains_key(ino) ==> {
                        &&& final(self).inner.inodes@[ino].attr == m[ino].attr
                        &&& final(self).inner.inodes@[ino].anode == m[ino].anode
                        &&& final(self).inner.inodes@[ino].amiga_protection == m[ino].amiga_protection
                        &&& final(self).inner.inodes@[ino].parent_ino == newparent
                        &&& final(self).inner.inodes@[ino].name@ == newname@
                    }
                } else {
                    &&& final(self).inner.name_cache.view() == c
                    &&& final(self).inner.inodes@ == m
                }
            }),
    {
        let ghost c0 = self.inner.name_cache.view();
        match self.inner.name_cache.get(parent, name) {
            Some(ino) => {
                match self.inner.inodes.remove(&ino) {
                    Some(info) => {
                        let updated = InodeInfo {
                            attr: info.attr,
                            anode: info.anode,
                            parent_ino: newparent,
                            amiga_protection: info.amiga_protection,
                            name: newname.clone(),
                        };
                        self.inner.inodes.insert(ino, updated);
                    },
                    None => {},
                }
                self.inner.name_cache.insert(newparent, newname, ino);
            },
            None => {},
        }
        self.inner.name_cache.remove(parent, name);
        proof {
            if !c0.contains_key((parent, name@)) {
                assert(self.inner.name_cache.view() =~= c0);
            }
        }
    }
}


/// `a` with its size replaced.
pub open spec fn attr_with_size(a: Attr, size: u64) -> Attr {
    Attr { size, ..a }
}

/// `a` with its size and block count replaced.
pub open spec fn attr_with_size_blocks(a: Attr, size: u64, blocks: u64) -> Attr {
    Attr { size, blocks, ..a }
}

/// `a` with its permission bits replaced.
pub open spec fn attr_with_perm(a: Attr, perm: u16) -> Attr {
    Attr { perm, ..a }
}

/// `old` cut or zero-extended to `n` bytes.
pub open spec fn resized(old: Seq<u8>, n: nat) -> Seq<u8> {
    Seq::new(n, |i: int| if i < old.len() { old[i] } else { 0u8 })
}


/// `r` tells where the protection bits of inode `ino` live, given the
/// inode table `inodes`: nowhere when the inode is unknown or its
/// directory is unknown; otherwise under the inode's name in its parent's
/// directory, with the bits the inode currently has.
pub open spec fn is_protection_lookup(inodes: Map<u64, InodeInfo>, ino: u64, r: ProtLookup) -> bool {
    if !inodes.contains_key(ino) {
        r is NoInode
    } else {
        let info = inodes[ino];
        if !inodes.contains_key(info.parent_ino) {
            r is NoParent
        } else {
            r matches ProtLookup::Target(t) && t.name@ == info.name@ && t.parent_anode
                == inodes[info.parent_ino].anode && t.old_prot == info.amiga_protection && t.is_dir
                == (info.attr.kind == FileKind::Directory)
        }
    }
}

/// What `getxattr` of attribute `name` gives for inode `ino` with the
/// inode table `inodes`: the root and `.Trashcan` have no attributes;
/// names that are not UTF-8 and unknown inodes are not found; names other
/// than the protection attribute have no data.
pub open spec fn getxattr_result(
    inodes: Map<u64, InodeInfo>,
    ino: u64,
    name_is_utf8: bool,
    name_is_protection: bool,
) -> Result<u8, Errno> {
    if ino == FUSE_ROOT_INO || ino == TRASHCAN_INO {
        Err(Errno::NoData)
    } else if !name_is_utf8 {
        Err(Errno::NoEnt)
    } else if !name_is_protection {
        Err(Errno::NoData)
    } else if inodes.contains_key(ino) {
        Ok(inodes[ino].amiga_protection)
    } else {
        Err(Errno::NoEnt)
    }
}

/// Protection bits stored for a known inode (by `setxattr` or `chmod`)
/// are what `getxattr` of the protection attribute gives back, all eight
/// of them; other inodes read as before.
pub proof fn lemma_protection_read_back(
    new: Map<u64, InodeInfo>,
    old: Map<u64, InodeInfo>,
    ino: u64,
    prot: u8,
    mode: u32,
    other: u64,
)
    requires
        protection_stored(new, old, ino, prot, mode),
        old.contains_key(ino),
        ino != FUSE_ROOT_INO,
        ino != TRASHCAN_INO,
    ensures
        getxattr_result(new, ino, true, true) == Ok::<u8, Errno>(prot),
        other != ino ==> getxattr_result(new, other, true, true) == getxattr_result(old, other, true, true),
{
    if other != ino && new.contains_key(other) {
        assert(new[other] == old[other]);
    }
}

/// A `chmod` of a known inode in a known directory: storing the bits that
/// `chmod_protection` makes from the target's current bits and the bits of
/// the new mode keeps the hidden, script, pure and archive bits, takes
/// read, write, execute and delete from the mode, and sets the inode's
/// permissions from the mode.
pub proof fn lemma_chmod_stores_protection(
    new: Map<u64, InodeInfo>,
    old: Map<u64, InodeInfo>,
    ino: u64,
    t: ProtTarget,
    from_mode: u8,
    mode: u32,
)
    requires
        is_protection_lookup(old, ino, ProtLookup::Target(t)),
        protection_stored(new, old, ino, spec_chmod_protection(t.old_prot, from_mode), mode),
    ensures
        new.contains_key(ino),
        new[ino].amiga_protection & 0xF0u8 == old[ino].amiga_protection & 0xF0u8,
        new[ino].amiga_protection & 0x0Fu8 == from_mode & 0x0Fu8,
        new[ino].attr.perm == (mode & 0o777u32) as u16,
{
    lemma_chmod_keeps_hspa(t.old_prot, from_mode);
}

/// The inode table `new` is `old` with inode `ino` carrying protection
/// bits `prot` and the permissions of `mode` (nothing else changes, and
/// nothing at all when `ino` is unknown).
pub open spec fn protection_stored(
    new: Map<u64, InodeInfo>,
    old: Map<u64, InodeInfo>,
    ino: u64,
    prot: u8,
    mode: u32,
) -> bool {
    &&& new.dom() == old.dom()
    &&& forall|k: u64| #[trigger] new.contains_key(k) && k != ino ==> new[k] == old[k]
    &&& old.contains_key(ino) ==> {
        let o = old[ino];
        let n = new[ino];
        &&& n.attr == attr_with_perm(o.attr, (mode & 0o777u32) as u16)
        &&& n.amiga_protection == prot
        &&& n.anode == o.anode
        &&& n.parent_ino == o.parent_ino
        &&& n.name@ == o.name@
    }
}

impl Pfs3Fs {
    /// Replaces the attributes of inode `ino` (if known) by `f(attr)`.
    fn update_attr_size(&mut self, ino: u64, size: u64, blocks: Option<u64>)
        requires
            old(self).wf(),
        ensures
            final(self).wf(),
            final(self).uid == old(self).uid,
            final(self).gid == old(self).gid,
            final(self).block_size == old(self).block_size,
            final(self).writable == old(self).writable,
            final(self).inner.write_bufs == old(self).inner.write_bufs,
            final(self).inner.deldir == old(self).inner.deldir,
            final(self).inner.name_cache == old(self).inner.name_cache,
            old(self).inner.inodes@.contains_key(ino) ==> inode_attr_set(
                final(self).inner.inodes@,
                old(self).inner.inodes@,
                ino,
                match blocks {
                    Some(b) => attr_with_size_blocks(old(self).inner.inodes@[ino].attr, size, b),
                    None => attr_with_size(old(self).inner.inodes@[ino].attr, size),
                },
            ),
            !old(self).inner.inodes@.contains_key(ino) ==> final(self).inner.inodes@ == old(self).inner.inodes@,
    {
        match self.inner.inodes.remove(&ino) {
            Some(info) => {
                let mut attr = info.attr;
                attr.size = size;
                match blocks {
                    Some(b) => {
                        attr.blocks = b;
                    },
                    None => {},
                }
                self.inner.inodes.insert(
                    ino,
                    InodeInfo {
                        attr,
                        anode: info.anode,
                        parent_ino: info.parent_ino,
                        amiga_protection: info.amiga_protection,
                        name: info.name,
                    },
                );
                assert(self.inner.inodes@.dom() =~= old(self).inner.inodes@.dom());
                assert(forall|k: u64| #[trigger] self.inner.inodes@.contains_key(k) && k != ino
                    ==> self.inner.inodes@[k] == old(self).inner.inodes@[k]);
            },
            None => {
                assert(self.inner.inodes@ =~= old(self).inner.inodes@);
            },
        }
    }

    /// Answers `write` of `data` at `offset` into the write buffer of inode
    /// `ino`: the buffer grows (with zeros) as needed, the inode's size
    /// follows the buffer, and the number of bytes written is answered.
    pub fn write_data(&mut self, ino: u64, offset: i64, data: &[u8]) -> (r: Result<u32, Errno>)
        requires
            old(self).wf(),
            old(self).writable && old(self).inner.write_bufs@.contains_key(ino) ==> 0 <= offset
                && offset + data@.len() <= usize::MAX,
        ensures
            final(self).wf(),
            final(self).uid == old(self).uid,
            final(self).gid == old(self).gid,
            final(self).block_size == old(self).block_size,
            final(self).writable == old(self).writable,
            final(self).inner.deldir == old(self).inner.deldir,
            final(self).inner.name_cache == old(self).inner.name_cache,
            !old(self).writable ==> {
                &&& r == Err::<u32, Errno>(Errno::Perm)
                &&& final(self).inner.inodes == old(self).inner.inodes
                &&& final(self).inner.write_bufs == old(self).inner.write_bufs
            },
            old(self).writable && !old(self).inner.write_bufs@.contains_key(ino) ==> {
                &&& r == Err::<u32, Errno>(Errno::Io)
                &&& final(self).inner.inodes == old(self).inner.inodes
                &&& final(self).inner.write_bufs == old(self).inner.write_bufs
            },
            old(self).writable && old(self).inner.write_bufs@.contains_key(ino) ==> {
                let b = old(self).inner.write_bufs@[ino];
                let newdata = write_at(b.data@, offset as int, data@);
                &&& r == Ok::<u32, Errno>(data.len() as u32)
                &&& bufs_set(
                    final(self).inner.write_bufs@,
                    old(self).inner.write_bufs@,
                    ino,
                    b.parent_anode,
                    b.name@,
                    newdata,
                )
                &&& old(self).inner.inodes@.contains_key(ino) ==> inode_attr_set(
                    final(self).inner.inodes@,
                    old(self).inner.inodes@,
                    ino,
                    attr_with_size(old(self).inner.inodes@[ino].attr, newdata.len() as u64),
                )
                &&& !old(self).inner.inodes@.contains_key(ino) ==> final(self).inner.inodes@
                    == old(self).inner.inodes@
            },
    {
        if !self.writable {
            return Err(Errno::Perm);
        }
        if !self.inner.write_bufs.contains_key(&ino) {
            return Err(Errno::Io);
        }
        let mut buf = match self.inner.write_bufs.remove(&ino) {
            Some(b) => b,
            None => WriteBuf { parent_anode: 0, name: String::new(), data: Vec::new() },
        };
        let ghost b0 = buf;
        let ghost old_data = buf.data@;
        let off = offset as usize;
        let n = data.len();
        let end = off + n;
        if end > buf.data.len() {
            buf.data.resize(end, 0u8);
        }
        let ghost mid = buf.data@;
        let mut k: usize = 0;
        while k < n
            invariant
                buf.parent_anode == b0.parent_anode,
                buf.name == b0.name,
                n == data@.len(),
                end == off + n,
                off == offset,
                buf.data@.len() == mid.len(),
                mid.len() >= end,
                k <= n,
                forall|i: int| 0 <= i < mid.len() ==> #[trigger] buf.data@[i] == if off <= i < off + k {
                    data@[i - off]
                } else {
                    mid[i]
                },
            decreases n - k,
        {
            buf.data.set(off + k, data[k]);
            k = k + 1;
        }
        proof {
            assert forall|i: int| 0 <= i < mid.len() && !(off <= i < end) implies mid[i] == (if i < old_data.len() { old_data[i] } else { 0u8 }) by {
                if i < old_data.len() {
                    if end > old_data.len() {
                        assert(mid.subrange(0, old_data.len() as int)[i] == old_data[i]);
                    }
                }
            }
            assert(buf.data@ =~= write_at(old_data, offset as int, data@));
        }
        let new_len = buf.data.len() as u64;
        self.inner.write_bufs.insert(ino, buf);
        self.update_attr_size(ino, new_len, None);
        assert(self.inner.write_bufs@.dom() =~= old(self).inner.write_bufs@.dom().insert(ino));
        Ok(n as u32)
    }

    /// First step of `release` of inode `ino`: its write buffer is taken;
    /// a non-empty buffer of a file on a writable volume is to be stored,
    /// anything else is dropped.
    pub fn release_take(&mut self, ino: u64) -> (r: ReleaseStep)
        requires
            old(self).wf(),
        ensures
            final(self).wf(),
            final(self).uid == old(self).uid,
            final(self).gid == old(self).gid,
            final(self).block_size == old(self).block_size,
            final(self).writable == old(self).writable,
            final(self).inner.inodes == old(self).inner.inodes,
            final(self).inner.deldir == old(self).inner.deldir,
            final(self).inner.name_cache == old(self).inner.name_cache,
            final(self).inner.write_bufs@ == old(self).inner.write_bufs@.remove(ino),
            !old(self).inner.write_bufs@.contains_key(ino) ==> r is Done,
            old(self).inner.write_bufs@.contains_key(ino) ==> {
                let b = old(self).inner.write_bufs@[ino];
                let file_anode = if old(self).inner.inodes@.contains_key(ino) {
                    old(self).inner.inodes@[ino].anode
                } else {
                    0
                };
                if b.data@.len() != 0 && old(self).writable && file_anode != 0 {
                    r matches ReleaseStep::Flush { buf, file_anode: fa } && buf == b && fa == file_anode
                } else {
                    r is Done
                }
            },
    {
        let buf = match self.inner.write_bufs.remove(&ino) {
            Some(b) => b,
            None => {
                return ReleaseStep::Done;
            },
        };
        if buf.data.len() == 0 {
            return ReleaseStep::Done;
        }
        let file_anode = match self.inner.inodes.get(&ino) {
            Some(info) => info.anode,
            None => 0,
        };
        if self.writable && file_anode != 0 {
            ReleaseStep::Flush { buf, file_anode }
        } else {
            ReleaseStep::Done
        }
    }

    /// Last step of `release`: when the buffer was stored, the inode's size
    /// and block count follow it; when storing failed, the buffer is kept
    /// for a later attempt and an I/O error is answered.
    pub fn release_finish(&mut self, ino: u64, buf: WriteBuf, stored: bool) -> (r: Result<(), Errno>)
        requires
            old(self).wf(),
            old(self).block_size > 0,
        ensures
            final(self).wf(),
            final(self).uid == old(self).uid,
            final(self).gid == old(self).gid,
            final(self).block_size == old(self).block_size,
            final(self).writable == old(self).writable,
            final(self).inner.deldir == old(self).inner.deldir,
            final(self).inner.name_cache == old(self).inner.name_cache,
            stored ==> {
                &&& r == Ok::<(), Errno>(())
                &&& final(self).inner.write_bufs == old(self).inner.write_bufs
                &&& old(self).inner.inodes@.contains_key(ino) ==> inode_attr_set(
                    final(self).inner.inodes@,
                    old(self).inner.inodes@,
                    ino,
                    attr_with_size_blocks(
                        old(self).inner.inodes@[ino].attr,
                        buf.data@.len() as u64,
                        div_ceil(buf.data@.len() as int, old(self).block_size as int) as u64,
                    ),
                )
                &&& !old(self).inner.inodes@.contains_key(ino) ==> final(self).inner.inodes@
                    == old(self).inner.inodes@
            },
            !stored ==> {
                &&& r == Err::<(), Errno>(Errno::Io)
                &&& final(self).inner.write_bufs@ == old(self).inner.write_bufs@.insert(ino, buf)
                &&& final(self).inner.inodes == old(self).inner.inodes
            },
    {
        if stored {
            let len = buf.data.len() as u64;
            let blocks = u64_div_ceil(len, self.block_size as u64);
            self.update_attr_size(ino, len, Some(blocks));
            Ok(())
        } else {
            self.inner.write_bufs.insert(ino, buf);
            Err(Errno::Io)
        }
    }

    /// The size part of `setattr`: the inode's size is set and its write
    /// buffer, if any, is cut or zero-extended to that size.
    pub fn setattr_size(&mut self, ino: u64, size: u64)
        requires
            old(self).wf(),
        ensures
            final(self).wf(),
            final(self).uid == old(self).uid,
            final(self).gid == old(self).gid,
            final(self).block_size == old(self).block_size,
            final(self).writable == old(self).writable,
            final(self).inner.deldir == old(self).inner.deldir,
            final(self).inner.name_cache == old(self).inner.name_cache,
            old(self).inner.inodes@.contains_key(ino) ==> inode_attr_set(
                final(self).inner.inodes@,
                old(self).inner.inodes@,
                ino,
                attr_with_size(old(self).inner.inodes@[ino].attr, size),
            ),
            !old(self).inner.inodes@.contains_key(ino) ==> final(self).inner.inodes@ == old(self).inner.inodes@,
            old(self).inner.write_bufs@.contains_key(ino) ==> {
                let b = old(self).inner.write_bufs@[ino];
                bufs_set(
                    final(self).inner.write_bufs@,
                    old(self).inner.write_bufs@,
                    ino,
                    b.parent_anode,
                    b.name@,
                    resized(b.data@, (size as usize) as nat),
                )
            },
            !old(self).inner.write_bufs@.contains_key(ino) ==> final(self).inner.write_bufs == old(self).inner.write_bufs,
    {
        self.update_attr_size(ino, size, None);
        if !self.inner.write_bufs.contains_key(&ino) {
            return;
        }
        match self.inner.write_bufs.remove(&ino) {
            Some(b) => {
                let mut buf = b;
                let ghost d0 = buf.data@;
                buf.data.resize(size as usize, 0u8);
                proof {
                    if (size as usize) <= d0.len() {
                        assert(buf.data@ =~= resized(d0, (size as usize) as nat));
                    } else {
                        assert forall|i: int| 0 <= i < d0.len() implies buf.data@[i] == d0[i] by {
                            assert(buf.data@.subrange(0, d0.len() as int)[i] == d0[i]);
                        }
                        assert(buf.data@ =~= resized(d0, (size as usize) as nat));
                    }
                }
                self.inner.write_bufs.insert(ino, buf);
                assert(self.inner.write_bufs@.dom() =~= old(self).inner.write_bufs@.dom().insert(ino));
            },
            None => {},
        }
    }

    /// Where the protection bits of inode `ino` live on the volume.
    pub fn protection_lookup(&self, ino: u64) -> (r: ProtLookup)
        ensures
            is_protection_lookup(self.inner.inodes@, ino, r),
    {
        let (name, parent_ino, old_prot, is_dir) = match self.inner.inodes.get(&ino) {
            None => {
                return ProtLookup::NoInode;
            },
            Some(info) => (info.name.clone(), info.parent_ino, info.amiga_protection, info.attr.kind == FileKind::Directory),
        };
        match self.inner.inodes.get(&parent_ino) {
            None => ProtLookup::NoParent,
            Some(p) => ProtLookup::Target(ProtTarget { name, parent_anode: p.anode, old_prot, is_dir }),
        }
    }

    /// The mode part of `setattr`: refused on a read-only mount; otherwise
    /// where the protection bits live.
    pub fn setattr_mode_start(&self, ino: u64) -> (r: Result<ProtLookup, Errno>)
        ensures
            !self.writable ==> r == Err::<ProtLookup, Errno>(Errno::Perm),
            self.writable ==> (r matches Ok(l) && is_protection_lookup(self.inner.inodes@, ino, l)),
    {
        if !self.writable {
            return Err(Errno::Perm);
        }
        Ok(self.protection_lookup(ino))
    }

    /// After new protection bits `prot` were stored for inode `ino`: the
    /// inode records them, and its permissions become the low nine bits of
    /// `mode` (the Unix mode derived from `prot`).
    pub fn set_protection_done(&mut self, ino: u64, prot: u8, mode: u32)
        requires
            old(self).wf(),
        ensures
            final(self).wf(),
            final(self).uid == old(self).uid,
            final(self).gid == old(self).gid,
            final(self).block_size == old(self).block_size,
            final(self).writable == old(self).writable,
            final(self).inner.deldir == old(self).inner.deldir,
            final(self).inner.name_cache == old(self).inner.name_cache,
            final(self).inner.write_bufs == old(self).inner.write_bufs,
            protection_stored(final(self).inner.inodes@, old(self).inner.inodes@, ino, prot, mode),
    {
        match self.inner.inodes.remove(&ino) {
            Some(info) => {
                let mut attr = info.attr;
                attr.perm = (mode & 0o777u32) as u16;
                self.inner.inodes.insert(
                    ino,
                    InodeInfo {
                        attr,
                        anode: info.anode,
                        parent_ino: info.parent_ino,
                        amiga_protection: prot,
                        name: info.name,
                    },
                );
                assert(self.inner.inodes@.dom() =~= old(self).inner.inodes@.dom());
                assert(forall|k: u64| #[trigger] self.inner.inodes@.contains_key(k) && k != ino
                    ==> self.inner.inodes@[k] == old(self).inner.inodes@[k]);
            },
            None => {
                assert(self.inner.inodes@ =~= old(self).inner.inodes@);
            },
        }
    }

    /// The attributes recorded for inode `ino`.
    pub fn inode_attr(&self, ino: u64) -> (r: Result<Attr, Errno>)
        ensures
            r == (if self.inner.inodes@.contains_key(ino) {
                Ok(self.inner.inodes@[ino].attr)
            } else {
                Err(Errno::NoEnt)
            }),
    {
        match self.inner.inodes.get(&ino) {
            Some(info) => Ok(info.attr),
            None => Err(Errno::NoEnt),
        }
    }

    /// `getxattr` of the protection attribute: the root and `.Trashcan`
    /// have none; names that are not UTF-8 and unknown inodes are not
    /// found; other attribute names have no data. Gives the bits.
    pub fn getxattr_protection(&self, ino: u64, name_is_utf8: bool, name_is_protection: bool) -> (r: Result<u8, Errno>)
        ensures
            r == getxattr_result(self.inner.inodes@, ino, name_is_utf8, name_is_protection),
    {
        if ino == FUSE_ROOT_INO || ino == TRASHCAN_INO {
            return Err(Errno::NoData);
        }
        if !name_is_utf8 {
            return Err(Errno::NoEnt);
        }
        if !name_is_protection {
            return Err(Errno::NoData);
        }
        match self.inner.inodes.get(&ino) {
            Some(info) => Ok(info.amiga_protection),
            None => Err(Errno::NoEnt),
        }
    }

    /// First step of `setxattr`: refused on a read-only mount; names that
    /// are not UTF-8 are an I/O error; only the protection attribute is
    /// supported. Gives the current bits (0 for an unknown inode).
    pub fn setxattr_start(&self, ino: u64, name_is_utf8: bool, name_is_protection: bool) -> (r: Result<u8, Errno>)
        ensures
            r == (if !self.writable {
                Err(Errno::Perm)
            } else if !name_is_utf8 {
                Err(Errno::Io)
            } else if !name_is_protection {
                Err(Errno::NotSup)
            } else if self.inner.inodes@.contains_key(ino) {
                Ok(self.inner.inodes@[ino].amiga_protection)
            } else {
                Ok(0u8)
            }),
    {
        if !self.writable {
            return Err(Errno::Perm);
        }
        if !name_is_utf8 {
            return Err(Errno::Io);
        }
        if !name_is_protection {
            return Err(Errno::NotSup);
        }
        match self.inner.inodes.get(&ino) {
            Some(info) => Ok(info.amiga_protection),
            None => Ok(0),
        }
    }

    /// Answers `listxattr` of inode `ino` with buffer size `size`: unknown
    /// inodes are not found; the root and `.Trashcan` list nothing; every
    /// other inode lists the protection attribute.
    pub fn listxattr(&self, ino: u64, size: u32) -> (r: XattrReply)
        ensures
            !self.inner.inodes@.contains_key(ino) ==> r == XattrReply::Fail(Errno::NoEnt),
            self.inner.inodes@.contains_key(ino) && (ino == FUSE_ROOT_INO || ino == TRASHCAN_INO)
                ==> if size == 0 {
                r == XattrReply::Size(0)
            } else {
                r matches XattrReply::Data(d) && d@.len() == 0
            },
            self.inner.inodes@.contains_key(ino) && ino != FUSE_ROOT_INO && ino != TRASHCAN_INO
                ==> spec_xattr_reply(protection_xattr_list(), size, r),
    {
        if !self.inner.inodes.contains_key(&ino) {
            return XattrReply::Fail(Errno::NoEnt);
        }
        if ino == FUSE_ROOT_INO || ino == TRASHCAN_INO {
            if size == 0 {
                return XattrReply::Size(0);
            } else {
                return XattrReply::Data(Vec::new());
            }
        }
        let list: Vec<u8> = vec![117u8, 115, 101, 114, 46, 97, 109, 105, 103, 97, 46, 112, 114, 111, 116, 101, 99, 116, 105, 111, 110, 0];
        assert(list@ =~= protection_xattr_list());
        xattr_reply(list, size)
    }
}


/// A name recorded by `lookup`, `mkdir`, `create` or `readdir` is
/// answered by `getattr` with the attributes recorded for it.
pub proof fn lemma_recorded_entry_getattr(
    before: Pfs3Fs,
    after: Pfs3Fs,
    e: EntryInfo,
    parent: u64,
    has_deldir: bool,
)
    requires
        after.uid == before.uid,
        after.gid == before.gid,
        after.inner.inodes@ == before.inner.inodes@.insert(
            spec_anode_to_ino(e.anode),
            entry_inode(e, parent, before.uid, before.gid, before.block_size),
        ),
    ensures
        after.spec_getattr(spec_anode_to_ino(e.anode), has_deldir) == Ok::<Attr, Errno>(
            entry_attr(e, before.uid, before.gid, before.block_size),
        ),
{
    lemma_anode_to_ino_injective(e.anode, e.anode);
}

/// Data written into a write buffer reads back from where it was written;
/// bytes before and after the written range are kept, a gap between the
/// old end and the write reads as zeros, and the buffer is at least as
/// long as before and as the end of the write.
pub proof fn lemma_write_at_reads_back(old: Seq<u8>, off: int, data: Seq<u8>)
    requires
        0 <= off,
    ensures
        write_at(old, off, data).len() == if off + data.len() > old.len() {
            (off + data.len()) as nat
        } else {
            old.len()
        },
        write_at(old, off, data).subrange(off, off + data.len()) == data,
        forall|i: int| 0 <= i < off && i < old.len() ==> #[trigger] write_at(old, off, data)[i] == old[i],
        forall|i: int| old.len() <= i < off ==> #[trigger] write_at(old, off, data)[i] == 0,
        forall|i: int|
            off + data.len() <= i < old.len() ==> #[trigger] write_at(old, off, data)[i] == old[i],
{
    assert(write_at(old, off, data).subrange(off, off + data.len()) =~= data);
}

/// A directory listing starts with "." (the directory itself) and ".."
/// (its parent), lists every entry in order under its inode, kind and
/// name, and ends with `.Trashcan` exactly when asked to.
pub proof fn lemma_dir_listing_shape(ino: u64, parent_ino: u64, entries: Seq<EntryInfo>, with_trash: bool)
    ensures
        dir_listing(ino, parent_ino, entries, with_trash)[0] == (ino, FileKind::Directory, dot_name()),
        dir_listing(ino, parent_ino, entries, with_trash)[1] == (parent_ino, FileKind::Directory, dotdot_name()),
        forall|i: int| 0 <= i < entries.len() ==> #[trigger] dir_listing(ino, parent_ino, entries, with_trash)[i + 2]
            == (spec_anode_to_ino(entries[i].anode), entry_kind(entries[i]), entries[i].name@),
        dir_listing(ino, parent_ino, entries, with_trash).len() == entries.len() + 2 + if with_trash { 1int } else { 0int },
        with_trash ==> dir_listing(ino, parent_ino, entries, with_trash).last() == (
            TRASHCAN_INO,
            FileKind::Directory,
            trashcan_name(),
        ),
{
}

/// The deleted files shown in `.Trashcan` get pairwise distinct inodes,
/// none of which is the mount root's or the `.Trashcan`'s; the first 97
/// also stay clear of every inode an anode can be given.
pub proof fn lemma_deldir_inos_distinct(deldir: Seq<DeldirEntry>, entries: Seq<DeletedFile>, i: int, j: int, anode: u32)
    requires
        deldir.len() == entries.len(),
        forall|k: int| 0 <= k < entries.len() ==> deldir_entry_matches(#[trigger] deldir[k], entries, k),
        0 <= i < deldir.len(),
        0 <= j < deldir.len(),
    ensures
        i != j ==> deldir[i].ino != deldir[j].ino,
        deldir[i].ino != FUSE_ROOT_INO,
        deldir[i].ino != TRASHCAN_INO,
        i < 97 ==> deldir[i].ino != spec_anode_to_ino(anode),
{
    assert(deldir_entry_matches(deldir[i], entries, i));
    assert(deldir_entry_matches(deldir[j], entries, j));
}

/// The first deleted file of a name (up to ASCII case) keeps its name;
/// each later one gets the name with ".n" appended, n counting the
/// earlier ones.
pub proof fn lemma_first_deleted_keeps_name(entries: Seq<DeletedFile>, i: int)
    requires
        0 <= i < entries.len(),
        forall|j: int| 0 <= j < i ==> !eq_ignore_ascii_case(#[trigger] entries[j].filename@, entries[i].filename@),
    ensures
        count_ci(deleted_names(entries), entries[i].filename@, i) == 0,
        display_name(entries[i].filename@, count_ci(deleted_names(entries), entries[i].filename@, i))
            == entries[i].filename@,
    decreases i,
{
    lemma_count_ci_zero(entries, entries[i].filename@, i);
}

proof fn lemma_count_ci_zero(entries: Seq<DeletedFile>, target: Seq<char>, n: int)
    requires
        0 <= n <= entries.len(),
        forall|j: int| 0 <= j < n ==> !eq_ignore_ascii_case(#[trigger] entries[j].filename@, target),
    ensures
        count_ci(deleted_names(entries), target, n) == 0,
    decreases n,
{
    if n > 0 {
        lemma_count_ci_zero(entries, target, n - 1);
        assert(deleted_names(entries)[n - 1] == entries[n - 1].filename@);
    }
}

/// Entries are shown by their kind, in their attributes and in listings:
/// a directory as a directory, a soft link that is not a directory as a
/// symbolic link, and anything else as a regular file.
pub proof fn lemma_entry_kind_shown(
    e: EntryInfo,
    uid: u32,
    gid: u32,
    bs: u32,
    ino: u64,
    parent_ino: u64,
    entries: Seq<EntryInfo>,
    with_trash: bool,
    k: int,
)
    ensures
        e.is_dir ==> entry_attr(e, uid, gid, bs).kind == FileKind::Directory,
        !e.is_dir && e.is_softlink ==> entry_attr(e, uid, gid, bs).kind == FileKind::Symlink,
        !e.is_dir && !e.is_softlink ==> entry_attr(e, uid, gid, bs).kind == FileKind::RegularFile,
        0 <= k < entries.len() ==> {
            let l = dir_listing(ino, parent_ino, entries, with_trash)[k + 2];
            &&& l.0 == spec_anode_to_ino(entries[k].anode)
            &&& l.2 == entries[k].name@
            &&& entries[k].is_dir ==> l.1 == FileKind::Directory
            &&& !entries[k].is_dir && entries[k].is_softlink ==> l.1 == FileKind::Symlink
            &&& !entries[k].is_dir && !entries[k].is_softlink ==> l.1 == FileKind::RegularFile
        },
{
}

/// The virtual `.Trashcan`, whether answered by `getattr` or by `lookup`,
/// is a read-only directory with two links and no size.
pub proof fn lemma_trashcan_is_directory(fs: Pfs3Fs)
    ensures
        fs.spec_getattr(TRASHCAN_INO, true) matches Ok(a) && a == spec_trashcan_attr(fs.uid, fs.gid)
            && a.ino == TRASHCAN_INO && a.kind == FileKind::Directory && a.perm == 0o555 && a.nlink
            == 2 && a.size == 0 && a.uid == fs.uid && a.gid == fs.gid,
{
}

/// Resizing a write buffer to `n` bytes gives exactly `n` bytes: the old
/// bytes that fit are kept and any new bytes are zeros.
pub proof fn lemma_resized_length_and_bytes(old: Seq<u8>, n: nat)
    ensures
        resized(old, n).len() == n,
        forall|i: int| 0 <= i < n && i < old.len() ==> #[trigger] resized(old, n)[i] == old[i],
        forall|i: int| old.len() <= i < n ==> #[trigger] resized(old, n)[i] == 0,
        n <= old.len() ==> resized(old, n) == old.take(n as int),
{
    if n <= old.len() {
        assert(resized(old, n) =~= old.take(n as int));
    }
}

} // verus!
