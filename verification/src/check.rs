//! The consistency checker's bookkeeping and verdicts: what the tree walk
//! has seen, which blocks are claimed twice, which entries are broken or
//! too short, which counters need repair, and the final verdict.

use vstd::prelude::*;
use std::collections::{HashMap, HashSet};
use crate::fuse::{div_ceil, u64_div_ceil};

verus! {

broadcast use vstd::std_specs::hash::group_hash_axioms;

/// Everything the checker has found so far.
pub struct CheckCtx {
    pub errors: u32,
    pub warnings: u32,
    pub files: u32,
    pub dirs: u32,
    /// Data blocks seen in the tree, each with the path of the entry that
    /// claimed it last.
    pub used_blocks: HashMap<u64, String>,
    /// Anodes seen in the tree.
    pub used_anodes: HashSet<u32>,
    pub repairs: u32,
    /// Entries to remove during repair: (directory anode, name).
    pub broken_files: Vec<(u32, String)>,
    /// Files whose anode chain is too short: (directory anode, name,
    /// size the chain can hold).
    pub wrong_size: Vec<(u32, String, u64)>,
    /// The free-block count the rootblock should hold, when it is wrong
    /// and a repair was asked for.
    pub correct_blocksfree: Option<u32>,
    /// The reserved-free count the rootblock should hold, when it is wrong
    /// and a repair was asked for.
    pub correct_reserved_free: Option<u32>,
}

impl CheckCtx {
    /// A checker that has found nothing yet.
    pub fn new() -> (c: CheckCtx)
        ensures
            c.errors == 0,
            c.warnings == 0,
            c.files == 0,
            c.dirs == 0,
            c.used_blocks@ == Map::<u64, String>::empty(),
            c.used_anodes@ == Set::<u32>::empty(),
            c.repairs == 0,
            c.broken_files@.len() == 0,
            c.wrong_size@.len() == 0,
            c.correct_blocksfree is None,
            c.correct_reserved_free is None,
    {
        CheckCtx {
            errors: 0,
            warnings: 0,
            files: 0,
            dirs: 0,
            used_blocks: HashMap::new(),
            used_anodes: HashSet::new(),
            repairs: 0,
            broken_files: Vec::new(),
            wrong_size: Vec::new(),
            correct_blocksfree: None,
            correct_reserved_free: None,
        }
    }
}


/// The outcome of the rootblock check.
#[derive(Clone, Copy, Debug, PartialEq, Eq, Structural)]
pub enum RootblockCheck {
    /// The reserved area is empty or reversed (first >= last).
    InvalidReserved,
    /// The disk size is zero.
    ZeroDisksize,
    Valid,
}

/// The outcome of the rootblock-extension check.
#[derive(Clone, Copy, Debug, PartialEq, Eq, Structural)]
pub enum ExtensionCheck {
    /// The rootblock does not announce an extension.
    Absent,
    Valid,
    /// The extension is announced but could not be read.
    Unreadable,
}

/// The outcome of the reserved-area check.
#[derive(Clone, Copy, Debug, PartialEq, Eq, Structural)]
pub enum ReservedCheck {
    /// The reserved bitmap could not be read.
    Skipped,
    Valid,
    /// The rootblock's count differs from the bitmap's.
    Mismatch,
}

/// The checker's final verdict.
#[derive(Clone, Copy, Debug, PartialEq, Eq, Structural)]
pub enum Verdict {
    /// No errors and no warnings.
    Clean,
    /// Only this many warnings.
    WarningsOnly(u32),
    /// This many errors.
    Errors(u32),
}

/// A directory entry as the tree walk sees it.
pub struct ScanEntry {
    pub name: String,
    pub anode: u32,
    pub is_dir: bool,
    pub is_file: bool,
    /// A rollover file (a log file that wraps around).
    pub is_rollover: bool,
    pub file_size: u64,
}

/// What the tree walk did with one entry.
pub enum EntryScan {
    /// Neither a directory nor a file: not checked.
    Skipped,
    /// Its anode chain is broken: recorded for removal.
    BrokenChain,
    /// A directory whose blocks were recorded: walk into it. `conflicts`
    /// are the blocks that were already claimed, with their first owner.
    Descend { conflicts: Vec<(u64, String)> },
    /// A file whose blocks were recorded. `short` holds the number of
    /// chain blocks and the number needed when the chain is too short.
    Counted { short: Option<(u64, u64)>, conflicts: Vec<(u64, String)> },
}

/// The block table after the first `n` of `blocks` have been claimed by
/// `owner`.
pub open spec fn claims_after(m: Map<u64, String>, blocks: Seq<u64>, owner: String, n: int) -> Map<u64, String>
    decreases n,
{
    if n <= 0 {
        m
    } else {
        claims_after(m, blocks, owner, n - 1).insert(blocks[n - 1], owner)
    }
}

/// The blocks among the first `n` of `blocks` that were already claimed
/// when their turn came, each with the path that had claimed it.
pub open spec fn claim_conflicts(m: Map<u64, String>, blocks: Seq<u64>, owner: String, n: int) -> Seq<(u64, String)>
    decreases n,
{
    if n <= 0 {
        Seq::empty()
    } else {
        let prev = claims_after(m, blocks, owner, n - 1);
        let b = blocks[n - 1];
        claim_conflicts(m, blocks, owner, n - 1) + if prev.contains_key(b) {
            seq![(b, prev[b])]
        } else {
            Seq::empty()
        }
    }
}

/// The conflicts found never outnumber the blocks claimed.
pub proof fn lemma_conflicts_bounded(m: Map<u64, String>, blocks: Seq<u64>, owner: String, n: int)
    requires
        0 <= n <= blocks.len(),
    ensures
        claim_conflicts(m, blocks, owner, n).len() <= n,
    decreases n,
{
    if n > 0 {
        lemma_conflicts_bounded(m, blocks, owner, n - 1);
    }
}

/// After claiming, every claimed block belongs to its claimant and every
/// earlier claim on another block is kept; a block is reported as a
/// conflict exactly when it had been claimed before its turn.
pub proof fn lemma_claims_after(m: Map<u64, String>, blocks: Seq<u64>, owner: String, n: int, b: u64)
    requires
        0 <= n <= blocks.len(),
    ensures
        (exists|i: int| 0 <= i < n && blocks[i] == b) ==> claims_after(m, blocks, owner, n).contains_key(b)
            && claims_after(m, blocks, owner, n)[b] == owner,
        !(exists|i: int| 0 <= i < n && blocks[i] == b) ==> claims_after(m, blocks, owner, n).contains_key(b)
            == m.contains_key(b) && (m.contains_key(b) ==> claims_after(m, blocks, owner, n)[b] == m[b]),
    decreases n,
{
    if n > 0 {
        lemma_claims_after(m, blocks, owner, n - 1, b);
        if blocks[n - 1] != b {
            if exists|i: int| 0 <= i < n && blocks[i] == b {
                let i = choose|i: int| 0 <= i < n && blocks[i] == b;
                assert(0 <= i < n - 1 && blocks[i] == b);
            }
        }
    }
}

/// The number of `c` bytes in `s`.
pub open spec fn count_byte(s: Seq<u8>, c: u8) -> nat
    decreases s.len(),
{
    if s.len() == 0 {
        0
    } else {
        count_byte(s.drop_last(), c) + if s.last() == c {
            1nat
        } else {
            0nat
        }
    }
}

/// The nesting depth of a path: the number of '/' in it.
pub open spec fn path_depth(path: Seq<char>) -> nat {
    count_byte(vstd::utf8::encode_utf8(path), 47u8)
}

/// The number of '/' in `path`.
pub fn slash_count(path: &str) -> (r: usize)
    ensures
        r == path_depth(path@),
{
    let b = path.as_bytes();
    let n = b.len();
    let mut count: usize = 0;
    let mut i: usize = 0;
    while i < n
        invariant
            n == b@.len(),
            b@ == vstd::utf8::encode_utf8(path@),
            i <= n,
            count <= i,
            count == count_byte(b@.subrange(0, i as int), 47u8),
        decreases n - i,
    {
        assert(b@.subrange(0, i + 1).drop_last() =~= b@.subrange(0, i as int));
        if b[i] == 47u8 {
            count = count + 1;
        }
        i = i + 1;
    }
    assert(b@.subrange(0, n as int) =~= b@);
    count
}

/// The number of data blocks: the disk size less the reserved area
/// (blocks 0 to `lastreserved`).
pub fn data_area(disksize: u32, lastreserved: u32) -> (r: u32)
    requires
        lastreserved < disksize,
    ensures
        r == disksize - (lastreserved + 1),
{
    disksize - (lastreserved + 1)
}

impl CheckCtx {
    /// The tables and the other counters are as in `other`.
    pub open spec fn same_tables(&self, other: &CheckCtx) -> bool {
        &&& self.used_blocks@ == other.used_blocks@
        &&& self.used_anodes@ == other.used_anodes@
        &&& self.broken_files@ == other.broken_files@
        &&& self.wrong_size@ == other.wrong_size@
        &&& self.correct_blocksfree == other.correct_blocksfree
        &&& self.correct_reserved_free == other.correct_reserved_free
        &&& self.repairs == other.repairs
    }

    /// Checks the rootblock's reserved area and disk size; a failure counts
    /// as an error.
    pub fn check_rootblock(&mut self, firstreserved: u32, lastreserved: u32, disksize: u32) -> (r: RootblockCheck)
        requires
            old(self).errors < u32::MAX,
        ensures
            r == (if firstreserved >= lastreserved {
                RootblockCheck::InvalidReserved
            } else if disksize == 0 {
                RootblockCheck::ZeroDisksize
            } else {
                RootblockCheck::Valid
            }),
            final(self).errors == old(self).errors + if r == RootblockCheck::Valid { 0int } else { 1int },
            final(self).warnings == old(self).warnings,
            final(self).files == old(self).files,
            final(self).dirs == old(self).dirs,
            final(self).same_tables(old(self)),
    {
        if firstreserved >= lastreserved {
            self.errors = self.errors + 1;
            RootblockCheck::InvalidReserved
        } else if disksize == 0 {
            self.errors = self.errors + 1;
            RootblockCheck::ZeroDisksize
        } else {
            RootblockCheck::Valid
        }
    }

    /// Checks that an announced rootblock extension was read; a failure
    /// counts as an error.
    pub fn check_extension(&mut self, has_extension: bool, extension_loaded: bool) -> (r: ExtensionCheck)
        requires
            old(self).errors < u32::MAX,
        ensures
            r == (if !has_extension {
                ExtensionCheck::Absent
            } else if extension_loaded {
                ExtensionCheck::Valid
            } else {
                ExtensionCheck::Unreadable
            }),
            final(self).errors == old(self).errors + if r == ExtensionCheck::Unreadable { 1int } else { 0int },
            final(self).warnings == old(self).warnings,
            final(self).files == old(self).files,
            final(self).dirs == old(self).dirs,
            final(self).same_tables(old(self)),
    {
        if !has_extension {
            ExtensionCheck::Absent
        } else if extension_loaded {
            ExtensionCheck::Valid
        } else {
            self.errors = self.errors + 1;
            ExtensionCheck::Unreadable
        }
    }

    /// Records that every block of `blocks` is used by the entry at path
    /// `owner`. A block that was already claimed is a conflict and counts
    /// as an error; the conflicts are returned with their earlier owner.
    pub fn record_blocks(&mut self, blocks: Vec<u64>, owner: &String) -> (r: Vec<(u64, String)>)
        requires
            old(self).errors + blocks@.len() <= u32::MAX,
        ensures
            final(self).used_blocks@ == claims_after(old(self).used_blocks@, blocks@, *owner, blocks@.len() as int),
            r@ == claim_conflicts(old(self).used_blocks@, blocks@, *owner, blocks@.len() as int),
            final(self).errors == old(self).errors + r@.len(),
            final(self).warnings == old(self).warnings,
            final(self).files == old(self).files,
            final(self).dirs == old(self).dirs,
            final(self).used_anodes@ == old(self).used_anodes@,
            final(self).broken_files@ == old(self).broken_files@,
            final(self).wrong_size@ == old(self).wrong_size@,
            final(self).correct_blocksfree == old(self).correct_blocksfree,
            final(self).correct_reserved_free == old(self).correct_reserved_free,
            final(self).repairs == old(self).repairs,
    {
        let ghost m0 = self.used_blocks@;
        let ghost e0 = self.errors;
        let mut conflicts: Vec<(u64, String)> = Vec::new();
        let n = blocks.len();
        let mut i: usize = 0;
        while i < n
            invariant
                n == blocks@.len(),
                i <= n,
                e0 + n <= u32::MAX,
                self.used_blocks@ == claims_after(m0, blocks@, *owner, i as int),
                conflicts@ == claim_conflicts(m0, blocks@, *owner, i as int),
                self.errors == e0 + conflicts@.len(),
                self.warnings == old(self).warnings,
                self.files == old(self).files,
                self.dirs == old(self).dirs,
                self.used_anodes@ == old(self).used_anodes@,
                self.broken_files@ == old(self).broken_files@,
                self.wrong_size@ == old(self).wrong_size@,
                self.correct_blocksfree == old(self).correct_blocksfree,
                self.correct_reserved_free == old(self).correct_reserved_free,
                self.repairs == old(self).repairs,
            decreases n - i,
        {
            proof {
                lemma_conflicts_bounded(m0, blocks@, *owner, i as int);
            }
            let b = blocks[i];
            match self.used_blocks.insert(b, owner.clone()) {
                Some(prev) => {
                    conflicts.push((b, prev));
                    self.errors = self.errors + 1;
                },
                None => {},
            }
            i = i + 1;
        }
        conflicts
    }

    /// Records the anodes of an entry's anode chain (nothing when the
    /// chain could not be read).
    pub fn record_anode_chain(&mut self, chain: Option<Vec<u32>>)
        ensures
            final(self).used_anodes@ == match chain {
                Some(c) => old(self).used_anodes@.union(c@.to_set()),
                None => old(self).used_anodes@,
            },
            final(self).errors == old(self).errors,
            final(self).warnings == old(self).warnings,
            final(self).files == old(self).files,
            final(self).dirs == old(self).dirs,
            final(self).used_blocks@ == old(self).used_blocks@,
            final(self).broken_files@ == old(self).broken_files@,
            final(self).wrong_size@ == old(self).wrong_size@,
            final(self).correct_blocksfree == old(self).correct_blocksfree,
            final(self).correct_reserved_free == old(self).correct_reserved_free,
            final(self).repairs == old(self).repairs,
    {
        match chain {
            None => {},
            Some(c) => {
                let ghost s0 = self.used_anodes@;
                let n = c.len();
                let mut i: usize = 0;
                while i < n
                    invariant
                        n == c@.len(),
                        i <= n,
                        self.used_anodes@ == s0.union(c@.subrange(0, i as int).to_set()),
                        self.errors == old(self).errors,
                        self.warnings == old(self).warnings,
                        self.files == old(self).files,
                        self.dirs == old(self).dirs,
                        self.used_blocks@ == old(self).used_blocks@,
                        self.broken_files@ == old(self).broken_files@,
                        self.wrong_size@ == old(self).wrong_size@,
                        self.correct_blocksfree == old(self).correct_blocksfree,
                        self.correct_reserved_free == old(self).correct_reserved_free,
                        self.repairs == old(self).repairs,
                    decreases n - i,
                {
                    self.used_anodes.insert(c[i]);
                    proof {
                        let pre = c@.subrange(0, i as int);
                        let post = c@.subrange(0, i + 1);
                        assert forall|x: u32| post.to_set().contains(x) == pre.to_set().insert(c@[i as int]).contains(x) by {
                            if post.contains(x) {
                                let k = choose|k: int| 0 <= k < post.len() && post[k] == x;
                                if k < i {
                                    assert(pre[k] == x);
                                }
                            }
                            if pre.contains(x) {
                                let k = choose|k: int| 0 <= k < pre.len() && pre[k] == x;
                                assert(post[k] == x);
                            }
                            if x == c@[i as int] {
                                assert(post[i as int] == x);
                            }
                        }
                        assert(post.to_set() =~= pre.to_set().insert(c@[i as int]));
                    }
                    i = i + 1;
                    assert(self.used_anodes@ =~= s0.union(c@.subrange(0, i as int).to_set()));
                }
                assert(c@.subrange(0, n as int) =~= c@);
            },
        }
    }
}


/// A file's chain is too short exactly when the file is not empty and its
/// blocks hold fewer bytes than the file has.
pub proof fn lemma_chain_too_short_means_too_few_bytes(file_size: u64, chain_blocks: nat, bs: u64)
    requires
        bs > 0,
    ensures
        chain_too_short(file_size, chain_blocks, bs) <==> (file_size > 0 && chain_blocks * bs < file_size),
{
    let f = file_size as int;
    let b = bs as int;
    let c = chain_blocks as int;
    vstd::arithmetic::div_mod::lemma_fundamental_div_mod(f, b);
    let q = f / b;
    let r = f % b;
    assert(0 <= r < b);
    if r == 0 {
        assert(c < q <==> c * b < q * b) by (nonlinear_arith)
            requires
                b > 0,
        ;
    } else {
        assert(c < q + 1 <==> c * b < q * b + r) by (nonlinear_arith)
            requires
                b > 0,
                0 < r < b,
        ;
    }
}

/// A file of `file_size` bytes whose anode chain has `chain_blocks`
/// blocks of `bs` bytes cannot hold its contents.
pub open spec fn chain_too_short(file_size: u64, chain_blocks: nat, bs: u64) -> bool {
    file_size > 0 && chain_blocks < div_ceil(file_size as int, bs as int)
}

impl CheckCtx {
    /// Checks one entry of directory `dir_anode` found at `path`, given
    /// its validated anode chain (`None` when the chain is broken):
    /// directories and files are counted; a broken chain is an error and
    /// the entry is marked for removal; a file whose chain is too short for
    /// its size is a warning, marked with the size its chain can hold; the
    /// chain's blocks are claimed for `path`. Other entries are skipped.
    pub fn scan_entry(
        &mut self,
        dir_anode: u32,
        entry: &ScanEntry,
        path: &String,
        chain: Option<Vec<u64>>,
        bs: u64,
    ) -> (r: EntryScan)
        requires
            bs > 0,
            old(self).errors < u32::MAX,
            chain matches Some(c) ==> old(self).errors + c@.len() <= u32::MAX,
            old(self).warnings < u32::MAX,
            old(self).files < u32::MAX,
            old(self).dirs < u32::MAX,
        ensures
            final(self).used_anodes@ == old(self).used_anodes@,
            final(self).correct_blocksfree == old(self).correct_blocksfree,
            final(self).correct_reserved_free == old(self).correct_reserved_free,
            final(self).repairs == old(self).repairs,
            !entry.is_dir && !entry.is_file && !entry.is_rollover ==> {
                &&& r is Skipped
                &&& final(self).errors == old(self).errors
                &&& final(self).warnings == old(self).warnings
                &&& final(self).files == old(self).files
                &&& final(self).dirs == old(self).dirs
                &&& final(self).same_tables(old(self))
            },
            entry.is_dir ==> final(self).dirs == old(self).dirs + 1 && final(self).files == old(self).files
                && final(self).warnings == old(self).warnings && final(self).wrong_size@ == old(self).wrong_size@,
            !entry.is_dir && (entry.is_file || entry.is_rollover) ==> final(self).files == old(self).files + 1
                && final(self).dirs == old(self).dirs,
            (entry.is_dir || entry.is_file || entry.is_rollover) && chain is None ==> {
                &&& r is BrokenChain
                &&& final(self).errors == old(self).errors + 1
                &&& final(self).broken_files@ == old(self).broken_files@.push((dir_anode, entry.name))
                &&& final(self).used_blocks@ == old(self).used_blocks@
                &&& final(self).warnings == old(self).warnings
                &&& final(self).wrong_size@ == old(self).wrong_size@
            },
            (entry.is_dir || entry.is_file || entry.is_rollover) && chain is Some ==> {
                let c = chain->Some_0@;
                let conflicts = claim_conflicts(old(self).used_blocks@, c, *path, c.len() as int);
                &&& final(self).used_blocks@ == claims_after(old(self).used_blocks@, c, *path, c.len() as int)
                &&& final(self).errors == old(self).errors + conflicts.len()
                &&& final(self).broken_files@ == old(self).broken_files@
                &&& entry.is_dir ==> (r matches EntryScan::Descend { conflicts: cs } && cs@ == conflicts)
                &&& !entry.is_dir ==> {
                    let short = chain_too_short(entry.file_size, c.len(), bs);
                    &&& r matches EntryScan::Counted { short: sh, conflicts: cs } && cs@ == conflicts && (if short {
                        sh == Some((c.len() as u64, div_ceil(entry.file_size as int, bs as int) as u64))
                    } else {
                        sh is None
                    })
                    &&& final(self).warnings == old(self).warnings + if short { 1int } else { 0int }
                    &&& final(self).wrong_size@ == if short {
                        old(self).wrong_size@.push((dir_anode, entry.name, (c.len() * bs) as u64))
                    } else {
                        old(self).wrong_size@
                    }
                }
            },
    {
        if entry.is_dir {
            self.dirs = self.dirs + 1;
            match chain {
                None => {
                    self.errors = self.errors + 1;
                    self.broken_files.push((dir_anode, entry.name.clone()));
                    EntryScan::BrokenChain
                },
                Some(blocks) => {
                    let conflicts = self.record_blocks(blocks, path);
                    EntryScan::Descend { conflicts }
                },
            }
        } else if entry.is_file || entry.is_rollover {
            self.files = self.files + 1;
            match chain {
                None => {
                    self.errors = self.errors + 1;
                    self.broken_files.push((dir_anode, entry.name.clone()));
                    EntryScan::BrokenChain
                },
                Some(blocks) => {
                    let chain_blocks = blocks.len() as u64;
                    let expected = u64_div_ceil(entry.file_size, bs);
                    let short = if chain_blocks < expected && entry.file_size > 0 {
                        proof {
                            vstd::arithmetic::div_mod::lemma_fundamental_div_mod(entry.file_size as int, bs as int);
                            assert(chain_blocks * bs <= entry.file_size) by (nonlinear_arith)
                                requires
                                    chain_blocks < expected,
                                    expected as int == div_ceil(entry.file_size as int, bs as int),
                                    entry.file_size == bs * (entry.file_size / bs) + entry.file_size % bs,
                                    0 <= entry.file_size % bs,
                                    bs > 0,
                            ;
                        }
                        let actual_size = chain_blocks * bs;
                        self.warnings = self.warnings + 1;
                        self.wrong_size.push((dir_anode, entry.name.clone(), actual_size));
                        Some((chain_blocks, expected))
                    } else {
                        None
                    };
                    let conflicts = self.record_blocks(blocks, path);
                    EntryScan::Counted { short, conflicts }
                },
            }
        } else {
            EntryScan::Skipped
        }
    }

    /// Before walking into the directory at `path`: a path nested deeper
    /// than `max_depth` levels is an error and is not entered.
    pub fn enter_dir(&mut self, path: &str, max_depth: usize) -> (r: bool)
        requires
            old(self).errors < u32::MAX,
        ensures
            r == (path_depth(path@) <= max_depth),
            final(self).errors == old(self).errors + if r { 0int } else { 1int },
            final(self).warnings == old(self).warnings,
            final(self).files == old(self).files,
            final(self).dirs == old(self).dirs,
            final(self).same_tables(old(self)),
    {
        let depth = slash_count(path);
        if depth > max_depth {
            self.errors = self.errors + 1;
            false
        } else {
            true
        }
    }

    /// A directory that cannot be listed counts as an error.
    pub fn dir_unreadable(&mut self)
        requires
            old(self).errors < u32::MAX,
        ensures
            final(self).errors == old(self).errors + 1,
            final(self).warnings == old(self).warnings,
            final(self).files == old(self).files,
            final(self).dirs == old(self).dirs,
            final(self).same_tables(old(self)),
    {
        self.errors = self.errors + 1;
    }

    /// Compares the rootblock's free-block count with the bitmap's: a
    /// difference is a warning, and with `repair` the bitmap's count is
    /// kept as the correction.
    pub fn check_bitmap(&mut self, bitmap_free: u32, blocksfree: u32, repair: bool) -> (r: bool)
        requires
            old(self).warnings < u32::MAX,
        ensures
            r == (bitmap_free == blocksfree),
            final(self).warnings == old(self).warnings + if r { 0int } else { 1int },
            final(self).correct_blocksfree == if !r && repair {
                Some(bitmap_free)
            } else {
                old(self).correct_blocksfree
            },
            final(self).errors == old(self).errors,
            final(self).files == old(self).files,
            final(self).dirs == old(self).dirs,
            final(self).used_blocks@ == old(self).used_blocks@,
            final(self).used_anodes@ == old(self).used_anodes@,
            final(self).broken_files@ == old(self).broken_files@,
            final(self).wrong_size@ == old(self).wrong_size@,
            final(self).correct_reserved_free == old(self).correct_reserved_free,
            final(self).repairs == old(self).repairs,
    {
        if bitmap_free != blocksfree {
            self.warnings = self.warnings + 1;
            if repair {
                self.correct_blocksfree = Some(bitmap_free);
            }
            false
        } else {
            true
        }
    }

    /// Anode 0 marks the end of a chain; seeing it used as a data anode is
    /// a warning.
    pub fn check_anodes(&mut self) -> (r: bool)
        requires
            old(self).warnings < u32::MAX,
        ensures
            r == !old(self).used_anodes@.contains(0),
            final(self).warnings == old(self).warnings + if r { 0int } else { 1int },
            final(self).errors == old(self).errors,
            final(self).files == old(self).files,
            final(self).dirs == old(self).dirs,
            final(self).same_tables(old(self)),
    {
        if self.used_anodes.contains(&0u32) {
            self.warnings = self.warnings + 1;
            false
        } else {
            true
        }
    }

    /// Compares the rootblock's reserved-free count with the reserved
    /// bitmap's (`None` when it could not be read): a difference is a
    /// warning, and with `repair` the bitmap's count is kept as the
    /// correction.
    pub fn check_reserved(&mut self, reserved_free: u32, actual_free: Option<u32>, repair: bool) -> (r: ReservedCheck)
        requires
            old(self).warnings < u32::MAX,
        ensures
            r == match actual_free {
                None => ReservedCheck::Skipped,
                Some(a) => if a == reserved_free { ReservedCheck::Valid } else { ReservedCheck::Mismatch },
            },
            final(self).warnings == old(self).warnings + if r == ReservedCheck::Mismatch { 1int } else { 0int },
            final(self).correct_reserved_free == if r == ReservedCheck::Mismatch && repair {
                actual_free
            } else {
                old(self).correct_reserved_free
            },
            final(self).errors == old(self).errors,
            final(self).files == old(self).files,
            final(self).dirs == old(self).dirs,
            final(self).used_blocks@ == old(self).used_blocks@,
            final(self).used_anodes@ == old(self).used_anodes@,
            final(self).broken_files@ == old(self).broken_files@,
            final(self).wrong_size@ == old(self).wrong_size@,
            final(self).correct_blocksfree == old(self).correct_blocksfree,
            final(self).repairs == old(self).repairs,
    {
        match actual_free {
            None => ReservedCheck::Skipped,
            Some(a) => {
                if a != reserved_free {
                    self.warnings = self.warnings + 1;
                    if repair {
                        self.correct_reserved_free = Some(a);
                    }
                    ReservedCheck::Mismatch
                } else {
                    ReservedCheck::Valid
                }
            },
        }
    }

    /// Whether a repair pass is due: repairs were asked for and something
    /// is to be removed, resized or corrected.
    pub fn needs_repair(&self, repair: bool) -> (r: bool)
        ensures
            r == (repair && (self.broken_files@.len() > 0 || self.wrong_size@.len() > 0
                || self.correct_blocksfree is Some || self.correct_reserved_free is Some)),
    {
        repair && (self.broken_files.len() > 0 || self.wrong_size.len() > 0
            || self.correct_blocksfree.is_some() || self.correct_reserved_free.is_some())
    }

    /// Counts one repair that was carried out.
    pub fn note_repair(&mut self)
        requires
            old(self).repairs < u32::MAX,
        ensures
            final(self).repairs == old(self).repairs + 1,
            final(self).errors == old(self).errors,
            final(self).warnings == old(self).warnings,
            final(self).files == old(self).files,
            final(self).dirs == old(self).dirs,
            final(self).used_blocks@ == old(self).used_blocks@,
            final(self).used_anodes@ == old(self).used_anodes@,
            final(self).broken_files@ == old(self).broken_files@,
            final(self).wrong_size@ == old(self).wrong_size@,
            final(self).correct_blocksfree == old(self).correct_blocksfree,
            final(self).correct_reserved_free == old(self).correct_reserved_free,
    {
        self.repairs = self.repairs + 1;
    }

    /// The summary of the check: clean without errors or warnings, otherwise the number
    /// of errors, or of warnings when there are no errors.
    pub fn verdict(&self) -> (r: Verdict)
        ensures
            r == (if self.errors == 0 && self.warnings == 0 {
                Verdict::Clean
            } else if self.errors == 0 {
                Verdict::WarningsOnly(self.warnings)
            } else {
                Verdict::Errors(self.errors)
            }),
    {
        if self.errors == 0 && self.warnings == 0 {
            Verdict::Clean
        } else if self.errors == 0 {
            Verdict::WarningsOnly(self.warnings)
        } else {
            Verdict::Errors(self.errors)
        }
    }
}

} // verus!
