//! Decisions of the command-line tools: choosing a partition, parsing
//! indices and paths, renaming a volume in its rootblock, and picking a
//! deleted file to restore.

use vstd::prelude::*;
use vstd::string::StringSliceAdditionalSpecFns;
use crate::bytes::{overwrite, zeros};
use crate::check::{path_depth, slash_count};
use crate::text::{eq_ignore_ascii_case, str_eq_ignore_ascii_case};

verus! {

/// The decimal value of a sequence of ASCII digits.
pub open spec fn digits_value(d: Seq<u8>) -> int
    decreases d.len(),
{
    if d.len() == 0 {
        0
    } else {
        digits_value(d.drop_last()) * 10 + (d.last() - 48)
    }
}

/// A non-empty sequence of ASCII digits.
pub open spec fn all_digits(d: Seq<u8>) -> bool {
    &&& d.len() > 0
    &&& forall|i: int| 0 <= i < d.len() ==> 48 <= #[trigger] d[i] <= 57
}

/// The value `str::parse::<usize>` gives for the bytes `b`: an optional
/// '+' followed by at least one digit, with a value that fits.
pub open spec fn spec_parse_usize(b: Seq<u8>) -> Option<int> {
    let d = if b.len() > 0 && b[0] == 43 {
        b.drop_first()
    } else {
        b
    };
    if all_digits(d) && 0 <= digits_value(d) <= usize::MAX {
        Some(digits_value(d))
    } else {
        None
    }
}

proof fn lemma_digits_value_monotone(d: Seq<u8>, n: int)
    requires
        0 <= n <= d.len(),
        forall|i: int| 0 <= i < d.len() ==> 48 <= #[trigger] d[i] <= 57,
    ensures
        digits_value(d.subrange(0, n)) <= digits_value(d),
        digits_value(d.subrange(0, n)) >= 0,
    decreases d.len() - n,
{
    if n < d.len() {
        lemma_digits_value_monotone(d, n + 1);
        assert(d.subrange(0, n + 1).drop_last() =~= d.subrange(0, n));
        lemma_digits_value_nonneg(d.subrange(0, n));
    } else {
        assert(d.subrange(0, n) =~= d);
        lemma_digits_value_nonneg(d);
    }
}

proof fn lemma_digits_value_nonneg(d: Seq<u8>)
    requires
        forall|i: int| 0 <= i < d.len() ==> 48 <= #[trigger] d[i] <= 57,
    ensures
        digits_value(d) >= 0,
    decreases d.len(),
{
    if d.len() > 0 {
        lemma_digits_value_nonneg(d.drop_last());
    }
}

/// Parses a string as an unsigned index the way `str::parse::<usize>`
/// does.
pub fn parse_usize(s: &str) -> (r: Option<usize>)
    ensures
        spec_parse_usize(s.spec_bytes()) == (match r {
            Some(v) => Some(v as int),
            None => None::<int>,
        }),
{
    let b = s.as_bytes();
    assert(b@ == s.spec_bytes());
    let n = b.len();
    let start: usize = if n > 0 && b[0] == 43u8 {
        1
    } else {
        0
    };
    let ghost d = if n > 0 && b@[0] == 43 {
        b@.drop_first()
    } else {
        b@
    };
    assert(d =~= b@.subrange(start as int, n as int));
    assert(spec_parse_usize(b@) == (if all_digits(d) && 0 <= digits_value(d) <= usize::MAX {
        Some(digits_value(d))
    } else {
        None::<int>
    }));
    if start >= n {
        return None;
    }
    let mut v: usize = 0;
    let mut i: usize = start;
    while i < n
        invariant
            n == b@.len(),
            b@ == s.spec_bytes(),
            spec_parse_usize(b@) == (if all_digits(d) && 0 <= digits_value(d) <= usize::MAX {
                Some(digits_value(d))
            } else {
                None::<int>
            }),
            start <= i <= n,
            start < n,
            d == b@.subrange(start as int, n as int),
            forall|k: int| start <= k < i ==> 48 <= #[trigger] b@[k] <= 57,
            v == digits_value(b@.subrange(start as int, i as int)),
        decreases n - i,
    {
        let c = b[i];
        if c < 48u8 || c > 57u8 {
            proof {
                assert(d[i - start] == c);
            }
            return None;
        }
        let digit = (c - 48u8) as usize;
        proof {
            assert(b@.subrange(start as int, i + 1).drop_last() =~= b@.subrange(start as int, i as int));
        }
        if v > (usize::MAX - digit) / 10 {
            proof {
                let pre = b@.subrange(start as int, i + 1);
                assert(digits_value(pre) == v * 10 + digit);
                assert(v * 10 + digit > usize::MAX) by (nonlinear_arith)
                    requires
                        v > (usize::MAX - digit) / 10,
                        digit <= 9,
                ;
                let rest_ok = forall|k: int| 0 <= k < d.len() ==> 48 <= #[trigger] d[k] <= 57;
                if rest_ok {
                    assert(d.subrange(0, i + 1 - start) =~= pre);
                    lemma_digits_value_monotone(d, i + 1 - start);
                }
            }
            return None;
        }
        v = v * 10 + digit;
        i = i + 1;
    }
    assert(b@.subrange(start as int, n as int) =~= d);
    Some(v)
}

/// Whether a partition must be chosen by scanning the image: neither a
/// partition nor an offset was given.
pub fn needs_partition_scan(partition_given: bool, offset: u64) -> (r: bool)
    ensures
        r == (!partition_given && offset == 0),
{
    !partition_given && offset == 0
}

/// More than one PFS3 partition found: the user must pick one.
pub fn is_ambiguous(partitions_found: usize) -> (r: bool)
    ensures
        r == (partitions_found > 1),
{
    partitions_found > 1
}

/// `k` is the first partition whose name equals `spec` up to ASCII case.
pub open spec fn is_first_name_match(names: Seq<String>, spec: Seq<char>, k: int) -> bool {
    &&& 0 <= k < names.len()
    &&& eq_ignore_ascii_case(names[k]@, spec)
    &&& forall|j: int| 0 <= j < k ==> !eq_ignore_ascii_case(names[j]@, spec)
}

/// No partition name equals `spec` up to ASCII case.
pub open spec fn no_name_match(names: Seq<String>, spec: Seq<char>) -> bool {
    forall|j: int| 0 <= j < names.len() ==> !eq_ignore_ascii_case(names[j]@, spec)
}

/// Position of the first name equal to `spec` up to ASCII case.
pub fn find_name_ci(names: &Vec<String>, spec: &str) -> (r: Option<usize>)
    ensures
        r matches Some(k) ==> is_first_name_match(names@, spec@, k as int),
        r is None ==> no_name_match(names@, spec@),
{
    let n = names.len();
    let mut i: usize = 0;
    while i < n
        invariant
            n == names@.len(),
            i <= n,
            forall|j: int| 0 <= j < i ==> !eq_ignore_ascii_case(names@[j]@, spec@),
        decreases n - i,
    {
        if str_eq_ignore_ascii_case(names[i].as_str(), spec) {
            return Some(i);
        }
        i = i + 1;
    }
    None
}

/// Chooses a partition by `spec`: the first whose name equals it up to
/// ASCII case, otherwise the one whose index it is.
pub fn select_partition(names: &Vec<String>, spec: &str) -> (r: Option<usize>)
    ensures
        r matches Some(k) ==> k < names@.len(),
        forall|k: int| #[trigger] is_first_name_match(names@, spec@, k) ==> r == Some(k as usize),
        no_name_match(names@, spec@) ==> (match spec_parse_usize(spec.spec_bytes()) {
            Some(i) => if i < names@.len() {
                r == Some(i as usize)
            } else {
                r is None
            },
            None => r is None,
        }),
{
    match find_name_ci(names, spec) {
        Some(k) => {
            proof {
                assert forall|kk: int| #[trigger] is_first_name_match(names@, spec@, kk) implies kk == k by {
                    if kk < k {
                        assert(!eq_ignore_ascii_case(names@[kk]@, spec@));
                    }
                    if k < kk {
                        assert(!eq_ignore_ascii_case(names@[k as int]@, spec@));
                    }
                }
            }
            Some(k)
        },
        None => match parse_usize(spec) {
            Some(i) => {
                if i < names.len() {
                    Some(i)
                } else {
                    None
                }
            },
            None => None,
        },
    }
}

/// Why no deleted file was selected.
#[derive(Clone, Copy, Debug, PartialEq, Eq, Structural)]
pub enum UndeleteError {
    /// The deldir is empty or not enabled.
    Empty,
    /// The index is past the last entry (whose index is `max`).
    IndexOutOfRange { index: usize, max: usize },
    /// No entry has that name.
    NotFound,
}

/// Chooses the deleted file to restore: `name` as an index into the
/// deldir listing if it parses as one, otherwise the first entry whose
/// name equals it up to ASCII case.
pub fn select_deldir_entry(name: &str, filenames: &Vec<String>) -> (r: Result<usize, UndeleteError>)
    ensures
        filenames@.len() == 0 ==> r == Err::<usize, UndeleteError>(UndeleteError::Empty),
        filenames@.len() > 0 ==> match spec_parse_usize(name.spec_bytes()) {
            Some(i) => if i >= filenames@.len() {
                r matches Err(UndeleteError::IndexOutOfRange { index, max })
                    && index == i && max == filenames@.len() - 1
            } else {
                r matches Ok(k) && k == i
            },
            None => {
                &&& no_name_match(filenames@, name@) ==> r == Err::<usize, UndeleteError>(UndeleteError::NotFound)
                &&& forall|k: int| #[trigger] is_first_name_match(filenames@, name@, k) ==> r == Ok::<usize, UndeleteError>(k as usize)
            },
        },
{
    if filenames.len() == 0 {
        return Err(UndeleteError::Empty);
    }
    match parse_usize(name) {
        Some(i) => {
            if i >= filenames.len() {
                Err(UndeleteError::IndexOutOfRange { index: i, max: filenames.len() - 1 })
            } else {
                Ok(i)
            }
        },
        None => match find_name_ci(filenames, name) {
            Some(k) => {
                proof {
                    assert forall|kk: int| #[trigger] is_first_name_match(filenames@, name@, kk) implies kk == k by {
                        if kk < k {
                            assert(!eq_ignore_ascii_case(filenames@[kk]@, name@));
                        }
                        if k < kk {
                            assert(!eq_ignore_ascii_case(filenames@[k as int]@, name@));
                        }
                    }
                }
                Ok(k)
            },
            None => Err(UndeleteError::NotFound),
        },
    }
}

/// Where the partition to open or format starts.
#[derive(Clone, Copy, Debug, PartialEq, Eq, Structural)]
pub enum OffsetPlan {
    /// A partition was named: find it among the PFS3 partitions of the image.
    ScanPartitions,
    /// Neither a partition nor an offset was given: use the first PFS3
    /// partition found in the Rigid Disk Block, or the start of the image.
    DetectPartition,
    /// The offset given on the command line.
    Use(u64),
}

/// How the byte offset of the volume is found from the command line.
pub fn offset_plan(partition_given: bool, offset: u64) -> (r: OffsetPlan)
    ensures
        partition_given ==> r == OffsetPlan::ScanPartitions,
        !partition_given && offset == 0 ==> r == OffsetPlan::DetectPartition,
        !partition_given && offset != 0 ==> r == OffsetPlan::Use(offset),
{
    if partition_given {
        OffsetPlan::ScanPartitions
    } else if offset == 0 {
        OffsetPlan::DetectPartition
    } else {
        OffsetPlan::Use(offset)
    }
}

/// The byte offset of the partition that `spec` selects (see
/// [`select_partition`]) among partitions with these names and offsets.
pub fn partition_offset(names: &Vec<String>, offsets: &Vec<u64>, spec: &str) -> (r: Option<u64>)
    requires
        names@.len() == offsets@.len(),
    ensures
        forall|k: int| #[trigger] is_first_name_match(names@, spec@, k) ==> r == Some(offsets@[k]),
        no_name_match(names@, spec@) ==> (match spec_parse_usize(spec.spec_bytes()) {
            Some(i) => if i < names@.len() {
                r == Some(offsets@[i])
            } else {
                r is None
            },
            None => r is None,
        }),
{
    let count = names.len();
    assert(count == names@.len());
    match select_partition(names, spec) {
        Some(k) => Some(offsets[k]),
        None => None,
    }
}

/// Number of 512-byte blocks in a new image of `mb` mebibytes.
pub fn mkfs_total_blocks(mb: u32) -> (r: u64)
    ensures
        r == mb * 2048,
{
    let total: u64 = mb as u64 * 1024 * 1024 / 512;
    assert(total == mb * 2048);
    total
}

/// A volume needs at least 64 blocks to be formatted.
pub fn image_too_small(total_blocks: u64) -> (r: bool)
    ensures
        r == (total_blocks < 64),
{
    total_blocks < 64
}

/// The name field of a rootblock holding `name`: a length byte (at most
/// 30), then the first bytes of the name, then zeros, 32 bytes in all.
pub open spec fn bcpl_name(name: Seq<u8>) -> Seq<u8> {
    let len: int = if name.len() < 30 {
        name.len() as int
    } else {
        30
    };
    seq![len as u8] + name.subrange(0, len) + zeros((31 - len) as nat)
}

/// The name stored in a rootblock whose name field starts at `off`.
pub open spec fn stored_name(rb: Seq<u8>, off: int) -> Seq<u8> {
    rb.subrange(off + 1, off + 1 + rb[off] as int)
}

/// Writes `name` into the name field of the rootblock `rb`, which starts
/// at byte `off`; the rest of the block is kept.
pub fn set_volume_name(rb: &mut Vec<u8>, off: usize, name: &str)
    requires
        off + 32 <= old(rb)@.len(),
    ensures
        final(rb)@ == overwrite(old(rb)@, off as int, bcpl_name(name.spec_bytes())),
{
    let nb = name.as_bytes();
    let len: usize = if nb.len() < 30 {
        nb.len()
    } else {
        30
    };
    let total = rb.len();
    let ghost field = bcpl_name(nb@);
    assert(field.len() == 32);
    let mut k: usize = 0;
    while k < 32
        invariant
            off + 32 <= old(rb)@.len(),
            total == old(rb)@.len(),
            rb@.len() == old(rb)@.len(),
            k <= 32,
            len == (if nb@.len() < 30 {
                nb@.len() as int
            } else {
                30
            }),
            field == bcpl_name(nb@),
            forall|i: int| 0 <= i < rb@.len() && !(off <= i < off + k) ==> #[trigger] rb@[i] == old(rb)@[i],
            forall|i: int| off <= i < off + k ==> #[trigger] rb@[i] == field[i - off],
        decreases 32 - k,
    {
        assert(off + k < rb@.len());
        let v: u8 = if k == 0 {
            len as u8
        } else if k <= len {
            nb[k - 1]
        } else {
            0
        };
        assert(v == field[k as int]);
        rb.set(off + k, v);
        k = k + 1;
    }
    assert(nb@ == name.spec_bytes());
    assert(rb@ =~= overwrite(old(rb)@, off as int, field));
}

/// After [`set_volume_name`], the rootblock reads back the first 30 bytes
/// of the new name (all of it when it is shorter).
pub proof fn lemma_volume_name_read_back(rb: Seq<u8>, off: int, name: Seq<u8>)
    requires
        0 <= off,
        off + 32 <= rb.len(),
    ensures
        stored_name(overwrite(rb, off, bcpl_name(name)), off) == name.subrange(
            0,
            if name.len() < 30 {
                name.len() as int
            } else {
                30
            },
        ),
{
    let len: int = if name.len() < 30 {
        name.len() as int
    } else {
        30
    };
    let out = overwrite(rb, off, bcpl_name(name));
    assert(out[off] == len as u8);
    assert(stored_name(out, off) =~= name.subrange(0, len));
}

/// Label of a directory entry in a listing.
pub fn entry_type_label(is_dir: bool, is_softlink: bool) -> (r: &'static str)
    ensures
        is_dir ==> r@ == "DIR"@,
        !is_dir && is_softlink ==> r@ == "LINK"@,
        !is_dir && !is_softlink ==> r@ == "FILE"@,
{
    if is_dir {
        "DIR"
    } else if is_softlink {
        "LINK"
    } else {
        "FILE"
    }
}

/// Whether a directory walk at `display_path` has gone deeper than
/// `max_depth` levels (counted by the slashes in the path).
pub fn nesting_too_deep(display_path: &str, max_depth: usize) -> (r: bool)
    ensures
        r == (path_depth(display_path@) > max_depth),
{
    slash_count(display_path) > max_depth
}

/// Start of the last '/'-separated segment of `path`: one past its last
/// slash, or 0 when it has none.
pub fn last_segment_start(path: &[u8]) -> (r: usize)
    ensures
        r <= path@.len(),
        r == 0 || path@[r - 1] == 47,
        forall|i: int| r <= i < path@.len() ==> #[trigger] path@[i] != 47,
{
    let mut i: usize = path.len();
    while i > 0
        invariant
            i <= path@.len(),
            forall|j: int| i <= j < path@.len() ==> #[trigger] path@[j] != 47,
        decreases i,
    {
        if path[i - 1] == 47u8 {
            return i;
        }
        i = i - 1;
    }
    0
}

/// The '/'-separated segments of `p`, empty ones included, as
/// `str::split('/')` gives them.
pub open spec fn segments(p: Seq<u8>) -> Seq<Seq<u8>>
    decreases p.len(),
{
    if p.len() == 0 {
        seq![Seq::<u8>::empty()]
    } else {
        let rest = segments(p.drop_last());
        if p.last() == 47 {
            rest.push(Seq::<u8>::empty())
        } else {
            rest.update(rest.len() - 1, rest.last().push(p.last()))
        }
    }
}

/// The non-empty sequences of `ss`, in order.
pub open spec fn keep_nonempty(ss: Seq<Seq<u8>>) -> Seq<Seq<u8>>
    decreases ss.len(),
{
    if ss.len() == 0 {
        ss
    } else {
        let rest = keep_nonempty(ss.drop_last());
        if ss.last().len() > 0 {
            rest.push(ss.last())
        } else {
            rest
        }
    }
}

/// The names along a path: its non-empty '/'-separated segments.
pub open spec fn components(p: Seq<u8>) -> Seq<Seq<u8>> {
    keep_nonempty(segments(p))
}

/// The components joined with single slashes.
pub open spec fn join_slash(cs: Seq<Seq<u8>>) -> Seq<u8>
    decreases cs.len(),
{
    if cs.len() == 0 {
        Seq::empty()
    } else if cs.len() == 1 {
        cs[0]
    } else {
        join_slash(cs.drop_last()) + seq![47u8] + cs.last()
    }
}

proof fn lemma_segments_nonempty(p: Seq<u8>)
    ensures
        segments(p).len() >= 1,
    decreases p.len(),
{
    if p.len() > 0 {
        lemma_segments_nonempty(p.drop_last());
    }
}

/// Appends the bytes of `src` to `out`.
fn push_all(out: &mut Vec<u8>, src: &Vec<u8>)
    ensures
        final(out)@ == old(out)@ + src@,
{
    let mut i: usize = 0;
    while i < src.len()
        invariant
            i <= src@.len(),
            out@ == old(out)@ + src@.subrange(0, i as int),
        decreases src@.len() - i,
    {
        out.push(src[i]);
        i = i + 1;
        assert(out@ =~= old(out)@ + src@.subrange(0, i as int));
    }
    assert(src@.subrange(0, i as int) =~= src@);
}

/// The names along `path`, as `path.split('/').filter(|s| !s.is_empty())`
/// gives them (as bytes).
pub fn path_components(path: &str) -> (r: Vec<Vec<u8>>)
    ensures
        r.deep_view() == components(path.spec_bytes()),
{
    let b = path.as_bytes();
    let n = b.len();
    let mut done: Vec<Vec<u8>> = Vec::new();
    let mut cur: Vec<u8> = Vec::new();
    let mut i: usize = 0;
    proof {
        assert(b@.subrange(0, 0) =~= Seq::<u8>::empty());
    }
    while i < n
        invariant
            n == b@.len(),
            i <= n,
            segments(b@.subrange(0, i as int)).len() >= 1,
            done.deep_view() == keep_nonempty(segments(b@.subrange(0, i as int)).drop_last()),
            cur@ == segments(b@.subrange(0, i as int)).last(),
        decreases n - i,
    {
        let ghost before = segments(b@.subrange(0, i as int));
        let ghost pre = b@.subrange(0, i + 1);
        proof {
            assert(pre.drop_last() =~= b@.subrange(0, i as int));
            lemma_segments_nonempty(pre);
        }
        if b[i] == 47u8 {
            assert(segments(pre) == before.push(Seq::<u8>::empty()));
            assert(segments(pre).drop_last() =~= before);
            if cur.len() > 0 {
                let ghost old_done = done.deep_view();
                assert(cur.deep_view() =~= cur@);
                done.push(cur);
                proof {
                    assert(done.deep_view() =~= old_done.push(before.last()));
                }
            }
            cur = Vec::new();
        } else {
            let c = b[i];
            cur.push(c);
            assert(segments(pre) == before.update(before.len() - 1, before.last().push(c)));
            assert(segments(pre).drop_last() =~= before.drop_last());
        }
        i = i + 1;
    }
    proof {
        assert(b@.subrange(0, n as int) =~= b@);
        assert(b@ == path.spec_bytes());
    }
    let ghost all = segments(b@);
    if cur.len() > 0 {
        let ghost old_done = done.deep_view();
        assert(cur.deep_view() =~= cur@);
        done.push(cur);
        proof {
            assert(done.deep_view() =~= old_done.push(all.last()));
        }
    }
    done
}

/// What `protect` changes for `path`: the entry's name and, unless the
/// entry sits in the root directory, the path of its parent.
pub struct ProtectTarget {
    pub name: Vec<u8>,
    pub parent: Option<Vec<u8>>,
}

/// Splits `path` into the name of the entry whose protection changes and
/// the path of its parent directory; `None` for the root directory itself.
pub fn protect_target(path: &str) -> (r: Option<ProtectTarget>)
    ensures
        components(path.spec_bytes()).len() == 0 <==> r is None,
        r matches Some(t) ==> {
            let cs = components(path.spec_bytes());
            &&& t.name@ == cs.last()
            &&& (cs.len() == 1 <==> t.parent is None)
            &&& (t.parent matches Some(pp) ==> pp@ == join_slash(cs.drop_last()))
        },
{
    let comps = path_components(path);
    let ghost cs = comps.deep_view();
    let n = comps.len();
    if n == 0 {
        return None;
    }
    let name = comps[n - 1].clone();
    assert(name@ =~= cs.last());
    if n == 1 {
        return Some(ProtectTarget { name, parent: None });
    }
    let mut parent: Vec<u8> = Vec::new();
    let mut i: usize = 0;
    while i < n - 1
        invariant
            n == comps@.len(),
            cs == comps.deep_view(),
            1 < n,
            i <= n - 1,
            i == 0 ==> parent@.len() == 0,
            i > 0 ==> parent@ == join_slash(cs.subrange(0, i as int)),
        decreases n - 1 - i,
    {
        assert(comps[i as int]@ == cs[i as int]);
        if i > 0 {
            parent.push(47u8);
        }
        push_all(&mut parent, &comps[i]);
        proof {
            let sub = cs.subrange(0, i + 1);
            assert(sub.drop_last() =~= cs.subrange(0, i as int));
            if i == 0 {
                assert(parent@ =~= sub[0]);
            } else {
                assert(parent@ =~= join_slash(sub.drop_last()) + seq![47u8] + sub.last());
            }
        }
        i = i + 1;
    }
    assert(cs.subrange(0, n - 1) =~= cs.drop_last());
    Some(ProtectTarget { name, parent: Some(parent) })
}

} // verus!
