//! In-memory block devices over a byte image.

use vstd::prelude::*;
use crate::bytes::{overwrite, zeros};

verus! {

/// Whether block `block` (of `bs` bytes) lies entirely inside an image of
/// `len` bytes.
pub open spec fn block_in_image(len: nat, bs: u32, block: int) -> bool {
    (block + 1) * bs <= len
}

/// The bytes of block `block` of `data`.
pub open spec fn block_bytes(data: Seq<u8>, bs: u32, block: int) -> Seq<u8> {
    data.subrange(block * bs, (block + 1) * bs)
}

/// `buf` after block `block` of `data` has been read into it at offset
/// `at`: the block's bytes replace `buf[at..at + bs]` when the block lies
/// inside the image; otherwise `buf` is unchanged.
pub open spec fn after_read_block(data: Seq<u8>, bs: u32, block: int, buf: Seq<u8>, at: int) -> Seq<
    u8,
> {
    if block_in_image(data.len(), bs, block) {
        overwrite(buf, at, block_bytes(data, bs, block))
    } else {
        buf
    }
}

/// `buf` after the first `count` blocks from `block` on have been read
/// into consecutive slots of `bs` bytes; a block whose slot does not fit
/// in `buf` is skipped.
pub open spec fn after_read_blocks(data: Seq<u8>, bs: u32, block: int, count: nat, buf: Seq<u8>) -> Seq<
    u8,
>
    decreases count,
{
    if count == 0 {
        buf
    } else {
        let i = count - 1;
        let prev = after_read_blocks(data, bs, block, (count - 1) as nat, buf);
        if i * bs + bs <= buf.len() {
            after_read_block(data, bs, block + i, prev, i * bs)
        } else {
            prev
        }
    }
}

/// Every block among the `count` from `block` on whose `bs`-byte slot
/// fits in a buffer of `len` bytes has an index that fits in a `u64`.
pub open spec fn slot_blocks_fit_u64(block: u64, count: u32, bs: u32, len: nat) -> bool {
    forall|i: int| 0 <= i < count && #[trigger] (i * bs) + bs <= len ==> block + i <= u64::MAX
}

/// `data` after the first `bs` bytes of `src` have been written to block
/// `block`; a write to a block outside the image is dropped.
pub open spec fn after_write_block(data: Seq<u8>, bs: u32, block: int, src: Seq<u8>) -> Seq<u8> {
    if block_in_image(data.len(), bs, block) {
        overwrite(data, block * bs, src.take(bs as int))
    } else {
        data
    }
}

/// `data` after the first `count` blocks from `block` on have been
/// written from consecutive `bs`-byte slots of `src`.
pub open spec fn after_write_blocks(data: Seq<u8>, bs: u32, block: int, count: nat, src: Seq<u8>) -> Seq<
    u8,
>
    decreases count,
{
    if count == 0 {
        data
    } else {
        let i = count - 1;
        after_write_block(
            after_write_blocks(data, bs, block, (count - 1) as nat, src),
            bs,
            block + i,
            src.skip(i * bs),
        )
    }
}

/// Blocks of `bs` bytes at different indices occupy disjoint byte ranges.
pub proof fn lemma_blocks_disjoint(bs: u32, b: int, c: int)
    requires
        b != c,
        0 <= b,
        0 <= c,
    ensures
        (c + 1) * bs <= b * bs || (b + 1) * bs <= c * bs,
{
    if c < b {
        assert((c + 1) * bs <= b * bs) by (nonlinear_arith)
            requires
                c + 1 <= b,
                bs >= 0,
        ;
    } else {
        assert((b + 1) * bs <= c * bs) by (nonlinear_arith)
            requires
                b + 1 <= c,
                bs >= 0,
        ;
    }
}

/// Reading back a block gives what was last written to it, and writing
/// one block leaves every other block as it was.
pub proof fn lemma_read_after_write(data: Seq<u8>, bs: u32, b: int, c: int, src: Seq<u8>)
    requires
        0 <= b,
        0 <= c,
        block_in_image(data.len(), bs, b),
        block_in_image(data.len(), bs, c),
        bs <= src.len(),
    ensures
        after_write_block(data, bs, b, src).len() == data.len(),
        block_bytes(after_write_block(data, bs, b, src), bs, b) == src.take(bs as int),
        b != c ==> block_bytes(after_write_block(data, bs, b, src), bs, c) == block_bytes(
            data,
            bs,
            c,
        ),
{
    assert((b + 1) * bs == b * bs + bs) by (nonlinear_arith);
    assert((c + 1) * bs == c * bs + bs) by (nonlinear_arith);
    assert(b * bs >= 0) by (nonlinear_arith)
        requires
            b >= 0,
    ;
    assert(c * bs >= 0) by (nonlinear_arith)
        requires
            c >= 0,
    ;
    let d1 = after_write_block(data, bs, b, src);
    assert(block_bytes(d1, bs, b) =~= src.take(bs as int));
    if b != c {
        lemma_blocks_disjoint(bs, b, c);
        assert(block_bytes(d1, bs, c) =~= block_bytes(data, bs, c));
    }
}

/// A freshly created device reads as zeros in every block.
pub proof fn lemma_new_device_reads_zero(blocks: nat, bs: u32, b: int)
    requires
        0 <= b < blocks,
    ensures
        block_in_image(zeros(blocks * (bs as nat)).len(), bs, b),
        block_bytes(zeros(blocks * (bs as nat)), bs, b) == zeros(bs as nat),
{
    assert((b + 1) * bs <= blocks * bs) by (nonlinear_arith)
        requires
            b + 1 <= blocks,
    ;
    assert(b * bs >= 0) by (nonlinear_arith)
        requires
            b >= 0,
    ;
    assert((b + 1) * bs == b * bs + bs) by (nonlinear_arith);
    assert(block_bytes(zeros(blocks * (bs as nat)), bs, b) =~= zeros(bs as nat));
}

/// Reading several blocks puts each block that lies in the image, and
/// whose slot fits in the buffer, into its own slot.
pub proof fn lemma_read_blocks_slot(
    data: Seq<u8>,
    bs: u32,
    block: int,
    count: nat,
    buf: Seq<u8>,
    i: int,
)
    requires
        0 <= block,
        0 <= i < count,
        i * bs + bs <= buf.len(),
        block_in_image(data.len(), bs, block + i),
    ensures
        after_read_blocks(data, bs, block, count, buf).len() == buf.len(),
        after_read_blocks(data, bs, block, count, buf).subrange(i * bs, i * bs + bs)
            == block_bytes(data, bs, block + i),
    decreases count,
{
    lemma_read_blocks_len(data, bs, block, count, buf);
    let j = count - 1;
    let prev = after_read_blocks(data, bs, block, j as nat, buf);
    lemma_read_blocks_len(data, bs, block, j as nat, buf);
    assert(i * bs >= 0) by (nonlinear_arith)
        requires
            i >= 0,
    ;
    assert((block + i + 1) * bs == (block + i) * bs + bs) by (nonlinear_arith);
    assert((block + i) * bs >= 0) by (nonlinear_arith)
        requires
            block + i >= 0,
    ;
    if j == i {
        assert(after_read_blocks(data, bs, block, count, buf).subrange(i * bs, i * bs + bs)
            =~= block_bytes(data, bs, block + i));
    } else {
        lemma_read_blocks_slot(data, bs, block, j as nat, buf, i);
        assert(j * bs >= i * bs + bs) by (nonlinear_arith)
            requires
                j >= i + 1,
        ;
        assert(after_read_blocks(data, bs, block, count, buf).subrange(i * bs, i * bs + bs)
            =~= prev.subrange(i * bs, i * bs + bs));
    }
}

/// Reading blocks never changes the length of the buffer.
pub proof fn lemma_read_blocks_len(data: Seq<u8>, bs: u32, block: int, count: nat, buf: Seq<u8>)
    ensures
        after_read_blocks(data, bs, block, count, buf).len() == buf.len(),
    decreases count,
{
    if count > 0 {
        lemma_read_blocks_len(data, bs, block, (count - 1) as nat, buf);
    }
}

/// Where block `block` starts in an image of `len` bytes, if it lies
/// entirely inside it.
fn block_offset(len: usize, bs: u32, block: u64) -> (r: Option<usize>)
    ensures
        r is Some <==> block_in_image(len as nat, bs, block as int),
        r matches Some(off) ==> off == block * bs,
{
    match block.checked_mul(bs as u64) {
        None => {
            proof {
                assert(block * bs <= (block + 1) * bs) by (nonlinear_arith);
            }
            None
        },
        Some(off) => match off.checked_add(bs as u64) {
            None => {
                assert((block + 1) * bs == block * bs + bs) by (nonlinear_arith);
                None
            },
            Some(end) => {
                assert((block + 1) * bs == block * bs + bs) by (nonlinear_arith);
                if end <= len as u64 {
                    Some(off as usize)
                } else {
                    None
                }
            },
        },
    }
}

/// Reads block `block` of `data` into `buf` at offset `at`.
fn read_block_into(data: &Vec<u8>, bs: u32, block: u64, buf: &mut [u8], at: usize)
    requires
        block_in_image(data@.len(), bs, block as int) ==> at + bs <= old(buf)@.len(),
    ensures
        final(buf)@ == after_read_block(data@, bs, block as int, old(buf)@, at as int),
{
    match block_offset(data.len(), bs, block) {
        None => {},
        Some(off) => {
            let ghost b0 = buf@;
            let n = bs as usize;
            let bl = buf.len();
            let dlen = data.len();
            assert((block + 1) * bs == block * bs + bs) by (nonlinear_arith);
            let mut k: usize = 0;
            while k < n
                invariant
                    n == bs,
                    dlen == data@.len(),
                    bl == buf@.len(),
                    bl == b0.len(),
                    at + n <= bl,
                    off + n <= data@.len(),
                    k <= n,
                    forall|i: int|
                        0 <= i < bl ==> #[trigger] buf@[i] == if at <= i < at + k {
                            data@[off + i - at]
                        } else {
                            b0[i]
                        },
                decreases n - k,
            {
                buf[at + k] = data[off + k];
                k = k + 1;
            }
            assert(buf@ =~= overwrite(b0, at as int, block_bytes(data@, bs, block as int)));
        },
    }
}

/// Writes the first `bs` bytes of `src[from..]` to block `block` of `data`.
fn write_block_from(data: &mut Vec<u8>, bs: u32, block: u64, src: &[u8], from: usize)
    requires
        from <= src@.len(),
        block_in_image(old(data)@.len(), bs, block as int) ==> from + bs <= src@.len(),
    ensures
        final(data)@ == after_write_block(old(data)@, bs, block as int, src@.skip(from as int)),
{
    match block_offset(data.len(), bs, block) {
        None => {},
        Some(off) => {
            let ghost d0 = data@;
            let n = bs as usize;
            let dl = data.len();
            let sl = src.len();
            assert((block + 1) * bs == block * bs + bs) by (nonlinear_arith);
            let mut k: usize = 0;
            while k < n
                invariant
                    n == bs,
                    sl == src@.len(),
                    dl == data@.len(),
                    dl == d0.len(),
                    off + n <= dl,
                    from + n <= src@.len(),
                    k <= n,
                    forall|i: int|
                        0 <= i < dl ==> #[trigger] data@[i] == if off <= i < off + k {
                            src@[from + i - off]
                        } else {
                            d0[i]
                        },
                decreases n - k,
            {
                data.set(off + k, src[from + k]);
                k = k + 1;
            }
            assert(data@ =~= overwrite(
                d0,
                off as int,
                src@.skip(from as int).take(bs as int),
            ));
        },
    }
}

/// A writable block device held entirely in memory.
pub struct MemDev {
    /// The device contents.
    pub data: Vec<u8>,
    /// Block size in bytes.
    pub bs: u32,
}

impl MemDev {
    /// A device of `blocks` zero-filled blocks of `bs` bytes.
    pub fn new(blocks: u64, bs: u32) -> (dev: MemDev)
        requires
            blocks * bs <= usize::MAX,
            blocks <= usize::MAX,
        ensures
            dev.data@ == zeros((blocks * bs) as nat),
            dev.bs == bs,
    {
        assert((blocks as usize) * (bs as usize) == blocks * bs);
        let data = vec![0u8; blocks as usize * bs as usize];
        assert(data@ =~= zeros((blocks * bs) as nat));
        MemDev { data, bs }
    }

    /// The block size in bytes.
    pub fn block_size(&self) -> (r: u32)
        ensures
            r == self.bs,
    {
        self.bs
    }

    /// Reads block `block` into the first `bs` bytes of `buf`; a block
    /// outside the device leaves `buf` untouched.
    pub fn read_block(&self, block: u64, buf: &mut [u8])
        requires
            block_in_image(self.data@.len(), self.bs, block as int) ==> self.bs <= old(
                buf,
            )@.len(),
        ensures
            final(buf)@ == after_read_block(self.data@, self.bs, block as int, old(buf)@, 0),
    {
        read_block_into(&self.data, self.bs, block, buf, 0);
    }

    /// Reads `count` consecutive blocks from `block` on into consecutive
    /// `bs`-byte slots of `buf`.
    pub fn read_blocks(&self, block: u64, count: u32, buf: &mut [u8])
        requires
            block + count <= u64::MAX + 1,
            forall|i: int|
                0 <= i < count ==> (#[trigger] (i * self.bs) <= old(buf)@.len() && (
                block_in_image(self.data@.len(), self.bs, block + i) ==> i * self.bs + self.bs
                    <= old(buf)@.len())),
        ensures
            final(buf)@ == after_read_blocks(
                self.data@,
                self.bs,
                block as int,
                count as nat,
                old(buf)@,
            ),
    {
        read_blocks_into(&self.data, self.bs, block, count, buf);
    }

    /// Writes the first `bs` bytes of `src` to block `block`; a block
    /// outside the device is not written.
    pub fn write_block(&mut self, block: u64, src: &[u8])
        requires
            block_in_image(old(self).data@.len(), old(self).bs, block as int) ==> old(self).bs
                <= src@.len(),
        ensures
            final(self).bs == old(self).bs,
            final(self).data@ == after_write_block(
                old(self).data@,
                old(self).bs,
                block as int,
                src@,
            ),
    {
        assert(src@.skip(0) =~= src@);
        write_block_from(&mut self.data, self.bs, block, src, 0);
    }

    /// Writes `count` consecutive blocks from `block` on, taking block `i`
    /// from `src[i * bs..]`.
    pub fn write_blocks(&mut self, block: u64, count: u32, src: &[u8])
        requires
            block + count <= u64::MAX + 1,
            forall|i: int|
                0 <= i < count ==> #[trigger] (i * old(self).bs) <= src@.len(),
            forall|i: int|
                0 <= i < count && block_in_image(old(self).data@.len(), old(self).bs, block + i)
                    ==> #[trigger] (i * old(self).bs) + old(self).bs <= src@.len(),
        ensures
            final(self).bs == old(self).bs,
            final(self).data@ == after_write_blocks(
                old(self).data@,
                old(self).bs,
                block as int,
                count as nat,
                src@,
            ),
    {
        let bs = self.bs;
        let sl = src.len();
        let ghost d0 = self.data@;
        let mut i: u32 = 0;
        while i < count
            invariant
                bs == self.bs,
                block + count <= u64::MAX + 1,
                i <= count,
                forall|j: int| 0 <= j < count ==> #[trigger] (j * bs) <= src@.len(),
                forall|j: int|
                    0 <= j < count && block_in_image(d0.len(), bs, block + j) ==> #[trigger] (j
                        * bs) + bs <= src@.len(),
                self.data@ == after_write_blocks(d0, bs, block as int, i as nat, src@),
                self.data@.len() == d0.len(),
                sl == src@.len(),
            decreases count - i,
        {
            proof {
                assert((i as int) * (bs as int) <= src@.len());
                assert((i as int) * (bs as int) <= u32::MAX * u32::MAX) by (nonlinear_arith)
                    requires
                        i <= u32::MAX,
                        bs <= u32::MAX,
                ;
            }
            let from = (i as u64 * bs as u64) as usize;
            let ghost prev = self.data@;
            write_block_from(&mut self.data, bs, block + i as u64, src, from);
            proof {
                assert(self.data@ == after_write_blocks(d0, bs, block as int, (i + 1) as nat, src@));
            }
            i = i + 1;
        }
    }
}

/// A read-only view of a disk image as a block device; writes to it are
/// discarded.
pub struct ImageDev {
    /// The image bytes.
    pub data: Vec<u8>,
    /// Block size in bytes.
    pub bs: u32,
}

impl ImageDev {
    /// The block size in bytes.
    pub fn block_size(&self) -> (r: u32)
        ensures
            r == self.bs,
    {
        self.bs
    }

    /// Reads block `block` into the first `bs` bytes of `buf`; a block
    /// outside the image (including one whose offset overflows) leaves
    /// `buf` untouched.
    pub fn read_block(&self, block: u64, buf: &mut [u8])
        requires
            block_in_image(self.data@.len(), self.bs, block as int) ==> self.bs <= old(
                buf,
            )@.len(),
        ensures
            final(buf)@ == after_read_block(self.data@, self.bs, block as int, old(buf)@, 0),
    {
        read_block_into(&self.data, self.bs, block, buf, 0);
    }

    /// Reads `count` consecutive blocks from `block` on into consecutive
    /// `bs`-byte slots of `buf`, skipping blocks whose slot does not fit.
    pub fn read_blocks(&self, block: u64, count: u32, buf: &mut [u8])
        requires
            slot_blocks_fit_u64(block, count, self.bs, old(buf)@.len()),
        ensures
            final(buf)@ == after_read_blocks(
                self.data@,
                self.bs,
                block as int,
                count as nat,
                old(buf)@,
            ),
    {
        read_blocks_into(&self.data, self.bs, block, count, buf);
    }
}

/// Reads `count` blocks from `block` on into consecutive slots of `buf`.
fn read_blocks_into(data: &Vec<u8>, bs: u32, block: u64, count: u32, buf: &mut [u8])
    requires
        slot_blocks_fit_u64(block, count, bs, old(buf)@.len()),
    ensures
        final(buf)@ == after_read_blocks(data@, bs, block as int, count as nat, old(buf)@),
{
    let ghost b0 = buf@;
    let bl = buf.len();
    let mut i: u32 = 0;
    while i < count
        invariant
            bl == buf@.len(),
            bl == b0.len(),
            slot_blocks_fit_u64(block, count, bs, bl as nat),
            i <= count,
            buf@ == after_read_blocks(data@, bs, block as int, i as nat, b0),
        decreases count - i,
    {
        proof {
            assert((i as int) * (bs as int) + bs <= u32::MAX * u32::MAX + u32::MAX)
                by (nonlinear_arith)
                requires
                    i <= u32::MAX,
                    bs <= u32::MAX,
            ;
        }
        let at = i as u64 * bs as u64;
        if at + bs as u64 <= bl as u64 {
            assert((i as int) * (bs as int) + bs <= bl);
            read_block_into(data, bs, block + i as u64, buf, at as usize);
        }
        i = i + 1;
    }
}

} // verus!
