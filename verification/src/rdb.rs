//! Writing a minimal Rigid Disk Block (RDSK header plus one PART block)
//! at the start of a disk image, as used to build test fixtures.

use vstd::prelude::*;
use crate::bytes::{
    be32_at, checksum_ok, checksummed_form_of, copy_into, fix_checksum, lemma_be_bytes_roundtrip,
    put_be, with_be32, zeros,
};

verus! {

/// Size in bytes of an RDB block.
pub const RDB_BLOCK_SIZE: usize = 512;
/// Longword identifying an RDSK block ("RDSK").
pub const RDSK_ID: u32 = 0x5244_534B;
/// Longword identifying a PART block ("PART").
pub const PART_ID: u32 = 0x5041_5254;
/// DOS type of a PFS3 partition ("PFS\x03").
pub const DOSTYPE_PFS3: u32 = 0x5046_5303;
/// Offset of the DOS environment vector inside a PART block.
pub const PART_ENV: usize = 0x80;

/// The fields of the RDSK block for a disk of the given geometry, before
/// its checksum is filled in: identifier, summed size (64 longwords),
/// host id 7, block size 512, flags 1, and cylinders / sectors / heads.
pub open spec fn rdsk_fields(cyls: u32, heads: u32, secs: u32) -> Seq<u8> {
    let b = with_be32(zeros(512), 0, RDSK_ID);
    let b = with_be32(b, 4, 64);
    let b = with_be32(b, 0x0C, 7);
    let b = with_be32(b, 0x10, 512);
    let b = with_be32(b, 0x1C, 1);
    let b = with_be32(b, 0x40, cyls);
    let b = with_be32(b, 0x44, secs);
    with_be32(b, 0x48, heads)
}

/// The fields of the single PART block (partition "DH0", PFS3, from
/// cylinder 2 to the last cylinder) before its checksum is filled in.
pub open spec fn part_fields(cyls: u32, heads: u32, secs: u32) -> Seq<u8> {
    let e = PART_ENV as int;
    let b = with_be32(zeros(512), 0, PART_ID);
    let b = with_be32(b, 4, 64);
    let b = with_be32(b, 0x0C, 7);
    let b = with_be32(b, 0x10, 0xFFFF_FFFF);
    let b = b.update(0x24, 3u8).update(0x25, 0x44u8).update(0x26, 0x48u8).update(0x27, 0x30u8);
    let b = with_be32(b, e, 16);
    let b = with_be32(b, e + 0x04, 128);
    let b = with_be32(b, e + 0x0C, heads);
    let b = with_be32(b, e + 0x10, 1);
    let b = with_be32(b, e + 0x14, secs);
    let b = with_be32(b, e + 0x18, 2);
    let b = with_be32(b, e + 0x24, 2);
    let b = with_be32(b, e + 0x28, (cyls - 1) as u32);
    let b = with_be32(b, e + 0x30, 1);
    let b = with_be32(b, e + 0x34, 0x7FFF_FFFE);
    with_be32(b, e + 0x40, DOSTYPE_PFS3)
}

/// An RDSK block written for a geometry identifies itself as RDSK,
/// declares 512-byte blocks, records the cylinders, sectors and heads it
/// was written for, and carries a valid checksum.
pub proof fn lemma_rdsk_block_describes_geometry(block: Seq<u8>, cyls: u32, heads: u32, secs: u32)
    requires
        checksummed_form_of(block, rdsk_fields(cyls, heads, secs)),
    ensures
        block.len() == RDB_BLOCK_SIZE,
        checksum_ok(block),
        be32_at(block, 0) == RDSK_ID,
        be32_at(block, 0x10) == 512,
        be32_at(block, 0x40) == cyls,
        be32_at(block, 0x44) == secs,
        be32_at(block, 0x48) == heads,
{
    let f = rdsk_fields(cyls, heads, secs);
    lemma_be_bytes_roundtrip(RDSK_ID);
    lemma_be_bytes_roundtrip(512);
    lemma_be_bytes_roundtrip(cyls);
    lemma_be_bytes_roundtrip(secs);
    lemma_be_bytes_roundtrip(heads);
    assert(be32_at(f, 0) == RDSK_ID);
    assert(be32_at(f, 0x10) == 512);
    assert(be32_at(f, 0x40) == cyls);
    assert(be32_at(f, 0x44) == secs);
    assert(be32_at(f, 0x48) == heads);
    assert(forall|i: int| 0 <= i < 4 ==> block[i] == f[i]);
    assert(forall|i: int| 0x10 <= i < 0x14 ==> block[i] == f[i]);
    assert(forall|i: int| 0x40 <= i < 0x4C ==> block[i] == f[i]);
}

/// The PART block written for a geometry identifies itself as PART,
/// names the partition "DH0", records the heads and sectors of the disk,
/// spans cylinders 2 to `cyls - 1`, declares the PFS3 DOS type, and
/// carries a valid checksum.
pub proof fn lemma_part_block_describes_partition(
    block: Seq<u8>,
    cyls: u32,
    heads: u32,
    secs: u32,
)
    requires
        checksummed_form_of(block, part_fields(cyls, heads, secs)),
        cyls >= 1,
    ensures
        block.len() == RDB_BLOCK_SIZE,
        checksum_ok(block),
        be32_at(block, 0) == PART_ID,
        block[0x24] == 3,
        block[0x25] == 0x44,
        block[0x26] == 0x48,
        block[0x27] == 0x30,
        be32_at(block, PART_ENV + 0x0C) == heads,
        be32_at(block, PART_ENV + 0x14) == secs,
        be32_at(block, PART_ENV + 0x24) == 2,
        be32_at(block, PART_ENV + 0x28) == cyls - 1,
        be32_at(block, PART_ENV + 0x40) == DOSTYPE_PFS3,
{
    let f = part_fields(cyls, heads, secs);
    let e = PART_ENV as int;
    lemma_be_bytes_roundtrip(PART_ID);
    lemma_be_bytes_roundtrip(heads);
    lemma_be_bytes_roundtrip(secs);
    lemma_be_bytes_roundtrip(2);
    lemma_be_bytes_roundtrip((cyls - 1) as u32);
    lemma_be_bytes_roundtrip(DOSTYPE_PFS3);
    assert(be32_at(f, 0) == PART_ID);
    assert(be32_at(f, e + 0x0C) == heads);
    assert(be32_at(f, e + 0x14) == secs);
    assert(be32_at(f, e + 0x24) == 2);
    assert(be32_at(f, e + 0x28) == cyls - 1);
    assert(be32_at(f, e + 0x40) == DOSTYPE_PFS3);
    assert(forall|i: int| 0 <= i < 4 ==> block[i] == f[i]);
    assert(forall|i: int| 0x24 <= i < 0x28 ==> block[i] == f[i]);
    assert(forall|i: int| e + 0x0C <= i < e + 0x10 ==> block[i] == f[i]);
    assert(forall|i: int| e + 0x14 <= i < e + 0x18 ==> block[i] == f[i]);
    assert(forall|i: int| e + 0x24 <= i < e + 0x2C ==> block[i] == f[i]);
    assert(forall|i: int| e + 0x40 <= i < e + 0x44 ==> block[i] == f[i]);
}

/// Writes an RDSK block into `data[0..512]` and a PART block describing
/// one PFS3 partition into `data[512..1024]`, both with valid checksums;
/// the rest of `data` is left as it was.
pub fn write_rdb(data: &mut [u8], cyls: u32, heads: u32, secs: u32)
    requires
        old(data)@.len() >= 1024,
        cyls >= 1,
    ensures
        final(data)@.len() == old(data)@.len(),
        checksummed_form_of(final(data)@.subrange(0, 512), rdsk_fields(cyls, heads, secs)),
        checksummed_form_of(final(data)@.subrange(512, 1024), part_fields(cyls, heads, secs)),
        final(data)@.subrange(1024, final(data)@.len() as int) == old(data)@.subrange(
            1024,
            old(data)@.len() as int,
        ),
{
    let mut rdsk: Vec<u8> = vec![0u8; 512];
    assert(rdsk@ == zeros(512));
    put_be(rdsk.as_mut_slice(), 0, RDSK_ID);
    put_be(rdsk.as_mut_slice(), 4, 64);
    put_be(rdsk.as_mut_slice(), 0x0C, 7);
    put_be(rdsk.as_mut_slice(), 0x10, 512);
    put_be(rdsk.as_mut_slice(), 0x1C, 1);
    put_be(rdsk.as_mut_slice(), 0x40, cyls);
    put_be(rdsk.as_mut_slice(), 0x44, secs);
    put_be(rdsk.as_mut_slice(), 0x48, heads);
    assert(rdsk@ == rdsk_fields(cyls, heads, secs));
    fix_checksum(rdsk.as_mut_slice());
    copy_into(data, 0, rdsk.as_slice());

    let mut part: Vec<u8> = vec![0u8; 512];
    assert(part@ == zeros(512));
    put_be(part.as_mut_slice(), 0, PART_ID);
    put_be(part.as_mut_slice(), 4, 64);
    put_be(part.as_mut_slice(), 0x0C, 7);
    put_be(part.as_mut_slice(), 0x10, 0xFFFF_FFFF);
    part[0x24] = 3;
    part[0x25] = 0x44;
    part[0x26] = 0x48;
    part[0x27] = 0x30;
    let env = PART_ENV;
    put_be(part.as_mut_slice(), env, 16);
    put_be(part.as_mut_slice(), env + 0x04, 128);
    put_be(part.as_mut_slice(), env + 0x0C, heads);
    put_be(part.as_mut_slice(), env + 0x10, 1);
    put_be(part.as_mut_slice(), env + 0x14, secs);
    put_be(part.as_mut_slice(), env + 0x18, 2);
    put_be(part.as_mut_slice(), env + 0x24, 2);
    put_be(part.as_mut_slice(), env + 0x28, cyls - 1);
    put_be(part.as_mut_slice(), env + 0x30, 1);
    put_be(part.as_mut_slice(), env + 0x34, 0x7FFF_FFFE);
    put_be(part.as_mut_slice(), env + 0x40, DOSTYPE_PFS3);
    assert(part@ == part_fields(cyls, heads, secs));
    fix_checksum(part.as_mut_slice());
    let ghost d1 = data@;
    assert(d1.subrange(0, 512) =~= rdsk@);
    copy_into(data, 512, part.as_slice());
    assert(data@.subrange(0, 512) =~= d1.subrange(0, 512));
    assert(data@.subrange(512, 1024) =~= part@);
}


/// A zero-filled disk image carrying an RDB with one PFS3 partition.
pub struct FixtureImage {
    /// The image bytes.
    pub data: Vec<u8>,
    /// Byte offset of the partition (cylinder 2).
    pub part_start: u64,
    /// Number of 512-byte blocks of the partition (cylinders 2 to the end).
    pub part_blocks: u64,
}

/// Builds the image of a disk with the given geometry: `cyls * heads *
/// secs` blocks of 512 zero bytes, with the RDSK block in block 0 and the
/// PART block in block 1, and the partition starting at cylinder 2.
pub fn fixture_image(cyls: u32, heads: u32, secs: u32) -> (img: FixtureImage)
    requires
        cyls >= 2,
        heads >= 1,
        secs >= 1,
        cyls * heads * secs <= u32::MAX,
        cyls * heads * secs * 512 <= usize::MAX,
    ensures
        img.data@.len() == cyls * heads * secs * 512,
        checksummed_form_of(img.data@.subrange(0, 512), rdsk_fields(cyls, heads, secs)),
        checksummed_form_of(img.data@.subrange(512, 1024), part_fields(cyls, heads, secs)),
        forall|i: int| 1024 <= i < img.data@.len() ==> img.data@[i] == 0,
        img.part_start == 2 * heads * secs * 512,
        img.part_blocks == (cyls - 2) * heads * secs,
{
    proof {
        assert(heads * secs <= cyls * heads * secs) by (nonlinear_arith)
            requires
                cyls >= 2,
                heads >= 1,
                secs >= 1,
        ;
        assert(2 * heads * secs <= cyls * heads * secs) by (nonlinear_arith)
            requires
                cyls >= 2,
                heads >= 1,
                secs >= 1,
        ;
        assert(cyls * (heads * secs) == cyls * heads * secs) by (nonlinear_arith);
        assert(2 * (heads * secs) == 2 * heads * secs) by (nonlinear_arith);
        assert((cyls - 2) * (heads * secs) == (cyls - 2) * heads * secs) by (nonlinear_arith);
        assert((cyls - 2) * heads * secs == cyls * heads * secs - 2 * heads * secs)
            by (nonlinear_arith);
        assert(cyls * heads * secs >= 2) by (nonlinear_arith)
            requires
                cyls >= 2,
                heads >= 1,
                secs >= 1,
        ;
    }
    let hs: u32 = heads * secs;
    let total_blocks: u32 = cyls * hs;
    let image_size: usize = total_blocks as usize * 512;
    let mut data: Vec<u8> = vec![0u8; image_size];
    assert(data@ =~= zeros(image_size as nat));
    let ghost d0 = data@;
    write_rdb(data.as_mut_slice(), cyls, heads, secs);
    proof {
        assert forall|i: int| 1024 <= i < data@.len() implies data@[i] == 0 by {
            assert(data@.subrange(1024, data@.len() as int)[i - 1024] == d0.subrange(
                1024,
                d0.len() as int,
            )[i - 1024]);
        }
    }
    let part_start: u64 = (2 * hs) as u64 * 512;
    let part_blocks: u64 = ((cyls - 2) * hs) as u64;
    FixtureImage { data, part_start, part_blocks }
}

} // verus!
