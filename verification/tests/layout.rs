use pfs3::bytes::{copy_into, fix_checksum, put_be};
use pfs3::memdev::{ImageDev, MemDev};
use pfs3::rdb::{fixture_image, write_rdb, DOSTYPE_PFS3, PART_ENV, PART_ID, RDSK_ID};

fn be32(b: &[u8], off: usize) -> u32 {
    u32::from_be_bytes([b[off], b[off + 1], b[off + 2], b[off + 3]])
}

fn longword_sum(b: &[u8]) -> u32 {
    let mut s: u32 = 0;
    for k in 0..b.len() / 4 {
        s = s.wrapping_add(be32(b, 4 * k));
    }
    s
}

#[test]
fn put_be_stores_big_endian() {
    let mut buf = [0u8; 8];
    put_be(&mut buf, 2, 0x0102_0304);
    assert_eq!(buf, [0, 0, 1, 2, 3, 4, 0, 0]);
    put_be(&mut buf, 4, 0xFFFF_FFFF);
    assert_eq!(buf, [0, 0, 1, 2, 0xFF, 0xFF, 0xFF, 0xFF]);
}

#[test]
fn fix_checksum_makes_longwords_sum_to_zero() {
    let mut block = [0u8; 16];
    put_be(&mut block, 0, 0x1234_5678);
    put_be(&mut block, 8, 0xDEAD_BEEF);
    put_be(&mut block, 12, 0x0000_0010);
    fix_checksum(&mut block);
    assert_eq!(longword_sum(&block), 0);
    assert_eq!(be32(&block, 0), 0x1234_5678);
    assert_eq!(be32(&block, 4), 0);
    assert_eq!(be32(&block, 12), 0x10);
    assert_eq!(be32(&block, 8), 0u32.wrapping_sub(0x1234_5678 + 0x10));
}

#[test]
fn fix_checksum_is_idempotent() {
    let mut block = [7u8; 64];
    fix_checksum(&mut block);
    let once = block;
    fix_checksum(&mut block);
    assert_eq!(block, once);
}

#[test]
fn fix_checksum_of_zero_block_is_zero() {
    let mut block = [0u8; 512];
    fix_checksum(&mut block);
    assert!(block.iter().all(|&b| b == 0));
}

#[test]
fn copy_into_places_bytes() {
    let mut dst = [9u8; 6];
    copy_into(&mut dst, 1, &[1, 2, 3]);
    assert_eq!(dst, [9, 1, 2, 3, 9, 9]);
}

#[test]
fn write_rdb_fields_and_checksums() {
    let mut data = vec![0xAAu8; 2048];
    write_rdb(&mut data, 10, 4, 8);
    let rdsk = &data[0..512];
    assert_eq!(be32(rdsk, 0), RDSK_ID);
    assert_eq!(be32(rdsk, 4), 64);
    assert_eq!(be32(rdsk, 0x0C), 7);
    assert_eq!(be32(rdsk, 0x10), 512);
    assert_eq!(be32(rdsk, 0x1C), 1);
    assert_eq!(be32(rdsk, 0x40), 10);
    assert_eq!(be32(rdsk, 0x44), 8);
    assert_eq!(be32(rdsk, 0x48), 4);
    assert_eq!(longword_sum(rdsk), 0);
    let part = &data[512..1024];
    assert_eq!(be32(part, 0), PART_ID);
    assert_eq!(be32(part, 0x10), 0xFFFF_FFFF);
    assert_eq!(&part[0x24..0x28], &[3, b'D', b'H', b'0']);
    assert_eq!(be32(part, PART_ENV), 16);
    assert_eq!(be32(part, PART_ENV + 0x04), 128);
    assert_eq!(be32(part, PART_ENV + 0x0C), 4);
    assert_eq!(be32(part, PART_ENV + 0x14), 8);
    assert_eq!(be32(part, PART_ENV + 0x24), 2);
    assert_eq!(be32(part, PART_ENV + 0x28), 9);
    assert_eq!(be32(part, PART_ENV + 0x34), 0x7FFF_FFFE);
    assert_eq!(be32(part, PART_ENV + 0x40), DOSTYPE_PFS3);
    assert_eq!(longword_sum(part), 0);
    assert!(data[1024..].iter().all(|&b| b == 0xAA));
}

#[test]
fn fixture_image_geometry() {
    let img = fixture_image(4, 2, 8);
    assert_eq!(img.data.len(), 4 * 2 * 8 * 512);
    assert_eq!(img.part_start, 2 * 2 * 8 * 512);
    assert_eq!(img.part_blocks, 2 * 2 * 8);
    assert_eq!(be32(&img.data, 0), RDSK_ID);
    assert_eq!(be32(&img.data, 512), PART_ID);
    assert!(img.data[1024..].iter().all(|&b| b == 0));
}

#[test]
fn memdev_starts_zeroed() {
    let dev = MemDev::new(4, 512);
    assert_eq!(dev.block_size(), 512);
    assert_eq!(dev.data.len(), 2048);
    let mut buf = vec![1u8; 512];
    dev.read_block(3, &mut buf);
    assert!(buf.iter().all(|&b| b == 0));
}

#[test]
fn memdev_reads_back_what_was_written() {
    let mut dev = MemDev::new(4, 512);
    dev.write_block(1, &[7u8; 512]);
    let mut buf = vec![0u8; 512];
    dev.read_block(1, &mut buf);
    assert!(buf.iter().all(|&b| b == 7));
    dev.read_block(0, &mut buf);
    assert!(buf.iter().all(|&b| b == 0));
    dev.read_block(2, &mut buf);
    assert!(buf.iter().all(|&b| b == 0));
}

#[test]
fn memdev_ignores_blocks_past_the_end() {
    let mut dev = MemDev::new(2, 16);
    dev.write_block(2, &[5u8; 16]);
    assert!(dev.data.iter().all(|&b| b == 0));
    let mut buf = vec![3u8; 16];
    dev.read_block(2, &mut buf);
    assert!(buf.iter().all(|&b| b == 3));
}

#[test]
fn memdev_multi_block_transfer() {
    let mut dev = MemDev::new(4, 4);
    let src: Vec<u8> = (1..=8).collect();
    dev.write_blocks(1, 2, &src);
    assert_eq!(&dev.data[4..12], &src[..]);
    assert_eq!(&dev.data[0..4], &[0, 0, 0, 0]);
    let mut buf = vec![0u8; 12];
    dev.read_blocks(0, 3, &mut buf);
    assert_eq!(buf, vec![0, 0, 0, 0, 1, 2, 3, 4, 5, 6, 7, 8]);
}

#[test]
fn image_dev_reads_blocks() {
    let dev = ImageDev { data: (0..32).collect(), bs: 8 };
    assert_eq!(dev.block_size(), 8);
    let mut buf = vec![0u8; 16];
    dev.read_blocks(2, 2, &mut buf);
    assert_eq!(buf, (16..32).collect::<Vec<u8>>());
    let mut one = vec![0xEEu8; 8];
    dev.read_block(4, &mut one);
    assert_eq!(one, vec![0xEE; 8]);
}

#[test]
fn small_fixture_is_320_kib() {
    let img = fixture_image(10, 2, 32);
    assert_eq!(img.data.len(), 320 * 1024);
    assert_eq!(img.part_start, 2 * 2 * 32 * 512);
    assert_eq!(img.part_blocks, 512);
}

#[test]
fn image_dev_skips_slots_that_do_not_fit() {
    let dev = ImageDev { data: vec![1u8; 16], bs: 8 };
    let mut empty: Vec<u8> = Vec::new();
    dev.read_blocks(u64::MAX - 1, 5, &mut empty);
    assert!(empty.is_empty());
    let mut buf = vec![0u8; 8];
    dev.read_blocks(1, 3, &mut buf);
    assert_eq!(buf, vec![1u8; 8]);
}
