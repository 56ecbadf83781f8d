use morelike::hashing::{head_checksum, Checksum, DpFile, BUFSIZE};
use std::hash::Hasher;
use twox_hash::XxHash64;

fn padded(head: &[u8]) -> Vec<u8> {
    let mut v = head.to_vec();
    v.resize(BUFSIZE, 0);
    v
}

#[test]
fn head_checksum_covers_a_zero_padded_block() {
    let head = b"123456789";
    assert_eq!(head_checksum(head), crc32c_hw::compute(&padded(head)));
    assert_ne!(head_checksum(head), crc32c_hw::compute(head));
}

#[test]
fn head_checksum_of_nothing_is_that_of_a_zero_block() {
    assert_eq!(head_checksum(&[]), crc32c_hw::compute(&vec![0u8; BUFSIZE]));
}

#[test]
fn head_checksum_of_a_full_block() {
    let block: Vec<u8> = (0..BUFSIZE).map(|i| (i % 251) as u8).collect();
    assert_eq!(head_checksum(&block), crc32c_hw::compute(&block));
}

#[test]
fn zero_padding_collides() {
    let short = b"abc".to_vec();
    let mut longer = short.clone();
    longer.extend_from_slice(&[0, 0, 0, 0]);
    assert_eq!(head_checksum(&short), head_checksum(&longer));
}

fn xxh(seed: u64, blocks: &[&[u8]]) -> u64 {
    let mut h = XxHash64::with_seed(seed);
    for b in blocks {
        h.write(b);
    }
    h.finish()
}

#[test]
fn checksum_of_nothing_read() {
    let mut c = Checksum::new(true);
    assert!(!c.is_done());
    let block = [0u8; BUFSIZE];
    assert!(!c.feed(&block, 0));
    assert!(c.is_done());
    assert_eq!(c.hashed_len(), 0);
    assert_eq!(c.finish(), xxh(0, &[]));
    assert_eq!(c.finish(), 0xef46_db37_51d8_e999);
}

#[test]
fn checksum_of_first_block_only() {
    let mut c = Checksum::new(false);
    let mut block = [0u8; BUFSIZE];
    block[0] = 7;
    block[1] = 8;
    // a read of two bytes hashes the whole block
    assert!(!c.feed(&block, 2));
    assert!(c.is_done());
    assert_eq!(c.hashed_len(), BUFSIZE as u64);
    assert_eq!(c.finish(), xxh(0, &[&block]));
    assert_ne!(c.finish(), xxh(0, &[&block[..2]]));
}

#[test]
fn checksum_of_all_blocks() {
    let mut c = Checksum::new(true);
    let a = [1u8; BUFSIZE];
    let mut b = a;
    b[0] = 2;
    assert!(c.feed(&a, BUFSIZE));
    assert!(c.feed(&b, 1));
    assert!(!c.feed(&b, 0));
    assert_eq!(c.hashed_len(), 2 * BUFSIZE as u64);
    assert_eq!(c.finish(), xxh(0, &[&a, &b]));
}

#[test]
fn checksum_request() {
    let d = DpFile::new("./test/u28.png".to_string(), true);
    assert_eq!(d, DpFile("./test/u28.png".to_string(), true));
}

fn bitwise_crc32c(data: &[u8]) -> u32 {
    let mut c: u32 = 0xFFFF_FFFF;
    for &b in data {
        c ^= b as u32;
        for _ in 0..8 {
            c = if c & 1 == 1 { (c >> 1) ^ 0x82F6_3B78 } else { c >> 1 };
        }
    }
    0xFFFF_FFFF ^ c
}

#[test]
fn head_checksum_is_bitwise_crc32c_of_the_block() {
    assert_eq!(bitwise_crc32c(b"123456789"), 0xe306_9283);
    let head = b"hello, world";
    assert_eq!(head_checksum(head), bitwise_crc32c(&padded(head)));
}
