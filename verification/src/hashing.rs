//! The two checksums of a scan: CRC32C over the first block of a file (for the
//! duplicate table) and a seeded XXH64 over the blocks read from a file.

use vstd::prelude::*;
use std::hash::Hasher;
use twox_hash::XxHash64;

verus! {

/// The size of the blocks in which files are read.
pub const BUFSIZE: usize = 1024;

/// One bit step of the reflected CRC32C register: shift right, and fold in the
/// Castagnoli polynomial (reflected, `0x82F63B78`) when a one bit falls out.
pub open spec fn crc32c_shift(c: u32) -> u32 {
    if c & 1u32 == 1u32 {
        (c >> 1u32) ^ 0x82F6_3B78u32
    } else {
        c >> 1u32
    }
}

/// `n` bit steps of the register.
pub open spec fn crc32c_steps(c: u32, n: nat) -> u32
    decreases n,
{
    if n == 0 {
        c
    } else {
        crc32c_steps(crc32c_shift(c), (n - 1) as nat)
    }
}

/// The register after the bytes of `data`, each taken in at the low end and
/// followed by eight bit steps.
pub open spec fn crc32c_register(c: u32, data: Seq<u8>) -> u32
    decreases data.len(),
{
    if data.len() == 0 {
        c
    } else {
        crc32c_register(crc32c_steps(c ^ (data[0] as u32), 8), data.drop_first())
    }
}

/// The CRC32C (Castagnoli) checksum of `data`: the register starts with all bits
/// set, and the result is its complement.
pub open spec fn crc32c(data: Seq<u8>) -> u32 {
    0xFFFF_FFFFu32 ^ crc32c_register(0xFFFF_FFFFu32, data)
}

/// Calls `crc32c_hw::compute`, which its documentation gives as the CRC32C
/// checksum of the bytes (no earlier value carried in), e.g. `0xe3069283` for
/// `b"123456789"`.
#[verifier::external_body]
fn crc32c_compute(data: &[u8]) -> (r: u32)
    ensures
        r == crc32c(data@),
{
    crc32c_hw::compute(data)
}

/// The block that the head checksum covers: the bytes read, then zeros up to
/// `BUFSIZE`.
pub open spec fn head_block(head: Seq<u8>) -> Seq<u8> {
    head + Seq::new((BUFSIZE - head.len()) as nat, |i: int| 0u8)
}

/// The checksum by which the file table groups a file: CRC32C over a zeroed block
/// of `BUFSIZE` bytes into which the first bytes of the file (`head`) were read.
pub fn head_checksum(head: &[u8]) -> (r: u32)
    requires
        head.len() <= BUFSIZE,
    ensures
        r == crc32c(head_block(head@)),
{
    let mut block: Vec<u8> = Vec::with_capacity(BUFSIZE);
    let mut i: usize = 0;
    while i < head.len()
        invariant
            i <= head.len(),
            block@ == head@.take(i as int),
        decreases head.len() - i,
    {
        block.push(head[i]);
        i = i + 1;
        assert(block@ =~= head@.take(i as int));
    }
    assert(head@.take(i as int) =~= head@);
    while block.len() < BUFSIZE
        invariant
            head.len() <= block.len() <= BUFSIZE,
            block@ == head@ + Seq::new((block.len() - head.len()) as nat, |i: int| 0u8),
        decreases BUFSIZE - block.len(),
    {
        block.push(0u8);
        assert(block@ =~= head@ + Seq::new((block.len() - head.len()) as nat, |i: int| 0u8));
    }
    assert(block@ =~= head_block(head@));
    crc32c_compute(block.as_slice())
}

#[verifier::external_type_specification]
#[verifier::external_body]
pub struct ExXxHash64(XxHash64);

/// The seed an XXH64 hasher was made with.
pub uninterp spec fn xxhash_seed(h: XxHash64) -> u64;

/// The byte strings written into an XXH64 hasher, in order.
pub uninterp spec fn xxhash_input(h: XxHash64) -> Seq<Seq<u8>>;

/// The XXH64 value of the byte strings `input` written in order into a hasher
/// made with `seed`.
pub uninterp spec fn xxh64(seed: u64, input: Seq<Seq<u8>>) -> u64;

/// The number of bytes in `input`.
pub open spec fn total_len(input: Seq<Seq<u8>>) -> nat
    decreases input.len(),
{
    if input.len() == 0 {
        0
    } else {
        total_len(input.drop_last()) + input.last().len()
    }
}

/// Calls `twox_hash::XxHash64::with_seed`: a hasher with that seed into which
/// nothing is written yet.
#[verifier::external_body]
fn xxhash_with_seed(seed: u64) -> (h: XxHash64)
    ensures
        xxhash_seed(h) == seed,
        xxhash_input(h) == Seq::<Seq<u8>>::empty(),
{
    XxHash64::with_seed(seed)
}

/// Calls `Hasher::write` of `twox_hash::XxHash64`: the bytes are written after
/// those written before, and the seed stays. The hasher adds the length to a `u64`
/// count of the bytes written, so the total must stay in range.
#[verifier::external_body]
fn xxhash_write(h: &mut XxHash64, bytes: &[u8])
    requires
        total_len(xxhash_input(*old(h))) + bytes@.len() <= u64::MAX,
    ensures
        xxhash_seed(*final(h)) == xxhash_seed(*old(h)),
        xxhash_input(*final(h)) == xxhash_input(*old(h)).push(bytes@),
{
    h.write(bytes)
}

/// Calls `twox_hash::XxHash64::total_len`: the number of bytes written so far.
#[verifier::external_body]
fn xxhash_total_len(h: &XxHash64) -> (n: u64)
    ensures
        n == total_len(xxhash_input(*h)),
{
    h.total_len()
}

/// Calls `Hasher::finish` of `twox_hash::XxHash64`: the hash of what was written,
/// named `xxh64` of the seed and the writes; the hasher is left as it was.
#[verifier::external_body]
fn xxhash_finish(h: &XxHash64) -> (r: u64)
    ensures
        r == xxh64(xxhash_seed(*h), xxhash_input(*h)),
{
    h.finish()
}

/// The state of the content checksum of one file, read block by block: the
/// hasher, whether every block is hashed or only the first, and whether reading
/// is over.
pub struct Checksum {
    hasher: XxHash64,
    all: bool,
    done: bool,
}

/// The state of a content checksum as plain values.
pub struct ChecksumView {
    /// The blocks hashed so far.
    pub input: Seq<Seq<u8>>,
    /// Whether every block is hashed, or only the first.
    pub all: bool,
    /// Whether reading is over.
    pub done: bool,
}

impl View for Checksum {
    type V = ChecksumView;

    closed spec fn view(&self) -> ChecksumView {
        ChecksumView { input: xxhash_input(self.hasher), all: self.all, done: self.done }
    }
}

/// The state after one read of `size` bytes into the block `block`: a read of
/// some bytes hashes the whole block (also what an earlier read left in it) and
/// ends the reading unless every block is hashed; a read of nothing ends it.
pub open spec fn after_read(c: ChecksumView, block: Seq<u8>, size: nat) -> ChecksumView {
    if size > 0 {
        ChecksumView { input: c.input.push(block), all: c.all, done: !c.all }
    } else {
        ChecksumView { done: true, ..c }
    }
}

/// The state after the reads `reads` (block and size), taken in order until
/// reading is over.
pub open spec fn after_reads(c: ChecksumView, reads: Seq<(Seq<u8>, nat)>) -> ChecksumView
    decreases reads.len(),
{
    if reads.len() == 0 || c.done {
        c
    } else {
        after_reads(after_read(c, reads[0].0, reads[0].1), reads.drop_first())
    }
}

/// The blocks that a checksum over the reads `reads` hashes: the blocks of the
/// reads before the first read of nothing, or only the first of them.
pub open spec fn blocks_hashed(reads: Seq<(Seq<u8>, nat)>, all: bool) -> Seq<Seq<u8>>
    decreases reads.len(),
{
    if reads.len() == 0 || reads[0].1 == 0 {
        Seq::empty()
    } else if !all {
        seq![reads[0].0]
    } else {
        seq![reads[0].0] + blocks_hashed(reads.drop_first(), all)
    }
}

/// A content checksum that starts with nothing hashed, taken over any sequence of
/// reads, hashes exactly `blocks_hashed` of them: all blocks up to the first read
/// of nothing, or with `all` unset only the first block.
pub proof fn lemma_reads_hash_blocks(reads: Seq<(Seq<u8>, nat)>, all: bool)
    ensures
        after_reads(ChecksumView { input: Seq::empty(), all, done: false }, reads).input
            == blocks_hashed(reads, all),
    decreases reads.len(),
{
    lemma_reads_hash_blocks_from(Seq::empty(), reads, all);
    assert(Seq::<Seq<u8>>::empty() + blocks_hashed(reads, all) =~= blocks_hashed(reads, all));
}

proof fn lemma_reads_hash_blocks_from(input: Seq<Seq<u8>>, reads: Seq<(Seq<u8>, nat)>, all: bool)
    ensures
        after_reads(ChecksumView { input, all, done: false }, reads).input == input
            + blocks_hashed(reads, all),
    decreases reads.len(),
{
    let c = ChecksumView { input, all, done: false };
    if reads.len() == 0 {
        assert(input + Seq::<Seq<u8>>::empty() =~= input);
    } else if reads[0].1 == 0 {
        let c1 = after_read(c, reads[0].0, reads[0].1);
        assert(after_reads(c1, reads.drop_first()) == c1);
        assert(input + Seq::<Seq<u8>>::empty() =~= input);
    } else if !all {
        let c1 = after_read(c, reads[0].0, reads[0].1);
        assert(after_reads(c1, reads.drop_first()) == c1);
        assert(input.push(reads[0].0) =~= input + seq![reads[0].0]);
    } else {
        lemma_reads_hash_blocks_from(input.push(reads[0].0), reads.drop_first(), all);
        assert(input.push(reads[0].0) + blocks_hashed(reads.drop_first(), all) =~= input + (seq![
            reads[0].0,
        ] + blocks_hashed(reads.drop_first(), all)));
    }
}

/// The head checksum cannot tell a short file from the same bytes followed by
/// zeros up to the block size: both fill the block alike, so both get the same
/// checksum and land in one group of the file table.
pub proof fn lemma_zero_padding_collides(head: Seq<u8>, zeros: nat)
    requires
        head.len() + zeros <= BUFSIZE,
    ensures
        head_block(head) == head_block(head + Seq::new(zeros, |i: int| 0u8)),
        crc32c(head_block(head)) == crc32c(head_block(head + Seq::new(zeros, |i: int| 0u8))),
{
    assert(head_block(head) =~= head_block(head + Seq::new(zeros, |i: int| 0u8)));
}

/// A read that brings some bytes hashes the whole block whatever the number of
/// bytes it brought: a short last read also hashes what the read before left in
/// the block.
pub proof fn lemma_read_size_does_not_matter(c: ChecksumView, block: Seq<u8>, s1: nat, s2: nat)
    requires
        s1 > 0,
        s2 > 0,
    ensures
        after_read(c, block, s1) == after_read(c, block, s2),
{
}

impl Checksum {
    /// A checksum with the seed 0 and nothing hashed; `all` tells whether every block
    /// is hashed or only the first.
    pub fn new(all: bool) -> (c: Checksum)
        ensures
            c@ == (ChecksumView { input: Seq::empty(), all, done: false }),
            c.seed() == 0,
    {
        Checksum { hasher: xxhash_with_seed(0), all, done: false }
    }

    /// The seed of the hash.
    pub closed spec fn seed(&self) -> u64 {
        xxhash_seed(self.hasher)
    }

    /// Whether reading is over.
    pub fn is_done(&self) -> (r: bool)
        ensures
            r == self@.done,
    {
        self.done
    }

    /// The number of bytes hashed so far.
    pub fn hashed_len(&self) -> (n: u64)
        ensures
            n == total_len(self@.input),
    {
        xxhash_total_len(&self.hasher)
    }

    /// Takes one read of `size` bytes into `block`, and tells whether to read on.
    pub fn feed(&mut self, block: &[u8], size: usize) -> (more: bool)
        requires
            !old(self)@.done,
            size > 0 ==> total_len(old(self)@.input) + block@.len() <= u64::MAX,
        ensures
            final(self)@ == after_read(old(self)@, block@, size as nat),
            final(self).seed() == old(self).seed(),
            more == !final(self)@.done,
    {
        if size > 0 {
            xxhash_write(&mut self.hasher, block);
            if !self.all {
                self.done = true;
            }
        } else {
            self.done = true;
        }
        !self.done
    }

    /// The checksum of the blocks hashed.
    pub fn finish(&self) -> (r: u64)
        ensures
            r == xxh64(self.seed(), self@.input),
    {
        xxhash_finish(&self.hasher)
    }
}

/// A request to checksum the file at `path`: every block when `all` is set, else
/// only the first.
#[derive(Debug, PartialEq, Eq)]
pub struct DpFile(pub String, pub bool);

impl DpFile {
    /// A checksum request.
    pub fn new(path: String, all: bool) -> (d: DpFile)
        ensures
            d.0 == path,
            d.1 == all,
    {
        DpFile(path, all)
    }
}

/// The service that answers checksum requests.
#[derive(Debug, PartialEq, Eq)]
pub struct Sum {}

} // verus!
