//! Bosch MPC5xx partitioned flash checksums: for each flash block, the 32-bit wrapping
//! sum of its big-endian words and the bitwise inverse of that sum, both stored
//! big-endian right after the block.

use crate::bytes::{be_bytes, be_read, be_value, lemma_be_roundtrip};
use crate::digest::{crc32, crc32_of};
use crate::error::SterngateError;
use vstd::arithmetic::div_mod::lemma_add_mod_noop;
use vstd::prelude::*;

verus! {

/// Smallest image that is scanned at all (512 KiB).
pub const MIN_SCANNED_LEN: usize = 0x80000;

/// Smallest image with a partition table (1 MiB flash).
pub const SMALL_FLASH_LEN: usize = 0x100000;

/// Smallest image laid out as 2 MiB flash.
pub const LARGE_FLASH_LEN: usize = 0x200000;

/// One flash checksum block of a Bosch MPC5xx / 29BL802C image.
#[derive(Debug, Clone, PartialEq, Eq, Structural)]
pub struct ChecksumBlock {
    pub block_index: usize,
    pub start_address: u32,
    pub end_address: u32,
    pub sum_address: u32,
    pub inv_address: u32,
    pub stored_sum: u32,
    pub calculated_sum: u32,
    pub stored_inv: u32,
    pub calculated_inv: u32,
    pub is_valid: bool,
}

/// Integrity of all checksum blocks of an image.
#[derive(Debug, Clone, PartialEq, Eq)]
pub struct ChecksumReport {
    pub is_valid: bool,
    pub total_blocks: usize,
    pub valid_blocks: usize,
    pub blocks: Vec<ChecksumBlock>,
    pub global_crc32: u32,
}

/// Block `k` (of four) of the partition table: start, end (exclusive bound of the
/// summed words), sum address, inverse address. `large` selects the 2 MiB layout.
pub open spec fn partition(large: bool, k: nat) -> (u32, u32, u32, u32) {
    if k == 0 {
        (0x000000, 0x03FFDF, 0x03FFE0, 0x03FFE4)
    } else if k == 1 {
        (0x040000, 0x07FFDF, 0x07FFE0, 0x07FFE4)
    } else if large {
        if k == 2 {
            (0x080000, 0x1BFFDF, 0x1BFFE0, 0x1BFFE4)
        } else {
            (0x1C0000, 0x1FFFDF, 0x1FFFE0, 0x1FFFE4)
        }
    } else if k == 2 {
        (0x080000, 0x0DFFDF, 0x0DFFE0, 0x0DFFE4)
    } else {
        (0x0E0000, 0x0FFFDF, 0x0FFFE0, 0x0FFFE4)
    }
}

/// Whether an image of `len` bytes uses the 2 MiB layout.
pub open spec fn is_large(len: nat) -> bool {
    len >= LARGE_FLASH_LEN
}

/// The big-endian word at `i`.
pub open spec fn word_at(rom: Seq<u8>, i: nat) -> nat {
    be_value(rom[i as int], rom[i + 1 as int], rom[i + 2 as int], rom[i + 3 as int]) as nat
}

/// Sum of the big-endian words at `ptr`, `ptr + 4`, ... that end by `end`, leaving out
/// the words at `s` and `v`.
pub open spec fn word_sum(rom: Seq<u8>, ptr: nat, end: nat, s: nat, v: nat) -> nat
    decreases end - ptr,
{
    if ptr + 4 > end {
        0
    } else {
        (if ptr != s && ptr != v {
            word_at(rom, ptr)
        } else {
            0
        }) + word_sum(rom, ptr + 4, end, s, v)
    }
}

/// End of the summed range of a block: its end bound, cut at the image end.
pub open spec fn clipped_end(end: u32, len: nat) -> nat {
    if end < len {
        end as nat
    } else {
        len
    }
}

/// Whether block `p` exists in an image of `len` bytes.
pub open spec fn block_present(p: (u32, u32, u32, u32), len: nat) -> bool {
    &&& p.2 + 4 <= len
    &&& p.3 + 4 <= len
    &&& p.0 < clipped_end(p.1, len)
}

/// The checksum record of block `k`, laid out as `p`, of `rom`.
pub open spec fn block_of(rom: Seq<u8>, k: nat, p: (u32, u32, u32, u32)) -> ChecksumBlock {
    let sum = (word_sum(rom, p.0 as nat, clipped_end(p.1, rom.len()), p.2 as nat, p.3 as nat)
        % 0x1_0000_0000) as u32;
    let inv = sum ^ 0xFFFF_FFFFu32;
    let stored_sum = word_at(rom, p.2 as nat) as u32;
    let stored_inv = word_at(rom, p.3 as nat) as u32;
    ChecksumBlock {
        block_index: k as usize,
        start_address: p.0,
        end_address: p.1,
        sum_address: p.2,
        inv_address: p.3,
        stored_sum,
        calculated_sum: sum,
        stored_inv,
        calculated_inv: inv,
        is_valid: (stored_sum == sum && stored_inv == inv) || (stored_sum == 0 && stored_inv == 0
            && sum == 0),
    }
}

/// The records of the blocks among the first `k` that exist, in order.
pub open spec fn blocks_upto(rom: Seq<u8>, k: nat) -> Seq<ChecksumBlock>
    decreases k,
{
    if k == 0 {
        Seq::empty()
    } else {
        let prev = blocks_upto(rom, (k - 1) as nat);
        let p = partition(is_large(rom.len()), (k - 1) as nat);
        if block_present(p, rom.len()) {
            prev.push(block_of(rom, (k - 1) as nat, p))
        } else {
            prev
        }
    }
}

/// The checksum blocks of an image: none below 1 MiB, else those of the four partitions
/// that fit in the image.
pub open spec fn checksum_blocks(rom: Seq<u8>) -> Seq<ChecksumBlock> {
    if rom.len() >= SMALL_FLASH_LEN {
        blocks_upto(rom, 4)
    } else {
        Seq::empty()
    }
}

/// Number of valid blocks.
pub open spec fn count_valid(bs: Seq<ChecksumBlock>) -> nat
    decreases bs.len(),
{
    if bs.len() == 0 {
        0
    } else {
        count_valid(bs.drop_last()) + if bs.last().is_valid {
            1nat
        } else {
            0
        }
    }
}

/// `r` with the big-endian bytes of `x` written at `at`, when they fit.
pub open spec fn put_be(r: Seq<u8>, at: nat, x: u32) -> Seq<u8> {
    if at + 4 <= r.len() {
        r.take(at as int) + be_bytes(x) + r.skip(at + 4 as int)
    } else {
        r
    }
}

/// `rom` with the calculated sums and inverses of the first `i` blocks of `bs` written in.
pub open spec fn patch_upto(rom: Seq<u8>, bs: Seq<ChecksumBlock>, i: nat) -> Seq<u8>
    decreases i,
{
    if i == 0 {
        rom
    } else {
        let b = bs[i - 1];
        put_be(
            put_be(patch_upto(rom, bs, (i - 1) as nat), b.sum_address as nat, b.calculated_sum),
            b.inv_address as nat,
            b.calculated_inv,
        )
    }
}

/// `rom` with every checksum block recalculated and written in.
pub open spec fn recalculated(rom: Seq<u8>) -> Seq<u8> {
    patch_upto(rom, checksum_blocks(rom), checksum_blocks(rom).len())
}

/// A block record after its sums were written: stored values equal calculated ones.
pub open spec fn applied(b: ChecksumBlock) -> ChecksumBlock {
    ChecksumBlock {
        stored_sum: b.calculated_sum,
        stored_inv: b.calculated_inv,
        is_valid: true,
        ..b
    }
}

/// The report of an image.
pub open spec fn report_of(rep: ChecksumReport, rom: Seq<u8>) -> bool {
    &&& rep.blocks@ == checksum_blocks(rom)
    &&& rep.total_blocks == rep.blocks@.len()
    &&& rep.valid_blocks == count_valid(rep.blocks@)
    &&& rep.is_valid == (rep.total_blocks > 0 && rep.valid_blocks == rep.total_blocks)
    &&& rep.global_crc32 == crc32_of(rom)
}

fn partition_exec(large: bool, k: usize) -> (r: (u32, u32, u32, u32))
    requires
        k < 4,
    ensures
        r == partition(large, k as nat),
{
    if k == 0 {
        (0x000000, 0x03FFDF, 0x03FFE0, 0x03FFE4)
    } else if k == 1 {
        (0x040000, 0x07FFDF, 0x07FFE0, 0x07FFE4)
    } else if large {
        if k == 2 {
            (0x080000, 0x1BFFDF, 0x1BFFE0, 0x1BFFE4)
        } else {
            (0x1C0000, 0x1FFFDF, 0x1FFFE0, 0x1FFFE4)
        }
    } else if k == 2 {
        (0x080000, 0x0DFFDF, 0x0DFFE0, 0x0DFFE4)
    } else {
        (0x0E0000, 0x0FFFDF, 0x0FFFE0, 0x0FFFE4)
    }
}

fn compute_block(rom: &[u8], k: usize, p: (u32, u32, u32, u32)) -> (r: ChecksumBlock)
    requires
        block_present(p, rom@.len()),
    ensures
        r == block_of(rom@, k as nat, p),
{
    let len = rom.len();
    let (start, end, sum_addr, inv_addr) = p;
    let end_usize: usize = if (end as usize) < len {
        end as usize
    } else {
        len
    };
    let sum_usize = sum_addr as usize;
    let inv_usize = inv_addr as usize;
    let stored_sum = be_read(rom, sum_usize);
    let stored_inv = be_read(rom, inv_usize);
    let mut sum: u32 = 0;
    let mut ptr: usize = start as usize;
    let ghost total = word_sum(rom@, start as nat, end_usize as nat, sum_addr as nat, inv_addr as nat);
    while ptr <= end_usize && end_usize - ptr >= 4
        invariant
            end_usize <= rom@.len(),
            (sum + word_sum(rom@, ptr as nat, end_usize as nat, sum_usize as nat, inv_usize as nat))
                % 0x1_0000_0000 == total % 0x1_0000_0000,
            total == word_sum(rom@, start as nat, end_usize as nat, sum_addr as nat, inv_addr as nat),
            sum_usize == sum_addr,
            inv_usize == inv_addr,
            ptr <= end_usize || ptr == start,
            start < end_usize,
        decreases end_usize - ptr,
    {
        let ghost rest = word_sum(rom@, (ptr + 4) as nat, end_usize as nat, sum_usize as nat, inv_usize as nat);
        if ptr != sum_usize && ptr != inv_usize {
            let word = be_read(rom, ptr);
            proof {
                lemma_add_mod_noop(sum + word, rest as int, 0x1_0000_0000);
                lemma_add_mod_noop((sum + word) % 0x1_0000_0000, rest as int, 0x1_0000_0000);
                assert(((sum + word) % 0x1_0000_0000) % 0x1_0000_0000 == (sum + word) % 0x1_0000_0000);
            }
            sum = sum.wrapping_add(word);
        }
        ptr = ptr + 4;
    }
    proof {
        assert(word_sum(rom@, ptr as nat, end_usize as nat, sum_usize as nat, inv_usize as nat) == 0);
        assert(sum as int % 0x1_0000_0000 == sum);
    }
    let inv = sum ^ 0xFFFF_FFFF;
    let is_valid = (stored_sum == sum && stored_inv == inv) || (stored_sum == 0 && stored_inv == 0
        && sum == 0);
    ChecksumBlock {
        block_index: k,
        start_address: start,
        end_address: end,
        sum_address: sum_addr,
        inv_address: inv_addr,
        stored_sum,
        calculated_sum: sum,
        stored_inv,
        calculated_inv: inv,
        is_valid,
    }
}

fn find_and_compute_blocks(rom: &[u8]) -> (r: Vec<ChecksumBlock>)
    ensures
        r@ == checksum_blocks(rom@),
{
    let len = rom.len();
    let mut blocks: Vec<ChecksumBlock> = Vec::new();
    if len < SMALL_FLASH_LEN {
        return blocks;
    }
    let large = len >= LARGE_FLASH_LEN;
    let mut k: usize = 0;
    while k < 4
        invariant
            k <= 4,
            len == rom@.len(),
            large == is_large(len as nat),
            blocks@ == blocks_upto(rom@, k as nat),
        decreases 4 - k,
    {
        let p = partition_exec(large, k);
        let (start, end, sum_addr, inv_addr) = p;
        let end_usize: usize = if (end as usize) < len {
            end as usize
        } else {
            len
        };
        let sum_usize = sum_addr as usize;
        let inv_usize = inv_addr as usize;
        if !(sum_usize + 4 > len || inv_usize + 4 > len || start as usize >= end_usize) {
            let b = compute_block(rom, k, p);
            blocks.push(b);
        }
        k = k + 1;
    }
    blocks
}

fn count_valid_blocks(bs: &Vec<ChecksumBlock>) -> (n: usize)
    ensures
        n == count_valid(bs@),
{
    let mut n: usize = 0;
    let mut i: usize = 0;
    while i < bs.len()
        invariant
            i <= bs@.len(),
            n == count_valid(bs@.take(i as int)),
            n <= i,
        decreases bs@.len() - i,
    {
        proof {
            assert(bs@.take(i + 1).drop_last() =~= bs@.take(i as int));
        }
        if bs[i].is_valid {
            n = n + 1;
        }
        i = i + 1;
    }
    proof {
        assert(bs@.take(i as int) =~= bs@);
    }
    n
}

/// Solver for Bosch MPC5xx block checksums.
pub struct BoschChecksumSolver;

fn write_be(rom: &mut [u8], at: usize, x: u32)
    requires
        at + 4 <= old(rom)@.len(),
    ensures
        final(rom)@ == put_be(old(rom)@, at as nat, x),
{
    rom[at] = (x / 0x100_0000) as u8;
    rom[at + 1] = (x / 0x1_0000 % 0x100) as u8;
    rom[at + 2] = (x / 0x100 % 0x100) as u8;
    rom[at + 3] = (x % 0x100) as u8;
    proof {
        assert(final(rom)@ =~= put_be(old(rom)@, at as nat, x));
    }
}

impl BoschChecksumSolver {
    /// Scans and verifies all checksum blocks of `rom`.
    pub fn verify(rom: &[u8]) -> (r: ChecksumReport)
        ensures
            report_of(r, rom@),
    {
        let blocks = find_and_compute_blocks(rom);
        let total_blocks = blocks.len();
        let valid_blocks = count_valid_blocks(&blocks);
        let is_valid = total_blocks > 0 && valid_blocks == total_blocks;
        let global_crc32 = crc32(rom);
        ChecksumReport { is_valid, total_blocks, valid_blocks, blocks, global_crc32 }
    }

    /// Recalculates every checksum block and writes the sums and their inverses into
    /// `rom`; the report describes the blocks as written. Only the sum and inverse words
    /// change, and recalculating the result again changes nothing.
    pub fn recalculate_and_apply(rom: &mut [u8]) -> (r: Result<ChecksumReport, SterngateError>)
        ensures
            final(rom)@ == recalculated(old(rom)@),
            recalculated(final(rom)@) == final(rom)@,
            r matches Ok(rep) && {
                &&& rep.blocks@ == checksum_blocks(old(rom)@).map_values(|b: ChecksumBlock| applied(b))
                &&& rep.total_blocks == rep.blocks@.len()
                &&& rep.valid_blocks == rep.blocks@.len()
                &&& rep.is_valid == (rep.blocks@.len() > 0)
                &&& rep.is_valid == (old(rom)@.len() >= SMALL_FLASH_LEN)
                &&& rep.global_crc32 == crc32_of(final(rom)@)
            },
            forall|q: int|
                0 <= q < old(rom)@.len() && (forall|j: int|
                    0 <= j < checksum_blocks(old(rom)@).len() ==> !((#[trigger] checksum_blocks(
                        old(rom)@,
                    )[j]).sum_address <= q < checksum_blocks(old(rom)@)[j].sum_address + 8))
                    ==> #[trigger] final(rom)@[q] == old(rom)@[q],
    {
        let report = Self::verify(rom);
        let ghost orig = old(rom)@;
        let ghost bs = report.blocks@;
        let mut blocks: Vec<ChecksumBlock> = Vec::new();
        let mut i: usize = 0;
        proof {
            lemma_blocks_layout(orig);
        }
        while i < report.blocks.len()
            invariant
                bs == checksum_blocks(orig),
                report.blocks@ == bs,
                i <= bs.len(),
                rom@ == patch_upto(orig, bs, i as nat),
                rom@.len() == orig.len(),
                blocks@ == bs.take(i as int).map_values(|b: ChecksumBlock| applied(b)),
                forall|j: int|
                    0 <= j < bs.len() ==> bs[j].sum_address + 4 <= orig.len()
                        && bs[j].inv_address + 4 <= orig.len(),
            decreases bs.len() - i,
        {
            let b = &report.blocks[i];
            let sum_offset = b.sum_address as usize;
            let inv_offset = b.inv_address as usize;
            proof {
                assert(bs[i as int].sum_address + 4 <= orig.len());
                assert(bs[i as int].inv_address + 4 <= orig.len());
            }
            let rom_len = rom.len();
            if sum_offset + 4 <= rom_len && inv_offset + 4 <= rom_len {
                write_be(rom, sum_offset, b.calculated_sum);
                write_be(rom, inv_offset, b.calculated_inv);
            }
            let nb = ChecksumBlock {
                block_index: b.block_index,
                start_address: b.start_address,
                end_address: b.end_address,
                sum_address: b.sum_address,
                inv_address: b.inv_address,
                stored_sum: b.calculated_sum,
                calculated_sum: b.calculated_sum,
                stored_inv: b.calculated_inv,
                calculated_inv: b.calculated_inv,
                is_valid: true,
            };
            blocks.push(nb);
            proof {
                assert(bs.take(i + 1).map_values(|b: ChecksumBlock| applied(b)) =~= bs.take(
                    i as int,
                ).map_values(|b: ChecksumBlock| applied(b)).push(applied(bs[i as int])));
            }
            i = i + 1;
        }
        proof {
            assert(bs.take(i as int) =~= bs);
            lemma_blocks_present_iff_large(orig);
            lemma_recalculation_idempotent(orig);
        }
        let n = blocks.len();
        proof {
            assert forall|q: int|
                0 <= q < orig.len() && (forall|j: int|
                    0 <= j < checksum_blocks(orig).len() ==> !((#[trigger] checksum_blocks(orig)[j]).sum_address
                        <= q < checksum_blocks(orig)[j].sum_address + 8)) implies #[trigger] rom@[q] == orig[q] by {
                lemma_recalculation_touches_only_sums(orig, q);
            }
        }
        let global_crc32 = crc32(rom);
        Ok(
            ChecksumReport {
                is_valid: n > 0,
                total_blocks: n,
                valid_blocks: n,
                blocks,
                global_crc32,
            },
        )
    }
}

/// Each listed block sits where its partition says, with the partitions in order.
pub open spec fn blocks_follow_layout(rom: Seq<u8>, bs: Seq<ChecksumBlock>) -> bool {
    &&& forall|j: int|
        0 <= j < bs.len() ==> {
            let b = #[trigger] bs[j];
            let p = partition(is_large(rom.len()), b.block_index as nat);
            &&& b.block_index < 4
            &&& b == block_of(rom, b.block_index as nat, p)
            &&& block_present(p, rom.len())
        }
    &&& forall|j: int, l: int| 0 <= j < l < bs.len() ==> bs[j].block_index < bs[l].block_index
}

proof fn lemma_blocks_upto_layout(rom: Seq<u8>, k: nat)
    requires
        k <= 4,
    ensures
        blocks_follow_layout(rom, blocks_upto(rom, k)),
        forall|j: int|
            0 <= j < blocks_upto(rom, k).len() ==> (#[trigger] blocks_upto(rom, k)[j]).block_index
                < k,
    decreases k,
{
    if k > 0 {
        lemma_blocks_upto_layout(rom, (k - 1) as nat);
    }
}

/// The blocks of an image follow the partition table.
pub proof fn lemma_blocks_layout(rom: Seq<u8>)
    ensures
        blocks_follow_layout(rom, checksum_blocks(rom)),
        forall|j: int|
            0 <= j < checksum_blocks(rom).len() ==> (#[trigger] checksum_blocks(rom)[j]).sum_address
                + 4 <= rom.len() && checksum_blocks(rom)[j].inv_address + 4 <= rom.len(),
{
    lemma_blocks_upto_layout(rom, 4);
}

proof fn lemma_partition_facts(large: bool, k: nat, l: nat)
    requires
        k < 4,
        l < 4,
    ensures
        partition(large, k).0 < partition(large, k).1 < partition(large, k).2,
        partition(large, k).3 == partition(large, k).2 + 4,
        k < l ==> partition(large, k).2 + 8 <= partition(large, l).0,
{
}

proof fn lemma_patch_len(rom: Seq<u8>, bs: Seq<ChecksumBlock>, i: nat)
    requires
        i <= bs.len(),
    ensures
        patch_upto(rom, bs, i).len() == rom.len(),
    decreases i,
{
    if i > 0 {
        lemma_patch_len(rom, bs, (i - 1) as nat);
    }
}

/// Bytes outside every written sum and inverse are left as they were.
proof fn lemma_patch_frame(rom: Seq<u8>, bs: Seq<ChecksumBlock>, i: nat, q: int)
    requires
        i <= bs.len(),
        0 <= q < rom.len(),
        forall|j: int|
            0 <= j < i ==> #[trigger] bs[j].inv_address == bs[j].sum_address + 4 && !(
            bs[j].sum_address <= q < bs[j].sum_address + 8),
    ensures
        patch_upto(rom, bs, i)[q] == rom[q],
    decreases i,
{
    if i > 0 {
        lemma_patch_frame(rom, bs, (i - 1) as nat, q);
        lemma_patch_len(rom, bs, (i - 1) as nat);
        let b = bs[i - 1];
        assert(b.inv_address == b.sum_address + 4);
    }
}

/// The bytes written for block `j` survive the writes of the later blocks.
proof fn lemma_patch_written(rom: Seq<u8>, bs: Seq<ChecksumBlock>, i: nat, j: int, t: int)
    requires
        0 <= j < i <= bs.len(),
        0 <= t < 4,
        forall|l: int|
            0 <= l < bs.len() ==> #[trigger] bs[l].inv_address == bs[l].sum_address + 4
                && bs[l].sum_address + 8 <= rom.len(),
        forall|l: int, m: int|
            0 <= l < m < bs.len() ==> bs[l].sum_address + 8 <= bs[m].sum_address,
    ensures
        patch_upto(rom, bs, i)[bs[j].sum_address + t] == be_bytes(bs[j].calculated_sum)[t],
        patch_upto(rom, bs, i)[bs[j].inv_address + t] == be_bytes(bs[j].calculated_inv)[t],
    decreases i,
{
    lemma_patch_len(rom, bs, (i - 1) as nat);
    let b = bs[i - 1];
    assert(b.inv_address == b.sum_address + 4);
    assert(bs[j].inv_address == bs[j].sum_address + 4);
    if j < i - 1 {
        lemma_patch_written(rom, bs, (i - 1) as nat, j, t);
        assert(bs[j].sum_address + 8 <= b.sum_address);
    }
}

proof fn lemma_word_sum_frame(r1: Seq<u8>, r2: Seq<u8>, ptr: nat, end: nat, s: nat, v: nat)
    requires
        end <= r1.len(),
        end <= r2.len(),
        forall|q: int| ptr <= q < end ==> r1[q] == r2[q],
    ensures
        word_sum(r1, ptr, end, s, v) == word_sum(r2, ptr, end, s, v),
    decreases end - ptr,
{
    if ptr + 4 <= end {
        lemma_word_sum_frame(r1, r2, ptr + 4, end, s, v);
        assert(r1[ptr as int] == r2[ptr as int]);
        assert(r1[ptr + 1 as int] == r2[ptr + 1 as int]);
        assert(r1[ptr + 2 as int] == r2[ptr + 2 as int]);
        assert(r1[ptr + 3 as int] == r2[ptr + 3 as int]);
    }
}

proof fn lemma_blocks_regions(rom: Seq<u8>)
    ensures
        forall|l: int|
            0 <= l < checksum_blocks(rom).len() ==> #[trigger] checksum_blocks(rom)[l].inv_address
                == checksum_blocks(rom)[l].sum_address + 4 && checksum_blocks(rom)[l].sum_address
                + 8 <= rom.len(),
        forall|l: int, m: int|
            0 <= l < m < checksum_blocks(rom).len() ==> checksum_blocks(rom)[l].sum_address + 8
                <= checksum_blocks(rom)[m].sum_address,
{
    let bs = checksum_blocks(rom);
    let large = is_large(rom.len());
    lemma_blocks_layout(rom);
    assert forall|l: int| 0 <= l < bs.len() implies #[trigger] bs[l].inv_address
        == bs[l].sum_address + 4 && bs[l].sum_address + 8 <= rom.len() by {
        lemma_partition_facts(large, bs[l].block_index as nat, 0);
    }
    assert forall|l: int, m: int| 0 <= l < m < bs.len() implies bs[l].sum_address + 8
        <= bs[m].sum_address by {
        let kl = bs[l].block_index as nat;
        let km = bs[m].block_index as nat;
        assert(kl < km);
        lemma_partition_facts(large, kl, km);
        lemma_partition_facts(large, km, kl);
    }
}

/// Each block of the recalculated image is the original block, now holding its sums.
proof fn lemma_block_recalculated(rom: Seq<u8>, j: int)
    requires
        0 <= j < checksum_blocks(rom).len(),
    ensures
        ({
            let b = checksum_blocks(rom)[j];
            block_of(
                recalculated(rom),
                b.block_index as nat,
                partition(is_large(rom.len()), b.block_index as nat),
            ) == applied(b)
        }),
{
    let bs = checksum_blocks(rom);
    let n = bs.len();
    let r = recalculated(rom);
    let large = is_large(rom.len());
    let b = bs[j];
    let k = b.block_index as nat;
    let p = partition(large, k);
    lemma_blocks_layout(rom);
    lemma_blocks_regions(rom);
    lemma_patch_len(rom, bs, n);
    assert(b == block_of(rom, k, p));
    lemma_partition_facts(large, k, 0);
    let end = clipped_end(p.1, rom.len());
    assert forall|q: int| p.0 <= q < end implies r[q] == rom[q] by {
        assert forall|l: int| 0 <= l < n implies #[trigger] bs[l].inv_address == bs[l].sum_address
            + 4 && !(bs[l].sum_address <= q < bs[l].sum_address + 8) by {
            let kl = bs[l].block_index as nat;
            lemma_partition_facts(large, kl, k);
            lemma_partition_facts(large, k, kl);
            if l < j {
                assert(kl < k);
            } else if l > j {
                assert(k < kl);
            }
        }
        lemma_patch_frame(rom, bs, n, q);
    }
    lemma_word_sum_frame(r, rom, p.0 as nat, end, p.2 as nat, p.3 as nat);
    lemma_patch_written(rom, bs, n, j, 0);
    lemma_patch_written(rom, bs, n, j, 1);
    lemma_patch_written(rom, bs, n, j, 2);
    lemma_patch_written(rom, bs, n, j, 3);
    lemma_be_roundtrip(b.calculated_sum);
    lemma_be_roundtrip(b.calculated_inv);
}

proof fn lemma_blocks_prefix(rom: Seq<u8>, k: nat, m: nat)
    requires
        k <= m <= 4,
    ensures
        blocks_upto(rom, k).len() <= blocks_upto(rom, m).len(),
        blocks_upto(rom, m).take(blocks_upto(rom, k).len() as int) == blocks_upto(rom, k),
    decreases m,
{
    if k < m {
        lemma_blocks_prefix(rom, k, (m - 1) as nat);
        let prev = blocks_upto(rom, (m - 1) as nat);
        assert(blocks_upto(rom, m).take(prev.len() as int) =~= prev);
        assert(blocks_upto(rom, m).take(blocks_upto(rom, k).len() as int) =~= prev.take(
            blocks_upto(rom, k).len() as int,
        ));
    } else {
        assert(blocks_upto(rom, m).take(blocks_upto(rom, k).len() as int) =~= blocks_upto(rom, k));
    }
}

proof fn lemma_upto_recalculated(rom: Seq<u8>, k: nat)
    requires
        k <= 4,
        rom.len() >= SMALL_FLASH_LEN,
    ensures
        blocks_upto(recalculated(rom), k) == blocks_upto(rom, k).map_values(
            |b: ChecksumBlock| applied(b),
        ),
    decreases k,
{
    let r = recalculated(rom);
    let bs = checksum_blocks(rom);
    lemma_patch_len(rom, bs, bs.len());
    if k == 0 {
        assert(blocks_upto(rom, 0).map_values(|b: ChecksumBlock| applied(b)) =~= Seq::empty());
    } else {
        lemma_upto_recalculated(rom, (k - 1) as nat);
        let p = partition(is_large(rom.len()), (k - 1) as nat);
        let prev = blocks_upto(rom, (k - 1) as nat);
        if block_present(p, rom.len()) {
            lemma_blocks_prefix(rom, k, 4);
            let j = prev.len() as int;
            assert(blocks_upto(rom, k)[j] == bs[j]);
            assert(bs[j] == block_of(rom, (k - 1) as nat, p));
            lemma_block_recalculated(rom, j);
            assert(blocks_upto(rom, k).map_values(|b: ChecksumBlock| applied(b)) =~= prev.map_values(
                |b: ChecksumBlock| applied(b),
            ).push(applied(block_of(rom, (k - 1) as nat, p))));
        }
    }
}

proof fn lemma_count_all_valid(bs: Seq<ChecksumBlock>)
    requires
        forall|j: int| 0 <= j < bs.len() ==> (#[trigger] bs[j]).is_valid,
    ensures
        count_valid(bs) == bs.len(),
    decreases bs.len(),
{
    if bs.len() > 0 {
        lemma_count_all_valid(bs.drop_last());
    }
}

/// After recalculation every block verifies: the blocks of the recalculated image are
/// the original blocks with stored sums and inverses equal to the calculated ones, and
/// all of them are valid.
pub proof fn lemma_recalculated_image_verifies(rom: Seq<u8>)
    ensures
        checksum_blocks(recalculated(rom)) == checksum_blocks(rom).map_values(
            |b: ChecksumBlock| applied(b),
        ),
        count_valid(checksum_blocks(recalculated(rom))) == checksum_blocks(rom).len(),
{
    let bs = checksum_blocks(rom);
    lemma_patch_len(rom, bs, bs.len());
    if rom.len() >= SMALL_FLASH_LEN {
        lemma_upto_recalculated(rom, 4);
    } else {
        assert(bs.map_values(|b: ChecksumBlock| applied(b)) =~= Seq::empty());
    }
    lemma_count_all_valid(checksum_blocks(recalculated(rom)));
}

/// Writing back the bytes already stored leaves the image as it is.
proof fn lemma_patch_fixed(r: Seq<u8>, bs: Seq<ChecksumBlock>, i: nat)
    requires
        i <= bs.len(),
        forall|j: int|
            0 <= j < i ==> #[trigger] bs[j].sum_address + 4 <= r.len() && bs[j].inv_address + 4
                <= r.len() && r.subrange(bs[j].sum_address as int, bs[j].sum_address + 4)
                == be_bytes(bs[j].calculated_sum) && r.subrange(
                bs[j].inv_address as int,
                bs[j].inv_address + 4,
            ) == be_bytes(bs[j].calculated_inv),
    ensures
        patch_upto(r, bs, i) == r,
    decreases i,
{
    if i > 0 {
        lemma_patch_fixed(r, bs, (i - 1) as nat);
        let b = bs[i - 1];
        assert(b.sum_address + 4 <= r.len());
        let s = b.sum_address as int;
        let v = b.inv_address as int;
        assert(r.take(s) + be_bytes(b.calculated_sum) + r.skip(s + 4) =~= r) by {
            assert(r.subrange(s, s + 4) == be_bytes(b.calculated_sum));
        }
        assert(r.take(v) + be_bytes(b.calculated_inv) + r.skip(v + 4) =~= r) by {
            assert(r.subrange(v, v + 4) == be_bytes(b.calculated_inv));
        }
    }
}

/// Recalculating the checksums of an image a second time changes nothing.
pub proof fn lemma_recalculation_idempotent(rom: Seq<u8>)
    ensures
        recalculated(recalculated(rom)) == recalculated(rom),
{
    let bs = checksum_blocks(rom);
    let n = bs.len();
    let r = recalculated(rom);
    lemma_recalculated_image_verifies(rom);
    let bs2 = checksum_blocks(r);
    assert(bs2.len() == n);
    lemma_blocks_regions(rom);
    lemma_patch_len(rom, bs, n);
    assert forall|j: int| 0 <= j < n implies #[trigger] bs2[j].sum_address + 4 <= r.len()
        && bs2[j].inv_address + 4 <= r.len() && r.subrange(
        bs2[j].sum_address as int,
        bs2[j].sum_address + 4,
    ) == be_bytes(bs2[j].calculated_sum) && r.subrange(
        bs2[j].inv_address as int,
        bs2[j].inv_address + 4,
    ) == be_bytes(bs2[j].calculated_inv) by {
        assert(bs2[j] == applied(bs[j]));
        assert(bs[j].inv_address == bs[j].sum_address + 4 && bs[j].sum_address + 8 <= rom.len());
        assert forall|t: int| 0 <= t < 4 implies r[bs[j].sum_address + t] == be_bytes(
            bs[j].calculated_sum,
        )[t] && r[bs[j].inv_address + t] == be_bytes(bs[j].calculated_inv)[t] by {
            lemma_patch_written(rom, bs, n, j, t);
        }
        assert(r.subrange(bs[j].sum_address as int, bs[j].sum_address + 4) =~= be_bytes(
            bs[j].calculated_sum,
        ));
        assert(r.subrange(bs[j].inv_address as int, bs[j].inv_address + 4) =~= be_bytes(
            bs[j].calculated_inv,
        ));
    }
    lemma_patch_fixed(r, bs2, n);
}

/// An image has checksum blocks exactly when it is at least 1 MiB long.
pub proof fn lemma_blocks_present_iff_large(rom: Seq<u8>)
    ensures
        (checksum_blocks(rom).len() > 0) == (rom.len() >= SMALL_FLASH_LEN),
{
    if rom.len() >= SMALL_FLASH_LEN {
        lemma_blocks_prefix(rom, 1, 4);
        assert(block_present(partition(is_large(rom.len()), 0), rom.len()));
        assert(blocks_upto(rom, 0).len() == 0);
        assert(blocks_upto(rom, 1) == blocks_upto(rom, 0).push(block_of(rom, 0, partition(is_large(rom.len()), 0))));
    }
}

/// Recalculation writes only the sums and inverses: every byte outside the eight bytes
/// from a block's sum address on keeps its value.
pub proof fn lemma_recalculation_touches_only_sums(rom: Seq<u8>, q: int)
    requires
        0 <= q < rom.len(),
        forall|j: int|
            0 <= j < checksum_blocks(rom).len() ==> !((#[trigger] checksum_blocks(rom)[j]).sum_address <= q
                < checksum_blocks(rom)[j].sum_address + 8),
    ensures
        recalculated(rom)[q] == rom[q],
{
    let bs = checksum_blocks(rom);
    lemma_blocks_regions(rom);
    assert forall|j: int| 0 <= j < bs.len() implies #[trigger] bs[j].inv_address == bs[j].sum_address
        + 4 && !(bs[j].sum_address <= q < bs[j].sum_address + 8) by {}
    lemma_patch_frame(rom, bs, bs.len(), q);
}

/// The four checksum blocks tile the flash: block 0 starts at 0; each block's sum word
/// lies 0x20 bytes before the next block's start, its inverse right after the sum, and
/// its summed range ends just before the sum; the last sum lies 0x20 bytes before the
/// end of the flash (1 MiB, or 2 MiB for the large layout).
pub proof fn lemma_partition_tiles_flash(large: bool, k: nat)
    requires
        k < 4,
    ensures
        partition(large, 0).0 == 0,
        partition(large, k).3 == partition(large, k).2 + 4,
        partition(large, k).1 + 1 == partition(large, k).2,
        k < 3 ==> partition(large, k).2 + 0x20 == partition(large, k + 1).0,
        k == 3 ==> partition(large, k).2 + 0x20 == (if large { 0x200000int } else { 0x100000int }),
{
}

} // verus!
