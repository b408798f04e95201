//! Haldex 16-bit checksum: complement of the sum of little-endian `u16` words.
//!
//! Block 1 (DRIVER) is always skipped. The checksum lies 8 bytes into the
//! checksum structure of a block, whose 10 bytes the sum leaves out.

use vstd::prelude::*;

use crate::bytes::{le16, overwrite, read_u16_le, spliced, to_vec};
use crate::checksum::{agree_outside, settled};
use crate::module::{row_of, ChecksumState, FlashInfo};

verus! {

/// The sum of the first `n` little-endian words of `s`.
pub open spec fn words_below(s: Seq<u8>, n: nat) -> int
    decreases n,
{
    if n == 0 {
        0
    } else {
        words_below(s, (n - 1) as nat) + le16(s[2 * (n - 1)], s[2 * (n - 1) + 1])
    }
}

/// The sum of the whole words of `s`; an odd byte at the end does not count.
pub open spec fn word_sum(s: Seq<u8>) -> int {
    words_below(s, s.len() / 2)
}

/// The checksum of a block around its checksum structure at `at`.
pub open spec fn haldex_sum(data: Seq<u8>, at: int) -> int {
    0xFFFF - (word_sum(data.take(at)) + word_sum(data.skip(at + 10))) % 0x1_0000
}

/// What a pass over a block gives.
pub open spec fn haldex_pass(data: Seq<u8>, block_num: u8, location: Option<usize>, fix: bool) -> (
    ChecksumState,
    Seq<u8>,
) {
    if block_num == 1 {
        (ChecksumState::Valid, data)
    } else {
        match location {
            None => (ChecksumState::Failed, data),
            Some(at) => if at + 10 > data.len() {
                (ChecksumState::Failed, data)
            } else {
                let sum = haldex_sum(data, at as int);
                settled(
                    data,
                    le16(data[at + 8], data[at + 9]) == sum,
                    fix,
                    at + 8,
                    seq![(sum % 0x100) as u8, (sum / 0x100) as u8],
                )
            },
        }
    }
}

/// Sum of the words of `data[from..to]`, modulo 2^16, continued from `start`.
fn sum_words(data: &[u8], from: usize, to: usize, start: u16) -> (r: u16)
    requires
        from <= to <= data@.len(),
        data@.len() <= usize::MAX,
    ensures
        r == (start + word_sum(data@.subrange(from as int, to as int))) % 0x1_0000,
{
    let ghost part = data@.subrange(from as int, to as int);
    let count: usize = (to - from) / 2;
    let mut sum: u16 = start;
    let mut i: usize = 0;
    while i < count
        invariant
            i <= count,
            count == (to - from) / 2,
            from <= to <= data@.len() <= usize::MAX,
            part == data@.subrange(from as int, to as int),
            sum == (start + words_below(part, i as nat)) % 0x1_0000,
        decreases count - i,
    {
        let word: u16 = read_u16_le(data, from + 2 * i);
        assert(part[2 * i] == data@[from + 2 * i] && part[2 * i + 1] == data@[from + 2 * i + 1]);
        sum = sum.wrapping_add(word);
        i = i + 1;
    }
    sum
}

/// Validate (and optionally fix) a Haldex block checksum.
pub fn validate_haldex(data: &[u8], block_num: u8, flash_info: &FlashInfo, fix: bool) -> (r: (
    ChecksumState,
    Vec<u8>,
))
    ensures
        (r.0, r.1@) == haldex_pass(
            data@,
            block_num,
            row_of(flash_info.checksum_block_locations@, block_num),
            fix,
        ),
{
    if block_num == 1 {
        return (ChecksumState::Valid, to_vec(data));
    }
    let at: usize = match flash_info.checksum_block_location(block_num) {
        Some(at) => at,
        None => {
            return (ChecksumState::Failed, to_vec(data));
        },
    };
    if data.len() < 10 || at > data.len() - 10 {
        return (ChecksumState::Failed, to_vec(data));
    }
    let stored: u16 = read_u16_le(data, at + 8);
    let before: u16 = sum_words(data, 0, at, 0);
    let sum: u16 = sum_words(data, at + 10, data.len(), before);
    assert(data@.subrange(0, at as int) == data@.take(at as int));
    assert(data@.subrange(at + 10, data@.len() as int) == data@.skip(at + 10));
    let calculated: u16 = 0xFFFF - sum;
    assert(calculated == haldex_sum(data@, at as int));
    if calculated == stored {
        (ChecksumState::Valid, to_vec(data))
    } else if fix {
        let mut fixed = to_vec(data);
        let part: [u8; 2] = [(calculated % 0x100) as u8, (calculated / 0x100) as u8];
        assert(part@ == seq![(calculated % 0x100) as u8, (calculated / 0x100) as u8]);
        overwrite(&mut fixed, at + 8, &part);
        (ChecksumState::Fixed, fixed)
    } else {
        (ChecksumState::Invalid, to_vec(data))
    }
}

/// A block that has the room for its checksum validates once it is fixed.
pub proof fn law_fixed_blocks_validate(data: Seq<u8>, block_num: u8, location: Option<usize>)
    requires
        block_num == 1 || (location matches Some(at) && at + 10 <= data.len()),
    ensures
        haldex_pass(haldex_pass(data, block_num, location, true).1, block_num, location, false).0
            == ChecksumState::Valid,
        haldex_pass(data, block_num, location, true).1.len() == data.len(),
{
    if block_num != 1 {
        let at = location->0 as int;
        let sum = haldex_sum(data, at);
        let fixed = spliced(data, at + 8, seq![(sum % 0x100) as u8, (sum / 0x100) as u8]);
        assert(fixed.take(at) == data.take(at));
        assert(fixed.skip(at + 10) == data.skip(at + 10));
        assert(fixed[at + 8] == (sum % 0x100) as u8);
        assert(fixed[at + 9] == (sum / 0x100) as u8);
    }
}

/// A pass changes a block exactly where it says that it fixed it, and then only
/// where the checksum is stored.
pub proof fn law_a_fix_changes_the_block(data: Seq<u8>, block_num: u8, location: Option<usize>)
    ensures
        (haldex_pass(data, block_num, location, true).0 == ChecksumState::Fixed) == (haldex_pass(
            data,
            block_num,
            location,
            true,
        ).1 != data),
        location is None ==> haldex_pass(data, block_num, location, true).1 == data,
        location matches Some(at) ==> agree_outside(
            haldex_pass(data, block_num, location, true).1,
            data,
            at + 8,
            2,
        ),
{
    if let Some(at) = location {
        if block_num != 1 && at + 10 <= data.len() {
            let sum = haldex_sum(data, at as int);
            let fixed = spliced(data, at + 8, seq![(sum % 0x100) as u8, (sum / 0x100) as u8]);
            assert(fixed[at + 8] == (sum % 0x100) as u8);
            assert(fixed[at + 9] == (sum / 0x100) as u8);
        }
    }
}

} // verus!
