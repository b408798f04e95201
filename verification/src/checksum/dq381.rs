//! DQ381 checksum: CRC-32, stored big-endian.
//!
//! First and last address of the covered range at block offsets 0x38 and 0x3C
//! (big-endian), checksum at offset 0x44. The addresses are taken relative to
//! the block's base address.

use vstd::prelude::*;

use crate::bytes::{be32_at, be_bytes, copy_range, lemma_be_round_trip, overwrite, read_u32_be, spliced, to_vec, u32_be_bytes};
use crate::checksum::{agree_outside, crc32, crc32_hash, settled};
use crate::module::ChecksumState;

verus! {

/// Where the checksum is stored.
pub const CHECKSUM_AT: usize = 0x44;

/// Where the first covered address is stored.
pub const START_AT: usize = 0x38;

/// Where the last covered address is stored.
pub const END_AT: usize = 0x3C;

/// The covered range, from its first to behind its last byte. `None` if the
/// header is short or does not describe a range inside the block.
pub open spec fn covered(data: Seq<u8>, base_address: u32) -> Option<(int, int)> {
    if data.len() < CHECKSUM_AT + 4 {
        None
    } else {
        let first = be32_at(data, START_AT as int);
        let last = be32_at(data, END_AT as int);
        if base_address <= first <= last && last - base_address < data.len() {
            Some((first - base_address, last - base_address + 1))
        } else {
            None
        }
    }
}

/// What a pass over a block gives, where `crc` is the CRC-32 of the covered
/// range.
pub open spec fn dq381_outcome(data: Seq<u8>, base_address: u32, crc: u32, fix: bool) -> (
    ChecksumState,
    Seq<u8>,
) {
    if covered(data, base_address) is None {
        (ChecksumState::Failed, data)
    } else {
        settled(
            data,
            be32_at(data, CHECKSUM_AT as int) == crc,
            fix,
            CHECKSUM_AT as int,
            be_bytes(crc as int),
        )
    }
}

/// The bytes the checksum covers.
pub open spec fn covered_bytes(data: Seq<u8>, base_address: u32) -> Seq<u8> {
    match covered(data, base_address) {
        None => Seq::empty(),
        Some((from, to)) => data.subrange(from, to),
    }
}

/// What a pass over a block gives.
pub open spec fn dq381_pass(data: Seq<u8>, base_address: u32, fix: bool) -> (
    ChecksumState,
    Seq<u8>,
) {
    dq381_outcome(data, base_address, crc32(covered_bytes(data, base_address)), fix)
}

/// The range a block's header names.
pub fn covered_range(data: &[u8], base_address: u32) -> (r: Option<(usize, usize)>)
    ensures
        r is Some <==> covered(data@, base_address) is Some,
        r matches Some((from, to)) ==> covered(data@, base_address) == Some(
            (from as int, to as int),
        ),
{
    if data.len() < CHECKSUM_AT + 4 {
        return None;
    }
    let first: u32 = read_u32_be(data, START_AT);
    let last: u32 = read_u32_be(data, END_AT);
    if first < base_address || last < base_address || last < first {
        return None;
    }
    let from: usize = (first - base_address) as usize;
    let to: usize = (last - base_address) as usize;
    if to >= data.len() {
        return None;
    }
    Some((from, to + 1))
}

/// Hold a DQ381 block against the CRC-32 of the range its header names.
pub fn settle_dq381(data: &[u8], base_address: u32, crc: u32, fix: bool) -> (r: (
    ChecksumState,
    Vec<u8>,
))
    ensures
        (r.0, r.1@) == dq381_outcome(data@, base_address, crc, fix),
{
    if covered_range(data, base_address).is_none() {
        return (ChecksumState::Failed, to_vec(data));
    }
    let stored: u32 = read_u32_be(data, CHECKSUM_AT);
    if crc == stored {
        (ChecksumState::Valid, to_vec(data))
    } else if fix {
        let mut fixed = to_vec(data);
        overwrite(&mut fixed, CHECKSUM_AT, &u32_be_bytes(crc));
        (ChecksumState::Fixed, fixed)
    } else {
        (ChecksumState::Invalid, to_vec(data))
    }
}

/// Validate (and optionally fix) a DQ381 block checksum.
///
/// `base_address` is the address of the block in ECU memory.
pub fn validate_dq381(data: &[u8], base_address: u32, fix: bool) -> (r: (ChecksumState, Vec<u8>))
    ensures
        (r.0, r.1@) == dq381_pass(data@, base_address, fix),
{
    match covered_range(data, base_address) {
        None => (ChecksumState::Failed, to_vec(data)),
        Some((from, to)) => {
            let body = copy_range(data, from, to);
            settle_dq381(data, base_address, crc32_hash(body.as_slice()), fix)
        },
    }
}

/// A fixed block validates, as long as the checksum does not lie inside the
/// range it covers.
pub proof fn law_fixed_blocks_validate(data: Seq<u8>, base_address: u32)
    requires
        covered(data, base_address) matches Some((from, to)) && (to <= CHECKSUM_AT || CHECKSUM_AT
            + 4 <= from),
    ensures
        dq381_pass(dq381_pass(data, base_address, true).1, base_address, false).0
            == ChecksumState::Valid,
        dq381_pass(data, base_address, true).1.len() == data.len(),
{
    let (from, to) = covered(data, base_address)->0;
    let sum = crc32(data.subrange(from, to)) as int;
    let fixed = spliced(data, CHECKSUM_AT as int, be_bytes(sum));
    lemma_be_round_trip(data, CHECKSUM_AT as int, sum);
    assert(fixed.subrange(from, to) == data.subrange(from, to));
    assert(covered(fixed, base_address) == covered(data, base_address));
}

/// A pass changes a block exactly where it says that it fixed it, and then only
/// where the checksum is stored.
pub proof fn law_a_fix_changes_the_block(data: Seq<u8>, base_address: u32)
    ensures
        (dq381_pass(data, base_address, true).0 == ChecksumState::Fixed) == (dq381_pass(
            data,
            base_address,
            true,
        ).1 != data),
        agree_outside(dq381_pass(data, base_address, true).1, data, CHECKSUM_AT as int, 4),
{
    if covered(data, base_address) is Some {
        let sum = crc32(covered_bytes(data, base_address)) as int;
        lemma_be_round_trip(data, CHECKSUM_AT as int, sum);
    }
}

} // verus!
