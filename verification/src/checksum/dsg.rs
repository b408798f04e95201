//! DSG JAMCRC: `0xFFFFFFFF - crc32(data[..-4])`, stored little-endian.

use vstd::prelude::*;

use crate::bytes::{copy_range, le32_at, le_bytes, lemma_le_round_trip, overwrite, read_u32_le, spliced, to_vec, u32_le_bytes};
use crate::checksum::{agree_outside, crc32, crc32_hash, settled};
use crate::module::ChecksumState;

verus! {

/// What a pass over a block gives, where `crc` is the CRC-32 of everything but
/// its last four bytes.
pub open spec fn dsg_outcome(data: Seq<u8>, crc: u32, fix: bool) -> (ChecksumState, Seq<u8>) {
    if data.len() < 4 {
        (ChecksumState::Failed, data)
    } else {
        let sum = 0xFFFF_FFFF - crc;
        settled(
            data,
            le32_at(data, data.len() - 4) == sum,
            fix,
            data.len() - 4,
            le_bytes(sum),
        )
    }
}

/// What a pass over a block gives.
pub open spec fn dsg_pass(data: Seq<u8>, fix: bool) -> (ChecksumState, Seq<u8>) {
    dsg_outcome(data, crc32(data.take(data.len() - 4)), fix)
}

/// Hold a DSG block against the CRC-32 of everything but its last four bytes.
pub fn settle_dsg(data: &[u8], crc: u32, fix: bool) -> (r: (ChecksumState, Vec<u8>))
    ensures
        (r.0, r.1@) == dsg_outcome(data@, crc, fix),
{
    if data.len() < 4 {
        return (ChecksumState::Failed, to_vec(data));
    }
    let location: usize = data.len() - 4;
    let stored: u32 = read_u32_le(data, location);
    let calculated: u32 = 0xFFFF_FFFFu32 - crc;
    if calculated == stored {
        (ChecksumState::Valid, to_vec(data))
    } else if fix {
        let mut fixed = to_vec(data);
        overwrite(&mut fixed, location, &u32_le_bytes(calculated));
        (ChecksumState::Fixed, fixed)
    } else {
        (ChecksumState::Invalid, to_vec(data))
    }
}

/// Validate (and optionally fix) a DSG block checksum.
///
/// The checksum covers all bytes except the last 4, where it is stored.
pub fn validate_dsg(data: &[u8], fix: bool) -> (r: (ChecksumState, Vec<u8>))
    ensures
        (r.0, r.1@) == dsg_pass(data@, fix),
{
    if data.len() < 4 {
        return (ChecksumState::Failed, to_vec(data));
    }
    let body = copy_range(data, 0, data.len() - 4);
    assert(body@ == data@.take(data@.len() - 4));
    settle_dsg(data, crc32_hash(body.as_slice()), fix)
}

/// A fixed block validates, and a second pass changes nothing.
pub proof fn law_fixed_blocks_validate(data: Seq<u8>)
    requires
        data.len() >= 4,
    ensures
        dsg_pass(dsg_pass(data, true).1, false).0 == ChecksumState::Valid,
        dsg_pass(dsg_pass(data, true).1, true).1 == dsg_pass(data, true).1,
        dsg_pass(data, true).1.len() == data.len(),
        dsg_pass(data, true).1.take(data.len() - 4) == data.take(data.len() - 4),
{
    let sum = 0xFFFF_FFFF - crc32(data.take(data.len() - 4));
    let fixed = spliced(data, data.len() - 4, le_bytes(sum));
    lemma_le_round_trip(data, data.len() - 4, sum);
    assert(fixed.take(data.len() - 4) == data.take(data.len() - 4));
}

/// A pass changes a block exactly where it says that it fixed it, and then only
/// where the checksum is stored.
pub proof fn law_a_fix_changes_the_block(data: Seq<u8>)
    ensures
        (dsg_pass(data, true).0 == ChecksumState::Fixed) == (dsg_pass(data, true).1 != data),
        agree_outside(dsg_pass(data, true).1, data, data.len() - 4, 4),
{
    if data.len() >= 4 {
        let sum = 0xFFFF_FFFF - crc32(data.take(data.len() - 4));
        lemma_le_round_trip(data, data.len() - 4, sum);
    }
}

} // verus!
