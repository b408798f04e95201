//! Checksum validation and fixing for flash blocks.
//!
//! - **ECM3**: 64-bit sum of little-endian `u32` words
//! - **DQ381**: CRC-32, stored big-endian
//! - **DSG**: `0xFFFFFFFF - crc32(data[..-4])`, stored little-endian
//! - **Haldex**: complement of the sum of little-endian `u16` words

use vstd::prelude::*;

use crate::bytes::spliced;
use crate::module::ChecksumState;

pub mod dq381;
pub mod dsg;
pub mod ecm3;
pub mod haldex;

verus! {

/// One bit shifted out of a CRC-32 register.
pub open spec fn crc32_bit(register: u32) -> u32 {
    if register & 1 == 1 {
        (register >> 1) ^ 0xEDB8_8320
    } else {
        register >> 1
    }
}

/// `n` bits shifted out of a CRC-32 register.
pub open spec fn crc32_bits(register: u32, n: nat) -> u32
    decreases n,
{
    if n == 0 {
        register
    } else {
        crc32_bit(crc32_bits(register, (n - 1) as nat))
    }
}

/// The register of a CRC-32 behind some bytes.
pub open spec fn crc32_register(data: Seq<u8>) -> u32
    decreases data.len(),
{
    if data.len() == 0 {
        0xFFFF_FFFF
    } else {
        crc32_bits(crc32_register(data.drop_last()) ^ data.last() as u32, 8)
    }
}

/// The CRC-32 (IEEE) of some bytes: reflected, polynomial `0xEDB88320`, register
/// preset to ones and inverted at the end.
pub open spec fn crc32(data: Seq<u8>) -> u32 {
    crc32_register(data) ^ 0xFFFF_FFFF
}

/// `crc32fast::hash` returns the CRC-32 (IEEE) of the bytes it is given: from an
/// initial state of 0, which its update inverts, the remainder by the reflected
/// polynomial, inverted again.
#[verifier::external_body]
pub(crate) fn crc32_hash(data: &[u8]) -> (r: u32)
    ensures
        r == crc32(data@),
{
    crc32fast::hash(data)
}

/// What a checksum pass gives back: the block as it was where the checksum is
/// right or is not to be fixed, else the block with `part` written at `at`.
pub open spec fn settled(
    data: Seq<u8>,
    right: bool,
    fix: bool,
    at: int,
    part: Seq<u8>,
) -> (ChecksumState, Seq<u8>) {
    if right {
        (ChecksumState::Valid, data)
    } else if fix {
        (ChecksumState::Fixed, spliced(data, at, part))
    } else {
        (ChecksumState::Invalid, data)
    }
}

/// Whether two blocks agree outside the `n` bytes at `at`.
pub open spec fn agree_outside(a: Seq<u8>, b: Seq<u8>, at: int, n: int) -> bool {
    &&& a.len() == b.len()
    &&& forall|i: int| 0 <= i < a.len() && !(at <= i < at + n) ==> a[i] == b[i]
}

} // verus!
