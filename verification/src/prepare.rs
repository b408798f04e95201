//! Turning raw block bytes into a block ready for the wire.
//!
//! Every field comes from the module's own policy:
//!
//! | Module  | dataFormatIdentifier | Compression        | Erase       | Block checksum |
//! |---------|----------------------|--------------------|-------------|----------------|
//! | Simos18 | `0xAA`               | LZSS, pad to 0x10  | all blocks  | static table   |
//! | DQ250   | `0x11`               | LZSS, no padding   | not DRIVER  | static table   |
//! | DQ381   | `0xAA`               | LZSS, exact pad    | all blocks  | CRC-32 BE      |
//! | Haldex  | `0x00`               | none, raw bytes    | not DRIVER  | CRC-32 BE      |
//!
//! Compression and encryption themselves happen elsewhere: [`compression_of`]
//! says which one applies, and the finished payload is handed in.

use vstd::prelude::*;

use crate::bytes::{be_bytes, u32_be_bytes};
use crate::checksum::{crc32, crc32_hash};
use crate::module::{
    name_of, row_of, BlockPrep, FlashInfo, PreparedBlockData, UdsChecksumKind,
};

verus! {

/// How an LZSS stream is padded.
#[derive(Debug, Clone, Copy, PartialEq, Eq, Structural)]
pub enum Padding {
    /// To the AES block size.
    AesBlock,
    /// Not at all.
    Bare,
    /// Exactly.
    Exact,
}

/// The compression a module's policy asks for; `None` is the raw payload.
pub fn compression_of(flash_info: &FlashInfo) -> (r: Option<Padding>)
    ensures
        r == match flash_info.block_prep {
            BlockPrep::LzssAesBlock => Some(Padding::AesBlock),
            BlockPrep::LzssNone => Some(Padding::Bare),
            BlockPrep::LzssExact => Some(Padding::Exact),
            BlockPrep::Raw => None,
        },
{
    match flash_info.block_prep {
        BlockPrep::LzssAesBlock => Some(Padding::AesBlock),
        BlockPrep::LzssNone => Some(Padding::Bare),
        BlockPrep::LzssExact => Some(Padding::Exact),
        BlockPrep::Raw => None,
    }
}

/// A prepared block as a value.
pub struct Prepared {
    pub number: u8,
    pub payload: Seq<u8>,
    pub boxcode: Seq<char>,
    pub encryption_type: u8,
    pub compression_type: u8,
    pub erase: bool,
    pub checksum: Seq<u8>,
    pub name: Seq<char>,
    pub announced_length: u32,
}

impl View for PreparedBlockData {
    type V = Prepared;

    open spec fn view(&self) -> Prepared {
        Prepared {
            number: self.block_number,
            payload: self.block_encrypted_bytes@,
            boxcode: self.boxcode@,
            encryption_type: self.encryption_type,
            compression_type: self.compression_type,
            erase: self.should_erase,
            checksum: self.uds_checksum@,
            name: self.block_name@,
            announced_length: self.announced_length,
        }
    }
}

/// The four bytes told to the block checksum routine, where `crc` is the CRC-32
/// of the plain block.
pub open spec fn routine_checksum(flash_info: FlashInfo, number: u8, crc: u32) -> Seq<u8> {
    match flash_info.uds_checksum_kind {
        UdsChecksumKind::Static => match row_of(flash_info.block_checksums@, number) {
            Some(b) => b@,
            None => seq![0u8, 0u8, 0u8, 0u8],
        },
        UdsChecksumKind::Crc32Be => be_bytes(crc as int),
    }
}

/// The block a raw block of `raw_len` bytes is prepared to.
pub open spec fn prepared(
    flash_info: FlashInfo,
    number: u8,
    raw_len: int,
    crc: u32,
    payload: Seq<u8>,
) -> Prepared {
    Prepared {
        number,
        payload,
        boxcode: Seq::empty(),
        encryption_type: flash_info.encryption_type,
        compression_type: flash_info.compression_type,
        erase: !flash_info.unerased_blocks@.contains(number),
        checksum: routine_checksum(flash_info, number, crc),
        name: match name_of(flash_info.block_names@, number) {
            Some(name) => name,
            None => "UNKNOWN"@,
        },
        announced_length: flash_info.spec_announced_length(number, raw_len) as u32,
    }
}

/// The block an unlock patch of `raw_len` bytes is prepared to: encrypted but
/// not compressed, not erased, without a checksum.
pub open spec fn prepared_patch(
    flash_info: FlashInfo,
    number: u8,
    raw_len: int,
    payload: Seq<u8>,
) -> Prepared {
    let target = if number >= 5 {
        (number - 5) as u8
    } else {
        0
    };
    Prepared {
        number,
        payload,
        boxcode: Seq::empty(),
        encryption_type: 0x0A,
        compression_type: 0x00,
        erase: false,
        checksum: seq![0u8, 0u8, 0u8, 0u8],
        name: "UNLOCK_PATCH"@,
        announced_length: match row_of(flash_info.block_lengths@, target) {
            Some(n) => n as u32,
            None => raw_len as u32,
        },
    }
}

/// Describe a normal block. `raw_len` and `crc` are the length and the CRC-32 of
/// its corrected bytes, `payload` is what they were compressed and encrypted to.
pub fn describe_block(
    flash_info: &FlashInfo,
    block_num: u8,
    raw_len: usize,
    crc: u32,
    payload: Vec<u8>,
) -> (r: PreparedBlockData)
    ensures
        r@ == prepared(*flash_info, block_num, raw_len as int, crc, payload@),
{
    let uds_checksum: [u8; 4] = match flash_info.uds_checksum_kind {
        UdsChecksumKind::Static => match flash_info.block_checksum(block_num) {
            Some(b) => b,
            None => [0, 0, 0, 0],
        },
        UdsChecksumKind::Crc32Be => u32_be_bytes(crc),
    };
    assert(uds_checksum@ == routine_checksum(*flash_info, block_num, crc));
    let name = match flash_info.block_number_to_name(block_num) {
        Some(name) => name.to_owned(),
        None => "UNKNOWN".to_owned(),
    };
    let length: usize = flash_info.announced_length(block_num, raw_len);
    PreparedBlockData {
        block_number: block_num,
        block_encrypted_bytes: payload,
        boxcode: String::new(),
        encryption_type: flash_info.encryption_type,
        compression_type: flash_info.compression_type,
        should_erase: flash_info.should_erase(block_num),
        uds_checksum,
        block_name: name,
        announced_length: length as u32,
    }
}

/// Build a prepared block from its raw bytes and the payload they were
/// compressed and encrypted to.
///
/// `raw` must already have had its internal checksums fixed: the checksum for
/// CRC-32 modules is taken over exactly these bytes.
pub fn prepare_block(flash_info: &FlashInfo, block_num: u8, raw: &[u8], payload: Vec<u8>) -> (r:
    PreparedBlockData)
    ensures
        r@ == prepared(*flash_info, block_num, raw@.len() as int, crc32(raw@), payload@),
{
    let crc: u32 = crc32_hash(raw);
    describe_block(flash_info, block_num, raw.len(), crc, payload)
}

/// Build a prepared unlock patch block (number above 5). `payload` is the
/// encrypted patch.
pub fn prepare_patch_block(
    flash_info: &FlashInfo,
    block_num: u8,
    raw_len: usize,
    payload: Vec<u8>,
) -> (r: PreparedBlockData)
    ensures
        r@ == prepared_patch(*flash_info, block_num, raw_len as int, payload@),
{
    let target: u8 = if block_num >= 5 {
        block_num - 5
    } else {
        0
    };
    let length: usize = match flash_info.block_length(target) {
        Some(n) => n,
        None => raw_len,
    };
    let r = PreparedBlockData {
        block_number: block_num,
        block_encrypted_bytes: payload,
        boxcode: String::new(),
        encryption_type: 0x0A,
        compression_type: 0x00,
        should_erase: false,
        uds_checksum: [0, 0, 0, 0],
        block_name: "UNLOCK_PATCH".to_owned(),
        announced_length: length as u32,
    };
    assert(r.uds_checksum@ == seq![0u8, 0u8, 0u8, 0u8]);
    r
}

} // verus!
