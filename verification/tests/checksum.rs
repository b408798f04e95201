//! The block checksums.

#![allow(dead_code)]

use mqb_flash::checksum::dq381::{covered_range, settle_dq381, validate_dq381};
use mqb_flash::checksum::dsg::{settle_dsg, validate_dsg};
use mqb_flash::checksum::ecm3::{
    load_ecm3_from_csv, load_ecm3_location, validate_ecm3, CSV_COL_CAL_VERSION, CSV_COL_ECM3_END,
    CSV_COL_ECM3_START, CSV_FIELDS_BEFORE_QUOTED,
};
use mqb_flash::checksum::haldex::validate_haldex;
use mqb_flash::module::ChecksumState;
use mqb_flash::module::{
    BlockPrep, ChecksumKind, ControlModuleIdentifier, FlashInfo, PatchInfo, UdsChecksumKind,
};

fn info(project: &str, txid: u32, rxid: u32) -> FlashInfo {
    FlashInfo {
        project_name: project.to_owned(),
        control_module_identifier: ControlModuleIdentifier { txid, rxid },
        block_names: Vec::new(),
        block_names_frf: Vec::new(),
        binfile_offsets: Vec::new(),
        binfile_size: 0,
        block_lengths: Vec::new(),
        dynamic_lengths: false,
        software_version_locations: Vec::new(),
        box_code_locations: Vec::new(),
        checksum_block_locations: Vec::new(),
        base_addresses: Vec::new(),
        block_identifiers: Vec::new(),
        block_transfer_sizes: Vec::new(),
        block_checksums: Vec::new(),
        unerased_blocks: Vec::new(),
        unchecksummed_blocks: Vec::new(),
        checksum_kind: ChecksumKind::Simos,
        uds_checksum_kind: UdsChecksumKind::Static,
        block_prep: BlockPrep::LzssAesBlock,
        encryption_type: 0x0A,
        compression_type: 0x0A,
        default_stmin_us: 400,
        patch_info: None,
    }
}

fn named(names: &[(u8, &str)]) -> Vec<(u8, String)> {
    names.iter().map(|(n, s)| (*n, (*s).to_owned())).collect()
}

fn simos(project: &str, box_code: &str) -> FlashInfo {
    let names = named(&[(1, "CBOOT"), (2, "ASW1"), (3, "ASW2"), (4, "ASW3"), (5, "CAL")]);
    FlashInfo {
        block_names: names.clone(),
        block_names_frf: names,
        block_lengths: vec![(1, 0x23E00), (2, 0xFFC00), (3, 0xBFC00), (4, 0x7FC00), (5, 0x7FC00)],
        software_version_locations: vec![(5, (0x23, 0x2B))],
        box_code_locations: vec![(5, (0x60, 0x6B))],
        block_identifiers: vec![(1, 1), (2, 2), (3, 3), (4, 4), (5, 5)],
        block_transfer_sizes: vec![(1, 0xFFD), (2, 0xFFD), (3, 0xFFD), (4, 0xFFD), (5, 0xFFD), (9, 0x8)],
        block_checksums: vec![(1, [0; 4]), (2, [0; 4]), (3, [0; 4]), (4, [0; 4]), (5, [0; 4])],
        patch_info: Some(PatchInfo {
            patch_box_code: box_code.to_owned(),
            patch_block_index: 4,
            patch_bytes: vec![0xAB; 64],
        }),
        ..info(project, 0x7E0, 0x7E8)
    }
}

fn simos18() -> FlashInfo {
    simos("SC8", "8V0906259H__0001")
}

fn dq250() -> FlashInfo {
    FlashInfo {
        block_names: named(&[(2, "DRIVER"), (3, "ASW"), (4, "CAL")]),
        unerased_blocks: vec![2],
        unchecksummed_blocks: vec![2],
        checksum_kind: ChecksumKind::Dsg,
        block_prep: BlockPrep::LzssNone,
        encryption_type: 0x01,
        compression_type: 0x01,
        default_stmin_us: 900,
        ..info("F", 0x7E1, 0x7E9)
    }
}

fn dq381() -> FlashInfo {
    FlashInfo {
        block_names: named(&[(1, "DRIVER"), (2, "ASW"), (3, "CAL")]),
        checksum_kind: ChecksumKind::Dq381,
        uds_checksum_kind: UdsChecksumKind::Crc32Be,
        block_prep: BlockPrep::LzssExact,
        default_stmin_us: 900,
        ..info("F", 0x7E1, 0x7E9)
    }
}

fn haldex() -> FlashInfo {
    FlashInfo {
        block_names: named(&[(1, "DRIVER"), (2, "CAL"), (3, "ASW"), (4, "VERSION")]),
        block_lengths: vec![(1, 0x434), (2, 0x333E), (3, 0x30000), (4, 0x100)],
        dynamic_lengths: true,
        unerased_blocks: vec![1],
        unchecksummed_blocks: vec![1],
        checksum_kind: ChecksumKind::Haldex,
        uds_checksum_kind: UdsChecksumKind::Crc32Be,
        block_prep: BlockPrep::Raw,
        encryption_type: 0x00,
        compression_type: 0x00,
        default_stmin_us: 900,
        ..info("0CQ", 0x70F, 0x779)
    }
}

const CSV: &str = "box_code,version,engine,asw,cal_old,cal_version,ecm3_start,ecm3_end,boxcodes\n\
8V0906259H,0001,2.0l R4 TFSI,SC8E0L20,SC8E0O20,SC800O20,55112,65400,\"['06K907425E', '8V0906259B']\"\n";

/// Build a minimal CAL block carrying `version` at the Simos CAL software-version
/// offset (block 5, 0x23..0x2B).
fn cal_with_version(version: &[u8; 8]) -> Vec<u8> {
    let mut cal = vec![0u8; 0x40];
    cal[0x23..0x2B].copy_from_slice(version);
    cal
}

#[test]
fn jamcrc_empty_body() {
    let jamcrc_of_empty = 0xFFFF_FFFFu32 - crc32fast::hash(&[]);
    let mut data = vec![0u8; 4];
    data[0..4].copy_from_slice(&jamcrc_of_empty.to_le_bytes());
    let (state, _) = validate_dsg(&data, false);
    assert_eq!(state, ChecksumState::Valid);
}

#[test]
fn fix_mode() {
    let content = b"hello world";
    let crc = crc32fast::hash(content);
    let correct_checksum = 0xFFFF_FFFFu32 - crc;

    let mut data = content.to_vec();
    data.extend_from_slice(&[0xAB, 0xCD, 0xEF, 0x01]); // wrong checksum

    let (state, fixed) = validate_dsg(&data, true);
    assert_eq!(state, ChecksumState::Fixed);
    let n = fixed.len();
    let stored = u32::from_le_bytes([fixed[n - 4], fixed[n - 3], fixed[n - 2], fixed[n - 1]]);
    assert_eq!(stored, correct_checksum);
}

#[test]
fn csv_lookup_finds_8v0906259h_row() {
    assert_eq!(load_ecm3_from_csv(CSV, "SC800O20"), Some((55112, 65400)));
}

#[test]
fn load_ecm3_location_reads_version_from_cal_and_returns_csv_pair() {
    let cal = cal_with_version(b"SC800O20");
    assert_eq!(load_ecm3_location(CSV, &cal, &simos18()), Some(vec![55112, 65400]));
}

#[test]
fn unknown_cal_version_returns_none() {
    let cal = cal_with_version(b"ZZ999Z99");
    assert_eq!(load_ecm3_from_csv(CSV, "ZZ999Z99"), None);
    assert_eq!(load_ecm3_location(CSV, &cal, &simos18()), None);
}

#[test]
fn addresses_are_decimal_not_hex() {
    // 55112 read as hex would be 0x55112 = 348434, well past the 0x10000 CAL block.
    let (start, end) = load_ecm3_from_csv(CSV, "SC800O20").unwrap();
    assert!(start < 0x1_0000 && end < 0x1_0000);
}

#[test]
fn trailing_quoted_column_does_not_shift_fields() {
    let row = "8V0906259H,0001,2.0l R4 TFSI,SC8E0L20,SC8E0O20,SC800O20,55112,65400,\
               \"['06K907425E', '8V0906259B']\"";
    let fields: Vec<&str> = row.splitn(CSV_FIELDS_BEFORE_QUOTED + 1, ',').collect();
    assert_eq!(fields.len(), CSV_FIELDS_BEFORE_QUOTED + 1);
    assert_eq!(fields[CSV_COL_CAL_VERSION], "SC800O20");
    assert_eq!(fields[CSV_COL_ECM3_START], "55112");
    assert_eq!(fields[CSV_COL_ECM3_END], "65400");
}

#[test]
fn a_dsg_block_is_settled_by_the_crc_it_is_given() {
    // The complement of 0x01020304, little-endian.
    let data = [7u8, 0xFB, 0xFC, 0xFD, 0xFE];
    assert_eq!(settle_dsg(&data, 0x0102_0304, false).0, ChecksumState::Valid);
    assert_eq!(settle_dsg(&data, 0x0102_0305, false).0, ChecksumState::Invalid);
    let (state, fixed) = settle_dsg(&data, 0x0102_0305, true);
    assert_eq!(state, ChecksumState::Fixed);
    assert_eq!(fixed, vec![7u8, 0xFA, 0xFC, 0xFD, 0xFE]);
    assert_eq!(settle_dsg(&[1, 2, 3], 0, true).0, ChecksumState::Failed);
}

#[test]
fn a_fixed_dsg_block_validates() {
    let (state, fixed) = validate_dsg(&[1, 2, 3, 4, 5, 6, 7, 8], true);
    assert_eq!(state, ChecksumState::Fixed);
    assert_eq!(validate_dsg(&fixed, false).0, ChecksumState::Valid);
}

fn dq381_block() -> Vec<u8> {
    let mut data: Vec<u8> = (0..0x80u32).map(|i| i as u8).collect();
    data[0x38..0x3C].copy_from_slice(&0x8001_0050u32.to_be_bytes());
    data[0x3C..0x40].copy_from_slice(&0x8001_006Fu32.to_be_bytes());
    data
}

#[test]
fn a_dq381_block_covers_the_range_its_header_names() {
    let data = dq381_block();
    assert_eq!(covered_range(&data, 0x8001_0000), Some((0x50, 0x70)));
    assert_eq!(covered_range(&data, 0x8001_0051), None);
    assert_eq!(covered_range(&data[..0x40], 0x8001_0000), None);
}

#[test]
fn a_fixed_dq381_block_validates() {
    let data = dq381_block();
    let (state, fixed) = validate_dq381(&data, 0x8001_0000, true);
    assert_eq!(state, ChecksumState::Fixed);
    let crc = crc32fast::hash(&data[0x50..0x70]);
    assert_eq!(fixed[0x44..0x48], crc.to_be_bytes());
    assert_eq!(validate_dq381(&fixed, 0x8001_0000, false).0, ChecksumState::Valid);
    assert_eq!(validate_dq381(&data, 0x8001_0000, false).0, ChecksumState::Invalid);
    assert_eq!(validate_dq381(&data[..8], 0, true).0, ChecksumState::Failed);
    assert_eq!(settle_dq381(&data, 0x8001_0000, crc, false).0, ChecksumState::Invalid);
}

#[test]
fn a_haldex_block_sums_its_words() {
    let mut module = haldex();
    module.checksum_block_locations = vec![(2, 4)];
    // Words 0x0201 and 0x0403 before the structure, 0x0605 behind it.
    let mut data = vec![1u8, 2, 3, 4];
    data.extend_from_slice(&[0; 10]);
    data.extend_from_slice(&[5, 6]);
    let (state, fixed) = validate_haldex(&data, 2, &module, true);
    assert_eq!(state, ChecksumState::Fixed);
    let want = 0xFFFFu16 - (0x0201 + 0x0403 + 0x0605);
    assert_eq!(fixed[12..14], want.to_le_bytes());
    assert_eq!(validate_haldex(&fixed, 2, &module, false).0, ChecksumState::Valid);
    assert_eq!(validate_haldex(&data, 2, &module, false).0, ChecksumState::Invalid);
    assert_eq!(validate_haldex(&data, 3, &module, true).0, ChecksumState::Failed);
    assert_eq!(validate_haldex(&data, 1, &module, true).0, ChecksumState::Valid);
}

#[test]
fn a_fixed_ecm3_area_validates() {
    let cal: Vec<u8> = (0..0x2000u32).map(|i| (i % 253) as u8).collect();
    let (state, fixed) = validate_ecm3(&[0x800, 0x900], &cal, true);
    assert_eq!(state, ChecksumState::Fixed);
    assert_eq!(fixed.len(), cal.len());
    assert_eq!(validate_ecm3(&[0x800, 0x900], &fixed, false).0, ChecksumState::Valid);
    assert_eq!(validate_ecm3(&[0x800, 0x900], &cal, false).0, ChecksumState::Invalid);
}

#[test]
fn the_crc_of_the_check_string_is_the_standard_one() {
    // CRC-32 of the ASCII string "123456789" is 0xCBF43926; DSG stores its complement.
    let mut data = b"123456789".to_vec();
    data.extend_from_slice(&0x340B_C6D9u32.to_le_bytes());
    assert_eq!(validate_dsg(&data, false).0, ChecksumState::Valid);
    // The CRC-32 of nothing is 0.
    assert_eq!(validate_dsg(&[0xFF; 4], false).0, ChecksumState::Valid);
}

#[test]
fn a_fix_changes_the_block_where_the_checksum_is_stored() {
    let data = [1u8, 2, 3, 4, 5, 6, 7, 8];
    let (state, fixed) = validate_dsg(&data, true);
    assert_eq!(state, ChecksumState::Fixed);
    assert_eq!(fixed[..4], data[..4]);
    assert_ne!(fixed[4..], data[4..]);
    let (state, again) = validate_dsg(&fixed, true);
    assert_eq!(state, ChecksumState::Valid);
    assert_eq!(again, fixed);
}
