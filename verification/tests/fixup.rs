//! Correcting block checksums before a flash.

#![allow(dead_code)]

use std::collections::HashMap;

use mqb_flash::cboot::{NEEDLE, PATCH};
use mqb_flash::fixup::{checksum_and_patch_blocks, FixupError};
use mqb_flash::module::{
    BlockPrep, ChecksumKind, ControlModuleIdentifier, FlashInfo, PatchInfo, UdsChecksumKind,
};

fn info(project: &str, txid: u32, rxid: u32) -> FlashInfo {
    FlashInfo {
        project_name: project.to_owned(),
        control_module_identifier: ControlModuleIdentifier { txid, rxid },
        block_names: Vec::new(),
        block_names_frf: Vec::new(),
        binfile_offsets: Vec::new(),
        binfile_size: 0,
        block_lengths: Vec::new(),
        dynamic_lengths: false,
        software_version_locations: Vec::new(),
        box_code_locations: Vec::new(),
        checksum_block_locations: Vec::new(),
        base_addresses: Vec::new(),
        block_identifiers: Vec::new(),
        block_transfer_sizes: Vec::new(),
        block_checksums: Vec::new(),
        unerased_blocks: Vec::new(),
        unchecksummed_blocks: Vec::new(),
        checksum_kind: ChecksumKind::Simos,
        uds_checksum_kind: UdsChecksumKind::Static,
        block_prep: BlockPrep::LzssAesBlock,
        encryption_type: 0x0A,
        compression_type: 0x0A,
        default_stmin_us: 400,
        patch_info: None,
    }
}

fn named(names: &[(u8, &str)]) -> Vec<(u8, String)> {
    names.iter().map(|(n, s)| (*n, (*s).to_owned())).collect()
}

fn simos(project: &str, box_code: &str) -> FlashInfo {
    let names = named(&[(1, "CBOOT"), (2, "ASW1"), (3, "ASW2"), (4, "ASW3"), (5, "CAL")]);
    FlashInfo {
        block_names: names.clone(),
        block_names_frf: names,
        block_lengths: vec![(1, 0x23E00), (2, 0xFFC00), (3, 0xBFC00), (4, 0x7FC00), (5, 0x7FC00)],
        software_version_locations: vec![(5, (0x23, 0x2B))],
        box_code_locations: vec![(5, (0x60, 0x6B))],
        block_identifiers: vec![(1, 1), (2, 2), (3, 3), (4, 4), (5, 5)],
        block_transfer_sizes: vec![(1, 0xFFD), (2, 0xFFD), (3, 0xFFD), (4, 0xFFD), (5, 0xFFD), (9, 0x8)],
        block_checksums: vec![(1, [0; 4]), (2, [0; 4]), (3, [0; 4]), (4, [0; 4]), (5, [0; 4])],
        patch_info: Some(PatchInfo {
            patch_box_code: box_code.to_owned(),
            patch_block_index: 4,
            patch_bytes: vec![0xAB; 64],
        }),
        ..info(project, 0x7E0, 0x7E8)
    }
}

fn simos18() -> FlashInfo {
    simos("SC8", "8V0906259H__0001")
}

fn dq250() -> FlashInfo {
    FlashInfo {
        block_names: named(&[(2, "DRIVER"), (3, "ASW"), (4, "CAL")]),
        unerased_blocks: vec![2],
        unchecksummed_blocks: vec![2],
        checksum_kind: ChecksumKind::Dsg,
        block_prep: BlockPrep::LzssNone,
        encryption_type: 0x01,
        compression_type: 0x01,
        default_stmin_us: 900,
        ..info("F", 0x7E1, 0x7E9)
    }
}

fn dq381() -> FlashInfo {
    FlashInfo {
        block_names: named(&[(1, "DRIVER"), (2, "ASW"), (3, "CAL")]),
        checksum_kind: ChecksumKind::Dq381,
        uds_checksum_kind: UdsChecksumKind::Crc32Be,
        block_prep: BlockPrep::LzssExact,
        default_stmin_us: 900,
        ..info("F", 0x7E1, 0x7E9)
    }
}

fn haldex() -> FlashInfo {
    FlashInfo {
        block_names: named(&[(1, "DRIVER"), (2, "CAL"), (3, "ASW"), (4, "VERSION")]),
        block_lengths: vec![(1, 0x434), (2, 0x333E), (3, 0x30000), (4, 0x100)],
        dynamic_lengths: true,
        unerased_blocks: vec![1],
        unchecksummed_blocks: vec![1],
        checksum_kind: ChecksumKind::Haldex,
        uds_checksum_kind: UdsChecksumKind::Crc32Be,
        block_prep: BlockPrep::Raw,
        encryption_type: 0x00,
        compression_type: 0x00,
        default_stmin_us: 900,
        ..info("0CQ", 0x70F, 0x779)
    }
}


/// DQ250's DRIVER block is only 0x80E bytes of real code. Running the DSG
/// JAMCRC over it overwrites the last four bytes — a live brick path,
/// because the documented workflow is `checksum` -> `split-bin` -> `flash`.
#[test]
fn dq250_driver_block_is_left_untouched() {
    assert!(!dq250().has_internal_checksum(2));

    let driver: Vec<u8> = (0..0x80Eu32).map(|i| (i % 251) as u8).collect();
    let mut blocks = HashMap::from([(2u8, driver.clone())]);
    let report = checksum_and_patch_blocks("", &dq250(), &mut blocks, false, &Vec::new()).unwrap();

    assert_eq!(blocks[&2], driver, "DRIVER bytes must be byte-identical");
    assert!(!report.changed.contains(&2));
    assert!(report.notes.iter().any(|n| n.contains("externally")));
}

/// Haldex's DRIVER block has no checksum region either.
#[test]
fn haldex_driver_block_is_left_untouched() {
    assert!(!haldex().has_internal_checksum(1));
    assert!(haldex().has_internal_checksum(2));

    let driver: Vec<u8> = vec![0x5Au8; 0x434];
    let mut blocks = HashMap::from([(1u8, driver.clone())]);
    checksum_and_patch_blocks("", &haldex(), &mut blocks, false, &Vec::new()).unwrap();
    assert_eq!(blocks[&1], driver);
}

/// Every Simos block is checksummed; none is on the skip list.
#[test]
fn simos_checksums_every_block() {
    for b in 1..=5 {
        assert!(simos18().has_internal_checksum(b));
    }
}

/// Requesting the CBOOT patch on a module that has no CBOOT is an error,
/// not a silent no-op.
#[test]
fn patch_cboot_on_a_module_without_cboot_is_an_error() {
    let mut blocks = HashMap::from([(2u8, vec![0u8; 16])]);
    let err = checksum_and_patch_blocks("", &dq250(), &mut blocks, true, &Vec::new());
    assert!(matches!(err, Err(FixupError::NoCbootBlock)));
}

/// Patch blocks (> 5) carry no checksum region and must be passed over.
#[test]
fn patch_blocks_are_skipped() {
    let patch = vec![0xABu8; 64];
    let mut blocks = HashMap::from([(9u8, patch.clone())]);
    let report = checksum_and_patch_blocks("", &simos18(), &mut blocks, false, &Vec::new()).unwrap();
    assert_eq!(blocks[&9], patch);
    assert!(report.changed.is_empty());
}

#[test]
fn only_listed_blocks_change() {
    let mut blocks = HashMap::from([
        (2u8, vec![0x5Au8; 0x80E]),
        (3u8, vec![0x11u8; 0x1000]),
        (4u8, vec![0x22u8; 0x1000]),
        (7u8, vec![0x33u8; 16]),
    ]);
    let before = blocks.clone();
    let report =
        checksum_and_patch_blocks("", &dq250(), &mut blocks, false, &Vec::new()).unwrap();
    assert_eq!(report.changed, vec![3, 4]);
    for (number, bytes) in &before {
        assert_eq!(blocks[number] != *bytes, report.changed.contains(number));
    }
}

#[test]
fn a_listed_block_differs() {
    // The checksum lands on the second of the two patched places.
    let mut block = vec![0x5Au8; 24];
    block.extend_from_slice(&NEEDLE);
    block.extend_from_slice(&[0x5A; 8]);
    block.extend_from_slice(&NEEDLE);
    let module = FlashInfo {
        block_names: named(&[(3, "CBOOT")]),
        checksum_kind: ChecksumKind::Dsg,
        ..info("TEST", 0x7E0, 0x7E8)
    };
    let mut blocks = HashMap::from([(3u8, block.clone())]);
    let report = checksum_and_patch_blocks("", &module, &mut blocks, true, &Vec::new()).unwrap();
    assert_eq!(report.changed, vec![3, 3]);
    assert_ne!(blocks[&3], block);
    assert_eq!(blocks[&3][24..32], PATCH);
    assert_eq!(blocks[&3].len(), block.len());
}
