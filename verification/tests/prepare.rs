//! What a block is told as on the wire.

#![allow(dead_code)]

use mqb_flash::prepare::{
    compression_of, describe_block, prepare_block, prepare_patch_block, Padding,
};
use mqb_flash::module::{
    BlockPrep, ChecksumKind, ControlModuleIdentifier, FlashInfo, PatchInfo, UdsChecksumKind,
};

fn info(project: &str, txid: u32, rxid: u32) -> FlashInfo {
    FlashInfo {
        project_name: project.to_owned(),
        control_module_identifier: ControlModuleIdentifier { txid, rxid },
        block_names: Vec::new(),
        block_names_frf: Vec::new(),
        binfile_offsets: Vec::new(),
        binfile_size: 0,
        block_lengths: Vec::new(),
        dynamic_lengths: false,
        software_version_locations: Vec::new(),
        box_code_locations: Vec::new(),
        checksum_block_locations: Vec::new(),
        base_addresses: Vec::new(),
        block_identifiers: Vec::new(),
        block_transfer_sizes: Vec::new(),
        block_checksums: Vec::new(),
        unerased_blocks: Vec::new(),
        unchecksummed_blocks: Vec::new(),
        checksum_kind: ChecksumKind::Simos,
        uds_checksum_kind: UdsChecksumKind::Static,
        block_prep: BlockPrep::LzssAesBlock,
        encryption_type: 0x0A,
        compression_type: 0x0A,
        default_stmin_us: 400,
        patch_info: None,
    }
}

fn named(names: &[(u8, &str)]) -> Vec<(u8, String)> {
    names.iter().map(|(n, s)| (*n, (*s).to_owned())).collect()
}

fn simos(project: &str, box_code: &str) -> FlashInfo {
    let names = named(&[(1, "CBOOT"), (2, "ASW1"), (3, "ASW2"), (4, "ASW3"), (5, "CAL")]);
    FlashInfo {
        block_names: names.clone(),
        block_names_frf: names,
        block_lengths: vec![(1, 0x23E00), (2, 0xFFC00), (3, 0xBFC00), (4, 0x7FC00), (5, 0x7FC00)],
        software_version_locations: vec![(5, (0x23, 0x2B))],
        box_code_locations: vec![(5, (0x60, 0x6B))],
        block_identifiers: vec![(1, 1), (2, 2), (3, 3), (4, 4), (5, 5)],
        block_transfer_sizes: vec![(1, 0xFFD), (2, 0xFFD), (3, 0xFFD), (4, 0xFFD), (5, 0xFFD), (9, 0x8)],
        block_checksums: vec![(1, [0; 4]), (2, [0; 4]), (3, [0; 4]), (4, [0; 4]), (5, [0; 4])],
        patch_info: Some(PatchInfo {
            patch_box_code: box_code.to_owned(),
            patch_block_index: 4,
            patch_bytes: vec![0xAB; 64],
        }),
        ..info(project, 0x7E0, 0x7E8)
    }
}

fn simos18() -> FlashInfo {
    simos("SC8", "8V0906259H__0001")
}

fn dq250() -> FlashInfo {
    FlashInfo {
        block_names: named(&[(2, "DRIVER"), (3, "ASW"), (4, "CAL")]),
        unerased_blocks: vec![2],
        unchecksummed_blocks: vec![2],
        checksum_kind: ChecksumKind::Dsg,
        block_prep: BlockPrep::LzssNone,
        encryption_type: 0x01,
        compression_type: 0x01,
        default_stmin_us: 900,
        ..info("F", 0x7E1, 0x7E9)
    }
}

fn dq381() -> FlashInfo {
    FlashInfo {
        block_names: named(&[(1, "DRIVER"), (2, "ASW"), (3, "CAL")]),
        checksum_kind: ChecksumKind::Dq381,
        uds_checksum_kind: UdsChecksumKind::Crc32Be,
        block_prep: BlockPrep::LzssExact,
        default_stmin_us: 900,
        ..info("F", 0x7E1, 0x7E9)
    }
}

fn haldex() -> FlashInfo {
    FlashInfo {
        block_names: named(&[(1, "DRIVER"), (2, "CAL"), (3, "ASW"), (4, "VERSION")]),
        block_lengths: vec![(1, 0x434), (2, 0x333E), (3, 0x30000), (4, 0x100)],
        dynamic_lengths: true,
        unerased_blocks: vec![1],
        unchecksummed_blocks: vec![1],
        checksum_kind: ChecksumKind::Haldex,
        uds_checksum_kind: UdsChecksumKind::Crc32Be,
        block_prep: BlockPrep::Raw,
        encryption_type: 0x00,
        compression_type: 0x00,
        default_stmin_us: 900,
        ..info("0CQ", 0x70F, 0x779)
    }
}

/// DQ250 must not erase DRIVER (block 2); Haldex must not erase DRIVER (block 1).
#[test]
fn driver_blocks_are_never_erased() {
    assert!(!dq250().should_erase(2), "DQ250 DRIVER must not be erased");
    assert!(dq250().should_erase(3));
    assert!(dq250().should_erase(4));

    assert!(!haldex().should_erase(1), "Haldex DRIVER must not be erased");
    assert!(haldex().should_erase(2));
    assert!(haldex().should_erase(3));
    assert!(haldex().should_erase(4));

    // Simos and DQ381 erase everything.
    for b in 1..=5 {
        assert!(simos18().should_erase(b));
    }
    for b in 1..=3 {
        assert!(dq381().should_erase(b));
    }
}

/// DQ381 and Haldex carry a computed CRC-32, not the all-zero static default.
#[test]
fn crc32_modules_send_a_real_checksum() {
    let raw = vec![0xA5u8; 1024];
    let expected = crc32fast::hash(&raw).to_be_bytes();
    assert_ne!(expected, [0; 4]);

    assert_eq!(prepare_block(&dq381(), 3, &raw, vec![1]).uds_checksum, expected);
    assert_eq!(prepare_block(&haldex(), 3, &raw, raw.clone()).uds_checksum, expected);
    // Simos keeps its static table value.
    assert_eq!(prepare_block(&simos18(), 5, &raw, vec![1]).uds_checksum, [0; 4]);
}

/// Haldex announces the length of the block it actually holds, not the
/// static table default: the two differ on real firmware.
#[test]
fn haldex_announces_dynamic_length() {
    // Static table says CAL is 0x333E; a real image had 0x1826.
    assert_eq!(haldex().block_length(2), Some(0x333E));
    let raw = vec![0u8; 0x1826];
    assert_eq!(prepare_block(&haldex(), 2, &raw, raw.clone()).announced_length, 0x1826);

    // A static-length module ignores the slice length and uses its table.
    let s18_raw = vec![0u8; 16];
    assert_eq!(prepare_block(&simos18(), 5, &s18_raw, vec![]).announced_length, 0x7FC00);
}

#[test]
fn compression_follows_the_module() {
    assert_eq!(compression_of(&simos18()), Some(Padding::AesBlock));
    assert_eq!(compression_of(&dq250()), Some(Padding::Bare));
    assert_eq!(compression_of(&dq381()), Some(Padding::Exact));
    assert_eq!(compression_of(&haldex()), None);
}

#[test]
fn a_block_is_described_from_its_module() {
    let b = describe_block(&simos18(), 5, 16, 0xDEAD_BEEF, vec![9, 9]);
    assert_eq!(b.block_number, 5);
    assert_eq!(b.block_name, "CAL");
    assert_eq!(b.block_encrypted_bytes, vec![9, 9]);
    assert_eq!((b.encryption_type, b.compression_type), (0x0A, 0x0A));
    assert!(b.should_erase);
    let b = describe_block(&haldex(), 7, 16, 0xDEAD_BEEF, vec![]);
    assert_eq!(b.uds_checksum, [0xDE, 0xAD, 0xBE, 0xEF]);
    assert_eq!(b.block_name, "UNKNOWN");
}

#[test]
fn a_patch_is_sent_plain_and_announced_as_its_target() {
    let b = prepare_patch_block(&simos18(), 9, 64, vec![1, 2, 3]);
    assert_eq!(b.block_name, "UNLOCK_PATCH");
    assert_eq!((b.encryption_type, b.compression_type), (0x0A, 0x00));
    assert!(!b.should_erase);
    assert_eq!(b.announced_length, 0x7FC00);
    assert_eq!(prepare_patch_block(&haldex(), 11, 64, vec![]).announced_length, 64);
}
