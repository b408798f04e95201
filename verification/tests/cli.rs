//! The decisions behind the commands.

#![allow(dead_code)]

use std::collections::HashMap;

use mqb_flash::cboot::{NEEDLE, PATCH};
use mqb_flash::cli::{
    check_unlock_file, describe_flash_block, describe_patch_block, find_block, fix_image,
    flash_order, get_flash_info, missing_block, number_blocks, parse_block_args, patch_image,
    ImageError, Purpose, UnlockError,
};
use mqb_flash::module::{
    BlockPrep, ChecksumKind, ControlModuleIdentifier, FlashInfo, PatchInfo, Registry, UdsChecksumKind,
};

fn info(project: &str, txid: u32, rxid: u32) -> FlashInfo {
    FlashInfo {
        project_name: project.to_owned(),
        control_module_identifier: ControlModuleIdentifier { txid, rxid },
        block_names: Vec::new(),
        block_names_frf: Vec::new(),
        binfile_offsets: Vec::new(),
        binfile_size: 0,
        block_lengths: Vec::new(),
        dynamic_lengths: false,
        software_version_locations: Vec::new(),
        box_code_locations: Vec::new(),
        checksum_block_locations: Vec::new(),
        base_addresses: Vec::new(),
        block_identifiers: Vec::new(),
        block_transfer_sizes: Vec::new(),
        block_checksums: Vec::new(),
        unerased_blocks: Vec::new(),
        unchecksummed_blocks: Vec::new(),
        checksum_kind: ChecksumKind::Simos,
        uds_checksum_kind: UdsChecksumKind::Static,
        block_prep: BlockPrep::LzssAesBlock,
        encryption_type: 0x0A,
        compression_type: 0x0A,
        default_stmin_us: 400,
        patch_info: None,
    }
}

fn named(names: &[(u8, &str)]) -> Vec<(u8, String)> {
    names.iter().map(|(n, s)| (*n, (*s).to_owned())).collect()
}

fn simos(project: &str, box_code: &str) -> FlashInfo {
    let names = named(&[(1, "CBOOT"), (2, "ASW1"), (3, "ASW2"), (4, "ASW3"), (5, "CAL")]);
    FlashInfo {
        block_names: names.clone(),
        block_names_frf: names,
        block_lengths: vec![(1, 0x23E00), (2, 0xFFC00), (3, 0xBFC00), (4, 0x7FC00), (5, 0x7FC00)],
        software_version_locations: vec![(5, (0x23, 0x2B))],
        box_code_locations: vec![(5, (0x60, 0x6B))],
        block_identifiers: vec![(1, 1), (2, 2), (3, 3), (4, 4), (5, 5)],
        block_transfer_sizes: vec![(1, 0xFFD), (2, 0xFFD), (3, 0xFFD), (4, 0xFFD), (5, 0xFFD), (9, 0x8)],
        block_checksums: vec![(1, [0; 4]), (2, [0; 4]), (3, [0; 4]), (4, [0; 4]), (5, [0; 4])],
        patch_info: Some(PatchInfo {
            patch_box_code: box_code.to_owned(),
            patch_block_index: 4,
            patch_bytes: vec![0xAB; 64],
        }),
        ..info(project, 0x7E0, 0x7E8)
    }
}

fn simos18() -> FlashInfo {
    simos("SC8", "8V0906259H__0001")
}

fn dq250() -> FlashInfo {
    FlashInfo {
        block_names: named(&[(2, "DRIVER"), (3, "ASW"), (4, "CAL")]),
        unerased_blocks: vec![2],
        unchecksummed_blocks: vec![2],
        checksum_kind: ChecksumKind::Dsg,
        block_prep: BlockPrep::LzssNone,
        encryption_type: 0x01,
        compression_type: 0x01,
        default_stmin_us: 900,
        ..info("F", 0x7E1, 0x7E9)
    }
}

fn dq381() -> FlashInfo {
    FlashInfo {
        block_names: named(&[(1, "DRIVER"), (2, "ASW"), (3, "CAL")]),
        checksum_kind: ChecksumKind::Dq381,
        uds_checksum_kind: UdsChecksumKind::Crc32Be,
        block_prep: BlockPrep::LzssExact,
        default_stmin_us: 900,
        ..info("F", 0x7E1, 0x7E9)
    }
}

fn haldex() -> FlashInfo {
    FlashInfo {
        block_names: named(&[(1, "DRIVER"), (2, "CAL"), (3, "ASW"), (4, "VERSION")]),
        block_lengths: vec![(1, 0x434), (2, 0x333E), (3, 0x30000), (4, 0x100)],
        dynamic_lengths: true,
        unerased_blocks: vec![1],
        unchecksummed_blocks: vec![1],
        checksum_kind: ChecksumKind::Haldex,
        uds_checksum_kind: UdsChecksumKind::Crc32Be,
        block_prep: BlockPrep::Raw,
        encryption_type: 0x00,
        compression_type: 0x00,
        default_stmin_us: 900,
        ..info("0CQ", 0x70F, 0x779)
    }
}

fn args(list: &[&str]) -> Vec<String> {
    list.iter().map(|s| (*s).to_owned()).collect()
}

#[test]
fn block_arguments_name_their_files() {
    let t = parse_block_args(&args(&["CAL:/a:b.bin", "ASW1:x", "CAL:y"])).unwrap();
    assert_eq!(t.len(), 2);
    assert_eq!(t.get("CAL").map(|s| s.as_str()), Some("y"));
    assert_eq!(t.get("ASW1").map(|s| s.as_str()), Some("x"));
    let t = parse_block_args(&args(&["CAL:/a:b.bin"])).unwrap();
    assert_eq!(t.get("CAL").map(|s| s.as_str()), Some("/a:b.bin"));
    assert_eq!(
        parse_block_args(&args(&["CAL:y", "oops"])).err().unwrap(),
        "Block argument 'oops' must be in 'NAME:PATH' format"
    );
}

#[test]
fn unknown_modules_and_blocks_are_told() {
    let registry = Registry {
        modules: vec![("simos18".to_owned(), simos18()), ("haldex".to_owned(), haldex())],
    };
    assert_eq!(get_flash_info(&registry, "haldex").unwrap().project_name, "0CQ");
    assert_eq!(
        get_flash_info(&registry, "x").err().unwrap(),
        "Unknown module: 'x'. Valid modules: simos18, haldex"
    );
    assert_eq!(find_block(&simos18(), "simos18", "CAL", Purpose::Flash), Ok(5));
    let unknown = |p: Purpose| find_block(&simos18(), "simos18", "X", p).unwrap_err();
    assert_eq!(unknown(Purpose::Combine), "Unknown block name: 'X' for module 'simos18'");
    assert_eq!(unknown(Purpose::Odx), "Unknown ODX block 'X'");
    assert_eq!(unknown(Purpose::Flash), "Unknown block: 'X'");
}

#[test]
fn named_blocks_get_their_numbers() {
    let blocks = vec![("CAL".to_owned(), vec![1]), ("CBOOT".to_owned(), vec![2])];
    let numbered = number_blocks(&simos18(), "simos18", &blocks, Purpose::Combine).unwrap();
    let numbers: Vec<u8> = numbered.iter().map(|b| b.block_number).collect();
    assert_eq!(numbers, vec![5, 1]);
    let bad = vec![("NOPE".to_owned(), vec![])];
    assert!(number_blocks(&simos18(), "simos18", &bad, Purpose::Odx).is_err());
}

fn small() -> FlashInfo {
    FlashInfo {
        block_names: named(&[(1, "CBOOT"), (3, "ASW")]),
        block_names_frf: named(&[(1, "CBOOT"), (3, "ASW")]),
        binfile_offsets: vec![(1, 2), (3, 40)],
        binfile_size: 64,
        block_lengths: vec![(1, 30), (3, 8)],
        checksum_kind: ChecksumKind::Dsg,
        ..info("F", 0x7E1, 0x7E9)
    }
}

#[test]
fn the_bootloader_of_an_image_is_patched_in_place() {
    let mut image = vec![0u8; 64];
    image[4..12].copy_from_slice(&NEEDLE);
    image[20..28].copy_from_slice(&NEEDLE);
    patch_image(&small(), "m", &mut image).unwrap();
    assert_eq!(image[4..12], PATCH);
    assert_eq!(image[20..28], PATCH);
    assert!(matches!(patch_image(&small(), "m", &mut image), Err(ImageError::Patch(_))));
    let mut short = vec![0u8; 31];
    let e = patch_image(&small(), "m", &mut short).unwrap_err();
    assert_eq!(e.message(), "CBOOT block extends beyond binary");
    let e = patch_image(&dq250(), "dq250", &mut image).unwrap_err();
    assert_eq!(e.message(), "Module 'dq250' has no CBOOT block");
    let mut no_offset = small();
    no_offset.binfile_offsets.clear();
    assert!(matches!(patch_image(&no_offset, "m", &mut image), Err(ImageError::NoOffset)));
    let mut no_length = small();
    no_length.block_lengths.clear();
    assert!(matches!(patch_image(&no_length, "m", &mut image), Err(ImageError::NoLength)));
}

#[test]
fn an_image_is_corrected_in_place() {
    let module = small();
    let mut image: Vec<u8> = (0..64u8).collect();
    let (lines, verdict) = fix_image(&module, &mut image, &module.block_lengths, &Vec::new());
    assert!(verdict.is_ok());
    assert_eq!(lines, vec!["CBOOT: fixed", "ASW: fixed"]);
    assert_eq!(image.len(), 64);
    assert_eq!(image[44..48], (0xFFFF_FFFFu32 - crc32fast::hash(&[40, 41, 42, 43])).to_le_bytes());
    let (lines, _) = fix_image(&module, &mut image, &module.block_lengths, &Vec::new());
    assert_eq!(lines, vec!["CBOOT: valid", "ASW: valid"]);
    let mut simos = module.clone();
    simos.checksum_kind = ChecksumKind::Simos;
    let (lines, verdict) = fix_image(&simos, &mut image, &module.block_lengths, &Vec::new());
    assert_eq!(lines[0], "CBOOT: failed");
    assert_eq!(verdict.unwrap_err(), "One or more blocks could not be checksummed");
}

fn firmware(box_code: &[u8]) -> HashMap<u8, Vec<u8>> {
    let mut cal = vec![0x20u8; 0x80];
    cal[0x60..0x60 + box_code.len()].copy_from_slice(box_code);
    HashMap::from([(1, vec![1]), (2, vec![2]), (3, vec![3]), (4, vec![4]), (5, cal)])
}

#[test]
fn only_the_file_of_the_patch_unlocks() {
    assert_eq!(check_unlock_file(&simos18(), "simos18", &firmware(b"8V0906259H")).unwrap(), "8V0906259H");
    let e = check_unlock_file(&simos18(), "simos18", &firmware(b"5G0906259Q")).unwrap_err();
    assert_eq!(
        e.message(),
        "Box code mismatch: file has '5G0906259Q' but unlock patch requires '8V0906259H' \
         (full patch_box_code: '8V0906259H__0001')"
    );
    let e = check_unlock_file(&haldex(), "haldex", &HashMap::new()).unwrap_err();
    assert_eq!(e.message(), "Module 'haldex' does not support unlock (no patch_info)");
    assert!(matches!(
        check_unlock_file(&simos18(), "m", &HashMap::new()),
        Err(UnlockError::NoCal)
    ));
    assert!(matches!(
        check_unlock_file(&simos18(), "m", &HashMap::from([(5, vec![0; 4])])),
        Err(UnlockError::OutOfBounds)
    ));
    assert!(matches!(
        check_unlock_file(&simos18(), "m", &firmware(&[0xFF; 4])),
        Err(UnlockError::NotUtf8)
    ));
    let mut unplaced = simos18();
    unplaced.box_code_locations.clear();
    assert!(matches!(
        check_unlock_file(&unplaced, "m", &firmware(b"")),
        Err(UnlockError::NoBoxCodeLocation)
    ));
}

#[test]
fn an_unlock_needs_every_block() {
    let mut blocks = firmware(b"");
    assert_eq!(missing_block(&blocks), None);
    blocks.remove(&3);
    assert_eq!(missing_block(&blocks), Some(3));
    assert_eq!(UnlockError::Missing(3).message(), "FRF is missing block 3");
}

#[test]
fn blocks_are_flashed_by_number() {
    assert_eq!(flash_order(&vec![5, 1, 9, 1]), vec![1, 3, 0, 2]);
    let b = describe_flash_block(&simos18(), 5, "CAL", "8V0906259H", 4, vec![1, 2]);
    assert_eq!((b.encryption_type, b.compression_type, b.should_erase), (0x0A, 0x0A, true));
    assert_eq!((b.boxcode.as_str(), b.announced_length), ("8V0906259H", 0x7FC00));
    let p = describe_patch_block(9, 64, vec![1]);
    assert_eq!((p.block_name.as_str(), p.should_erase), ("UNLOCK_PATCH", false));
}
