//! Full images and the blocks in them.

#![allow(dead_code)]

use mqb_flash::binfile::{
    bin_from_blocks, blocks_from_bytes, filter_blocks, firmware_kind, insert_block, map_bin_blocks,
    map_odx_blocks, odx_text, BinfileError, FirmwareKind,
};
use mqb_flash::module::BlockData;
use mqb_flash::module::{
    BlockPrep, ChecksumKind, ControlModuleIdentifier, FlashInfo, PatchInfo, UdsChecksumKind,
};

fn info(project: &str, txid: u32, rxid: u32) -> FlashInfo {
    FlashInfo {
        project_name: project.to_owned(),
        control_module_identifier: ControlModuleIdentifier { txid, rxid },
        block_names: Vec::new(),
        block_names_frf: Vec::new(),
        binfile_offsets: Vec::new(),
        binfile_size: 0,
        block_lengths: Vec::new(),
        dynamic_lengths: false,
        software_version_locations: Vec::new(),
        box_code_locations: Vec::new(),
        checksum_block_locations: Vec::new(),
        base_addresses: Vec::new(),
        block_identifiers: Vec::new(),
        block_transfer_sizes: Vec::new(),
        block_checksums: Vec::new(),
        unerased_blocks: Vec::new(),
        unchecksummed_blocks: Vec::new(),
        checksum_kind: ChecksumKind::Simos,
        uds_checksum_kind: UdsChecksumKind::Static,
        block_prep: BlockPrep::LzssAesBlock,
        encryption_type: 0x0A,
        compression_type: 0x0A,
        default_stmin_us: 400,
        patch_info: None,
    }
}

fn named(names: &[(u8, &str)]) -> Vec<(u8, String)> {
    names.iter().map(|(n, s)| (*n, (*s).to_owned())).collect()
}

fn simos(project: &str, box_code: &str) -> FlashInfo {
    let names = named(&[(1, "CBOOT"), (2, "ASW1"), (3, "ASW2"), (4, "ASW3"), (5, "CAL")]);
    FlashInfo {
        block_names: names.clone(),
        block_names_frf: names,
        block_lengths: vec![(1, 0x23E00), (2, 0xFFC00), (3, 0xBFC00), (4, 0x7FC00), (5, 0x7FC00)],
        software_version_locations: vec![(5, (0x23, 0x2B))],
        box_code_locations: vec![(5, (0x60, 0x6B))],
        block_identifiers: vec![(1, 1), (2, 2), (3, 3), (4, 4), (5, 5)],
        block_transfer_sizes: vec![(1, 0xFFD), (2, 0xFFD), (3, 0xFFD), (4, 0xFFD), (5, 0xFFD), (9, 0x8)],
        block_checksums: vec![(1, [0; 4]), (2, [0; 4]), (3, [0; 4]), (4, [0; 4]), (5, [0; 4])],
        patch_info: Some(PatchInfo {
            patch_box_code: box_code.to_owned(),
            patch_block_index: 4,
            patch_bytes: vec![0xAB; 64],
        }),
        ..info(project, 0x7E0, 0x7E8)
    }
}

fn simos18() -> FlashInfo {
    simos("SC8", "8V0906259H__0001")
}

fn dq250() -> FlashInfo {
    FlashInfo {
        block_names: named(&[(2, "DRIVER"), (3, "ASW"), (4, "CAL")]),
        unerased_blocks: vec![2],
        unchecksummed_blocks: vec![2],
        checksum_kind: ChecksumKind::Dsg,
        block_prep: BlockPrep::LzssNone,
        encryption_type: 0x01,
        compression_type: 0x01,
        default_stmin_us: 900,
        ..info("F", 0x7E1, 0x7E9)
    }
}

fn dq381() -> FlashInfo {
    FlashInfo {
        block_names: named(&[(1, "DRIVER"), (2, "ASW"), (3, "CAL")]),
        checksum_kind: ChecksumKind::Dq381,
        uds_checksum_kind: UdsChecksumKind::Crc32Be,
        block_prep: BlockPrep::LzssExact,
        default_stmin_us: 900,
        ..info("F", 0x7E1, 0x7E9)
    }
}

fn haldex() -> FlashInfo {
    FlashInfo {
        block_names: named(&[(1, "DRIVER"), (2, "CAL"), (3, "ASW"), (4, "VERSION")]),
        block_lengths: vec![(1, 0x434), (2, 0x333E), (3, 0x30000), (4, 0x100)],
        dynamic_lengths: true,
        unerased_blocks: vec![1],
        unchecksummed_blocks: vec![1],
        checksum_kind: ChecksumKind::Haldex,
        uds_checksum_kind: UdsChecksumKind::Crc32Be,
        block_prep: BlockPrep::Raw,
        encryption_type: 0x00,
        compression_type: 0x00,
        default_stmin_us: 900,
        ..info("0CQ", 0x70F, 0x779)
    }
}

fn small() -> FlashInfo {
    FlashInfo {
        block_names: named(&[(1, "CBOOT"), (5, "CAL")]),
        block_names_frf: named(&[(1, "FD_1"), (5, "FD_5")]),
        binfile_offsets: vec![(1, 4), (5, 10)],
        binfile_size: 16,
        block_lengths: vec![(1, 4), (5, 6)],
        ..info("SC8", 0x7E0, 0x7E8)
    }
}

#[test]
fn an_image_is_cut_and_combined_again() {
    let module = small();
    let image: Vec<u8> = (0..16u8).collect();
    let blocks = blocks_from_bytes(&image, &module, &module.block_lengths);
    let found: Vec<(u8, &str, Vec<u8>)> = blocks
        .iter()
        .map(|b| (b.block_number, b.block_name.as_str(), b.block_bytes.clone()))
        .collect();
    assert_eq!(
        found,
        vec![(1, "CBOOT", vec![4, 5, 6, 7]), (5, "CAL", vec![10, 11, 12, 13, 14, 15])]
    );
    let mut want = vec![0u8; 16];
    want[4..8].copy_from_slice(&image[4..8]);
    want[10..16].copy_from_slice(&image[10..16]);
    assert_eq!(bin_from_blocks(&blocks, &module), want);
}

#[test]
fn a_block_of_another_project_is_left_out() {
    let mut module = small();
    module.software_version_locations = vec![(5, (0, 3))];
    let block = |bytes: &[u8]| BlockData::with_name(5, bytes.to_vec(), "CAL");
    assert_eq!(filter_blocks(vec![block(b"SC8xxx")], &module).len(), 1);
    assert_eq!(filter_blocks(vec![block(b"ZZ9xxx")], &module).len(), 0);
}

#[test]
fn a_block_name_is_kept_once() {
    let mut blocks = Vec::new();
    insert_block(&mut blocks, BlockData::with_name(1, vec![1], "A"));
    insert_block(&mut blocks, BlockData::with_name(2, vec![2], "A"));
    assert_eq!(blocks.len(), 1);
    assert_eq!(map_bin_blocks(blocks)[&2], vec![2]);
}

#[test]
fn the_extension_decides_how_a_file_is_read() {
    assert_eq!(firmware_kind(Some("FRF"), "a.FRF").unwrap(), FirmwareKind::Frf);
    assert_eq!(firmware_kind(Some("odx"), "a.odx").unwrap(), FirmwareKind::Odx);
    assert_eq!(firmware_kind(Some("Bin"), "a.Bin").unwrap(), FirmwareKind::Bin);
    let e = firmware_kind(Some("txt"), "a.txt").unwrap_err();
    assert!(e.message().ends_with("a.txt"));
    assert!(matches!(firmware_kind(None, "a"), Err(BinfileError::UnsupportedType(_))));
}

#[test]
fn the_odx_file_of_a_container_is_found() {
    let files = vec![("x.bin".to_owned(), vec![1]), ("Y.ODX".to_owned(), b"<X/>".to_vec())];
    assert_eq!(odx_text(&files).unwrap(), "<X/>");
    assert!(matches!(odx_text(&files[..1].to_vec()), Err(BinfileError::NoOdx)));
    let broken = vec![("a.odx".to_owned(), vec![0xFF, 0xFE])];
    assert!(matches!(odx_text(&broken), Err(BinfileError::OdxNotUtf8)));
}

#[test]
fn odx_blocks_get_their_numbers() {
    let blocks = map_odx_blocks(vec![("CAL".to_owned(), vec![7])], &small()).unwrap();
    assert_eq!(blocks[&5], vec![7]);
    assert!(matches!(map_odx_blocks(Vec::new(), &small()), Err(BinfileError::NoBlocks)));
    assert!(BinfileError::Io("gone".to_owned()).message().contains("gone"));
}
