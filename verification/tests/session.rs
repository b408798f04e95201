//! Sessions and scans.

#![allow(dead_code)]

use mqb_flash::flash::{FLASH_TIMEOUT, IDENT_TIMEOUT};
use mqb_flash::identify::ident_channels;
use mqb_flash::interface::{supports_raw_can, Interface};
use mqb_flash::session::{
    begin_scan, channel_ids, continue_scan, report_probed, report_started, shares_one_session,
    ScanAction, ScanProgress, Session,
};
use mqb_flash::module::{
    BlockPrep, ChecksumKind, ControlModuleIdentifier, FlashInfo, PatchInfo, UdsChecksumKind,
};

fn info(project: &str, txid: u32, rxid: u32) -> FlashInfo {
    FlashInfo {
        project_name: project.to_owned(),
        control_module_identifier: ControlModuleIdentifier { txid, rxid },
        block_names: Vec::new(),
        block_names_frf: Vec::new(),
        binfile_offsets: Vec::new(),
        binfile_size: 0,
        block_lengths: Vec::new(),
        dynamic_lengths: false,
        software_version_locations: Vec::new(),
        box_code_locations: Vec::new(),
        checksum_block_locations: Vec::new(),
        base_addresses: Vec::new(),
        block_identifiers: Vec::new(),
        block_transfer_sizes: Vec::new(),
        block_checksums: Vec::new(),
        unerased_blocks: Vec::new(),
        unchecksummed_blocks: Vec::new(),
        checksum_kind: ChecksumKind::Simos,
        uds_checksum_kind: UdsChecksumKind::Static,
        block_prep: BlockPrep::LzssAesBlock,
        encryption_type: 0x0A,
        compression_type: 0x0A,
        default_stmin_us: 400,
        patch_info: None,
    }
}

fn named(names: &[(u8, &str)]) -> Vec<(u8, String)> {
    names.iter().map(|(n, s)| (*n, (*s).to_owned())).collect()
}

fn simos(project: &str, box_code: &str) -> FlashInfo {
    let names = named(&[(1, "CBOOT"), (2, "ASW1"), (3, "ASW2"), (4, "ASW3"), (5, "CAL")]);
    FlashInfo {
        block_names: names.clone(),
        block_names_frf: names,
        block_lengths: vec![(1, 0x23E00), (2, 0xFFC00), (3, 0xBFC00), (4, 0x7FC00), (5, 0x7FC00)],
        software_version_locations: vec![(5, (0x23, 0x2B))],
        box_code_locations: vec![(5, (0x60, 0x6B))],
        block_identifiers: vec![(1, 1), (2, 2), (3, 3), (4, 4), (5, 5)],
        block_transfer_sizes: vec![(1, 0xFFD), (2, 0xFFD), (3, 0xFFD), (4, 0xFFD), (5, 0xFFD), (9, 0x8)],
        block_checksums: vec![(1, [0; 4]), (2, [0; 4]), (3, [0; 4]), (4, [0; 4]), (5, [0; 4])],
        patch_info: Some(PatchInfo {
            patch_box_code: box_code.to_owned(),
            patch_block_index: 4,
            patch_bytes: vec![0xAB; 64],
        }),
        ..info(project, 0x7E0, 0x7E8)
    }
}

fn simos18() -> FlashInfo {
    simos("SC8", "8V0906259H__0001")
}

fn dq250() -> FlashInfo {
    FlashInfo {
        block_names: named(&[(2, "DRIVER"), (3, "ASW"), (4, "CAL")]),
        unerased_blocks: vec![2],
        unchecksummed_blocks: vec![2],
        checksum_kind: ChecksumKind::Dsg,
        block_prep: BlockPrep::LzssNone,
        encryption_type: 0x01,
        compression_type: 0x01,
        default_stmin_us: 900,
        ..info("F", 0x7E1, 0x7E9)
    }
}

fn dq381() -> FlashInfo {
    FlashInfo {
        block_names: named(&[(1, "DRIVER"), (2, "ASW"), (3, "CAL")]),
        checksum_kind: ChecksumKind::Dq381,
        uds_checksum_kind: UdsChecksumKind::Crc32Be,
        block_prep: BlockPrep::LzssExact,
        default_stmin_us: 900,
        ..info("F", 0x7E1, 0x7E9)
    }
}

fn haldex() -> FlashInfo {
    FlashInfo {
        block_names: named(&[(1, "DRIVER"), (2, "CAL"), (3, "ASW"), (4, "VERSION")]),
        block_lengths: vec![(1, 0x434), (2, 0x333E), (3, 0x30000), (4, 0x100)],
        dynamic_lengths: true,
        unerased_blocks: vec![1],
        unchecksummed_blocks: vec![1],
        checksum_kind: ChecksumKind::Haldex,
        uds_checksum_kind: UdsChecksumKind::Crc32Be,
        block_prep: BlockPrep::Raw,
        encryption_type: 0x00,
        compression_type: 0x00,
        default_stmin_us: 900,
        ..info("0CQ", 0x70F, 0x779)
    }
}

fn native() -> Interface {
    Interface::J2534 { dll: None, bitrate: 500_000, native_isotp: true }
}

/// The native ISO 15765 path must never open a speculative session: its
/// channel is bound to one ID pair.
#[test]
fn a_hardware_isotp_interface_never_opens_a_shared_session() {
    assert!(!shares_one_session(&Interface::J2534 {
        dll: None,
        bitrate: 500_000,
        native_isotp: true,
    }));
    // The raw-CAN J2534 channel is a different story and still shares.
    assert!(shares_one_session(&Interface::J2534 {
        dll: None,
        bitrate: 500_000,
        native_isotp: false,
    }));
}

/// A hardware ISO 15765 connection has no raw CAN to offer, and callers
/// that need it must be able to find that out.
#[test]
fn raw_can_is_absent_on_a_hardware_isotp_interface() {
    let iface = Interface::J2534 { dll: None, bitrate: 500_000, native_isotp: true };
    assert!(!supports_raw_can(&iface));
}

/// A scan must not inherit the flash sequence's 30 s response timeout.
#[test]
fn identifying_waits_far_less_than_flashing() {
    let flashing = Session::open(Interface::Panda, &simos18(), None);
    assert_eq!(flashing.config(&simos18()).timeout, FLASH_TIMEOUT);
    let identifying = Session::open_for_identify(Interface::Panda, &simos18());
    assert_eq!(identifying.config(&simos18()).timeout, IDENT_TIMEOUT);
    assert!(IDENT_TIMEOUT < FLASH_TIMEOUT);
}

/// `shares_one_session` must agree with what `can_serve` says about an open
/// session.
#[test]
fn sharing_one_session_predicts_what_can_serve_would_answer() {
    let shared = Session::open_for_identify(Interface::Panda, &simos18());
    assert!(shares_one_session(&Interface::Panda));
    for module in [simos18(), dq250(), haldex()] {
        assert!(shared.can_serve(&module));
    }
    let bound = Session::open_for_identify(native(), &simos18());
    assert!(bound.can_serve(&simos18()));
    assert!(!bound.can_serve(&haldex()));
    assert!(bound.require_channel(&haldex()).is_err());
    assert!(!bound.raw_can());
}

#[test]
fn a_closed_session_serves_nobody() {
    let mut session = Session::open(native(), &simos18(), Some(250));
    assert_eq!(session.config(&simos18()).separation_time_min, Some(250));
    let raw = Session::open(Interface::Panda, &simos18(), Some(250));
    assert_eq!(raw.config(&simos18()).separation_time_min, None);
    assert_eq!(channel_ids(&haldex()), (0x70F, 0x779));
    session.close();
    assert!(!session.can_serve(&simos18()));
}

fn walk(interface: &Interface, shared_opens: bool) -> Vec<ScanAction> {
    let mut seen = vec![begin_scan(interface)];
    while seen[seen.len() - 1] != ScanAction::Finished {
        let last = seen[seen.len() - 1];
        seen.push(continue_scan(last, last != ScanAction::OpenShared || shared_opens));
    }
    seen
}

#[test]
fn a_scan_walks_every_channel_once() {
    assert_eq!(
        walk(&Interface::Panda, true),
        vec![
            ScanAction::OpenShared,
            ScanAction::ProbeShared(0),
            ScanAction::ProbeShared(1),
            ScanAction::ProbeShared(2),
            ScanAction::CloseShared,
            ScanAction::Finished,
        ]
    );
    let alone = vec![
        ScanAction::ProbeAlone(0),
        ScanAction::ProbeAlone(1),
        ScanAction::ProbeAlone(2),
        ScanAction::Finished,
    ];
    assert_eq!(walk(&native(), true), alone);
    assert_eq!(walk(&Interface::Panda, false)[1..], alone[..]);
}

#[test]
fn a_scan_reports_its_channels() {
    let channels = ident_channels();
    match report_started(1) {
        ScanProgress::ChannelStarted { channel, index, total } => {
            assert_eq!((channel.label, index, total), (channels[1].label, 1, 3));
        }
        _ => panic!("a started channel"),
    }
    assert!(matches!(report_probed(2, true), ScanProgress::ChannelAnswered { .. }));
    assert!(matches!(report_probed(2, false), ScanProgress::ChannelSilent { .. }));
}
