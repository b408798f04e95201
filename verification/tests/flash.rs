//! What stands round the flash sequence.

#![allow(dead_code)]

use mqb_flash::flash::{
    begin_flash, classify_dtc_answer, classify_switchpatch_answer, continue_flash, flash_channel,
    list_records, make_isotp_config, obd_channel, obd_clear_needs_own_device, obd_dtc_clear_request,
    probe_clears_first, switchpatch_request, DataRecord, DtcClearOutcome, FlashPart, Incoming,
    ProbeKind, FLASH_TIMEOUT, OBD_ECU_ID, OBD_TESTER_ID,
};
use mqb_flash::interface::Interface;
use mqb_flash::uds::{FaultKind, FlashError, UdsFault};
use mqb_flash::module::{
    BlockPrep, ChecksumKind, ControlModuleIdentifier, FlashInfo, PatchInfo, UdsChecksumKind,
};

fn info(project: &str, txid: u32, rxid: u32) -> FlashInfo {
    FlashInfo {
        project_name: project.to_owned(),
        control_module_identifier: ControlModuleIdentifier { txid, rxid },
        block_names: Vec::new(),
        block_names_frf: Vec::new(),
        binfile_offsets: Vec::new(),
        binfile_size: 0,
        block_lengths: Vec::new(),
        dynamic_lengths: false,
        software_version_locations: Vec::new(),
        box_code_locations: Vec::new(),
        checksum_block_locations: Vec::new(),
        base_addresses: Vec::new(),
        block_identifiers: Vec::new(),
        block_transfer_sizes: Vec::new(),
        block_checksums: Vec::new(),
        unerased_blocks: Vec::new(),
        unchecksummed_blocks: Vec::new(),
        checksum_kind: ChecksumKind::Simos,
        uds_checksum_kind: UdsChecksumKind::Static,
        block_prep: BlockPrep::LzssAesBlock,
        encryption_type: 0x0A,
        compression_type: 0x0A,
        default_stmin_us: 400,
        patch_info: None,
    }
}

fn named(names: &[(u8, &str)]) -> Vec<(u8, String)> {
    names.iter().map(|(n, s)| (*n, (*s).to_owned())).collect()
}

fn simos(project: &str, box_code: &str) -> FlashInfo {
    let names = named(&[(1, "CBOOT"), (2, "ASW1"), (3, "ASW2"), (4, "ASW3"), (5, "CAL")]);
    FlashInfo {
        block_names: names.clone(),
        block_names_frf: names,
        block_lengths: vec![(1, 0x23E00), (2, 0xFFC00), (3, 0xBFC00), (4, 0x7FC00), (5, 0x7FC00)],
        software_version_locations: vec![(5, (0x23, 0x2B))],
        box_code_locations: vec![(5, (0x60, 0x6B))],
        block_identifiers: vec![(1, 1), (2, 2), (3, 3), (4, 4), (5, 5)],
        block_transfer_sizes: vec![(1, 0xFFD), (2, 0xFFD), (3, 0xFFD), (4, 0xFFD), (5, 0xFFD), (9, 0x8)],
        block_checksums: vec![(1, [0; 4]), (2, [0; 4]), (3, [0; 4]), (4, [0; 4]), (5, [0; 4])],
        patch_info: Some(PatchInfo {
            patch_box_code: box_code.to_owned(),
            patch_block_index: 4,
            patch_bytes: vec![0xAB; 64],
        }),
        ..info(project, 0x7E0, 0x7E8)
    }
}

fn simos18() -> FlashInfo {
    simos("SC8", "8V0906259H__0001")
}

fn dq250() -> FlashInfo {
    FlashInfo {
        block_names: named(&[(2, "DRIVER"), (3, "ASW"), (4, "CAL")]),
        unerased_blocks: vec![2],
        unchecksummed_blocks: vec![2],
        checksum_kind: ChecksumKind::Dsg,
        block_prep: BlockPrep::LzssNone,
        encryption_type: 0x01,
        compression_type: 0x01,
        default_stmin_us: 900,
        ..info("F", 0x7E1, 0x7E9)
    }
}

fn dq381() -> FlashInfo {
    FlashInfo {
        block_names: named(&[(1, "DRIVER"), (2, "ASW"), (3, "CAL")]),
        checksum_kind: ChecksumKind::Dq381,
        uds_checksum_kind: UdsChecksumKind::Crc32Be,
        block_prep: BlockPrep::LzssExact,
        default_stmin_us: 900,
        ..info("F", 0x7E1, 0x7E9)
    }
}

fn haldex() -> FlashInfo {
    FlashInfo {
        block_names: named(&[(1, "DRIVER"), (2, "CAL"), (3, "ASW"), (4, "VERSION")]),
        block_lengths: vec![(1, 0x434), (2, 0x333E), (3, 0x30000), (4, 0x100)],
        dynamic_lengths: true,
        unerased_blocks: vec![1],
        unchecksummed_blocks: vec![1],
        checksum_kind: ChecksumKind::Haldex,
        uds_checksum_kind: UdsChecksumKind::Crc32Be,
        block_prep: BlockPrep::Raw,
        encryption_type: 0x00,
        compression_type: 0x00,
        default_stmin_us: 900,
        ..info("0CQ", 0x70F, 0x779)
    }
}

fn native() -> Interface {
    Interface::J2534 { dll: None, bitrate: 500_000, native_isotp: true }
}

#[test]
fn a_module_is_reached_on_its_own_channel() {
    let c = make_isotp_config(&simos18());
    assert_eq!((c.tx_id, c.rx_id, c.timeout), (0x7E0, 0x7E8, FLASH_TIMEOUT));
    assert_eq!(flash_channel(&simos18(), 30_000, None).separation_time_min, Some(400));
    assert_eq!(flash_channel(&simos18(), 30_000, Some(7)).separation_time_min, Some(7));
    assert_eq!((obd_channel().tx_id, obd_channel().rx_id), (OBD_TESTER_ID, OBD_ECU_ID));
}

#[test]
fn emission_codes_are_cleared_with_service_4() {
    assert_eq!(obd_dtc_clear_request(), vec![0x04]);
    assert!(matches!(
        classify_dtc_answer(&Incoming::Message(vec![0x44])),
        Some(DtcClearOutcome::Cleared)
    ));
    assert!(matches!(
        classify_dtc_answer(&Incoming::Message(vec![0x7F, 0x04, 0x22])),
        Some(DtcClearOutcome::Refused { nrc: 0x22 })
    ));
    // The answer is still to come.
    assert!(classify_dtc_answer(&Incoming::Message(vec![0x7F, 0x04, 0x78])).is_none());
    assert!(matches!(classify_dtc_answer(&Incoming::TimedOut), Some(DtcClearOutcome::Silent)));
    let failed = classify_dtc_answer(&Incoming::Fault("gone".to_owned())).unwrap();
    assert!(!failed.is_cleared());
    assert!(failed.message().contains("gone"));
    assert!(DtcClearOutcome::Cleared.is_cleared());
}

#[test]
fn the_switchpatch_fallback_is_a_raw_request() {
    assert_eq!(switchpatch_request(), vec![0x3E, 0x10, 0x02]);
    assert!(matches!(
        classify_switchpatch_answer(&Incoming::Message(vec![0x7E, 0x10])),
        Some(Ok(()))
    ));
    assert!(matches!(
        classify_switchpatch_answer(&Incoming::Message(vec![0x7F, 0x3E, 0x12])),
        Some(Err(FlashError::NegativeResponse { code: 0x12, .. }))
    ));
    assert!(classify_switchpatch_answer(&Incoming::Message(vec![0x7F, 0x3E, 0x78])).is_none());
    assert!(matches!(classify_switchpatch_answer(&Incoming::TimedOut), Some(Err(_))));
}

fn walk(own_device: bool, run_works: bool) -> Vec<FlashPart> {
    let mut seen = vec![begin_flash(own_device)];
    loop {
        let last = seen[seen.len() - 1];
        if let FlashPart::Over { .. } = last {
            return seen;
        }
        seen.push(continue_flash(own_device, last, last != FlashPart::Run || run_works));
    }
}

#[test]
fn codes_are_cleared_before_and_after_a_flash() {
    assert_eq!(
        walk(true, true),
        vec![
            FlashPart::ClearAlone,
            FlashPart::Open,
            FlashPart::Run,
            FlashPart::Close { flashed: true },
            FlashPart::ClearAloneAgain,
            FlashPart::Over { flashed: true },
        ]
    );
    let shared = walk(false, true);
    assert_eq!(shared[..3], [FlashPart::Open, FlashPart::ClearShared, FlashPart::Run]);
    assert_eq!(shared[shared.len() - 1], FlashPart::Over { flashed: true });
    let failed = walk(false, false);
    assert_eq!(failed[failed.len() - 1], FlashPart::Over { flashed: false });
    assert!(obd_clear_needs_own_device(&native()));
    assert!(!obd_clear_needs_own_device(&Interface::Panda));
}

#[test]
fn only_the_unlock_probe_clears_codes_first() {
    assert!(probe_clears_first(&ProbeKind::UnlockState, &native()));
    assert!(!probe_clears_first(&ProbeKind::UnlockState, &Interface::Panda));
    assert!(!probe_clears_first(&ProbeKind::Identify, &native()));
}

#[test]
fn records_are_listed_as_text_or_bytes() {
    let record = |address: u16, description: &str, text: bool| DataRecord {
        address,
        description: description.to_owned(),
        text,
    };
    let answers = vec![
        (record(0xF190, "VIN", true), Some(b"WVWZZZ".to_vec())),
        (record(0xF442, "Voltage", false), Some(vec![0x03, 0x2C])),
        (record(0x0600, "Coding", false), None),
    ];
    let lines = list_records(&answers);
    assert_eq!(lines.len(), 2);
    assert!(lines.iter().any(|(_, v)| v == "WVWZZZ"));
}

#[test]
fn failed_requests_become_errors() {
    let fault = |kind: FaultKind| UdsFault { kind, text: "why".to_owned() };
    assert!(matches!(fault(FaultKind::Timeout).to_error(), FlashError::Timeout));
    assert!(fault(FaultKind::Other).to_error().message().contains("why"));
    assert!(!FlashError::AuthFailed.message().is_empty());
    assert!(FlashError::Config("bad".to_owned()).message().contains("bad"));
}
