//! The flashing wizard.

#![allow(dead_code)]

use std::collections::HashMap;

use mqb_flash::flash::ProgressUpdate;
use mqb_flash::identify::{
    ident_channels, ChannelIdentification, Candidate, Confidence, IdentStrings,
};
use mqb_flash::immo::{ImmoFinding, ImmoReport, ImmoRule, Severity};
use mqb_flash::interface::Interface;
use mqb_flash::prepare::prepare_block;
use mqb_flash::session::ScanProgress;
use mqb_flash::unlock::{UnlockProbe, UnlockState};
use mqb_flash::wizard::firmware::{
    choose_parts, correct_blocks, immo_check_applies, inspect_firmware, part_number, prepare_part,
    prepared_note, required_unlock_box_code, trim_field, validate_unlock_file, ChosenFile, Part,
    MISSING_CAL, NO_BLOCKS, NO_BOOTLOADER, NO_BOX_CODE, NO_CAL_BLOCK, NO_CAL_NAME, NO_PATCH,
    NO_UNLOCK,
};
use mqb_flash::wizard::screens::{
    confidence_name, describe_after, nav_row, severity_tag, view, view_heading, Item, Pick,
    UNREAD_AFTER,
};
use mqb_flash::wizard::state::{
    Bar, Command, Message, Picked, Place, PreflightOutcome, State, NOTHING_ANSWERED,
};
use mqb_flash::wizard::steps::{InterfaceKind, Operation, Step};
use mqb_flash::module::{
    BlockPrep, ChecksumKind, ControlModuleIdentifier, FlashInfo, PatchInfo, UdsChecksumKind,
};

fn info(project: &str, txid: u32, rxid: u32) -> FlashInfo {
    FlashInfo {
        project_name: project.to_owned(),
        control_module_identifier: ControlModuleIdentifier { txid, rxid },
        block_names: Vec::new(),
        block_names_frf: Vec::new(),
        binfile_offsets: Vec::new(),
        binfile_size: 0,
        block_lengths: Vec::new(),
        dynamic_lengths: false,
        software_version_locations: Vec::new(),
        box_code_locations: Vec::new(),
        checksum_block_locations: Vec::new(),
        base_addresses: Vec::new(),
        block_identifiers: Vec::new(),
        block_transfer_sizes: Vec::new(),
        block_checksums: Vec::new(),
        unerased_blocks: Vec::new(),
        unchecksummed_blocks: Vec::new(),
        checksum_kind: ChecksumKind::Simos,
        uds_checksum_kind: UdsChecksumKind::Static,
        block_prep: BlockPrep::LzssAesBlock,
        encryption_type: 0x0A,
        compression_type: 0x0A,
        default_stmin_us: 400,
        patch_info: None,
    }
}

fn named(names: &[(u8, &str)]) -> Vec<(u8, String)> {
    names.iter().map(|(n, s)| (*n, (*s).to_owned())).collect()
}

fn simos(project: &str, box_code: &str) -> FlashInfo {
    let names = named(&[(1, "CBOOT"), (2, "ASW1"), (3, "ASW2"), (4, "ASW3"), (5, "CAL")]);
    FlashInfo {
        block_names: names.clone(),
        block_names_frf: names,
        block_lengths: vec![(1, 0x23E00), (2, 0xFFC00), (3, 0xBFC00), (4, 0x7FC00), (5, 0x7FC00)],
        software_version_locations: vec![(5, (0x23, 0x2B))],
        box_code_locations: vec![(5, (0x60, 0x6B))],
        block_identifiers: vec![(1, 1), (2, 2), (3, 3), (4, 4), (5, 5)],
        block_transfer_sizes: vec![(1, 0xFFD), (2, 0xFFD), (3, 0xFFD), (4, 0xFFD), (5, 0xFFD), (9, 0x8)],
        block_checksums: vec![(1, [0; 4]), (2, [0; 4]), (3, [0; 4]), (4, [0; 4]), (5, [0; 4])],
        patch_info: Some(PatchInfo {
            patch_box_code: box_code.to_owned(),
            patch_block_index: 4,
            patch_bytes: vec![0xAB; 64],
        }),
        ..info(project, 0x7E0, 0x7E8)
    }
}

fn simos18() -> FlashInfo {
    simos("SC8", "8V0906259H__0001")
}

fn dq250() -> FlashInfo {
    FlashInfo {
        block_names: named(&[(2, "DRIVER"), (3, "ASW"), (4, "CAL")]),
        unerased_blocks: vec![2],
        unchecksummed_blocks: vec![2],
        checksum_kind: ChecksumKind::Dsg,
        block_prep: BlockPrep::LzssNone,
        encryption_type: 0x01,
        compression_type: 0x01,
        default_stmin_us: 900,
        ..info("F", 0x7E1, 0x7E9)
    }
}

fn dq381() -> FlashInfo {
    FlashInfo {
        block_names: named(&[(1, "DRIVER"), (2, "ASW"), (3, "CAL")]),
        checksum_kind: ChecksumKind::Dq381,
        uds_checksum_kind: UdsChecksumKind::Crc32Be,
        block_prep: BlockPrep::LzssExact,
        default_stmin_us: 900,
        ..info("F", 0x7E1, 0x7E9)
    }
}

fn haldex() -> FlashInfo {
    FlashInfo {
        block_names: named(&[(1, "DRIVER"), (2, "CAL"), (3, "ASW"), (4, "VERSION")]),
        block_lengths: vec![(1, 0x434), (2, 0x333E), (3, 0x30000), (4, 0x100)],
        dynamic_lengths: true,
        unerased_blocks: vec![1],
        unchecksummed_blocks: vec![1],
        checksum_kind: ChecksumKind::Haldex,
        uds_checksum_kind: UdsChecksumKind::Crc32Be,
        block_prep: BlockPrep::Raw,
        encryption_type: 0x00,
        compression_type: 0x00,
        default_stmin_us: 900,
        ..info("0CQ", 0x70F, 0x779)
    }
}

fn candidate<'a>(module: &'a FlashInfo, name: &'static str) -> Candidate<'a> {
    Candidate {
        flash_info: module,
        module_name: name,
        confidence: Confidence::Likely,
        strings: IdentStrings {
            odx_file_identifier: None,
            odx_file_version: None,
            spare_part_number: Some("8V0906259H".to_owned()),
            system_name: None,
            boot_loader_identification: None,
        },
        reason: "because".to_owned(),
    }
}

fn found<'a>(candidates: Vec<Candidate<'a>>) -> Vec<ChannelIdentification<'a>> {
    let [engine, _, _] = ident_channels();
    vec![ChannelIdentification { channel: engine, dids: HashMap::new(), candidates }]
}

fn blocks(box_code: &[u8]) -> HashMap<u8, Vec<u8>> {
    let mut cal = vec![0x20u8; 0x80];
    cal[0x23..0x2B].copy_from_slice(b"SC8F8300");
    cal[0x60..0x60 + box_code.len()].copy_from_slice(box_code);
    HashMap::from([
        (1, vec![1; 16]),
        (2, vec![2; 16]),
        (3, vec![3; 16]),
        (4, vec![4; 16]),
        (5, cal),
    ])
}

fn file(name: &str) -> ChosenFile {
    ChosenFile { path: format!("/x/{name}"), name: Some(name.to_owned()) }
}

fn picked(name: &str, box_code: &[u8]) -> Option<Picked> {
    Some(Picked { file: file(name), loaded: Ok(blocks(box_code)) })
}

fn texts(items: &[Item]) -> Vec<String> {
    items
        .iter()
        .map(|i| match i {
            Item::Text { text, .. } | Item::Hint(text) => text.clone(),
            Item::Callout { title, body } => format!("{title}: {body}"),
            Item::Choice { label, .. } | Item::Acknowledge { label, .. } => label.clone(),
            Item::Input { label, .. } => label.clone(),
            Item::File { name, .. } => name.clone(),
            Item::Gap | Item::Progress => String::new(),
            Item::Log { lines, .. } => lines.join("|"),
        })
        .collect()
}

/// A wizard that has identified an unlockable engine ECU.
fn identified(module: &FlashInfo) -> State<'_> {
    let mut s = State::new();
    assert!(matches!(s.update(Message::Next), Command::Scan(Interface::J2534 { .. })));
    assert_eq!(s.nav.busy.as_deref(), Some("Scanning the bus\u{2026}"));
    assert!(!s.can_advance());
    s.update(Message::ScanFinished(found(vec![candidate(module, "simos18")])));
    assert!(s.can_advance());
    s
}

/// A wizard on the screen that asks what to flash.
fn at_operation(module: &FlashInfo) -> State<'_> {
    let mut s = identified(module);
    assert!(matches!(s.update(Message::Next), Command::ProbeUnlock(_)));
    assert!(!s.can_advance());
    s.update(Message::UnlockProbeFinished(Ok(UnlockProbe {
        state: UnlockState::Locked,
        hardware_version_raw: Some(b"H13".to_vec()),
        hardware_version: Some("H13".to_owned()),
    })));
    assert_eq!(s.flashing.log_lines, vec!["Unlock check: Locked (H13)"]);
    s.update(Message::Next);
    assert_eq!(s.nav.step, Step::Operation);
    s
}

fn outcome(module: &FlashInfo, severity: Option<Severity>) -> PreflightOutcome {
    PreflightOutcome {
        prepared: Ok(vec![prepare_block(module, 5, &[0; 16], vec![9; 2048])]),
        notes: vec!["note".to_owned()],
        immo_before: None,
        immo_report: severity.map(|severity| ImmoReport {
            severity,
            reported_state: None,
            state: None,
            findings: vec![ImmoFinding {
                rule: ImmoRule::Lockout,
                severity,
                message: "msg".to_owned(),
                detail: "why".to_owned(),
            }],
        }),
    }
}

/// A wizard in front of the last button.
fn at_confirm(module: &FlashInfo) -> State<'_> {
    let mut s = at_operation(module);
    s.update(Message::OperationChosen(Operation::CalibrationFlash));
    s.update(Message::Next);
    assert_eq!(s.nav.step, Step::Firmware);
    s.update(Message::FirmwareSelected(picked("a.frf", b"8V0906259H")));
    match s.update(Message::Next) {
        Command::Prepare { operation, want_immo, .. } => {
            assert_eq!((operation, want_immo), (Operation::CalibrationFlash, true));
        }
        other => panic!("{other:?}"),
    }
    s.update(Message::PreflightFinished(outcome(module, Some(Severity::Okay))));
    s.update(Message::Next);
    assert_eq!(s.nav.step, Step::Confirm);
    s
}

#[test]
fn a_calibration_flash_goes_through_every_screen() {
    let module = simos18();
    let mut s = at_confirm(&module);
    let shown = texts(&view(&s));
    assert_eq!(shown[0], "Control module:  simos18");
    assert_eq!(shown[1], "Operation:       Calibration flash");
    assert_eq!(shown[2], "File:            a.frf");
    assert_eq!(shown[3], "Blocks written:  CAL");
    assert_eq!(shown[4], "Total payload:   2 KB");
    assert_eq!(nav_row(&s).next_label, "Write to the ECU");
    assert!(s.flashing.flash_op.is_none());
    s.update(Message::Next);
    assert_eq!(s.nav.step, Step::Flashing);
    let op = s.flashing.flash_op.as_ref().unwrap();
    assert_eq!((op.id, op.blocks.len(), op.opts.patch_cboot), (1, 1, false));
    assert_eq!(op.blocks[0].block_encrypted_bytes, vec![9; 2048]);
    // There is no way back from here.
    s.update(Message::Back);
    assert_eq!(s.nav.step, Step::Flashing);
    let name = || "CAL".to_owned();
    s.update(Message::FlashProgress(
        ProgressUpdate::FlashingBlock { name: name(), index: 0, total: 1 },
        String::new(),
    ));
    assert_eq!(s.flashing.progress_step, "Writing CAL (1/1)");
    assert_eq!(s.flashing.bar, Bar::Blocks(Place { index: 0, total: 1 }));
    s.update(Message::FlashProgress(
        ProgressUpdate::BlockTransferProgress { name: name(), bytes_sent: 1024, bytes_total: 2048 },
        "50".to_owned(),
    ));
    assert_eq!(s.flashing.progress_step, "Transferring CAL: 1/2 KB (50%)");
    assert_eq!(s.flashing.bar, Bar::Within { sent: 1024, of: 2048, blocks: 1 });
    s.update(Message::FlashProgress(ProgressUpdate::Complete, String::new()));
    assert_eq!((s.nav.step, s.flashing.finished_ok), (Step::Done, true));
    assert!(s.flashing.flash_op.is_none());
    assert_eq!(texts(&view(&s))[0], "The flash completed successfully.");
}

#[test]
fn a_failed_flash_is_told() {
    let module = simos18();
    let mut s = at_confirm(&module);
    s.update(Message::Next);
    s.update(Message::FlashProgress(ProgressUpdate::Error("gone".to_owned()), String::new()));
    assert_eq!((s.nav.step, s.flashing.finished_ok), (Step::Done, false));
    assert_eq!(s.nav.error.as_deref(), Some("gone"));
    assert_eq!(s.flashing.log_lines.last().unwrap(), "Flash failed: gone");
    assert!(texts(&view_heading(&s)).contains(&"Problem: gone".to_owned()));
    s.update(Message::StartOver);
    assert_eq!(s.nav.step, Step::Interface);
    assert!(s.flashing.log_lines.is_empty());
}

#[test]
fn a_scan_is_followed() {
    let module = simos18();
    let mut s = State::new();
    let [engine, gearbox, _] = ident_channels();
    s.update(Message::Next);
    s.update(Message::ScanProgress(ScanProgress::ChannelStarted {
        channel: gearbox,
        index: 1,
        total: 3,
    }));
    let waiting = s.nav.busy.clone().unwrap();
    assert!(waiting.starts_with("Probing ") && waiting.ends_with("address 2 of 3\u{2026}"));
    s.update(Message::ScanProgress(ScanProgress::ChannelSilent { channel: engine }));
    assert!(s.flashing.log_lines[0].ends_with(" did not answer"));
    s.update(Message::ScanFinished(Vec::new()));
    assert_eq!(s.nav.error.as_deref(), Some(NOTHING_ANSWERED));
    assert!(!s.can_advance());
    // Two candidates are left to the user.
    s.update(Message::ScanFinished(found(vec![
        candidate(&module, "simos18"),
        candidate(&module, "simos1810"),
    ])));
    assert!(!s.can_advance());
    s.update(Message::CandidateChosen(0, 1));
    assert_eq!(s.scan.selected().unwrap().module_name, "simos1810");
    assert!(s.can_advance());
    let items = view(&s);
    assert!(items.iter().any(|i| matches!(
        i,
        Item::Choice { pick: Pick::Candidate { channel: 0, candidate: 1 }, chosen: true, .. }
    )));
    assert_eq!(confidence_name(Confidence::Ambiguous), "Ambiguous");
}

#[test]
fn the_adapter_is_read_from_the_fields() {
    let mut s = State::new();
    assert!(matches!(
        s.adapter.interface(),
        Some(Interface::J2534 { dll: None, bitrate: 500_000, native_isotp: true })
    ));
    s.update(Message::InterfaceKindChanged(InterfaceKind::SocketCan));
    assert!(!s.can_advance());
    s.update(Message::SocketCanNameChanged(" can0 ".to_owned()));
    match s.adapter.interface() {
        Some(Interface::SocketCan(name)) => assert_eq!(name, "can0"),
        other => panic!("{other:?}"),
    }
    s.update(Message::InterfaceKindChanged(InterfaceKind::J2534));
    s.update(Message::J2534DllPathChanged("x.dll".to_owned()));
    match s.adapter.interface() {
        Some(Interface::J2534 { dll, native_isotp, .. }) => {
            assert_eq!((dll.as_deref(), native_isotp), (Some("x.dll"), false));
        }
        other => panic!("{other:?}"),
    }
    s.update(Message::InterfaceKindChanged(InterfaceKind::Panda));
    assert!(matches!(s.adapter.interface(), Some(Interface::Panda)));
    assert_eq!(s.adapter.stmin_override(), None);
    s.update(Message::StminChanged(" 300 ".to_owned()));
    assert_eq!(s.adapter.stmin_override(), Some(300));
    s.update(Message::StminChanged("x".to_owned()));
    assert_eq!(s.adapter.stmin_override(), None);
    // Starting over keeps the adapter.
    s.update(Message::StartOver);
    assert_eq!(s.adapter.interface_kind, InterfaceKind::Panda);
}

#[test]
fn only_the_right_file_unlocks() {
    let module = simos18();
    let mut s = at_operation(&module);
    s.update(Message::Back);
    assert_eq!(s.nav.step, Step::Unlock);
    assert!(matches!(s.update(Message::BrowseUnlockFile), Command::BrowseUnlockFile));
    s.update(Message::UnlockFileSelected(picked("b.frf", b"5G0906259Q")));
    let why = s.lock.unlock_file_error.clone().unwrap();
    assert!(why.starts_with("This file is for box code 5G0906259Q, but"));
    assert!(s.job.firmware.is_none());
    s.update(Message::UnlockFileSelected(picked("a.frf", b"8V0906259H")));
    assert!(s.lock.unlock_file_error.is_none());
    assert!(s.job.firmware.is_some());
    s.update(Message::Next);
    s.update(Message::OperationChosen(Operation::Unlock));
    // The file is there already, so no other is asked for.
    match s.update(Message::Next) {
        Command::Prepare { operation, want_immo, .. } => {
            assert_eq!((operation, want_immo), (Operation::Unlock, false));
        }
        other => panic!("{other:?}"),
    }
    assert_eq!(s.nav.step, Step::Preflight);
    s.update(Message::PreflightFinished(outcome(&module, None)));
    s.update(Message::Back);
    assert_eq!(s.nav.step, Step::Operation);
    // An unlock file must not become the file to flash.
    s.update(Message::OperationChosen(Operation::FullFlash));
    assert!(s.job.firmware.is_none());
    assert!(s.checks.prepared.is_none());
}

#[test]
fn a_warning_wants_an_acknowledgement() {
    let module = simos18();
    let mut s = at_operation(&module);
    s.update(Message::OperationChosen(Operation::FullFlash));
    s.update(Message::Next);
    s.update(Message::FirmwareSelected(picked("a.frf", b"8V0906259H")));
    s.update(Message::Next);
    s.update(Message::PreflightFinished(outcome(&module, Some(Severity::Warn))));
    assert!(s.checks.preflight_has_risk());
    assert!(!s.can_advance());
    let shown = texts(&view(&s));
    assert!(shown.contains(&"[WARNING] msg".to_owned()));
    s.update(Message::AcknowledgeRisk(true));
    assert!(s.can_advance());
    s.update(Message::PreflightFinished(PreflightOutcome {
        prepared: Err("bad".to_owned()),
        notes: vec![],
        immo_before: None,
        immo_report: None,
    }));
    assert!(!s.can_advance());
    assert_eq!(s.nav.error.as_deref(), Some("bad"));
    assert_eq!(severity_tag(Severity::Unknown), "UNVERIFIED");
}

#[test]
fn an_unreadable_file_is_told() {
    let module = simos18();
    let mut s = at_operation(&module);
    s.update(Message::OperationChosen(Operation::FullFlash));
    s.update(Message::Next);
    assert!(matches!(s.update(Message::BrowseFirmware), Command::BrowseFirmware));
    s.update(Message::FirmwareSelected(Some(Picked {
        file: file("a.frf"),
        loaded: Err("broken".to_owned()),
    })));
    assert_eq!(s.nav.error.as_deref(), Some("Could not read this file: broken"));
    assert!(!s.can_advance());
    assert_eq!(s.job.firmware_path.as_ref().unwrap().path, "/x/a.frf");
    s.update(Message::FirmwareSelected(picked("a.frf", b"5G0906259Q")));
    let shown = texts(&view(&s));
    assert!(shown.contains(&"Box code: 5G0906259Q".to_owned()));
    assert!(shown.contains(&"Blocks: CBOOT, ASW1, ASW2, ASW3, CAL".to_owned()));
    assert!(shown.contains(&"CAL version: SC8F8300".to_owned()));
    assert!(shown.iter().any(|t| t.starts_with("This file may be for a different ECU")));
}

#[test]
fn an_unread_lock_lets_the_wizard_go_on() {
    let module = simos18();
    let mut s = identified(&module);
    s.update(Message::Next);
    s.update(Message::UnlockProbeFinished(Err("timeout".to_owned())));
    assert_eq!(s.nav.error.as_deref(), Some("timeout"));
    assert!(!s.can_advance());
    s.update(Message::UnlockProbeFinished(Ok(UnlockProbe {
        state: UnlockState::Unknown("no answer".to_owned()),
        hardware_version_raw: None,
        hardware_version: None,
    })));
    assert!(s.can_advance());
    let shown = texts(&view(&s));
    assert!(shown.contains(&"The unlock state could not be read: no answer".to_owned()));
    // A module without an unlock patch has no such screen.
    let module = dq250();
    let mut s = identified(&module);
    s.update(Message::Next);
    assert_eq!(s.nav.step, Step::Operation);
    s.update(Message::Back);
    assert_eq!(s.nav.step, Step::Identify);
}

#[test]
fn files_are_inspected() {
    let module = simos18();
    let info = inspect_firmware(file("a.frf"), blocks(b"8V0906259H"), &module).unwrap();
    assert_eq!(info.box_code.as_deref(), Some("8V0906259H"));
    assert_eq!(info.versions, vec![("CAL".to_owned(), "SC8F8300".to_owned())]);
    assert_eq!(info.block_names(&module), vec!["CBOOT", "ASW1", "ASW2", "ASW3", "CAL"]);
    assert_eq!(
        inspect_firmware(file("a.frf"), HashMap::new(), &module).err().as_deref(),
        Some(NO_BLOCKS)
    );
    assert!(validate_unlock_file(&module, &info).is_ok());
    assert_eq!(validate_unlock_file(&dq250(), &info), Err(NO_UNLOCK.to_owned()));
    let blank = inspect_firmware(file("a"), blocks(&[]), &module).unwrap();
    assert_eq!(blank.box_code, None);
    assert_eq!(validate_unlock_file(&module, &blank), Err(NO_BOX_CODE.to_owned()));
    assert_eq!(required_unlock_box_code(&module), Some("8V0906259H__0001"));
    assert_eq!(part_number("8V0906259H__0001"), "8V0906259H");
    assert_eq!(trim_field("  "), None);
    assert_eq!(trim_field(" a "), Some("a".to_owned()));
    assert!(immo_check_applies(&module, &info, Operation::FullFlash));
    assert!(!immo_check_applies(&module, &info, Operation::Unlock));
}

#[test]
fn every_operation_writes_its_parts() {
    let module = simos18();
    let all = blocks(b"8V0906259H");
    assert_eq!(
        choose_parts(&module, &all, Operation::CalibrationFlash),
        Ok(vec![Part::Block(5)])
    );
    let full: Vec<Part> = (1..=5).map(Part::Block).collect();
    assert_eq!(choose_parts(&module, &all, Operation::FullFlash), Ok(full.clone()));
    assert_eq!(choose_parts(&module, &all, Operation::Relock), Ok(full));
    let unlock = choose_parts(&module, &all, Operation::Unlock).unwrap();
    assert_eq!(unlock.first(), Some(&Part::Block(1)));
    assert_eq!(unlock.last(), Some(&Part::Block(5)));
    assert!(unlock.iter().any(|p| matches!(p, Part::Patch(_))));
    let mut some = all.clone();
    some.remove(&3);
    assert_eq!(
        choose_parts(&module, &some, Operation::Unlock),
        Err("The file is missing block 3.".to_owned())
    );
    some.remove(&5);
    assert_eq!(
        choose_parts(&module, &some, Operation::CalibrationFlash),
        Err(NO_CAL_BLOCK.to_owned())
    );
    let nameless = info("X", 1, 2);
    assert_eq!(
        choose_parts(&nameless, &all, Operation::CalibrationFlash),
        Err(NO_CAL_NAME.to_owned())
    );
    assert_eq!(choose_parts(&dq250(), &all, Operation::Unlock), Err(NO_PATCH.to_owned()));
    let mut no_cal = all.clone();
    no_cal.remove(&5);
    assert_eq!(
        choose_parts(&module, &no_cal, Operation::Unlock),
        Err(MISSING_CAL.to_owned())
    );
}

#[test]
fn a_relock_needs_a_bootloader() {
    let module = dq250();
    let mut all = HashMap::from([(2u8, vec![1u8; 16]), (3, vec![2; 16]), (4, vec![3; 16])]);
    let (parts, notes) =
        correct_blocks("", &module, &mut all, Operation::Relock, &Vec::new());
    assert_eq!(parts, Err(NO_BOOTLOADER.to_owned()));
    assert!(notes.is_empty());
    let (parts, _) = correct_blocks("", &module, &mut all, Operation::FullFlash, &Vec::new());
    assert_eq!(parts, Ok(vec![Part::Block(2), Part::Block(3), Part::Block(4)]));
    let b = prepare_part(&module, &all, Part::Block(4), vec![1, 2]);
    assert_eq!((b.block_number, b.block_name.as_str()), (4, "CAL"));
    assert_eq!(b.block_encrypted_bytes, vec![1, 2]);
    assert_eq!(prepared_note(3), "3 block(s) prepared");
}

#[test]
fn findings_after_a_flash_are_described() {
    assert_eq!(describe_after(&None), vec![UNREAD_AFTER]);
    let f = ImmoFinding {
        rule: ImmoRule::PostFlashChange,
        severity: Severity::Warn,
        message: "m".to_owned(),
        detail: "d".to_owned(),
    };
    assert_eq!(describe_after(&Some(vec![f])), vec!["m \u{2014} d"]);
    let module = simos18();
    let mut s = at_confirm(&module);
    s.update(Message::Next);
    s.update(Message::FlashProgress(ProgressUpdate::Complete, String::new()));
    s.update(Message::PostFlashChecked(vec!["m".to_owned()]));
    assert!(texts(&view(&s)).contains(&"Immobilizer, after the flash".to_owned()));
}
