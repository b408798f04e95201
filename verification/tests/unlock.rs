//! Whether an ECU is locked, by what its bootloader reports.

#![allow(dead_code)]

use mqb_flash::uds::{Action, FaultKind, FlashError, Reply, UdsFault};
use mqb_flash::unlock::{
    classify_hardware_version, leave_bootloader, probe_next, probe_unlock_state, supports_unlock,
    ProbeTurn, UnlockProbe, UnlockState, DID_HARDWARE_VERSION,
};
use mqb_flash::module::{
    BlockPrep, ChecksumKind, ControlModuleIdentifier, FlashInfo, PatchInfo, UdsChecksumKind,
};

fn info(project: &str, txid: u32, rxid: u32) -> FlashInfo {
    FlashInfo {
        project_name: project.to_owned(),
        control_module_identifier: ControlModuleIdentifier { txid, rxid },
        block_names: Vec::new(),
        block_names_frf: Vec::new(),
        binfile_offsets: Vec::new(),
        binfile_size: 0,
        block_lengths: Vec::new(),
        dynamic_lengths: false,
        software_version_locations: Vec::new(),
        box_code_locations: Vec::new(),
        checksum_block_locations: Vec::new(),
        base_addresses: Vec::new(),
        block_identifiers: Vec::new(),
        block_transfer_sizes: Vec::new(),
        block_checksums: Vec::new(),
        unerased_blocks: Vec::new(),
        unchecksummed_blocks: Vec::new(),
        checksum_kind: ChecksumKind::Simos,
        uds_checksum_kind: UdsChecksumKind::Static,
        block_prep: BlockPrep::LzssAesBlock,
        encryption_type: 0x0A,
        compression_type: 0x0A,
        default_stmin_us: 400,
        patch_info: None,
    }
}

fn named(names: &[(u8, &str)]) -> Vec<(u8, String)> {
    names.iter().map(|(n, s)| (*n, (*s).to_owned())).collect()
}

fn simos(project: &str, box_code: &str) -> FlashInfo {
    let names = named(&[(1, "CBOOT"), (2, "ASW1"), (3, "ASW2"), (4, "ASW3"), (5, "CAL")]);
    FlashInfo {
        block_names: names.clone(),
        block_names_frf: names,
        block_lengths: vec![(1, 0x23E00), (2, 0xFFC00), (3, 0xBFC00), (4, 0x7FC00), (5, 0x7FC00)],
        software_version_locations: vec![(5, (0x23, 0x2B))],
        box_code_locations: vec![(5, (0x60, 0x6B))],
        block_identifiers: vec![(1, 1), (2, 2), (3, 3), (4, 4), (5, 5)],
        block_transfer_sizes: vec![(1, 0xFFD), (2, 0xFFD), (3, 0xFFD), (4, 0xFFD), (5, 0xFFD), (9, 0x8)],
        block_checksums: vec![(1, [0; 4]), (2, [0; 4]), (3, [0; 4]), (4, [0; 4]), (5, [0; 4])],
        patch_info: Some(PatchInfo {
            patch_box_code: box_code.to_owned(),
            patch_block_index: 4,
            patch_bytes: vec![0xAB; 64],
        }),
        ..info(project, 0x7E0, 0x7E8)
    }
}

fn simos18() -> FlashInfo {
    simos("SC8", "8V0906259H__0001")
}

fn dq250() -> FlashInfo {
    FlashInfo {
        block_names: named(&[(2, "DRIVER"), (3, "ASW"), (4, "CAL")]),
        unerased_blocks: vec![2],
        unchecksummed_blocks: vec![2],
        checksum_kind: ChecksumKind::Dsg,
        block_prep: BlockPrep::LzssNone,
        encryption_type: 0x01,
        compression_type: 0x01,
        default_stmin_us: 900,
        ..info("F", 0x7E1, 0x7E9)
    }
}

fn dq381() -> FlashInfo {
    FlashInfo {
        block_names: named(&[(1, "DRIVER"), (2, "ASW"), (3, "CAL")]),
        checksum_kind: ChecksumKind::Dq381,
        uds_checksum_kind: UdsChecksumKind::Crc32Be,
        block_prep: BlockPrep::LzssExact,
        default_stmin_us: 900,
        ..info("F", 0x7E1, 0x7E9)
    }
}

fn haldex() -> FlashInfo {
    FlashInfo {
        block_names: named(&[(1, "DRIVER"), (2, "CAL"), (3, "ASW"), (4, "VERSION")]),
        block_lengths: vec![(1, 0x434), (2, 0x333E), (3, 0x30000), (4, 0x100)],
        dynamic_lengths: true,
        unerased_blocks: vec![1],
        unchecksummed_blocks: vec![1],
        checksum_kind: ChecksumKind::Haldex,
        uds_checksum_kind: UdsChecksumKind::Crc32Be,
        block_prep: BlockPrep::Raw,
        encryption_type: 0x00,
        compression_type: 0x00,
        default_stmin_us: 900,
        ..info("0CQ", 0x70F, 0x779)
    }
}


/// The exact bytes captured from hardware, both states.
/// `full_flash_log/filtered.txt`: `62 f1 a3 48 31 33` and `62 f1 a3 58 31 33`.
#[test]
fn classifies_the_real_captured_values() {
    assert_eq!(classify_hardware_version(b"H13"), UnlockState::Locked);
    assert_eq!(classify_hardware_version(b"X13"), UnlockState::Unlocked);
    // As they arrive on the wire, from the capture.
    assert_eq!(
        classify_hardware_version(&[0x48, 0x31, 0x33]),
        UnlockState::Locked
    );
    assert_eq!(
        classify_hardware_version(&[0x58, 0x31, 0x33]),
        UnlockState::Unlocked
    );
}

/// Only the X prefix is the marker — other revisions are stock, not unknown.
#[test]
fn other_revisions_read_as_locked() {
    for v in [&b"H13"[..], b"J13", b"H01", b"K22"] {
        assert_eq!(classify_hardware_version(v), UnlockState::Locked, "{v:?}");
    }
}

/// An unreadable answer must never be reported as Locked — telling a user
/// their unlocked ECU is locked would send them to re-flash the unlock.
#[test]
fn unreadable_answers_are_unknown_not_locked() {
    assert!(matches!(
        classify_hardware_version(b""),
        UnlockState::Unknown(_)
    ));
    assert!(matches!(
        classify_hardware_version(&[0x00]),
        UnlockState::Unknown(_)
    ));
}

/// The prefix check must be anchored at the start, not a substring search.
#[test]
fn x_elsewhere_in_the_string_is_not_an_unlock() {
    assert_eq!(classify_hardware_version(b"H1X"), UnlockState::Locked);
    assert_eq!(classify_hardware_version(b"HX3"), UnlockState::Locked);
}

#[test]
fn unlock_only_applies_to_modules_with_a_patch() {
    assert!(supports_unlock(&simos18()));
    assert!(!supports_unlock(&dq250()));
    assert!(!supports_unlock(&haldex()));
}

fn fault(kind: FaultKind) -> Reply {
    Reply::Fault(UdsFault { kind, text: "no".to_owned() })
}

/// Run a probe, with one action answered differently.
fn probed(odd: impl Fn(&Action) -> Option<Reply>) -> Result<UnlockProbe, FlashError> {
    let mut turn = probe_unlock_state(&simos18());
    loop {
        turn = match turn {
            ProbeTurn::Do(stage, action) => {
                let reply = odd(&action).unwrap_or(match action {
                    Action::ReadDid(DID_HARDWARE_VERSION) => Reply::Data(b"X13 ".to_vec()),
                    _ => Reply::Done,
                });
                probe_next(stage, &reply)
            }
            ProbeTurn::Found(probe) => return Ok(probe),
            ProbeTurn::Failed(e) => return Err(e),
        };
    }
}

#[test]
fn a_probe_enters_the_bootloader_and_reads_the_version() {
    let probe = probed(|_| None).unwrap();
    assert_eq!(probe.state, UnlockState::Unlocked);
    assert_eq!(probe.hardware_version.as_deref(), Some("X13"));
    assert_eq!(probe.hardware_version_raw.as_deref(), Some(&b"X13 "[..]));
    match probe_unlock_state(&haldex()) {
        ProbeTurn::Found(p) => assert!(matches!(p.state, UnlockState::Unknown(_))),
        other => panic!("{other:?}"),
    }
}

#[test]
fn what_could_not_be_told_is_unknown() {
    let probe = probed(|a| match a {
        Action::Routine(_, _) => Some(fault(FaultKind::Negative)),
        _ => None,
    });
    assert_eq!(
        probe.unwrap().state,
        UnlockState::Unknown(
            "the ECU refused the programming precondition check (no); it will not enter the \
             bootloader (engine running, or voltage out of range?)"
                .to_owned()
        )
    );
    let probe = probed(|a| match a {
        Action::Session(0x02) => Some(fault(FaultKind::Timeout)),
        _ => None,
    });
    assert!(matches!(probe.unwrap().state, UnlockState::Unknown(_)));
    let probe = probed(|a| match a {
        Action::ReadDid(_) => Some(fault(FaultKind::Timeout)),
        _ => None,
    });
    assert!(matches!(probe.unwrap().state, UnlockState::Unknown(_)));
    let lost = probed(|a| match a {
        Action::TesterPresent => Some(fault(FaultKind::Timeout)),
        _ => None,
    });
    assert!(matches!(lost, Err(FlashError::Timeout)));
    // A refusal is no failure of the transport, whatever it refuses.
    let probe = probed(|a| match a {
        Action::Session(0x03) => Some(fault(FaultKind::Negative)),
        _ => None,
    });
    assert_eq!(
        probe.unwrap().state,
        UnlockState::Unknown(
            "the ECU refused the extended session (no), so its unlock state cannot be read"
                .to_owned()
        )
    );
    let probe = probed(|a| match a {
        Action::TesterPresent => Some(fault(FaultKind::Negative)),
        _ => None,
    });
    assert!(matches!(probe.unwrap().state, UnlockState::Unknown(_)));
    let lost = probed(|a| match a {
        Action::Session(0x03) => Some(fault(FaultKind::Other)),
        _ => None,
    });
    assert!(lost.is_err());
}

#[test]
fn ill_formed_versions_are_shown_as_they_can_be() {
    assert_eq!(
        classify_hardware_version(&[0x01, b'A']),
        UnlockState::Unknown(
            "hardware version starts with a non-printable byte 0x01 (read: \"\\u{1}A\")".to_owned()
        )
    );
    let probe = probed(|a| match a {
        Action::ReadDid(_) => Some(Reply::Data(vec![b'H', 0xFF])),
        _ => None,
    });
    assert_eq!(probe.unwrap().hardware_version.as_deref(), Some("H\u{FFFD}"));
}

#[test]
fn a_silent_reset_leaves_the_bootloader() {
    assert!(leave_bootloader(&Reply::Done).is_ok());
    assert!(leave_bootloader(&fault(FaultKind::Timeout)).is_ok());
    assert!(leave_bootloader(&fault(FaultKind::Negative)).is_err());
}
