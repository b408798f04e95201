//! The immobilizer rules on captured readings.

#![allow(dead_code)]

use std::collections::HashMap;

use mqb_flash::immo::{
    assess, decode_2ed, decode_2ee, decode_2ff, diff_after_flash, lock_status, resolve_state,
    tuning_status, unquantize, ImmoRule, ImmoSnapshot, ImmoState, ImmoSupport, LockStatus, Severity,
    TuningStatus, DID_EXTENDED, DID_LOCKOUT, DID_STATE, DID_STATUS_BITS,
};
use mqb_flash::module::{
    BlockPrep, ChecksumKind, ControlModuleIdentifier, FlashInfo, PatchInfo, UdsChecksumKind,
};

fn info(project: &str, txid: u32, rxid: u32) -> FlashInfo {
    FlashInfo {
        project_name: project.to_owned(),
        control_module_identifier: ControlModuleIdentifier { txid, rxid },
        block_names: Vec::new(),
        block_names_frf: Vec::new(),
        binfile_offsets: Vec::new(),
        binfile_size: 0,
        block_lengths: Vec::new(),
        dynamic_lengths: false,
        software_version_locations: Vec::new(),
        box_code_locations: Vec::new(),
        checksum_block_locations: Vec::new(),
        base_addresses: Vec::new(),
        block_identifiers: Vec::new(),
        block_transfer_sizes: Vec::new(),
        block_checksums: Vec::new(),
        unerased_blocks: Vec::new(),
        unchecksummed_blocks: Vec::new(),
        checksum_kind: ChecksumKind::Simos,
        uds_checksum_kind: UdsChecksumKind::Static,
        block_prep: BlockPrep::LzssAesBlock,
        encryption_type: 0x0A,
        compression_type: 0x0A,
        default_stmin_us: 400,
        patch_info: None,
    }
}

fn named(names: &[(u8, &str)]) -> Vec<(u8, String)> {
    names.iter().map(|(n, s)| (*n, (*s).to_owned())).collect()
}

fn simos(project: &str, box_code: &str) -> FlashInfo {
    let names = named(&[(1, "CBOOT"), (2, "ASW1"), (3, "ASW2"), (4, "ASW3"), (5, "CAL")]);
    FlashInfo {
        block_names: names.clone(),
        block_names_frf: names,
        block_lengths: vec![(1, 0x23E00), (2, 0xFFC00), (3, 0xBFC00), (4, 0x7FC00), (5, 0x7FC00)],
        software_version_locations: vec![(5, (0x23, 0x2B))],
        box_code_locations: vec![(5, (0x60, 0x6B))],
        block_identifiers: vec![(1, 1), (2, 2), (3, 3), (4, 4), (5, 5)],
        block_transfer_sizes: vec![(1, 0xFFD), (2, 0xFFD), (3, 0xFFD), (4, 0xFFD), (5, 0xFFD), (9, 0x8)],
        block_checksums: vec![(1, [0; 4]), (2, [0; 4]), (3, [0; 4]), (4, [0; 4]), (5, [0; 4])],
        patch_info: Some(PatchInfo {
            patch_box_code: box_code.to_owned(),
            patch_block_index: 4,
            patch_bytes: vec![0xAB; 64],
        }),
        ..info(project, 0x7E0, 0x7E8)
    }
}

fn simos18() -> FlashInfo {
    simos("SC8", "8V0906259H__0001")
}

fn dq250() -> FlashInfo {
    FlashInfo {
        block_names: named(&[(2, "DRIVER"), (3, "ASW"), (4, "CAL")]),
        unerased_blocks: vec![2],
        unchecksummed_blocks: vec![2],
        checksum_kind: ChecksumKind::Dsg,
        block_prep: BlockPrep::LzssNone,
        encryption_type: 0x01,
        compression_type: 0x01,
        default_stmin_us: 900,
        ..info("F", 0x7E1, 0x7E9)
    }
}

fn dq381() -> FlashInfo {
    FlashInfo {
        block_names: named(&[(1, "DRIVER"), (2, "ASW"), (3, "CAL")]),
        checksum_kind: ChecksumKind::Dq381,
        uds_checksum_kind: UdsChecksumKind::Crc32Be,
        block_prep: BlockPrep::LzssExact,
        default_stmin_us: 900,
        ..info("F", 0x7E1, 0x7E9)
    }
}

fn haldex() -> FlashInfo {
    FlashInfo {
        block_names: named(&[(1, "DRIVER"), (2, "CAL"), (3, "ASW"), (4, "VERSION")]),
        block_lengths: vec![(1, 0x434), (2, 0x333E), (3, 0x30000), (4, 0x100)],
        dynamic_lengths: true,
        unerased_blocks: vec![1],
        unchecksummed_blocks: vec![1],
        checksum_kind: ChecksumKind::Haldex,
        uds_checksum_kind: UdsChecksumKind::Crc32Be,
        block_prep: BlockPrep::Raw,
        encryption_type: 0x00,
        compression_type: 0x00,
        default_stmin_us: 900,
        ..info("0CQ", 0x70F, 0x779)
    }
}


fn support() -> ImmoSupport {
    ImmoSupport::for_module(&simos18()).expect("Simos18 is supported")
}

fn snapshot(entries: &[(u16, Vec<u8>)]) -> ImmoSnapshot {
    let map: HashMap<u16, Vec<u8>> = entries.iter().cloned().collect();
    ImmoSnapshot::from_dids(support(), map)
}

/// DID 0x2ED with the given stStatFct.
fn p2ed(st: u8) -> Vec<u8> {
    let mut v = vec![0u8; 10];
    v[0] = st;
    v[1] = 0x11; // ctDatBasFazit
    v[2] = 0x22; // idxLab
    v
}

/// DID 0x2EE with the given bytes 0 and 1; the rest are padding.
fn p2ee(b0: u8, b1: u8) -> Vec<u8> {
    let mut v = vec![0u8; 10];
    v[0] = b0;
    v[1] = b1;
    v
}

/// DID 0x2FF with the given idxTun and allow-list.
fn p2ff(marker: u8, idx_tun: u8, allow: [u8; 5], last_error: u8) -> Vec<u8> {
    let mut v = vec![0u8; 19];
    v[0] = marker;
    v[7] = 0x05; // ctAuthLos
    v[8] = 0x05; // ctWrAccNvm
    v[9] = idx_tun;
    v[10..15].copy_from_slice(&allow);
    v[15..18].copy_from_slice(&[0x08, 0x02, 0x00]);
    v[18] = last_error;
    v
}

/// A reported state of 2 is ambiguous by design — the ECU forces 3, 4 and
/// 'B' to report as 2, and only DID 0x2EE tells them apart. Without 0x2EE
/// the report must not claim the ECU is adapted and healthy.
#[test]
fn state_2_without_0x2ee_is_not_reported_as_healthy() {
    let snap = snapshot(&[
        (0x2ED, p2ed(2)),
        // 0x2EE deliberately absent.
        (0x2FF, p2ff(0x53, 0x6A, [0x6A, 0, 0, 0, 0], 0)),
    ]);
    let report = assess(&snap);

    assert_ne!(
        report.state,
        Some(ImmoState::Adapted),
        "state must not resolve to Adapted without the DID that proves it"
    );

    let hidden: Vec<_> = report
        .findings
        .iter()
        .filter(|f| f.rule == ImmoRule::HiddenState)
        .collect();
    assert_eq!(hidden.len(), 1);
    assert_eq!(hidden[0].severity, Severity::Unknown);
    for f in &report.findings {
        assert!(
            !f.message.contains("adapted and healthy"),
            "must not claim health on the strength of an unread DID: {}",
            f.message
        );
    }
}

/// An ECU that already failed the tuning interlock before we touched it
/// must not have that pre-existing condition attributed to the flash.
#[test]
fn pre_existing_tuning_violation_is_not_blamed_on_the_flash() {
    let bad = p2ff(0x53, 0x88, [0x42, 0x43, 0x00, 0x45, 0x44], 0);
    let before = snapshot(&[
        (0x2ED, p2ed(2)),
        (0x2EE, p2ee(0x04, 0xFC)),
        (0x2FF, bad.clone()),
    ]);
    let after = snapshot(&[(0x2ED, p2ed(2)), (0x2EE, p2ee(0x04, 0xFC)), (0x2FF, bad)]);

    let findings = diff_after_flash(&before, &after);
    assert!(
        findings
            .iter()
            .all(|f| !f.message.contains("no longer in the allow-list")),
        "unchanged snapshots must produce no post-flash membership finding: {findings:#?}"
    );

    // But a membership that really was lost across the flash still reports.
    let good = p2ff(0x53, 0x6A, [0x6A, 0, 0, 0, 0], 0);
    let lost = p2ff(0x53, 0x6A, [0x42, 0x43, 0x00, 0x45, 0x44], 0);
    let before_ok = snapshot(&[(0x2ED, p2ed(2)), (0x2EE, p2ee(0x04, 0xFC)), (0x2FF, good)]);
    let after_bad = snapshot(&[(0x2ED, p2ed(2)), (0x2EE, p2ee(0x04, 0xFC)), (0x2FF, lost)]);
    let findings = diff_after_flash(&before_ok, &after_bad);
    assert!(
        findings
            .iter()
            .any(|f| f.message.contains("no longer in the allow-list")),
        "a genuinely lost membership must still be reported: {findings:#?}"
    );
}

/// The healthy reference ECU: adapted, released, idxTun 0x6A allowed.
fn healthy() -> ImmoSnapshot {
    snapshot(&[
        (DID_STATE, p2ed(2)),
        (DID_STATUS_BITS, p2ee(0x04, 0xFC)),
        (DID_LOCKOUT, vec![0u8; 6]),
        (
            DID_EXTENDED,
            p2ff(0x53, 0x6A, [0x6A, 0x00, 0x00, 0x00, 0x00], 0x00),
        ),
    ])
}

#[test]
fn only_simos18_is_supported() {
    assert!(ImmoSupport::for_module(&simos18()).is_some());
    assert!(ImmoSupport::for_module(&dq250()).is_none());
}

#[test]
fn healthy_reference_ecu_has_no_risk() {
    let report = assess(&healthy());
    assert_eq!(
        report.severity,
        Severity::Okay,
        "findings: {:?}",
        report.findings
    );
    assert!(!report.has_risk());
    assert_eq!(report.state, Some(ImmoState::Adapted));
    assert_eq!(report.reported_state, Some(2));
}

#[test]
fn healthy_reference_bits_decode() {
    // 0x04 / 0xFC is the documented fully-healthy released reading.
    let bits = decode_2ee(&p2ee(0x04, 0xFC)).unwrap();
    assert!(bits.ignition_on);
    assert!(bits.st_not_3);
    assert!(bits.st_is_2);
    assert!(bits.b_mst_resp_rx);
    assert!(bits.b_mst_cks_vld);
    assert!(bits.b_mst_key_vld);
    // Bit 0x04 is set in 0xFC, and it is inverted: NOT inhibited.
    assert!(!bits.b_inh_acs_mem);
    assert_eq!(lock_status(&bits), LockStatus::MasterVerified);
}

#[test]
fn idx_tun_outside_allow_list_is_a_tuning_risk() {
    let snap = snapshot(&[
        (DID_STATE, p2ed(2)),
        (DID_STATUS_BITS, p2ee(0x04, 0xFC)),
        (
            DID_EXTENDED,
            p2ff(0x53, 0x88, [0x42, 0x43, 0x00, 0x45, 0x44], 0x00),
        ),
    ]);
    let ext = decode_2ff(snap.raw(DID_EXTENDED).unwrap()).unwrap();
    assert_eq!(tuning_status(&ext), TuningStatus::NotAllowed);

    let report = assess(&snap);
    assert_eq!(report.severity, Severity::Warn);
    let f = report
        .findings
        .iter()
        .find(|f| f.rule == ImmoRule::TuningInterlock)
        .expect("R2 finding");
    assert_eq!(f.severity, Severity::Warn);
    assert!(f.message.contains("0x88"));
    assert!(f.detail.contains("noKeySecu"));
}

#[test]
fn all_zero_allow_list_is_a_tuning_risk() {
    let snap = snapshot(&[
        (DID_STATE, p2ed(2)),
        (DID_STATUS_BITS, p2ee(0x04, 0xFC)),
        (DID_EXTENDED, p2ff(0x53, 0x00, [0; 5], 0x00)),
    ]);
    let ext = decode_2ff(snap.raw(DID_EXTENDED).unwrap()).unwrap();
    assert_eq!(tuning_status(&ext), TuningStatus::AllowListEmpty);

    let report = assess(&snap);
    assert!(report.has_risk());
    assert!(report
        .findings
        .iter()
        .any(|f| f.rule == ImmoRule::TuningInterlock && f.severity == Severity::Warn));
}

#[test]
fn dead_states_zeroing_idx_tun_do_not_report_a_tuning_violation() {
    // In state 0x58 the ECU has already zeroed idxTun, so
    // the all-zero reading is expected and R3 is the right finding.
    let snap = snapshot(&[
        (DID_STATE, p2ed(0x58)),
        (DID_STATUS_BITS, p2ee(0x04, 0x3C)),
        (DID_EXTENDED, p2ff(0x41, 0x00, [0; 5], 0x00)),
    ]);
    let report = assess(&snap);
    assert!(report.has_risk());
    assert!(
        !report
            .findings
            .iter()
            .any(|f| f.rule == ImmoRule::TuningInterlock),
        "R2 must be suppressed in the idxTun-zeroing states"
    );
    let dead = report
        .findings
        .iter()
        .find(|f| f.rule == ImmoRule::DeadState)
        .expect("R3 finding");
    assert_eq!(dead.severity, Severity::Warn);
    assert!(dead.message.contains("0x58"));
    // 0x2FF byte 0 = 0x41 'A' corroborates the hardware-sample lock.
    assert!(dead.detail.contains("0x41"));
    assert_eq!(report.state, Some(ImmoState::HardwareSampleLock));
}

#[test]
fn not_adapted_state_is_reported() {
    let snap = snapshot(&[
        (DID_STATE, p2ed(1)),
        (DID_STATUS_BITS, p2ee(0x04, 0xBC)),
        (DID_EXTENDED, p2ff(0x53, 0x00, [0; 5], 0x00)),
    ]);
    let report = assess(&snap);
    assert!(report
        .findings
        .iter()
        .any(|f| f.rule == ImmoRule::NotAdapted && f.severity == Severity::Warn));
    assert!(!report
        .findings
        .iter()
        .any(|f| f.rule == ImmoRule::TuningInterlock));
}

#[test]
fn missing_extended_did_is_unknown_not_risk() {
    let snap = snapshot(&[
        (DID_STATE, p2ed(2)),
        (DID_STATUS_BITS, p2ee(0x04, 0xFC)),
        (DID_LOCKOUT, vec![0u8; 6]),
    ]);
    let report = assess(&snap);
    assert_eq!(report.severity, Severity::Unknown);
    assert!(
        !report.has_risk(),
        "fail-open: missing DIDs are never a risk"
    );
    let f = report
        .findings
        .iter()
        .find(|f| f.rule == ImmoRule::Unavailable)
        .expect("unavailable finding");
    assert_eq!(f.severity, Severity::Unknown);
    assert!(f.message.contains("0x02FF"));
}

#[test]
fn no_dids_at_all_is_unknown_not_risk() {
    let report = assess(&snapshot(&[]));
    assert_eq!(report.severity, Severity::Unknown);
    assert!(!report.has_risk());
    assert_eq!(report.state, None);
}

#[test]
fn hidden_state_resolution() {
    let st = decode_2ed(&p2ed(2)).unwrap();

    // 0x40 set -> really 2.
    let bits = decode_2ee(&p2ee(0x04, 0xFC)).unwrap();
    assert_eq!(
        resolve_state(&st, &bits, Some(TuningStatus::Okay)),
        Some(ImmoState::Adapted)
    );

    // 0x80 clear (and 0x40 clear, since the 0x40 test comes first) -> really 3.
    let bits = decode_2ee(&p2ee(0x04, 0x3C)).unwrap();
    assert_eq!(
        resolve_state(&st, &bits, Some(TuningStatus::Okay)),
        Some(ImmoState::HardwareSampleAdapted)
    );

    // 0x80 set, 0x40 clear, membership fails -> really 'B'.
    let bits = decode_2ee(&p2ee(0x04, 0xBC)).unwrap();
    assert_eq!(
        resolve_state(&st, &bits, Some(TuningStatus::NotAllowed)),
        Some(ImmoState::TuningCheckFailed)
    );

    // 0x80 set, 0x40 clear, membership OK -> really 4.
    assert_eq!(
        resolve_state(&st, &bits, Some(TuningStatus::Okay)),
        Some(ImmoState::AdaptationMode)
    );

    // Without DID 0x2FF the last two cases cannot be told apart.
    assert_eq!(resolve_state(&st, &bits, None), None);
}

#[test]
fn hidden_tuning_lock_is_reported_as_b() {
    let snap = snapshot(&[
        (DID_STATE, p2ed(2)),
        (DID_STATUS_BITS, p2ee(0x04, 0xBC)),
        (
            DID_EXTENDED,
            p2ff(0x53, 0x88, [0x42, 0x43, 0x00, 0x45, 0x44], 0x00),
        ),
    ]);
    let report = assess(&snap);
    assert_eq!(report.state, Some(ImmoState::TuningCheckFailed));
    let f = report
        .findings
        .iter()
        .find(|f| f.rule == ImmoRule::HiddenState)
        .expect("R5 finding");
    assert_eq!(f.severity, Severity::Warn);
    assert!(f.detail.contains("0x04/0x80"));
}

#[test]
fn lock_ladder_order() {
    // Ignition off, but both validity bits set -> still "master verified":
    // the released test comes first.
    let bits = decode_2ee(&p2ee(0x00, 0x18)).unwrap();
    assert_eq!(lock_status(&bits), LockStatus::MasterVerified);
    // Ignition off with nothing else set.
    let bits = decode_2ee(&p2ee(0x00, 0xE0)).unwrap();
    assert_eq!(lock_status(&bits), LockStatus::IgnitionOff);
    // Ignition on, no master reply.
    let bits = decode_2ee(&p2ee(0x04, 0xC0)).unwrap();
    assert_eq!(lock_status(&bits), LockStatus::NoMasterReply);
    // Master replied, CrcMaster rejected.
    let bits = decode_2ee(&p2ee(0x04, 0xE0)).unwrap();
    assert_eq!(lock_status(&bits), LockStatus::CrcMasterRejected);
    // CrcMaster accepted, PIN rejected.
    let bits = decode_2ee(&p2ee(0x04, 0xF0)).unwrap();
    assert_eq!(lock_status(&bits), LockStatus::PinRejected);
}

#[test]
fn released_wording_avoids_claiming_the_immobilizer_is_released() {
    let report = assess(&healthy());
    let f = report
        .findings
        .iter()
        .find(|f| f.rule == ImmoRule::LockState)
        .expect("R6 finding");
    assert_eq!(f.severity, Severity::Okay);
    assert!(f
        .message
        .contains("verified the cluster's CrcMaster and PIN"));
    assert!(!f.message.to_lowercase().contains("immobilizer is released"));
}

#[test]
fn inhibited_memory_access_is_informational_only() {
    // Byte 1 bit 0x04 clear -> bInhAcsMem true (inverted bit).
    let snap = snapshot(&[
        (DID_STATE, p2ed(2)),
        (DID_STATUS_BITS, p2ee(0x04, 0xF8)),
        (
            DID_EXTENDED,
            p2ff(0x53, 0x6A, [0x6A, 0x00, 0x00, 0x00, 0x00], 0x00),
        ),
    ]);
    let report = assess(&snap);
    let f = report
        .findings
        .iter()
        .find(|f| f.rule == ImmoRule::MemoryAccess)
        .expect("bInhAcsMem finding");
    assert_eq!(f.severity, Severity::Okay);
    assert!(f.message.contains("UDS 0x23"));
    assert!(!report.has_risk());
}

#[test]
fn lockout_timers_are_reported() {
    let mut lockout = vec![0u8; 6];
    lockout[0] = 12;
    lockout[1] = 3;
    let snap = snapshot(&[
        (DID_STATE, p2ed(2)),
        (DID_STATUS_BITS, p2ee(0x04, 0xFC)),
        (DID_LOCKOUT, lockout),
        (
            DID_EXTENDED,
            p2ff(0x53, 0x6A, [0x6A, 0x00, 0x00, 0x00, 0x00], 0x00),
        ),
    ]);
    let report = assess(&snap);
    let msgs: Vec<_> = report
        .findings
        .iter()
        .filter(|f| f.rule == ImmoRule::Lockout)
        .collect();
    assert_eq!(msgs.len(), 2);
    assert!(msgs[0].message.contains("12 minute"));
    assert!(msgs[1].message.contains("3 minute"));
}

#[test]
fn last_error_is_unknown_severity_with_the_raw_code() {
    let snap = snapshot(&[
        (DID_STATE, p2ed(2)),
        (DID_STATUS_BITS, p2ee(0x04, 0xFC)),
        (
            DID_EXTENDED,
            p2ff(0x53, 0x6A, [0x6A, 0x00, 0x00, 0x00, 0x00], 0x37),
        ),
    ]);
    let report = assess(&snap);
    let f = report
        .findings
        .iter()
        .find(|f| f.rule == ImmoRule::LastError)
        .expect("R8 finding");
    assert_eq!(f.severity, Severity::Unknown);
    assert!(f.message.contains("0x37"));
}

#[test]
fn extended_did_field_decode() {
    let ext = decode_2ff(&p2ff(0x53, 0x6A, [0x6A, 0, 0, 0, 0], 0)).unwrap();
    assert_eq!(ext.marker, 0x53);
    assert!(!ext.is_hardware_sample());
    assert_eq!(ext.idx_tun, 0x6A);
    assert_eq!(ext.str_var_tun, [0x6A, 0, 0, 0, 0]);
    assert_eq!(ext.version_string(), "8.2.0");
    assert_eq!(ext.last_error, 0);
    assert!(decode_2ff(&[0u8; 18]).is_none());
}

#[test]
fn quantized_counters() {
    assert_eq!(unquantize(0), Some(0));
    assert_eq!(unquantize(99), Some(99));
    assert_eq!(unquantize(100), Some(0));
    assert_eq!(unquantize(101), Some(100));
    assert_eq!(unquantize(199), Some(9900));
    assert_eq!(unquantize(200), Some(0));
    assert_eq!(unquantize(201), Some(1000));
    assert_eq!(unquantize(254), Some(54000));
    assert_eq!(unquantize(255), None);
}

#[test]
fn state_did_decode() {
    let mut p = p2ed(2);
    p[8] = 0x08;
    let st = decode_2ed(&p).unwrap();
    assert_eq!(st.st_stat_fct, 2);
    assert_eq!(st.ct_dat_bas_fazit, 0x11);
    assert_eq!(st.idx_lab, 0x22);
    assert!(st.b_lim_mod_ena);
    assert!(decode_2ed(&[0u8; 9]).is_none());
}

#[test]
fn diff_flags_a_changed_allow_list() {
    let before = healthy();
    let after = snapshot(&[
        (DID_STATE, p2ed(2)),
        (DID_STATUS_BITS, p2ee(0x04, 0xFC)),
        (DID_LOCKOUT, vec![0u8; 6]),
        (
            DID_EXTENDED,
            p2ff(0x53, 0x6A, [0x42, 0x43, 0x00, 0x45, 0x44], 0x00),
        ),
    ]);
    let findings = diff_after_flash(&before, &after);
    assert!(findings.iter().any(|f| f.rule == ImmoRule::PostFlashChange
        && f.severity == Severity::Warn
        && f.message.contains("allow-list changed")));
    // idxTun 0x6A is no longer a member of the new list either.
    assert!(findings
        .iter()
        .any(|f| f.message.contains("no longer in the allow-list")));
    assert!(findings.iter().any(|f| f.detail.contains("0x2E2")));
}

#[test]
fn diff_flags_a_move_into_a_dead_state() {
    let before = healthy();
    let after = snapshot(&[
        (DID_STATE, p2ed(0x63)),
        (DID_STATUS_BITS, p2ee(0x04, 0x3C)),
        (
            DID_EXTENDED,
            p2ff(0x53, 0x6A, [0x6A, 0x00, 0x00, 0x00, 0x00], 0x00),
        ),
    ]);
    let findings = diff_after_flash(&before, &after);
    let f = findings
        .iter()
        .find(|f| f.message.contains("dead state"))
        .expect("dead-state diff finding");
    assert_eq!(f.severity, Severity::Warn);
    assert!(f.detail.contains("no diagnostic recovery"));
}

#[test]
fn diff_flags_a_sample_marker_flip_and_lost_state_bit() {
    let before = healthy();
    let after = snapshot(&[
        (DID_STATE, p2ed(2)),
        (DID_STATUS_BITS, p2ee(0x04, 0xBC)),
        (
            DID_EXTENDED,
            p2ff(0x41, 0x6A, [0x6A, 0x00, 0x00, 0x00, 0x00], 0x00),
        ),
    ]);
    let findings = diff_after_flash(&before, &after);
    assert!(findings
        .iter()
        .any(|f| f.message.contains("0x53 'S' to 0x41 'A'")));
    let lost = findings
        .iter()
        .find(|f| f.message.contains("lost DID 0x2EE bit 0x40"))
        .expect("lost-0x40 finding");
    assert!(lost.detail.contains("0x04/0x80"));
}

#[test]
fn diff_of_identical_snapshots_is_clean() {
    assert!(diff_after_flash(&healthy(), &healthy()).is_empty());
}

#[test]
fn diff_with_missing_dids_is_unknown_not_risk() {
    let findings = diff_after_flash(&healthy(), &snapshot(&[]));
    assert!(findings.iter().all(|f| f.severity == Severity::Unknown));
    assert!(findings.iter().any(|f| f.rule == ImmoRule::Unavailable));
}

#[test]
fn a_did_that_only_one_side_answers_is_told() {
    let entries = [
        (DID_STATE, p2ed(2)),
        (DID_STATUS_BITS, p2ee(0x04, 0xFC)),
        (DID_EXTENDED, p2ff(0x53, 0x6A, [0x6A, 0x00, 0x00, 0x00, 0x00], 0x00)),
    ];
    let whole = snapshot(&entries);
    for left_out in 0..entries.len() {
        let mut rest = entries.to_vec();
        rest.remove(left_out);
        let part = snapshot(&rest);
        for findings in [diff_after_flash(&whole, &part), diff_after_flash(&part, &whole)] {
            assert_eq!(findings.len(), 1);
            assert_eq!(findings[0].rule, ImmoRule::Unavailable);
            assert_eq!(findings[0].severity, Severity::Unknown);
        }
    }
    let without_bits = snapshot(&[entries[0].clone(), entries[2].clone()]);
    assert!(diff_after_flash(&whole, &without_bits)[0].message.contains("0x2EE"));
    assert!(diff_after_flash(&without_bits, &without_bits).is_empty());
}

#[test]
fn an_unanswered_side_is_told_once() {
    for (before, after) in [(healthy(), snapshot(&[])), (snapshot(&[]), healthy())] {
        let findings = diff_after_flash(&before, &after);
        assert_eq!(findings.len(), 1);
        assert_eq!(findings[0].rule, ImmoRule::Unavailable);
        assert_eq!(findings[0].severity, Severity::Unknown);
        assert!(findings[0].message.contains("0x2ED or DID 0x2FF"));
    }
}

#[test]
fn fewer_answers_add_no_risk() {
    let entries = [
        (DID_STATE, p2ed(1)),
        (DID_STATUS_BITS, p2ee(0x04, 0xFC)),
        (DID_LOCKOUT, vec![0u8; 6]),
        (DID_EXTENDED, p2ff(0x53, 0x00, [0x6A, 0x6B, 0x6C, 0x6D, 0x6E], 0x00)),
    ];
    // Without the state, the zeroed index is taken for a violation: a risk either way.
    assert!(assess(&snapshot(&entries)).has_risk());
    assert!(assess(&snapshot(&entries[1..])).has_risk());
    for n in 0..4 {
        let mut rest = vec![
            (DID_STATE, p2ed(2)),
            (DID_STATUS_BITS, p2ee(0x04, 0xFC)),
            (DID_LOCKOUT, vec![0u8; 6]),
            (DID_EXTENDED, p2ff(0x53, 0x6A, [0x6A, 0x00, 0x00, 0x00, 0x00], 0x00)),
        ];
        rest.remove(n);
        assert!(!assess(&snapshot(&rest)).has_risk());
    }
}

#[test]
fn lockout_timers_that_cannot_be_decoded_are_a_caveat() {
    let with = |lockout: Option<Vec<u8>>| {
        let mut entries = vec![
            (DID_STATE, p2ed(2)),
            (DID_STATUS_BITS, p2ee(0x04, 0xFC)),
            (DID_EXTENDED, p2ff(0x53, 0x6A, [0x6A, 0x00, 0x00, 0x00, 0x00], 0x00)),
        ];
        entries.extend(lockout.map(|bytes| (DID_LOCKOUT, bytes)));
        assess(&snapshot(&entries))
    };
    assert_eq!(with(None).severity, Severity::Okay);
    assert_eq!(with(Some(vec![0; 6])).severity, Severity::Okay);
    let short = with(Some(vec![9; 5]));
    assert_eq!(short.severity, Severity::Unknown);
    assert_eq!(short.findings[0].rule, ImmoRule::Unavailable);
    assert!(short.findings[0].message.contains("0x2EF"));
    assert!(!short.has_risk());
    // Beside a required DID that is missing, nothing more is said.
    let report = assess(&snapshot(&[(DID_LOCKOUT, vec![9; 5])]));
    assert_eq!(report.findings.len(), 1);
    assert_eq!(report.findings[0].rule, ImmoRule::Unavailable);
    assert!(report.findings[0].message.contains("0x02ED, 0x02EE, 0x02FF"));
}

#[test]
fn findings_come_in_rule_order() {
    let report = assess(&snapshot(&[
        (DID_STATE, p2ed(2)),
        (DID_STATUS_BITS, p2ee(0x04, 0x80)),
        (DID_LOCKOUT, vec![12, 3, 0, 0, 0, 0]),
        (DID_EXTENDED, p2ff(0x53, 0x88, [0x42, 0x43, 0x00, 0x45, 0x44], 0x37)),
    ]));
    let rules: Vec<ImmoRule> = report.findings.iter().map(|f| f.rule).collect();
    assert_eq!(
        rules,
        vec![
            ImmoRule::TuningInterlock,
            ImmoRule::HiddenState,
            ImmoRule::LockState,
            ImmoRule::Lockout,
            ImmoRule::Lockout,
            ImmoRule::LastError,
            ImmoRule::MemoryAccess,
        ]
    );
}
