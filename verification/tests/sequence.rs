//! The flash sequence against a scripted control module.

#![allow(dead_code)]

use mqb_flash::flash::ProgressUpdate;
use mqb_flash::prepare::{prepare_block, prepare_patch_block};
use mqb_flash::sequence::{advance, begin, FlashMove, FlashPlan};
use mqb_flash::uds::{Action, FaultKind, FlashError, Reply, UdsFault};
use mqb_flash::workshop::FALLBACK_WORKSHOP_CODE;
use mqb_flash::module::{
    BlockPrep, ChecksumKind, ControlModuleIdentifier, FlashInfo, PatchInfo, UdsChecksumKind,
};

fn info(project: &str, txid: u32, rxid: u32) -> FlashInfo {
    FlashInfo {
        project_name: project.to_owned(),
        control_module_identifier: ControlModuleIdentifier { txid, rxid },
        block_names: Vec::new(),
        block_names_frf: Vec::new(),
        binfile_offsets: Vec::new(),
        binfile_size: 0,
        block_lengths: Vec::new(),
        dynamic_lengths: false,
        software_version_locations: Vec::new(),
        box_code_locations: Vec::new(),
        checksum_block_locations: Vec::new(),
        base_addresses: Vec::new(),
        block_identifiers: Vec::new(),
        block_transfer_sizes: Vec::new(),
        block_checksums: Vec::new(),
        unerased_blocks: Vec::new(),
        unchecksummed_blocks: Vec::new(),
        checksum_kind: ChecksumKind::Simos,
        uds_checksum_kind: UdsChecksumKind::Static,
        block_prep: BlockPrep::LzssAesBlock,
        encryption_type: 0x0A,
        compression_type: 0x0A,
        default_stmin_us: 400,
        patch_info: None,
    }
}

fn named(names: &[(u8, &str)]) -> Vec<(u8, String)> {
    names.iter().map(|(n, s)| (*n, (*s).to_owned())).collect()
}

fn simos(project: &str, box_code: &str) -> FlashInfo {
    let names = named(&[(1, "CBOOT"), (2, "ASW1"), (3, "ASW2"), (4, "ASW3"), (5, "CAL")]);
    FlashInfo {
        block_names: names.clone(),
        block_names_frf: names,
        block_lengths: vec![(1, 0x23E00), (2, 0xFFC00), (3, 0xBFC00), (4, 0x7FC00), (5, 0x7FC00)],
        software_version_locations: vec![(5, (0x23, 0x2B))],
        box_code_locations: vec![(5, (0x60, 0x6B))],
        block_identifiers: vec![(1, 1), (2, 2), (3, 3), (4, 4), (5, 5)],
        block_transfer_sizes: vec![(1, 0xFFD), (2, 0xFFD), (3, 0xFFD), (4, 0xFFD), (5, 0xFFD), (9, 0x8)],
        block_checksums: vec![(1, [0; 4]), (2, [0; 4]), (3, [0; 4]), (4, [0; 4]), (5, [0; 4])],
        patch_info: Some(PatchInfo {
            patch_box_code: box_code.to_owned(),
            patch_block_index: 4,
            patch_bytes: vec![0xAB; 64],
        }),
        ..info(project, 0x7E0, 0x7E8)
    }
}

fn simos18() -> FlashInfo {
    simos("SC8", "8V0906259H__0001")
}

fn dq250() -> FlashInfo {
    FlashInfo {
        block_names: named(&[(2, "DRIVER"), (3, "ASW"), (4, "CAL")]),
        unerased_blocks: vec![2],
        unchecksummed_blocks: vec![2],
        checksum_kind: ChecksumKind::Dsg,
        block_prep: BlockPrep::LzssNone,
        encryption_type: 0x01,
        compression_type: 0x01,
        default_stmin_us: 900,
        ..info("F", 0x7E1, 0x7E9)
    }
}

fn dq381() -> FlashInfo {
    FlashInfo {
        block_names: named(&[(1, "DRIVER"), (2, "ASW"), (3, "CAL")]),
        checksum_kind: ChecksumKind::Dq381,
        uds_checksum_kind: UdsChecksumKind::Crc32Be,
        block_prep: BlockPrep::LzssExact,
        default_stmin_us: 900,
        ..info("F", 0x7E1, 0x7E9)
    }
}

fn haldex() -> FlashInfo {
    FlashInfo {
        block_names: named(&[(1, "DRIVER"), (2, "CAL"), (3, "ASW"), (4, "VERSION")]),
        block_lengths: vec![(1, 0x434), (2, 0x333E), (3, 0x30000), (4, 0x100)],
        dynamic_lengths: true,
        unerased_blocks: vec![1],
        unchecksummed_blocks: vec![1],
        checksum_kind: ChecksumKind::Haldex,
        uds_checksum_kind: UdsChecksumKind::Crc32Be,
        block_prep: BlockPrep::Raw,
        encryption_type: 0x00,
        compression_type: 0x00,
        default_stmin_us: 900,
        ..info("0CQ", 0x70F, 0x779)
    }
}

fn fault() -> Reply {
    Reply::Fault(UdsFault { kind: FaultKind::Negative, text: "refused".to_owned() })
}

fn plan(payload: Vec<u8>) -> FlashPlan {
    FlashPlan {
        flash_info: simos18(),
        blocks: vec![prepare_block(&simos18(), 5, &[0; 16], payload)],
        workshop_code: FALLBACK_WORKSHOP_CODE,
    }
}

/// What a willing control module answers.
fn answer(action: &Action) -> Reply {
    match action {
        Action::ReadDid(_) => Reply::Data(b"WVWZZZAUZJW000000".to_vec()),
        Action::SecurityAccess(_, key) if key.is_empty() => Reply::Data(vec![1, 2, 3, 4]),
        Action::ComputeKey(seed) => Reply::Key(seed ^ 0xFFFF_FFFF),
        Action::Download { .. } => Reply::Size(0x102),
        Action::PatchChunk(_, _) => Reply::Size(8),
        _ => Reply::Done,
    }
}

/// Run a plan to its end, with one action answered differently.
fn run(plan: &FlashPlan, mut odd: impl FnMut(&Action) -> Option<Reply>) -> Vec<FlashMove> {
    let mut seen = vec![begin()];
    loop {
        let last = seen[seen.len() - 1].clone();
        if matches!(last.action, Action::Finished | Action::Failed(_)) {
            return seen;
        }
        let reply = odd(&last.action).unwrap_or_else(|| answer(&last.action));
        seen.push(advance(plan, &last.run, &reply));
        assert!(seen.len() < 5_000, "the sequence does not end");
    }
}

fn sent(moves: &[FlashMove]) -> Vec<u8> {
    let mut bytes = Vec::new();
    for m in moves {
        if let Action::Transfer(_, chunk) = &m.action {
            bytes.extend_from_slice(chunk);
        }
    }
    bytes
}

#[test]
fn a_calibration_flash_carries_its_payload_in_order() {
    let payload: Vec<u8> = (0..1000u32).map(|i| (i % 251) as u8).collect();
    let moves = run(&plan(payload.clone()), |_| None);
    assert_eq!(sent(&moves), payload);
    assert!(matches!(moves[moves.len() - 1].action, Action::Finished));
    // The largest transfer leaves room for the service and the counter.
    for m in &moves {
        if let Action::Transfer(_, chunk) = &m.action {
            assert!(chunk.len() <= 0x100);
        }
    }
}

#[test]
fn the_counter_starts_at_one_and_rises() {
    let moves = run(&plan(vec![7; 1000]), |_| None);
    let counters: Vec<u8> = moves
        .iter()
        .filter_map(|m| match m.action {
            Action::Transfer(n, _) => Some(n),
            _ => None,
        })
        .collect();
    assert_eq!(counters, vec![1, 2, 3, 4]);
}

#[test]
fn nothing_is_written_where_the_key_is_refused() {
    let moves = run(&plan(vec![7; 100]), |a| match a {
        Action::SecurityAccess(_, key) if !key.is_empty() => Some(fault()),
        _ => None,
    });
    assert!(sent(&moves).is_empty());
    assert!(matches!(moves[moves.len() - 1].action, Action::Failed(FlashError::AuthFailed)));
    assert!(!moves.iter().any(|m| matches!(m.action, Action::WriteDid(_, _))));
}

#[test]
fn a_refused_programming_session_falls_back() {
    let moves = run(&plan(vec![7; 100]), |a| match a {
        Action::Session(0x02) => Some(fault()),
        _ => None,
    });
    assert!(moves.iter().any(|m| matches!(m.action, Action::SwitchPatch)));
    assert!(moves
        .iter()
        .any(|m| m.progress.iter().any(|p| matches!(p, ProgressUpdate::SwitchPatchUsed))));
    assert!(matches!(moves[moves.len() - 1].action, Action::Finished));
}

#[test]
fn a_failed_transfer_ends_the_flash() {
    let moves = run(&plan(vec![7; 100]), |a| match a {
        Action::Transfer(_, _) => Some(fault()),
        _ => None,
    });
    assert!(matches!(moves[moves.len() - 1].action, Action::Failed(_)));
}

#[test]
fn a_refused_patch_chunk_is_sent_again() {
    let patch: Vec<u8> = (0..64u8).collect();
    let plan = FlashPlan {
        flash_info: simos18(),
        blocks: vec![prepare_patch_block(&simos18(), 9, 64, patch.clone())],
        workshop_code: FALLBACK_WORKSHOP_CODE,
    };
    let mut refused = false;
    let moves = run(&plan, |a| match a {
        Action::Transfer(_, _) if !refused => {
            refused = true;
            Some(fault())
        }
        _ => None,
    });
    assert!(matches!(moves[moves.len() - 1].action, Action::Finished));
    let all = sent(&moves);
    // The first chunk went out twice.
    assert_eq!(all[..8], patch[..8]);
    assert_eq!(all[8..], patch[..]);
}
