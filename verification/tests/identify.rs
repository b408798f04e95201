//! Which module answered, on captured identification records.

#![allow(dead_code)]

use std::collections::HashMap;

use mqb_flash::identify::{
    candidates_from_dids, channel_for, extra_info_dids, ident_channels, info_fields, info_values,
    module_with_project_name, project_from_boot_loader_identification, simos_variant_box_codes,
    spare_part_from_odx_identifier, Candidate, ChannelIdentification, ChannelKind, Confidence,
    IdentChannel, IdentStrings, DID_BOOT_LOADER_IDENTIFICATION, DID_ODX_FILE_IDENTIFIER,
    DID_ODX_FILE_VERSION, DID_SPARE_PART_NUMBER, DID_SYSTEM_NAME, IDENT_DIDS,
};
use mqb_flash::module::{
    BlockPrep, ChecksumKind, ControlModuleIdentifier, FlashInfo, PatchInfo, Registry, UdsChecksumKind,
};

fn info(project: &str, txid: u32, rxid: u32) -> FlashInfo {
    FlashInfo {
        project_name: project.to_owned(),
        control_module_identifier: ControlModuleIdentifier { txid, rxid },
        block_names: Vec::new(),
        block_names_frf: Vec::new(),
        binfile_offsets: Vec::new(),
        binfile_size: 0,
        block_lengths: Vec::new(),
        dynamic_lengths: false,
        software_version_locations: Vec::new(),
        box_code_locations: Vec::new(),
        checksum_block_locations: Vec::new(),
        base_addresses: Vec::new(),
        block_identifiers: Vec::new(),
        block_transfer_sizes: Vec::new(),
        block_checksums: Vec::new(),
        unerased_blocks: Vec::new(),
        unchecksummed_blocks: Vec::new(),
        checksum_kind: ChecksumKind::Simos,
        uds_checksum_kind: UdsChecksumKind::Static,
        block_prep: BlockPrep::LzssAesBlock,
        encryption_type: 0x0A,
        compression_type: 0x0A,
        default_stmin_us: 400,
        patch_info: None,
    }
}

fn named(names: &[(u8, &str)]) -> Vec<(u8, String)> {
    names.iter().map(|(n, s)| (*n, (*s).to_owned())).collect()
}

fn simos(project: &str, box_code: &str) -> FlashInfo {
    let names = named(&[(1, "CBOOT"), (2, "ASW1"), (3, "ASW2"), (4, "ASW3"), (5, "CAL")]);
    FlashInfo {
        block_names: names.clone(),
        block_names_frf: names,
        block_lengths: vec![(1, 0x23E00), (2, 0xFFC00), (3, 0xBFC00), (4, 0x7FC00), (5, 0x7FC00)],
        software_version_locations: vec![(5, (0x23, 0x2B))],
        box_code_locations: vec![(5, (0x60, 0x6B))],
        block_identifiers: vec![(1, 1), (2, 2), (3, 3), (4, 4), (5, 5)],
        block_transfer_sizes: vec![(1, 0xFFD), (2, 0xFFD), (3, 0xFFD), (4, 0xFFD), (5, 0xFFD), (9, 0x8)],
        block_checksums: vec![(1, [0; 4]), (2, [0; 4]), (3, [0; 4]), (4, [0; 4]), (5, [0; 4])],
        patch_info: Some(PatchInfo {
            patch_box_code: box_code.to_owned(),
            patch_block_index: 4,
            patch_bytes: vec![0xAB; 64],
        }),
        ..info(project, 0x7E0, 0x7E8)
    }
}

fn simos18() -> FlashInfo {
    simos("SC8", "8V0906259H__0001")
}

fn dq250() -> FlashInfo {
    FlashInfo {
        block_names: named(&[(2, "DRIVER"), (3, "ASW"), (4, "CAL")]),
        unerased_blocks: vec![2],
        unchecksummed_blocks: vec![2],
        checksum_kind: ChecksumKind::Dsg,
        block_prep: BlockPrep::LzssNone,
        encryption_type: 0x01,
        compression_type: 0x01,
        default_stmin_us: 900,
        ..info("F", 0x7E1, 0x7E9)
    }
}

fn dq381() -> FlashInfo {
    FlashInfo {
        block_names: named(&[(1, "DRIVER"), (2, "ASW"), (3, "CAL")]),
        checksum_kind: ChecksumKind::Dq381,
        uds_checksum_kind: UdsChecksumKind::Crc32Be,
        block_prep: BlockPrep::LzssExact,
        default_stmin_us: 900,
        ..info("F", 0x7E1, 0x7E9)
    }
}

fn haldex() -> FlashInfo {
    FlashInfo {
        block_names: named(&[(1, "DRIVER"), (2, "CAL"), (3, "ASW"), (4, "VERSION")]),
        block_lengths: vec![(1, 0x434), (2, 0x333E), (3, 0x30000), (4, 0x100)],
        dynamic_lengths: true,
        unerased_blocks: vec![1],
        unchecksummed_blocks: vec![1],
        checksum_kind: ChecksumKind::Haldex,
        uds_checksum_kind: UdsChecksumKind::Crc32Be,
        block_prep: BlockPrep::Raw,
        encryption_type: 0x00,
        compression_type: 0x00,
        default_stmin_us: 900,
        ..info("0CQ", 0x70F, 0x779)
    }
}


fn map(entries: &[(u16, &str)]) -> HashMap<u16, Vec<u8>> {
    entries
        .iter()
        .map(|(did, text)| (*did, text.as_bytes().to_vec()))
        .collect()
}

fn channel(kind: ChannelKind) -> IdentChannel {
    ident_channels().into_iter().find(|c| c.kind == kind).unwrap()
}

fn registry() -> Registry {
    Registry {
        modules: vec![
            ("simos18".to_owned(), simos18()),
            ("simos1810".to_owned(), simos("SCG", "5G0906259Q__0005")),
            ("simos184".to_owned(), simos("SCB", "80A906259F__0002")),
            ("simos122".to_owned(), simos("SC2", "4G0906259__0001")),
            ("dq250".to_owned(), dq250()),
            ("dq381".to_owned(), dq381()),
            ("haldex".to_owned(), haldex()),
        ],
    }
}

fn names(candidates: &[Candidate]) -> Vec<&'static str> {
    candidates.iter().map(|c| c.module_name).collect()
}

// ── Informational records ───────────────────────────────────────────────

#[test]
fn extra_info_dids_never_repeats_an_identification_read() {
    let extra = extra_info_dids();
    for did in &extra {
        assert!(!IDENT_DIDS.contains(did), "0x{did:04X} read twice");
    }
    // The overlap is real: the info table reuses the identification records.
    assert!(extra.len() < info_fields().len());
}

#[test]
fn info_values_skips_refused_and_padding_only_records() {
    let dids: HashMap<u16, Vec<u8>> = [
        (0xF190u16, b"WVWZZZAUZJW000000".to_vec()),
        (DID_SYSTEM_NAME, b"2.0l R4 TFSI \0".to_vec()),
        (0xF1AD, b"   ".to_vec()),
        (0xF442, vec![0x03, 0x2C]),
        (0x0600, Vec::new()),
    ]
    .into_iter()
    .collect();

    let shown = info_values(&dids);
    let labels: Vec<&str> = shown.iter().map(|(l, _)| *l).collect();
    assert_eq!(
        labels,
        vec!["VIN", "System name / engine type", "Control module voltage"]
    );
    assert_eq!(shown[1].1, "2.0l R4 TFSI");
    assert_eq!(shown[2].1, "03 2C");
}
// ── Channel table ───────────────────────────────────────────────────────

#[test]
fn every_channel_module_resolves_and_matches_the_channel_addresses() {
    let registry = registry();
    for ch in ident_channels() {
        for name in ch.modules {
            let info = registry.get_flash_info(name)
                .unwrap_or_else(|| panic!("registry has no module `{name}`"));
            let cmi = &info.control_module_identifier;
            assert_eq!(cmi.txid, ch.txid, "{name} txid");
            assert_eq!(cmi.rxid, ch.rxid, "{name} rxid");
        }
    }
}

#[test]
fn channels_cover_the_four_supported_modules() {
    let all: Vec<&str> = ident_channels()
        .iter()
        .flat_map(|c| c.modules)
        .copied()
        .collect();
    for expected in [
        "simos18",
        "simos1810",
        "simos184",
        "dq250",
        "dq381",
        "haldex",
    ] {
        assert!(all.contains(&expected), "{expected} is not scanned");
    }
    // Three unique channels for the four supported module families.
    assert_eq!(ident_channels().len(), 3);
}

#[test]
fn channel_lookup_is_by_can_address() {
    let registry = registry();
    let s18 = registry.get_flash_info("simos18").unwrap();
    assert_eq!(channel_for(s18).unwrap().kind, ChannelKind::SimosEngine);
    let dq = registry.get_flash_info("dq381").unwrap();
    assert_eq!(channel_for(dq).unwrap().kind, ChannelKind::Transmission);
    let hx = registry.get_flash_info("haldex").unwrap();
    assert_eq!(channel_for(hx).unwrap().kind, ChannelKind::HaldexAwd);
}

#[test]
fn simos_box_code_table_matches_the_module_patch_info() {
    let registry = registry();
    for (name, code) in simos_variant_box_codes() {
        let info = registry.get_flash_info(name).unwrap();
        let patch = info
            .patch_info
            .as_ref()
            .unwrap_or_else(|| panic!("{name} has no patch_info"));
        assert!(
            patch.patch_box_code.starts_with(code),
            "{name}: table says {code}, module says {}",
            patch.patch_box_code
        );
    }
    // The part-number path ranks from this table rather than from the
    // channel, so the two must name the same modules.
    let engine = channel(ChannelKind::SimosEngine);
    let tabled: Vec<&str> = simos_variant_box_codes().iter().map(|(n, _)| *n).collect();
    assert_eq!(tabled, engine.modules.to_vec());
}

// ── String decoding ─────────────────────────────────────────────────────

#[test]
fn nul_and_space_padding_is_stripped() {
    // Real values captured from an 8V0906259K Simos 18.1.
    let dids = map(&[
        (DID_ODX_FILE_IDENTIFIER, "EV_ECM20TFS0208V0906259K\0"),
        (DID_ODX_FILE_VERSION, "001005"),
        (DID_SPARE_PART_NUMBER, "8V0906259K "),
        (DID_SYSTEM_NAME, "2.0l R4 TFSI "),
    ]);
    let s = IdentStrings::from_dids(&dids);
    assert_eq!(
        s.odx_file_identifier.as_deref(),
        Some("EV_ECM20TFS0208V0906259K")
    );
    assert_eq!(s.odx_file_version.as_deref(), Some("001005"));
    assert_eq!(s.spare_part_number.as_deref(), Some("8V0906259K"));
    assert_eq!(s.system_name.as_deref(), Some("2.0l R4 TFSI"));
}

#[test]
fn part_number_is_recovered_from_the_odx_identifier_when_f187_is_missing() {
    let dids = map(&[(DID_ODX_FILE_IDENTIFIER, "EV_ECM18TFS0208V0906264L\0")]);
    let s = IdentStrings::from_dids(&dids);
    assert_eq!(s.spare_part_number, None);
    assert_eq!(
        s.effective_spare_part_number().as_deref(),
        Some("8V0906264L")
    );

    // ODIS layer names carry a "_001" revision suffix.
    assert_eq!(
        spare_part_from_odx_identifier("EV_ECM20TFS0205G0906259Q_001").as_deref(),
        Some("5G0906259Q"),
    );
    // Nothing part-number shaped -> no guess.
    assert_eq!(spare_part_from_odx_identifier("EV_ECM"), None);
}

// ── Simos channel ───────────────────────────────────────────────────────

#[test]
fn simos_shaped_identifier_produces_simos_candidates() {
    let registry = registry();
    let dids = map(&[
        (DID_ODX_FILE_IDENTIFIER, "EV_ECM20TFS0208V0906259K\0"),
        (DID_SPARE_PART_NUMBER, "8V0906259K "),
        (DID_SYSTEM_NAME, "2.0l R4 TFSI "),
    ]);
    let c = candidates_from_dids(&dids, &channel(ChannelKind::SimosEngine), &registry);
    assert!(names(&c).contains(&"simos18"));
    // 8V0906259K is not one of the three known box codes, so no variant may
    // claim more than ambiguity.
    assert!(c.iter().all(|c| c.confidence == Confidence::Ambiguous));
    assert_eq!(
        c.len(),
        3,
        "all three Simos variants must stay on the table"
    );
    // The reason must show the user what it was decided from.
    assert!(c[0].reason.contains("8V0906259K"));
}

#[test]
fn known_box_code_promotes_one_simos_variant_without_dropping_the_others() {
    let registry = registry();
    let dids = map(&[(DID_SPARE_PART_NUMBER, "5G0906259Q ")]);
    let c = candidates_from_dids(&dids, &channel(ChannelKind::SimosEngine), &registry);
    assert_eq!(c.len(), 3);
    assert_eq!(c[0].module_name, "simos1810");
    assert_eq!(c[0].confidence, Confidence::Likely);
    assert!(c[1..].iter().all(|c| c.confidence == Confidence::Possible));
}

#[test]
fn a_non_ecm_identifier_on_0x7e0_is_flagged_rather_than_trusted() {
    let registry = registry();
    let dids = map(&[(DID_ODX_FILE_IDENTIFIER, "EV_TCMDQ250021Q\0")]);
    let c = candidates_from_dids(&dids, &channel(ChannelKind::SimosEngine), &registry);
    assert_eq!(c.len(), 3);
    assert!(c.iter().all(|c| c.confidence == Confidence::Possible));
    assert!(c[0].reason.contains("may not be a Simos ECU"));
}

// ── Boot Loader Identification ──────────────────────────────────────────

/// Bytes captured from an 8V0906259K Simos 18.1.
const CAPTURED_BOOT_LOADER_IDENT: &str = "SC8.1 CB.00.00.I0 C02.00 SC8 ";

#[test]
fn the_captured_bootloader_string_resolves_the_engine_channel_outright() {
    let registry = registry();
    let dids = map(&[
        (DID_ODX_FILE_IDENTIFIER, "EV_ECM20TFS0208V0906259K\0"),
        (DID_SPARE_PART_NUMBER, "8V0906259K "),
        (DID_BOOT_LOADER_IDENTIFICATION, CAPTURED_BOOT_LOADER_IDENT),
    ]);
    let c = candidates_from_dids(&dids, &channel(ChannelKind::SimosEngine), &registry);

    // Without the bootloader record this part number leaves all three
    // ambiguous — see the test above.
    assert_eq!(names(&c), vec!["simos18"]);
    assert_eq!(c[0].confidence, Confidence::Confirmed);
    assert!(c[0].reason.contains("SC8"));

    let ident = ChannelIdentification {
        channel: channel(ChannelKind::SimosEngine),
        dids,
        candidates: c,
    };
    assert!(!ident.is_ambiguous(), "the user must not be asked");
    assert_eq!(ident.resolved().unwrap().module_name, "simos18");
}

/// Each variant's prefix must select that variant and no other — asserted
/// against the registry rather than a copy of the prefixes.
#[test]
fn every_engine_variant_is_selected_by_its_own_project_prefix() {
    let registry = registry();
    let ch = channel(ChannelKind::SimosEngine);
    for module in ch.modules {
        let project = registry.get_flash_info(module).unwrap().project_name.clone();
        assert!(!project.is_empty(), "{module} has no project name");
        let dids = map(&[(
            DID_BOOT_LOADER_IDENTIFICATION,
            &format!("{project}.1 CB.00.00.I0 C02.00 {project} "),
        )]);
        let c = candidates_from_dids(&dids, &ch, &registry);
        assert_eq!(names(&c), vec![*module], "prefix {project}");
        assert_eq!(c[0].confidence, Confidence::Confirmed);
    }
}

/// The prefix wins over a part number pointing elsewhere: the box code
/// table is a correlation, the bootloader is the ECU's own statement.
#[test]
fn the_bootloader_prefix_outranks_a_conflicting_box_code() {
    let registry = registry();
    let dids = map(&[
        // 5G0906259Q is the known simos1810 box code.
        (DID_SPARE_PART_NUMBER, "5G0906259Q "),
        (
            DID_BOOT_LOADER_IDENTIFICATION,
            "SCB.1 CB.00.00.I0 C02.00 SCB",
        ),
    ]);
    let c = candidates_from_dids(&dids, &channel(ChannelKind::SimosEngine), &registry);
    assert_eq!(names(&c), vec!["simos184"]);
    assert_eq!(c[0].confidence, Confidence::Confirmed);
}

/// A project this channel does not flash must be named in the explanation,
/// not dressed up as one of the three.
#[test]
fn an_unlisted_project_is_reported_rather_than_forced_into_a_variant() {
    let registry = registry();
    // SC2 is Simos 12.2 — a real module in the registry, not offered here.
    let dids = map(&[(DID_BOOT_LOADER_IDENTIFICATION, "SC2.1 CB.00.00.I0")]);
    let c = candidates_from_dids(&dids, &channel(ChannelKind::SimosEngine), &registry);
    assert_eq!(c.len(), 3);
    assert!(c.iter().all(|x| x.confidence == Confidence::Possible));
    assert!(c[0].reason.contains("SC2"));
    assert!(c[0].reason.contains("simos122"));

    // A project name nothing in the registry uses says exactly that.
    let dids = map(&[(DID_BOOT_LOADER_IDENTIFICATION, "ZZ9.1 CB.00.00.I0")]);
    let c = candidates_from_dids(&dids, &channel(ChannelKind::SimosEngine), &registry);
    assert_eq!(c.len(), 3);
    assert!(c[0].reason.contains("none of the modules this tool knows"));
}

/// Junk in `0xF1F4` falls through to the part-number evidence.
#[test]
fn an_unparseable_bootloader_record_falls_through() {
    let registry = registry();
    for junk in ["", "   ", ".", "0.1", "TOOLONGPREFIX.1", "1234.5"] {
        let dids = map(&[
            (DID_BOOT_LOADER_IDENTIFICATION, junk),
            (DID_SPARE_PART_NUMBER, "5G0906259Q "),
        ]);
        let c = candidates_from_dids(&dids, &channel(ChannelKind::SimosEngine), &registry);
        assert_eq!(c.len(), 3, "{junk:?} resolved something it should not have");
        assert_eq!(c[0].module_name, "simos1810", "{junk:?}");
        assert_eq!(c[0].confidence, Confidence::Likely, "{junk:?}");
    }
}

#[test]
fn the_project_prefix_is_the_head_of_the_string() {
    assert_eq!(
        project_from_boot_loader_identification(CAPTURED_BOOT_LOADER_IDENT.trim()).as_deref(),
        Some("SC8")
    );
    assert_eq!(
        project_from_boot_loader_identification("SCG C02.00").as_deref(),
        Some("SCG")
    );
    // No separator at all is still a prefix, as long as it is short.
    assert_eq!(project_from_boot_loader_identification("SCB").as_deref(), Some("SCB"));
    // Not project-shaped -> no guess.
    for junk in ["", ".SC8", "SC8XXXX", "1", "12345"] {
        assert_eq!(
            project_from_boot_loader_identification(junk),
            None,
            "{junk:?}"
        );
    }
}

/// DQ250 and DQ381 share the project name `F`, so the prefix cannot decide
/// that channel.
#[test]
fn a_project_name_shared_by_two_modules_names_neither() {
    let registry = registry();
    assert_eq!(module_with_project_name(&registry, "F"), None);
    assert_eq!(module_with_project_name(&registry, "SC8"), Some("simos18"));
    assert_eq!(module_with_project_name(&registry, ""), None);
}

// ── Transmission channel ────────────────────────────────────────────────

#[test]
fn transmission_channel_returns_exactly_two_ambiguous_candidates() {
    let registry = registry();
    let dids = map(&[
        (DID_ODX_FILE_IDENTIFIER, "EV_TCMDQ250021\0"),
        (DID_SYSTEM_NAME, "DQ250 "),
    ]);
    let c = candidates_from_dids(&dids, &channel(ChannelKind::Transmission), &registry);
    assert_eq!(names(&c), vec!["dq250", "dq381"]);
    assert!(c.iter().all(|c| c.confidence == Confidence::Ambiguous));
    // Without the part-number hint neither may claim any edge.
    assert_eq!(c[0].reason, c[1].reason);

    let ident = ChannelIdentification {
        channel: channel(ChannelKind::Transmission),
        dids,
        candidates: c,
    };
    assert!(ident.is_ambiguous());
    assert!(ident.resolved().is_none());
}

#[test]
fn dq250_part_number_prefix_explains_but_never_resolves() {
    let registry = registry();
    let hinted = candidates_from_dids(
        &map(&[(DID_SPARE_PART_NUMBER, "0D9300012L ")]),
        &channel(ChannelKind::Transmission),
        &registry,
    );
    let plain = candidates_from_dids(
        &map(&[(DID_SPARE_PART_NUMBER, "0GC300012A ")]),
        &channel(ChannelKind::Transmission),
        &registry,
    );

    for c in [&hinted, &plain] {
        assert_eq!(
            names(c),
            vec!["dq250", "dq381"],
            "DQ381 must never be dropped"
        );
        assert!(
            c.iter().all(|x| x.confidence == Confidence::Ambiguous),
            "the hint is a single source comment — it must never resolve the choice"
        );
    }

    // The hint changes only the explanation, and only DQ250's.
    assert!(hinted[0].reason.contains("hint, not proof"));
    assert!(!hinted[1].reason.contains("hint, not proof"));

    // Without it, neither candidate carries any preference at all.
    assert_eq!(
        plain[0].reason, plain[1].reason,
        "with no hint the two candidates must be indistinguishable"
    );
    assert!(!plain[0].reason.contains("hint, not proof"));
    assert!(!plain.iter().any(|c| c.reason.contains("0D9300012")));
}

// ── Haldex channel ──────────────────────────────────────────────────────

#[test]
fn haldex_channel_resolves_outright() {
    let registry = registry();
    let dids = map(&[(DID_SPARE_PART_NUMBER, "0CQ598549 ")]);
    let c = candidates_from_dids(&dids, &channel(ChannelKind::HaldexAwd), &registry);
    assert_eq!(names(&c), vec!["haldex"]);
    assert_eq!(c[0].confidence, Confidence::Confirmed);

    let ident = ChannelIdentification {
        channel: channel(ChannelKind::HaldexAwd),
        dids,
        candidates: c,
    };
    assert!(!ident.is_ambiguous());
    assert_eq!(ident.resolved().unwrap().module_name, "haldex");
}

// ── No evidence ─────────────────────────────────────────────────────────

#[test]
fn an_empty_did_map_never_guesses() {
    let registry = registry();
    let empty = HashMap::new();
    for ch in ident_channels() {
        assert!(
            candidates_from_dids(&empty, &ch, &registry).is_empty(),
            "{} guessed with no evidence",
            ch.label
        );
    }
}

#[test]
fn a_channel_that_answers_with_padding_only_still_counts_as_present() {
    let registry = registry();
    // An empty-but-present reply is still evidence about the channel.
    let dids = map(&[(DID_SPARE_PART_NUMBER, "          ")]);
    let c = candidates_from_dids(&dids, &channel(ChannelKind::HaldexAwd), &registry);
    assert_eq!(names(&c), vec!["haldex"]);
    assert!(c[0].reason.contains("no identification strings"));
}

#[test]
fn confidence_orders_from_ambiguous_to_confirmed() {
    assert!(Confidence::Ambiguous < Confidence::Possible);
    assert!(Confidence::Possible < Confidence::Likely);
    assert!(Confidence::Likely < Confidence::Confirmed);
}

#[test]
fn candidates_come_best_first() {
    let registry = registry();
    // The last listed variant's box code: it still has to come first.
    for code in ["5G0906259Q ", "80A906259F ", "8V0906259K "] {
        let dids = map(&[(DID_SPARE_PART_NUMBER, code)]);
        let c = candidates_from_dids(&dids, &channel(ChannelKind::SimosEngine), &registry);
        assert_eq!(c.len(), 3);
        assert!(c.windows(2).all(|w| w[0].confidence >= w[1].confidence));
    }
    let dids = map(&[(DID_SPARE_PART_NUMBER, "80A906259F ")]);
    let c = candidates_from_dids(&dids, &channel(ChannelKind::SimosEngine), &registry);
    assert_eq!(c[0].module_name, "simos184");
    assert_eq!(c[0].confidence, Confidence::Likely);
}
