//! Correcting a firmware image's internal checksums before it is flashed.
//!
//! Every block carries checksums the ECU verifies after the transfer. A block
//! that has been modified (a tune, or the CBOOT sample-mode patch) has stale
//! checksums and will be rejected. The order matters:
//!
//! 1. ECM3 monitor checksum over CAL (Simos only).
//! 2. CBOOT sample-mode patch, if requested.
//! 3. Per-block checksum fix for every flashable block.
//!
//! Compression and encryption come strictly after all of this: where the
//! checksum of the block routine is a CRC-32 of the plain block, it must be
//! taken over the corrected bytes.
//!
//! The block checksum of the Simos family is computed elsewhere; what it gave
//! for each block is handed in as a table.

use std::collections::HashMap;

use vstd::prelude::*;

use crate::binfile::raw_blocks;
use crate::bytes::to_vec;
use crate::cboot::{
    law_a_patch_changes_the_block, patch_cboot, patched, positions, PatchError,
};
use crate::checksum::agree_outside;
use crate::checksum::dq381::{dq381_pass, validate_dq381};
use crate::checksum::dsg::{dsg_pass, validate_dsg};
use crate::checksum::ecm3::{
    areas_ordered, cal_range, ecm3_pass, load_ecm3_location, stored_at, validate_ecm3,
};
use crate::checksum::haldex::{haldex_pass, validate_haldex};
use crate::module::{number_of, row_of, ChecksumKind, ChecksumState, FlashInfo};
use crate::text::{dec, push_dec};

verus! {

broadcast use vstd::std_specs::hash::group_hash_axioms;

/// Why a set of blocks could not be corrected.
#[derive(Debug, Clone)]
pub enum FixupError {
    /// The checksum is wrong and could not be corrected.
    Invalid { block: u8 },
    /// The block does not have the shape the algorithm needs.
    Failed { block: u8 },
    /// The CBOOT patch failed; holds why.
    CbootPatch(String),
    /// The CBOOT patch was asked for where there is no CBOOT.
    NoCbootBlock,
}

/// What an error says.
pub enum Fault {
    Invalid(u8),
    Failed(u8),
    CbootPatch(Seq<char>),
    NoCbootBlock,
}

impl View for FixupError {
    type V = Fault;

    open spec fn view(&self) -> Fault {
        match self {
            FixupError::Invalid { block } => Fault::Invalid(*block),
            FixupError::Failed { block } => Fault::Failed(*block),
            FixupError::CbootPatch(why) => Fault::CbootPatch(why@),
            FixupError::NoCbootBlock => Fault::NoCbootBlock,
        }
    }
}

impl Fault {
    /// What the user is told.
    pub open spec fn text(self) -> Seq<char> {
        match self {
            Fault::Invalid(block) => "block "@ + dec(block as nat)
                + ": checksum is invalid and could not be corrected"@,
            Fault::Failed(block) => "block "@ + dec(block as nat)
                + ": the checksum algorithm failed"@,
            Fault::CbootPatch(why) => "CBOOT patch failed: "@ + why,
            Fault::NoCbootBlock => "this module has no CBOOT block, so --patch-cboot does not apply"@,
        }
    }
}

impl FixupError {
    /// What the user is told.
    pub fn message(&self) -> (s: String)
        ensures
            s@ == self@.text(),
    {
        match self {
            FixupError::Invalid { block } => {
                let mut s = "block ".to_owned();
                push_dec(&mut s, *block as u64);
                s.push_str(": checksum is invalid and could not be corrected");
                s
            },
            FixupError::Failed { block } => {
                let mut s = "block ".to_owned();
                push_dec(&mut s, *block as u64);
                s.push_str(": the checksum algorithm failed");
                s
            },
            FixupError::CbootPatch(why) => {
                let mut s = "CBOOT patch failed: ".to_owned();
                s.push_str(why.as_str());
                s
            },
            FixupError::NoCbootBlock => {
                "this module has no CBOOT block, so --patch-cboot does not apply".to_owned()
            },
        }
    }
}

/// What was done to a set of blocks, for reporting to the user.
#[derive(Debug, Clone)]
pub struct FixupReport {
    /// Human-readable lines, one per block acted on.
    pub notes: Vec<String>,
    /// Blocks whose bytes were modified.
    pub changed: Vec<u8>,
}

impl FixupReport {
    /// A report of nothing.
    pub fn new() -> (r: Self)
        ensures
            r.notes@.len() == 0,
            r.changed@.len() == 0,
    {
        FixupReport { notes: Vec::new(), changed: Vec::new() }
    }
}

/// Blocks in the course of being corrected, and what has been reported so far.
pub struct Fixing {
    pub blocks: Map<u8, Seq<u8>>,
    pub notes: Seq<Seq<char>>,
    pub changed: Seq<u8>,
}

/// The lines of a report.
pub open spec fn lines(notes: Seq<String>) -> Seq<Seq<char>> {
    notes.map_values(|s: String| s@)
}

/// Where a set of blocks and a report stand.
pub open spec fn fixing(blocks: Map<u8, Vec<u8>>, report: FixupReport) -> Fixing {
    Fixing { blocks: raw_blocks(blocks), notes: lines(report.notes@), changed: report.changed@ }
}

impl Fixing {
    /// One more line.
    pub open spec fn noted(self, note: Seq<char>) -> Fixing {
        Fixing { notes: self.notes.push(note), ..self }
    }

    /// A block replaced.
    pub open spec fn replaced(self, number: u8, bytes: Seq<u8>, note: Seq<char>) -> Fixing {
        Fixing {
            blocks: self.blocks.insert(number, bytes),
            notes: self.notes.push(note),
            changed: self.changed.push(number),
        }
    }
}

/// The monitor checksum of CAL corrected, where its range is known. A failure
/// here is told, but does not stop a flash that is otherwise right.
pub open spec fn after_ecm3(csv: Seq<char>, flash_info: FlashInfo, f: Fixing) -> Fixing {
    match number_of(flash_info.block_names@, "CAL"@) {
        None => f,
        Some(cal_num) => if !f.blocks.contains_key(cal_num) {
            f
        } else {
            let cal = f.blocks[cal_num];
            match cal_range(csv, cal, flash_info) {
                None => f.noted(
                    "ECM3: no address range known for this calibration — skipped"@,
                ),
                Some((start, end)) => {
                    let (state, fixed) = ecm3_pass(
                        seq![start as usize, end as usize],
                        cal,
                        true,
                    );
                    match state {
                        ChecksumState::Fixed => f.replaced(
                            cal_num,
                            fixed,
                            "CAL: ECM3 monitor checksum corrected"@,
                        ),
                        ChecksumState::Valid => f.noted(
                            "CAL: ECM3 monitor checksum already valid"@,
                        ),
                        _ => f.noted("CAL: ECM3 monitor checksum could not be corrected"@),
                    }
                },
            }
        },
    }
}

/// The range known for the calibration does not end before it starts.
pub open spec fn range_is_ordered(
    csv: Seq<char>,
    flash_info: FlashInfo,
    blocks: Map<u8, Seq<u8>>,
) -> bool {
    number_of(flash_info.block_names@, "CAL"@) matches Some(n) ==> blocks.contains_key(n) ==> (
    cal_range(csv, blocks[n], flash_info) matches Some((start, end)) ==> areas_ordered(
        seq![start as usize, end as usize],
        blocks[n].len() as int,
    ))
}

/// The CBOOT patch applied.
pub open spec fn after_cboot(flash_info: FlashInfo, f: Fixing) -> (Fixing, Option<Fault>) {
    match number_of(flash_info.block_names@, "CBOOT"@) {
        None => (f, Some(Fault::NoCbootBlock)),
        Some(num) => if !f.blocks.contains_key(num) {
            (f, Some(Fault::NoCbootBlock))
        } else {
            let raw = f.blocks[num];
            let at = positions(raw);
            if at.len() == 2 {
                (
                    f.replaced(
                        num,
                        patched(raw, at[0], at[1]),
                        "CBOOT: sample-mode patch applied"@,
                    ),
                    None,
                )
            } else {
                (
                    f,
                    Some(
                        Fault::CbootPatch(PatchError::WrongMatchCount(at.len() as usize).text()),
                    ),
                )
            }
        },
    }
}

/// What the block checksum of the module gives for a block. For the Simos family
/// that is what the table says; without a row the algorithm counts as failed.
pub open spec fn block_pass(
    flash_info: FlashInfo,
    raw: Seq<u8>,
    number: u8,
    simos: Seq<(u8, (ChecksumState, Vec<u8>))>,
) -> (ChecksumState, Seq<u8>) {
    match flash_info.checksum_kind {
        ChecksumKind::Simos => match row_of(simos, number) {
            Some((state, fixed)) => (state, fixed@),
            None => (ChecksumState::Failed, raw),
        },
        ChecksumKind::Dq381 => dq381_pass(
            raw,
            match row_of(flash_info.base_addresses@, number) {
                Some(a) => a,
                None => 0,
            },
            true,
        ),
        ChecksumKind::Dsg => dsg_pass(raw, true),
        ChecksumKind::Haldex => haldex_pass(
            raw,
            number,
            row_of(flash_info.checksum_block_locations@, number),
            true,
        ),
    }
}

/// One block corrected.
pub open spec fn after_block(
    flash_info: FlashInfo,
    simos: Seq<(u8, (ChecksumState, Vec<u8>))>,
    f: Fixing,
    number: u8,
) -> (Fixing, Option<Fault>) {
    if !f.blocks.contains_key(number) {
        (f, None)
    } else if flash_info.unchecksummed_blocks@.contains(number) {
        (
            f.noted(
                "block "@ + dec(number as nat)
                    + ": skipped — this module supplies its checksum externally"@,
            ),
            None,
        )
    } else {
        let (state, fixed) = block_pass(flash_info, f.blocks[number], number, simos);
        match state {
            ChecksumState::Valid => (
                f.noted("block "@ + dec(number as nat) + ": checksum already valid"@),
                None,
            ),
            ChecksumState::Fixed => (
                f.replaced(
                    number,
                    fixed,
                    "block "@ + dec(number as nat) + ": checksum corrected"@,
                ),
                None,
            ),
            ChecksumState::Invalid => (f, Some(Fault::Invalid(number))),
            ChecksumState::Failed => (f, Some(Fault::Failed(number))),
        }
    }
}

/// The blocks below `n` corrected, in order, up to the first fault.
pub open spec fn after_blocks(
    flash_info: FlashInfo,
    simos: Seq<(u8, (ChecksumState, Vec<u8>))>,
    f: Fixing,
    n: nat,
) -> (Fixing, Option<Fault>)
    decreases n,
{
    if n == 0 {
        (f, None)
    } else {
        let (before, fault) = after_blocks(flash_info, simos, f, (n - 1) as nat);
        if fault is Some {
            (before, fault)
        } else {
            after_block(flash_info, simos, before, (n - 1) as u8)
        }
    }
}

/// The first two stages: monitor checksum, CBOOT patch.
pub open spec fn after_patching(
    csv: Seq<char>,
    flash_info: FlashInfo,
    f: Fixing,
    patch_cboot: bool,
) -> (Fixing, Option<Fault>) {
    let monitored = if flash_info.checksum_kind == ChecksumKind::Simos {
        after_ecm3(csv, flash_info, f)
    } else {
        f
    };
    if patch_cboot {
        after_cboot(flash_info, monitored)
    } else {
        (monitored, None)
    }
}

/// All three stages. Blocks above 5 are raw payloads without a checksum.
pub open spec fn after_all(
    csv: Seq<char>,
    flash_info: FlashInfo,
    f: Fixing,
    patch_cboot: bool,
    simos: Seq<(u8, (ChecksumState, Vec<u8>))>,
) -> (Fixing, Option<Fault>) {
    let (patched, fault) = after_patching(csv, flash_info, f, patch_cboot);
    if fault is Some {
        (patched, fault)
    } else {
        after_blocks(flash_info, simos, patched, 6)
    }
}

/// A fault is the error that is returned.
pub open spec fn reported(r: Result<(), FixupError>, fault: Option<Fault>) -> bool {
    match r {
        Ok(_) => fault is None,
        Err(e) => fault == Some(e@),
    }
}

fn note(report: &mut FixupReport, line: String)
    ensures
        lines(final(report).notes@) == lines(old(report).notes@).push(line@),
        final(report).changed == old(report).changed,
{
    let ghost before = report.notes@;
    let ghost said = line@;
    report.notes.push(line);
    assert(lines(report.notes@) == lines(before).push(said));
}

fn replace(
    blocks: &mut HashMap<u8, Vec<u8>>,
    report: &mut FixupReport,
    number: u8,
    bytes: Vec<u8>,
    line: String,
)
    ensures
        fixing(final(blocks)@, *final(report)) == fixing(old(blocks)@, *old(report)).replaced(
            number,
            bytes@,
            line@,
        ),
{
    let ghost before = blocks@;
    let ghost contents = bytes@;
    blocks.insert(number, bytes);
    assert(raw_blocks(blocks@) == raw_blocks(before).insert(number, contents));
    note(report, line);
    report.changed.push(number);
}

/// Correct the monitor checksum of the CAL block.
///
/// An image whose calibration has no known range has no such checksum to
/// correct, which is not an error.
pub fn fix_ecm3(
    csv: &str,
    flash_info: &FlashInfo,
    blocks: &mut HashMap<u8, Vec<u8>>,
    report: &mut FixupReport,
)
    requires
        range_is_ordered(csv@, *flash_info, raw_blocks(old(blocks)@)),
    ensures
        fixing(final(blocks)@, *final(report)) == after_ecm3(
            csv@,
            *flash_info,
            fixing(old(blocks)@, *old(report)),
        ),
{
    let cal_num: u8 = match flash_info.block_to_number("CAL") {
        Some(n) => n,
        None => {
            return;
        },
    };
    let cal = match blocks.get(&cal_num) {
        Some(v) => to_vec(v.as_slice()),
        None => {
            return;
        },
    };
    assert(cal@ == raw_blocks(blocks@)[cal_num]);
    match load_ecm3_location(csv, cal.as_slice(), flash_info) {
        None => {
            note(
                report,
                "ECM3: no address range known for this calibration — skipped".to_owned(),
            );
        },
        Some(addresses) => {
            assert(addresses@ == seq![addresses@[0], addresses@[1]]);
            let (state, fixed) = validate_ecm3(addresses.as_slice(), cal.as_slice(), true);
            match state {
                ChecksumState::Fixed => {
                    replace(
                        blocks,
                        report,
                        cal_num,
                        fixed,
                        "CAL: ECM3 monitor checksum corrected".to_owned(),
                    );
                },
                ChecksumState::Valid => {
                    note(report, "CAL: ECM3 monitor checksum already valid".to_owned());
                },
                _ => {
                    note(report, "CAL: ECM3 monitor checksum could not be corrected".to_owned());
                },
            }
        },
    }
}

/// Apply the CBOOT patch to its block.
fn apply_cboot(
    flash_info: &FlashInfo,
    blocks: &mut HashMap<u8, Vec<u8>>,
    report: &mut FixupReport,
) -> (r: Result<(), FixupError>)
    ensures
        ({
            let (f, fault) = after_cboot(*flash_info, fixing(old(blocks)@, *old(report)));
            fixing(final(blocks)@, *final(report)) == f && reported(r, fault)
        }),
{
    let num: u8 = match flash_info.block_to_number("CBOOT") {
        Some(n) => n,
        None => {
            return Err(FixupError::NoCbootBlock);
        },
    };
    let patch = match blocks.get(&num) {
        Some(raw) => patch_cboot(raw.as_slice()),
        None => {
            return Err(FixupError::NoCbootBlock);
        },
    };
    match patch {
        Ok(bytes) => {
            replace(blocks, report, num, bytes, "CBOOT: sample-mode patch applied".to_owned());
            Ok(())
        },
        Err(e) => Err(FixupError::CbootPatch(e.message())),
    }
}

/// The first two stages: correct the monitor checksum, then apply the CBOOT
/// patch if asked for.
pub fn patch_blocks(
    csv: &str,
    flash_info: &FlashInfo,
    blocks: &mut HashMap<u8, Vec<u8>>,
    patch_cboot: bool,
    report: &mut FixupReport,
) -> (r: Result<(), FixupError>)
    requires
        range_is_ordered(csv@, *flash_info, raw_blocks(old(blocks)@)),
    ensures
        ({
            let (f, fault) = after_patching(
                csv@,
                *flash_info,
                fixing(old(blocks)@, *old(report)),
                patch_cboot,
            );
            fixing(final(blocks)@, *final(report)) == f && reported(r, fault)
        }),
{
    if flash_info.checksum_kind == ChecksumKind::Simos {
        fix_ecm3(csv, flash_info, blocks, report);
    }
    if patch_cboot {
        apply_cboot(flash_info, blocks, report)
    } else {
        Ok(())
    }
}

fn simos_row(simos: &Vec<(u8, (ChecksumState, Vec<u8>))>, number: u8) -> (r: Option<
    (ChecksumState, Vec<u8>),
>)
    ensures
        r is Some <==> row_of(simos@, number) is Some,
        r matches Some((state, bytes)) ==> (row_of(simos@, number) matches Some((s, b)) && s
            == state && b@ == bytes@),
{
    let mut i: usize = 0;
    assert(simos@.skip(0) == simos@);
    while i < simos.len()
        invariant
            i <= simos@.len(),
            row_of(simos@, number) == row_of(simos@.skip(i as int), number),
        decreases simos@.len() - i,
    {
        assert(simos@.skip(i as int).skip(1) == simos@.skip(i + 1));
        if simos[i].0 == number {
            let (state, bytes) = &simos[i].1;
            return Some((*state, to_vec(bytes.as_slice())));
        }
        i = i + 1;
    }
    None
}

/// Hand a single block to its module's checksum algorithm.
pub fn validate_block(
    flash_info: &FlashInfo,
    raw: &[u8],
    block_num: u8,
    simos: &Vec<(u8, (ChecksumState, Vec<u8>))>,
) -> (r: (ChecksumState, Vec<u8>))
    ensures
        (r.0, r.1@) == block_pass(*flash_info, raw@, block_num, simos@),
{
    match flash_info.checksum_kind {
        ChecksumKind::Simos => match simos_row(simos, block_num) {
            Some(outcome) => outcome,
            None => (ChecksumState::Failed, to_vec(raw)),
        },
        ChecksumKind::Dq381 => {
            let base: u32 = match flash_info.base_address(block_num) {
                Some(a) => a,
                None => 0,
            };
            validate_dq381(raw, base, true)
        },
        ChecksumKind::Dsg => validate_dsg(raw, true),
        ChecksumKind::Haldex => validate_haldex(raw, block_num, flash_info, true),
    }
}

fn fix_block(
    flash_info: &FlashInfo,
    blocks: &mut HashMap<u8, Vec<u8>>,
    report: &mut FixupReport,
    simos: &Vec<(u8, (ChecksumState, Vec<u8>))>,
    number: u8,
) -> (r: Result<(), FixupError>)
    ensures
        ({
            let (f, fault) = after_block(
                *flash_info,
                simos@,
                fixing(old(blocks)@, *old(report)),
                number,
            );
            fixing(final(blocks)@, *final(report)) == f && reported(r, fault)
        }),
{
    let mut line = "block ".to_owned();
    push_dec(&mut line, number as u64);
    let raw = match blocks.get(&number) {
        Some(v) => to_vec(v.as_slice()),
        None => {
            return Ok(());
        },
    };
    assert(raw@ == raw_blocks(blocks@)[number]);
    if !flash_info.has_internal_checksum(number) {
        line.push_str(": skipped — this module supplies its checksum externally");
        note(report, line);
        return Ok(());
    }
    let (state, fixed) = validate_block(flash_info, raw.as_slice(), number, simos);
    match state {
        ChecksumState::Valid => {
            line.push_str(": checksum already valid");
            note(report, line);
            Ok(())
        },
        ChecksumState::Fixed => {
            line.push_str(": checksum corrected");
            replace(blocks, report, number, fixed, line);
            Ok(())
        },
        ChecksumState::Invalid => Err(FixupError::Invalid { block: number }),
        ChecksumState::Failed => Err(FixupError::Failed { block: number }),
    }
}

/// The third stage: correct the checksum of every block up to 5, in order.
pub fn checksum_blocks(
    flash_info: &FlashInfo,
    blocks: &mut HashMap<u8, Vec<u8>>,
    simos: &Vec<(u8, (ChecksumState, Vec<u8>))>,
    report: &mut FixupReport,
) -> (r: Result<(), FixupError>)
    ensures
        ({
            let (f, fault) = after_blocks(
                *flash_info,
                simos@,
                fixing(old(blocks)@, *old(report)),
                6,
            );
            fixing(final(blocks)@, *final(report)) == f && reported(r, fault)
        }),
{
    let ghost start = fixing(blocks@, *report);
    let mut number: u8 = 0;
    while number < 6
        invariant
            number <= 6,
            start == fixing(old(blocks)@, *old(report)),
            after_blocks(*flash_info, simos@, start, number as nat) == (
                fixing(blocks@, *report),
                None::<Fault>,
            ),
        decreases 6 - number,
    {
        match fix_block(flash_info, blocks, report, simos, number) {
            Ok(_) => {},
            Err(e) => {
                proof {
                    lemma_faults_last(*flash_info, simos@, start, (number + 1) as nat, 6);
                }
                return Err(e);
            },
        }
        number = number + 1;
    }
    Ok(())
}

/// A fault ends the pass.
proof fn lemma_faults_last(
    flash_info: FlashInfo,
    simos: Seq<(u8, (ChecksumState, Vec<u8>))>,
    f: Fixing,
    m: nat,
    n: nat,
)
    requires
        m <= n,
        after_blocks(flash_info, simos, f, m).1 is Some,
    ensures
        after_blocks(flash_info, simos, f, n) == after_blocks(flash_info, simos, f, m),
    decreases n,
{
    if m < n {
        lemma_faults_last(flash_info, simos, f, m, (n - 1) as nat);
    }
}

/// Fix internal checksums across a set of raw blocks, applying the CBOOT
/// sample-mode patch first if asked for.
///
/// `blocks` is modified in place. Blocks the module marks as having no checksum
/// of their own are left untouched.
pub fn checksum_and_patch_blocks(
    csv: &str,
    flash_info: &FlashInfo,
    blocks: &mut HashMap<u8, Vec<u8>>,
    patch_cboot: bool,
    simos: &Vec<(u8, (ChecksumState, Vec<u8>))>,
) -> (r: Result<FixupReport, FixupError>)
    requires
        range_is_ordered(csv@, *flash_info, raw_blocks(old(blocks)@)),
    ensures
        ({
            let start = Fixing {
                blocks: raw_blocks(old(blocks)@),
                notes: Seq::empty(),
                changed: Seq::empty(),
            };
            let (f, fault) = after_all(csv@, *flash_info, start, patch_cboot, simos@);
            &&& raw_blocks(final(blocks)@) == f.blocks
            &&& match r {
                Ok(report) => fault is None && lines(report.notes@) == f.notes
                    && report.changed@ == f.changed,
                Err(e) => fault == Some(e@),
            }
        }),
{
    let mut report = FixupReport::new();
    assert(lines(report.notes@) == Seq::<Seq<char>>::empty());
    assert(report.changed@ == Seq::<u8>::empty());
    match patch_blocks(csv, flash_info, blocks, patch_cboot, &mut report) {
        Ok(_) => {},
        Err(e) => {
            return Err(e);
        },
    }
    match checksum_blocks(flash_info, blocks, simos, &mut report) {
        Ok(_) => Ok(report),
        Err(e) => Err(e),
    }
}

/// Blocks the module marks as having no checksum of their own, and blocks above
/// 5, pass through the checksum stage untouched.
pub proof fn law_unchecksummed_blocks_stay(
    flash_info: FlashInfo,
    simos: Seq<(u8, (ChecksumState, Vec<u8>))>,
    f: Fixing,
    n: nat,
    number: u8,
)
    requires
        n <= 6,
        flash_info.unchecksummed_blocks@.contains(number) || number > 5,
    ensures
        ({
            let after = after_blocks(flash_info, simos, f, n).0;
            &&& after.blocks.contains_key(number) == f.blocks.contains_key(number)
            &&& f.blocks.contains_key(number) ==> after.blocks[number] == f.blocks[number]
        }),
    decreases n,
{
    if n > 0 {
        law_unchecksummed_blocks_stay(flash_info, simos, f, (n - 1) as nat, number);
    }
}

/// A pass neither adds nor drops a block.
pub proof fn law_the_same_blocks_come_out(
    flash_info: FlashInfo,
    simos: Seq<(u8, (ChecksumState, Vec<u8>))>,
    f: Fixing,
    n: nat,
)
    requires
        n <= 6,
    ensures
        after_blocks(flash_info, simos, f, n).0.blocks.dom() == f.blocks.dom(),
    decreases n,
{
    if n > 0 {
        law_the_same_blocks_come_out(flash_info, simos, f, (n - 1) as nat);
        let (before, fault) = after_blocks(flash_info, simos, f, (n - 1) as nat);
        let after = after_blocks(flash_info, simos, f, n).0;
        if fault is None && before.blocks.contains_key((n - 1) as u8) {
            assert(before.blocks.insert((n - 1) as u8, after.blocks[(n - 1) as u8]).dom()
                == before.blocks.dom());
        }
        assert(after.blocks.dom() == before.blocks.dom());
    }
}

/// Whether `after` is `before` with nothing changed but blocks that it lists.
pub open spec fn only_listed_changed(before: Fixing, after: Fixing) -> bool {
    &&& after.blocks.dom() == before.blocks.dom()
    &&& forall|k: int|
        0 <= k < before.changed.len() ==> after.changed.contains(#[trigger] before.changed[k])
    &&& forall|number: u8| #[trigger]
        before.blocks.contains_key(number) && !after.changed.contains(number)
            ==> after.blocks[number] == before.blocks[number]
}

proof fn lemma_replaced_is_listed(f: Fixing, number: u8, bytes: Seq<u8>, note: Seq<char>)
    requires
        f.blocks.contains_key(number),
    ensures
        only_listed_changed(f, f.replaced(number, bytes, note)),
{
    let after = f.replaced(number, bytes, note);
    assert(after.changed.last() == number);
    assert(after.blocks.dom() == f.blocks.dom());
    assert forall|k: int| 0 <= k < f.changed.len() implies after.changed.contains(
        #[trigger] f.changed[k],
    ) by {
        assert(after.changed[k] == f.changed[k]);
    }
}

proof fn lemma_listed_chains(a: Fixing, b: Fixing, c: Fixing)
    requires
        only_listed_changed(a, b),
        only_listed_changed(b, c),
    ensures
        only_listed_changed(a, c),
{
    assert forall|x: u8| b.changed.contains(x) implies c.changed.contains(x) by {
        let k = choose|k: int| 0 <= k < b.changed.len() && b.changed[k] == x;
        assert(c.changed.contains(b.changed[k]));
    }
    assert forall|k: int| 0 <= k < a.changed.len() implies c.changed.contains(
        #[trigger] a.changed[k],
    ) by {
        assert(b.changed.contains(a.changed[k]));
    }
    assert forall|number: u8| #[trigger]
        a.blocks.contains_key(number) && !c.changed.contains(number) implies c.blocks[number]
        == a.blocks[number] by {
        assert(b.blocks.contains_key(number));
    }
}

proof fn lemma_blocks_are_listed(
    flash_info: FlashInfo,
    simos: Seq<(u8, (ChecksumState, Vec<u8>))>,
    f: Fixing,
    n: nat,
)
    requires
        n <= 6,
    ensures
        only_listed_changed(f, after_blocks(flash_info, simos, f, n).0),
    decreases n,
{
    if n == 0 {
        assert(forall|k: int| 0 <= k < f.changed.len() ==> f.changed.contains(f.changed[k]));
    } else {
        lemma_blocks_are_listed(flash_info, simos, f, (n - 1) as nat);
        let (before, fault) = after_blocks(flash_info, simos, f, (n - 1) as nat);
        if fault is None {
            let number = (n - 1) as u8;
            let after = after_block(flash_info, simos, before, number).0;
            if before.blocks.contains_key(number) {
                let (state, fixed) = block_pass(
                    flash_info,
                    before.blocks[number],
                    number,
                    simos,
                );
                lemma_replaced_is_listed(
                    before,
                    number,
                    fixed,
                    "block "@ + dec(number as nat) + ": checksum corrected"@,
                );
            }
            assert(forall|k: int|
                0 <= k < before.changed.len() ==> before.changed.contains(before.changed[k]));
            assert(only_listed_changed(before, after));
            lemma_listed_chains(f, before, after);
        }
    }
}

proof fn lemma_patching_is_listed(
    csv: Seq<char>,
    flash_info: FlashInfo,
    f: Fixing,
    patch_cboot: bool,
)
    ensures
        only_listed_changed(f, after_patching(csv, flash_info, f, patch_cboot).0),
{
    assert(forall|k: int| 0 <= k < f.changed.len() ==> f.changed.contains(f.changed[k]));
    let monitored = if flash_info.checksum_kind == ChecksumKind::Simos {
        after_ecm3(csv, flash_info, f)
    } else {
        f
    };
    assert(only_listed_changed(f, monitored)) by {
        if let Some(cal) = number_of(flash_info.block_names@, "CAL"@) {
            if f.blocks.contains_key(cal) {
                lemma_replaced_is_listed(
                    f,
                    cal,
                    monitored.blocks[cal],
                    "CAL: ECM3 monitor checksum corrected"@,
                );
            }
        }
    }
    if patch_cboot {
        let after = after_cboot(flash_info, monitored).0;
        assert(forall|k: int|
            0 <= k < monitored.changed.len() ==> monitored.changed.contains(monitored.changed[k]));
        if let Some(number) = number_of(flash_info.block_names@, "CBOOT"@) {
            if monitored.blocks.contains_key(number) {
                lemma_replaced_is_listed(
                    monitored,
                    number,
                    after.blocks[number],
                    "CBOOT: sample-mode patch applied"@,
                );
            }
        }
        assert(only_listed_changed(monitored, after));
        lemma_listed_chains(f, monitored, after);
    }
}

/// A correction adds and drops no block, and a block that it does not list as
/// changed keeps its bytes, whether or not the correction went through.
pub proof fn law_only_listed_blocks_change(
    csv: Seq<char>,
    flash_info: FlashInfo,
    f: Fixing,
    patch_cboot: bool,
    simos: Seq<(u8, (ChecksumState, Vec<u8>))>,
)
    ensures
        only_listed_changed(f, after_all(csv, flash_info, f, patch_cboot, simos).0),
{
    let (patched, fault) = after_patching(csv, flash_info, f, patch_cboot);
    lemma_patching_is_listed(csv, flash_info, f, patch_cboot);
    if fault is None {
        lemma_blocks_are_listed(flash_info, simos, patched, 6);
        lemma_listed_chains(f, patched, after_blocks(flash_info, simos, patched, 6).0);
    }
}

/// Whether the checksum stage replaces a block.
pub open spec fn is_corrected(
    flash_info: FlashInfo,
    simos: Seq<(u8, (ChecksumState, Vec<u8>))>,
    f: Fixing,
    number: u8,
) -> bool {
    &&& f.blocks.contains_key(number)
    &&& !flash_info.unchecksummed_blocks@.contains(number)
    &&& block_pass(flash_info, f.blocks[number], number, simos).0 == ChecksumState::Fixed
}

/// The checksum stage leaves a block as it is and does not list it, or replaces it by
/// what its checksum pass gave.
proof fn lemma_one_pass(
    flash_info: FlashInfo,
    simos: Seq<(u8, (ChecksumState, Vec<u8>))>,
    f: Fixing,
    n: nat,
    number: u8,
)
    requires
        n <= 6,
    ensures
        ({
            let after = after_blocks(flash_info, simos, f, n).0;
            ||| after.blocks.contains_key(number) == f.blocks.contains_key(number)
                && after.blocks[number] == f.blocks[number] && after.changed.contains(number)
                == f.changed.contains(number)
            ||| number < n && is_corrected(flash_info, simos, f, number)
                && after.blocks[number] == block_pass(
                flash_info,
                f.blocks[number],
                number,
                simos,
            ).1
        }),
    decreases n,
{
    if n > 0 {
        lemma_one_pass(flash_info, simos, f, (n - 1) as nat, number);
        let (before, fault) = after_blocks(flash_info, simos, f, (n - 1) as nat);
        let after = after_blocks(flash_info, simos, f, n).0;
        if fault is None {
            let last = (n - 1) as u8;
            if after.changed.contains(number) && number != last {
                let k = choose|k: int| 0 <= k < after.changed.len() && after.changed[k] == number;
                assert(before.changed[k] == number);
            }
            if before.changed.contains(number) {
                let k = choose|k: int| 0 <= k < before.changed.len() && before.changed[k] == number;
                assert(after.changed[k] == number);
            }
        }
    }
}

/// What the patching stages do to a block.
proof fn lemma_patching_of_a_block(
    csv: Seq<char>,
    flash_info: FlashInfo,
    f: Fixing,
    patch_cboot: bool,
    number: u8,
)
    requires
        !f.changed.contains(number),
        after_patching(csv, flash_info, f, patch_cboot).0.changed.contains(number),
    ensures
        ({
            let after = after_patching(csv, flash_info, f, patch_cboot).0;
            &&& f.blocks.contains_key(number)
            &&& after.blocks.contains_key(number)
            &&& after.blocks[number] != f.blocks[number]
            &&& flash_info.checksum_kind != ChecksumKind::Simos ==> positions(
                f.blocks[number],
            ).len() == 2 && after.blocks[number] == patched(
                f.blocks[number],
                positions(f.blocks[number])[0],
                positions(f.blocks[number])[1],
            )
        }),
{
    let monitored = if flash_info.checksum_kind == ChecksumKind::Simos {
        after_ecm3(csv, flash_info, f)
    } else {
        f
    };
    let after = after_patching(csv, flash_info, f, patch_cboot).0;
    let cal = f.blocks[number];
    let raw = monitored.blocks[number];
    let at = if monitored.changed.contains(number) {
        let k = choose|k: int| 0 <= k < monitored.changed.len() && monitored.changed[k] == number;
        assert(k == f.changed.len()) by {
            if k < f.changed.len() {
                assert(f.changed[k] == number);
            }
        }
        assert(number_of(flash_info.block_names@, "CAL"@) == Some(number));
        let (start, end) = cal_range(csv, cal, flash_info)->0;
        crate::checksum::ecm3::law_a_fix_changes_the_block(
            seq![start as usize, end as usize],
            cal,
        );
        assert(raw != cal);
        stored_at(cal)
    } else {
        assert(raw == cal && monitored.blocks.contains_key(number)
            == f.blocks.contains_key(number)) by {
            if number_of(flash_info.block_names@, "CAL"@) == Some(number) {
                assert(monitored.changed.len() > f.changed.len() ==> monitored.changed.last()
                    == number);
            }
        }
        0
    };
    assert(agree_outside(raw, cal, at, 8));
    if after != monitored {
        assert(after.changed.len() == monitored.changed.len() + 1);
        if after.changed.last() == number {
            assert(positions(raw).len() == 2);
            law_a_patch_changes_the_block(raw, cal, after.blocks[number], at);
        } else {
            let k = choose|k: int| 0 <= k < after.changed.len() && after.changed[k] == number;
            assert(monitored.changed[k] == number);
        }
    }
}

/// A block that a correction lists as changed differs from the block that went in,
/// whether or not the correction went through. Of a block of the Simos family that the
/// table calls fixed, that is so where the table's bytes differ from the block.
pub proof fn law_a_listed_block_differs(
    csv: Seq<char>,
    flash_info: FlashInfo,
    f: Fixing,
    patch_cboot: bool,
    simos: Seq<(u8, (ChecksumState, Vec<u8>))>,
    number: u8,
)
    requires
        !f.changed.contains(number),
        after_all(csv, flash_info, f, patch_cboot, simos).0.changed.contains(number),
        flash_info.checksum_kind == ChecksumKind::Simos ==> (row_of(simos, number) matches Some(
            (ChecksumState::Fixed, bytes),
        ) ==> bytes@ != f.blocks[number]),
    ensures
        f.blocks.contains_key(number),
        after_all(csv, flash_info, f, patch_cboot, simos).0.blocks[number] != f.blocks[number],
{
    let (patched, fault) = after_patching(csv, flash_info, f, patch_cboot);
    lemma_patching_is_listed(csv, flash_info, f, patch_cboot);
    if patched.changed.contains(number) {
        lemma_patching_of_a_block(csv, flash_info, f, patch_cboot, number);
    }
    if fault is None {
        lemma_one_pass(flash_info, simos, patched, 6, number);
        let raw = patched.blocks[number];
        let (state, fixed) = block_pass(flash_info, raw, number, simos);
        if is_corrected(flash_info, simos, patched, number) && flash_info.checksum_kind
            != ChecksumKind::Simos {
            let at = match flash_info.checksum_kind {
                ChecksumKind::Dq381 => {
                    let base = match row_of(flash_info.base_addresses@, number) {
                        Some(a) => a,
                        None => 0,
                    };
                    crate::checksum::dq381::law_a_fix_changes_the_block(raw, base);
                    crate::checksum::dq381::CHECKSUM_AT as int
                },
                ChecksumKind::Dsg => {
                    crate::checksum::dsg::law_a_fix_changes_the_block(raw);
                    raw.len() - 4
                },
                _ => {
                    let location = row_of(flash_info.checksum_block_locations@, number);
                    crate::checksum::haldex::law_a_fix_changes_the_block(raw, number, location);
                    location->0 + 8
                },
            };
            assert(fixed != raw && agree_outside(fixed, raw, at, 8));
            if patched.changed.contains(number) {
                let before = f.blocks[number];
                assert(agree_outside(before, before, at, 8));
                law_a_patch_changes_the_block(before, before, fixed, at);
            }
        }
    }
}

/// Where the checksum stage goes through, each of its blocks was right or is what its
/// checksum pass made of it.
proof fn lemma_settled(
    flash_info: FlashInfo,
    simos: Seq<(u8, (ChecksumState, Vec<u8>))>,
    f: Fixing,
    n: nat,
    number: u8,
)
    requires
        number < n <= 6,
        after_blocks(flash_info, simos, f, n).1 is None,
        f.blocks.contains_key(number),
        !flash_info.unchecksummed_blocks@.contains(number),
    ensures
        ({
            let (state, fixed) = block_pass(flash_info, f.blocks[number], number, simos);
            let after = after_blocks(flash_info, simos, f, n).0;
            &&& state is Valid || state is Fixed
            &&& after.blocks.contains_key(number)
            &&& after.blocks[number] == if state is Fixed {
                fixed
            } else {
                f.blocks[number]
            }
        }),
    decreases n,
{
    let (before, fault) = after_blocks(flash_info, simos, f, (n - 1) as nat);
    assert(fault is None);
    if number < n - 1 {
        lemma_settled(flash_info, simos, f, (n - 1) as nat, number);
    } else {
        lemma_untouched(flash_info, simos, f, (n - 1) as nat, number);
    }
}

/// The checksum stage takes the blocks in turn.
proof fn lemma_untouched(
    flash_info: FlashInfo,
    simos: Seq<(u8, (ChecksumState, Vec<u8>))>,
    f: Fixing,
    n: nat,
    number: u8,
)
    requires
        n <= number,
    ensures
        ({
            let after = after_blocks(flash_info, simos, f, n).0;
            &&& after.blocks.contains_key(number) == f.blocks.contains_key(number)
            &&& f.blocks.contains_key(number) ==> after.blocks[number] == f.blocks[number]
        }),
    decreases n,
{
    if n > 0 {
        lemma_untouched(flash_info, simos, f, (n - 1) as nat, number);
    }
}

/// Where a correction goes through, every block up to 5 that has a checksum of its own
/// holds the right one afterwards, whatever was patched before. Of a DQ381 that is so
/// where the checksum lies outside the bytes that it covers.
pub proof fn law_corrected_blocks_check_out(
    csv: Seq<char>,
    flash_info: FlashInfo,
    f: Fixing,
    patch_cboot: bool,
    simos: Seq<(u8, (ChecksumState, Vec<u8>))>,
    number: u8,
)
    requires
        after_all(csv, flash_info, f, patch_cboot, simos).1 is None,
        f.blocks.contains_key(number),
        number <= 5,
        !flash_info.unchecksummed_blocks@.contains(number),
        flash_info.checksum_kind is Dsg || flash_info.checksum_kind is Haldex || (
        flash_info.checksum_kind is Dq381 && {
            let patched = after_patching(csv, flash_info, f, patch_cboot).0;
            let base = match row_of(flash_info.base_addresses@, number) {
                Some(a) => a,
                None => 0,
            };
            crate::checksum::dq381::covered(patched.blocks[number], base) matches Some((from, to))
                ==> to <= 0x44 || 0x48 <= from
        }),
    ensures
        ({
            let after = after_all(csv, flash_info, f, patch_cboot, simos).0;
            &&& after.blocks.contains_key(number)
            &&& block_pass(flash_info, after.blocks[number], number, simos).0 is Valid
        }),
{
    let patched = after_patching(csv, flash_info, f, patch_cboot).0;
    lemma_patching_is_listed(csv, flash_info, f, patch_cboot);
    assert(patched.blocks.dom().contains(number));
    lemma_settled(flash_info, simos, patched, 6, number);
    let raw = patched.blocks[number];
    let (state, fixed) = block_pass(flash_info, raw, number, simos);
    if state is Fixed {
        match flash_info.checksum_kind {
            ChecksumKind::Dsg => {
                crate::checksum::dsg::law_fixed_blocks_validate(raw);
            },
            ChecksumKind::Haldex => {
                crate::checksum::haldex::law_fixed_blocks_validate(
                    raw,
                    number,
                    row_of(flash_info.checksum_block_locations@, number),
                );
            },
            _ => {
                let base = match row_of(flash_info.base_addresses@, number) {
                    Some(a) => a,
                    None => 0,
                };
                crate::checksum::dq381::law_fixed_blocks_validate(raw, base);
            },
        }
    }
}

/// Where a correction with the CBOOT patch goes through, the CBOOT asked for sample mode in
/// exactly two places.
pub proof fn law_a_patch_needs_two_places(
    csv: Seq<char>,
    flash_info: FlashInfo,
    f: Fixing,
    simos: Seq<(u8, (ChecksumState, Vec<u8>))>,
)
    requires
        !(flash_info.checksum_kind is Simos),
        after_all(csv, flash_info, f, true, simos).1 is None,
    ensures
        number_of(flash_info.block_names@, "CBOOT"@) matches Some(n) && f.blocks.contains_key(n)
            && positions(f.blocks[n]).len() == 2,
{
}

/// A block without a checksum of its own comes out as it went in, unless it is the
/// calibration that the monitor checksum is corrected in, or the CBOOT that is to be
/// patched.
pub proof fn law_other_blocks_come_out_as_they_went_in(
    csv: Seq<char>,
    flash_info: FlashInfo,
    f: Fixing,
    patch_cboot: bool,
    simos: Seq<(u8, (ChecksumState, Vec<u8>))>,
    number: u8,
)
    requires
        f.blocks.contains_key(number),
        flash_info.unchecksummed_blocks@.contains(number) || number > 5,
        flash_info.checksum_kind == ChecksumKind::Simos ==> number_of(
            flash_info.block_names@,
            "CAL"@,
        ) != Some(number),
        patch_cboot ==> number_of(flash_info.block_names@, "CBOOT"@) != Some(number),
    ensures
        ({
            let after = after_all(csv, flash_info, f, patch_cboot, simos).0;
            after.blocks.contains_key(number) && after.blocks[number] == f.blocks[number]
        }),
{
    let (patched, fault) = after_patching(csv, flash_info, f, patch_cboot);
    assert(patched.blocks.contains_key(number) && patched.blocks[number] == f.blocks[number]);
    if fault is None {
        law_unchecksummed_blocks_stay(flash_info, simos, patched, 6, number);
    }
}

/// Asking for the CBOOT patch where there is no CBOOT is an error, never a
/// silent no-op.
pub proof fn law_patch_needs_a_cboot(
    csv: Seq<char>,
    flash_info: FlashInfo,
    f: Fixing,
    simos: Seq<(u8, (ChecksumState, Vec<u8>))>,
)
    requires
        number_of(flash_info.block_names@, "CBOOT"@) is None,
    ensures
        after_all(csv, flash_info, f, true, simos).1 == Some(Fault::NoCbootBlock),
{
}

} // verus!
