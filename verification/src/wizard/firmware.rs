//! What a firmware file holds, whether it fits an unlock, and which of its blocks
//! an operation writes.

use std::collections::HashMap;

use vstd::prelude::*;

use super::steps::Operation;
use crate::binfile::raw_blocks;
use crate::bytes::copy_range;
use crate::checksum::crc32;
use crate::fixup::{after_all, checksum_and_patch_blocks, lines, range_is_ordered, Fixing};
use crate::identify::opt;
use crate::module::{name_of, number_of, row_of, ChecksumState, FlashInfo, PreparedBlockData};
use crate::prepare::{prepare_block, prepare_patch_block, prepared, prepared_patch, Prepared};
use crate::text::{
    chars_of, dec, lossy_utf8, push_dec, split, split_chars, str_eq, string_of, strings, texts,
    trim, trimmed, utf8_lossy,
};

verus! {

broadcast use vstd::std_specs::hash::group_hash_axioms;

/// A file the user chose.
#[derive(Debug, Clone)]
pub struct ChosenFile {
    pub path: String,
    /// Its name, without the directory.
    pub name: Option<String>,
}

/// A file as a value.
pub struct Chosen {
    pub path: Seq<char>,
    pub name: Option<Seq<char>>,
}

impl View for ChosenFile {
    type V = Chosen;

    open spec fn view(&self) -> Chosen {
        Chosen { path: self.path@, name: opt(self.name) }
    }
}

/// What could be learned about a file without flashing it.
#[derive(Debug)]
pub struct FirmwareInfo {
    pub file: ChosenFile,
    /// Raw block bytes by block number.
    pub blocks: HashMap<u8, Vec<u8>>,
    /// Box code read out of the calibration block, when the module has one.
    pub box_code: Option<String>,
    /// Block name and software version of every block that carries one.
    pub versions: Vec<(String, String)>,
}

/// What is known of a file, as a value.
pub struct Firmware {
    pub file: Chosen,
    pub blocks: Map<u8, Seq<u8>>,
    pub box_code: Option<Seq<char>>,
    pub versions: Seq<(Seq<char>, Seq<char>)>,
}

/// Names and versions.
pub open spec fn pairs(v: Seq<(String, String)>) -> Seq<(Seq<char>, Seq<char>)> {
    v.map_values(|p: (String, String)| (p.0@, p.1@))
}

impl View for FirmwareInfo {
    type V = Firmware;

    open spec fn view(&self) -> Firmware {
        Firmware {
            file: self.file@,
            blocks: raw_blocks(self.blocks@),
            box_code: opt(self.box_code),
            versions: pairs(self.versions@),
        }
    }
}

/// The block numbers below `n` that are there, in ascending order.
pub open spec fn numbers_below(blocks: Map<u8, Seq<u8>>, n: nat) -> Seq<u8>
    decreases n,
{
    if n == 0 {
        Seq::empty()
    } else {
        let fewer = numbers_below(blocks, (n - 1) as nat);
        if blocks.contains_key((n - 1) as u8) {
            fewer.push((n - 1) as u8)
        } else {
            fewer
        }
    }
}

/// All block numbers that are there, in ascending order.
pub open spec fn numbers(blocks: Map<u8, Seq<u8>>) -> Seq<u8> {
    numbers_below(blocks, 256)
}

/// Exactly the blocks that are there are numbered.
pub proof fn lemma_numbers_below(blocks: Map<u8, Seq<u8>>, n: nat)
    requires
        n <= 256,
    ensures
        forall|x: u8|
            #[trigger] numbers_below(blocks, n).contains(x) <==> x < n && blocks.contains_key(x),
    decreases n,
{
    if n > 0 {
        lemma_numbers_below(blocks, (n - 1) as nat);
        let fewer = numbers_below(blocks, (n - 1) as nat);
        let all = numbers_below(blocks, n);
        assert forall|x: u8| #[trigger] all.contains(x) <==> x < n && blocks.contains_key(x) by {
            if blocks.contains_key((n - 1) as u8) {
                if x == n - 1 {
                    assert(all[all.len() - 1] == x);
                } else if all.contains(x) {
                    let i = choose|i: int| 0 <= i < all.len() && all[i] == x;
                    assert(fewer[i] == x);
                } else if fewer.contains(x) {
                    let i = choose|i: int| 0 <= i < fewer.len() && fewer[i] == x;
                    assert(all[i] == x);
                }
            }
            assert(fewer.contains(x) <==> x < n - 1 && blocks.contains_key(x));
        }
    }
}

fn list_numbers(blocks: &HashMap<u8, Vec<u8>>, below: u16) -> (v: Vec<u8>)
    requires
        below <= 256,
    ensures
        v@ == numbers_below(raw_blocks(blocks@), below as nat),
{
    let mut v: Vec<u8> = Vec::new();
    let mut n: u16 = 0;
    while n < below
        invariant
            n <= below <= 256,
            v@ == numbers_below(raw_blocks(blocks@), n as nat),
        decreases below - n,
    {
        let number: u8 = n as u8;
        if blocks.contains_key(&number) {
            v.push(number);
        }
        n = n + 1;
    }
    v
}

/// What a block is called.
pub open spec fn block_label(flash_info: FlashInfo, number: u8) -> Seq<char> {
    match name_of(flash_info.block_names@, number) {
        Some(name) => name,
        None => "block "@ + dec(number as nat),
    }
}

fn label_block(flash_info: &FlashInfo, number: u8) -> (s: String)
    ensures
        s@ == block_label(*flash_info, number),
{
    match flash_info.block_number_to_name(number) {
        Some(name) => name.to_owned(),
        None => {
            let mut s: String = "block ".to_owned();
            push_dec(&mut s, number as u64);
            s
        },
    }
}

/// What the given blocks are called.
pub open spec fn block_labels(flash_info: FlashInfo, list: Seq<u8>) -> Seq<Seq<char>> {
    list.map_values(|n: u8| block_label(flash_info, n))
}

impl FirmwareInfo {
    /// The names of the blocks, in the order of their numbers.
    pub fn block_names(&self, flash_info: &FlashInfo) -> (v: Vec<String>)
        ensures
            strings(v@) == block_labels(*flash_info, numbers(self@.blocks)),
    {
        let nums = list_numbers(&self.blocks, 256);
        let mut v: Vec<String> = Vec::new();
        let mut i: usize = 0;
        while i < nums.len()
            invariant
                i <= nums@.len(),
                strings(v@) == block_labels(*flash_info, nums@.take(i as int)),
            decreases nums@.len() - i,
        {
            assert(nums@.take(i + 1) == nums@.take(i as int).push(nums@[i as int]));
            let s = label_block(flash_info, nums[i]);
            let ghost before = strings(v@);
            v.push(s);
            assert(strings(v@) == before.push(s@));
            assert(block_labels(*flash_info, nums@.take(i + 1)) == block_labels(
                *flash_info,
                nums@.take(i as int),
            ).push(s@));
            i = i + 1;
        }
        assert(nums@.take(i as int) == nums@);
        v
    }
}

/// A text field without the white space round it, unless nothing is left.
pub open spec fn field_value(text: Seq<char>) -> Option<Seq<char>> {
    let t = trimmed(text, false);
    if t.len() == 0 {
        None
    } else {
        Some(t)
    }
}

/// A text field without the white space round it, unless nothing is left.
pub fn trim_field(text: &str) -> (r: Option<String>)
    ensures
        opt(r) == field_value(text@),
{
    let chars = chars_of(text);
    let t = trim(&chars, false);
    if t.len() == 0 {
        None
    } else {
        Some(string_of(&t))
    }
}

/// The text field of a block at the given place. Several modules have no such
/// field; its place then reads as (0, 0).
pub open spec fn field_of(bytes: Seq<u8>, place: Option<(usize, usize)>) -> Option<Seq<char>> {
    match place {
        None => None,
        Some((s, e)) => if e <= s || e > bytes.len() {
            None
        } else {
            field_value(utf8_lossy(bytes.subrange(s as int, e as int)))
        },
    }
}

fn read_field(bytes: &Vec<u8>, place: Option<(usize, usize)>) -> (r: Option<String>)
    ensures
        opt(r) == field_of(bytes@, place),
{
    match place {
        None => None,
        Some((s, e)) => if e <= s || e > bytes.len() {
            None
        } else {
            let part = copy_range(bytes.as_slice(), s, e);
            let text = lossy_utf8(part.as_slice());
            trim_field(text.as_str())
        },
    }
}

/// The box code a set of blocks carries.
pub open spec fn box_code_of(flash_info: FlashInfo, blocks: Map<u8, Seq<u8>>) -> Option<Seq<char>> {
    match number_of(flash_info.block_names@, "CAL"@) {
        None => None,
        Some(cal) => if blocks.contains_key(cal) {
            field_of(blocks[cal], row_of(flash_info.box_code_locations@, cal))
        } else {
            None
        },
    }
}

/// The software version of one block.
pub open spec fn version_of(flash_info: FlashInfo, blocks: Map<u8, Seq<u8>>, number: u8) -> Option<
    Seq<char>,
> {
    field_of(blocks[number], row_of(flash_info.software_version_locations@, number))
}

/// The software versions the given blocks carry.
pub open spec fn versions_of(
    flash_info: FlashInfo,
    blocks: Map<u8, Seq<u8>>,
    list: Seq<u8>,
) -> Seq<(Seq<char>, Seq<char>)>
    decreases list.len(),
{
    if list.len() == 0 {
        Seq::empty()
    } else {
        let fewer = versions_of(flash_info, blocks, list.drop_last());
        match version_of(flash_info, blocks, list.last()) {
            Some(v) => fewer.push((block_label(flash_info, list.last()), v)),
            None => fewer,
        }
    }
}

/// Why a file is not taken.
pub const NO_BLOCKS: &'static str = "No flashable blocks were found in this file.";

fn find_box_code(blocks: &HashMap<u8, Vec<u8>>, flash_info: &FlashInfo) -> (r: Option<String>)
    ensures
        opt(r) == box_code_of(*flash_info, raw_blocks(blocks@)),
{
    match flash_info.block_to_number("CAL") {
        None => None,
        Some(cal) => match blocks.get(&cal) {
            None => None,
            Some(bytes) => read_field(bytes, flash_info.box_code_location(cal)),
        },
    }
}

fn find_versions(blocks: &HashMap<u8, Vec<u8>>, flash_info: &FlashInfo, nums: &Vec<u8>) -> (v: Vec<
    (String, String),
>)
    requires
        forall|i: int| 0 <= i < nums@.len() ==> blocks@.contains_key(#[trigger] nums@[i]),
    ensures
        pairs(v@) == versions_of(*flash_info, raw_blocks(blocks@), nums@),
{
    let mut v: Vec<(String, String)> = Vec::new();
    let mut i: usize = 0;
    while i < nums.len()
        invariant
            i <= nums@.len(),
            forall|i: int| 0 <= i < nums@.len() ==> blocks@.contains_key(#[trigger] nums@[i]),
            pairs(v@) == versions_of(*flash_info, raw_blocks(blocks@), nums@.take(i as int)),
        decreases nums@.len() - i,
    {
        let n: u8 = nums[i];
        assert(nums@.take(i + 1).drop_last() == nums@.take(i as int));
        if let Some(bytes) = blocks.get(&n) {
            if let Some(text) = read_field(bytes, flash_info.software_version_location(n)) {
                let name = label_block(flash_info, n);
                let ghost before = pairs(v@);
                v.push((name, text));
                assert(pairs(v@) == before.push((name@, text@)));
            }
        }
        i = i + 1;
    }
    assert(nums@.take(i as int) == nums@);
    v
}

/// What the blocks of a file tell about it; the file is refused where it has
/// none.
pub fn inspect_firmware(
    file: ChosenFile,
    blocks: HashMap<u8, Vec<u8>>,
    flash_info: &FlashInfo,
) -> (r: Result<FirmwareInfo, String>)
    ensures
        match r {
            Ok(info) => {
                &&& exists|n: u8| blocks@.contains_key(n)
                &&& info@.file == file@
                &&& info@.blocks == raw_blocks(blocks@)
                &&& info@.box_code == box_code_of(*flash_info, raw_blocks(blocks@))
                &&& info@.versions == versions_of(
                    *flash_info,
                    raw_blocks(blocks@),
                    numbers(raw_blocks(blocks@)),
                )
            },
            Err(e) => (forall|n: u8| !blocks@.contains_key(n)) && e@ == NO_BLOCKS@,
        },
{
    let nums = list_numbers(&blocks, 256);
    proof {
        lemma_numbers_below(raw_blocks(blocks@), 256);
    }
    if nums.len() == 0 {
        assert forall|n: u8| !blocks@.contains_key(n) by {
            assert(!nums@.contains(n));
        }
        return Err(NO_BLOCKS.to_owned());
    }
    assert(nums@.contains(nums@[0]));
    assert forall|i: int| 0 <= i < nums@.len() implies blocks@.contains_key(#[trigger] nums@[i]) by {
        assert(nums@.contains(nums@[i]));
    }
    let box_code = find_box_code(&blocks, flash_info);
    let versions = find_versions(&blocks, flash_info, &nums);
    Ok(FirmwareInfo { file, blocks, box_code, versions })
}

/// The box code an unlock file must carry, with its version suffix.
pub fn required_unlock_box_code(flash_info: &FlashInfo) -> (r: Option<&str>)
    ensures
        match flash_info.patch_info {
            Some(p) => r matches Some(s) && s@ == p.patch_box_code@,
            None => r is None,
        },
{
    match &flash_info.patch_info {
        Some(p) => Some(p.patch_box_code.as_str()),
        None => None,
    }
}

/// The part number of a box code: what stands before its version suffix.
pub open spec fn part_of(box_code: Seq<char>) -> Seq<char> {
    split(box_code, '_')[0]
}

/// The part number of a box code.
pub fn part_number(box_code: &str) -> (s: String)
    ensures
        s@ == part_of(box_code@),
{
    let pieces = split_chars(&chars_of(box_code), '_');
    assert(texts(pieces@)[0] == pieces@[0]@);
    string_of(&pieces[0])
}

/// Why a file is not taken for an unlock.
pub const NO_UNLOCK: &'static str = "This module does not support unlocking.";

/// Why a file is not taken for an unlock.
pub const NO_BOX_CODE: &'static str =
    "No box code could be read from this file's calibration block, so it cannot be \
    verified as the correct unlock file.";

/// What is said of a file with another box code.
pub open spec fn other_box_code(found: Seq<char>, required: Seq<char>) -> Seq<char> {
    "This file is for box code "@ + found + ", but the unlock for this ECU is built against "@
        + part_of(required) + " (file "@ + required
        + "). Only that exact file will work — the patch is compiled for those precise software addresses, and flashing it against any other version will not produce a working ECU."@
}

/// Why a file with the given box code does not fit the unlock of a module.
pub open spec fn unlock_refusal(flash_info: FlashInfo, box_code: Option<Seq<char>>) -> Option<
    Seq<char>,
> {
    match flash_info.patch_info {
        None => Some(NO_UNLOCK@),
        Some(p) => match box_code {
            None => Some(NO_BOX_CODE@),
            Some(found) => if found == part_of(p.patch_box_code@) {
                None
            } else {
                Some(other_box_code(found, p.patch_box_code@))
            },
        },
    }
}

/// Whether a file is the one the unlock of a module was made for. Only the part
/// number of the stored box code is compared, not its version suffix.
pub fn validate_unlock_file(flash_info: &FlashInfo, info: &FirmwareInfo) -> (r: Result<(), String>)
    ensures
        match r {
            Ok(_) => unlock_refusal(*flash_info, info@.box_code) is None,
            Err(e) => unlock_refusal(*flash_info, info@.box_code) == Some(e@),
        },
{
    let required = match required_unlock_box_code(flash_info) {
        Some(s) => s,
        None => {
            return Err(NO_UNLOCK.to_owned());
        },
    };
    let required_part = part_number(required);
    match &info.box_code {
        Some(found) => {
            if str_eq(found.as_str(), required_part.as_str()) {
                return Ok(());
            }
            let mut s: String = "This file is for box code ".to_owned();
            s.push_str(found.as_str());
            s.push_str(", but the unlock for this ECU is built against ");
            s.push_str(required_part.as_str());
            s.push_str(" (file ");
            s.push_str(required);
            s.push_str(
                "). Only that exact file will work — the patch is compiled for those precise software addresses, and flashing it against any other version will not produce a working ECU.",
            );
            Err(s)
        },
        None => Err(NO_BOX_CODE.to_owned()),
    }
}

/// Whether the immobilizer pre-flight is relevant to an operation.
pub open spec fn immo_applies(
    flash_info: FlashInfo,
    blocks: Map<u8, Seq<u8>>,
    operation: Operation,
) -> bool {
    operation != Operation::Unlock && (number_of(flash_info.block_names@, "CAL"@) matches Some(cal)
        && blocks.contains_key(cal))
}

/// Whether the immobilizer pre-flight is relevant to an operation.
///
/// Two things have to be true. The calibration block is written: the power-class
/// allow-list that the anti-tuning interlock tests lives in the calibration area,
/// so a calibration-only flash can trip it just as a full flash can. And the ECU
/// will then run the application software: an unlock leaves it in the bootloader,
/// which never runs the interlock.
pub fn immo_check_applies(
    flash_info: &FlashInfo,
    firmware: &FirmwareInfo,
    operation: Operation,
) -> (r: bool)
    ensures
        r == immo_applies(*flash_info, firmware@.blocks, operation),
{
    if operation == Operation::Unlock {
        return false;
    }
    match flash_info.block_to_number("CAL") {
        Some(cal) => firmware.blocks.contains_key(&cal),
        None => false,
    }
}

/// A block that is to be prepared.
#[derive(Debug, Clone, Copy, PartialEq, Eq, Structural)]
pub enum Part {
    /// A block of the file.
    Block(u8),
    /// The unlock patch of the module, under this number.
    Patch(u8),
}

/// The parts that are blocks of the file.
pub open spec fn file_parts(list: Seq<u8>) -> Seq<Part> {
    list.map_values(|n: u8| Part::Block(n))
}

/// Why nothing is prepared.
pub const NO_BOOTLOADER: &'static str =
    "This file does not contain a bootloader block, so it cannot relock the ECU.";

/// Why nothing is prepared.
pub const NO_CAL_NAME: &'static str = "This module has no calibration block.";

/// Why nothing is prepared.
pub const NO_CAL_BLOCK: &'static str = "The file does not contain a calibration block.";

/// Why nothing is prepared.
pub const NO_PATCH: &'static str = "This module has no unlock patch.";

/// Why nothing is prepared.
pub const MISSING_CAL: &'static str = "The file is missing the calibration block.";

/// Whether the file holds the bootloader block of a module.
pub open spec fn has_cboot(flash_info: FlashInfo, blocks: Map<u8, Seq<u8>>) -> bool {
    number_of(flash_info.block_names@, "CBOOT"@) matches Some(n) && blocks.contains_key(n)
}

/// What an operation writes: the parts in the order they are written, or why
/// nothing is.
pub open spec fn parts_of(
    flash_info: FlashInfo,
    blocks: Map<u8, Seq<u8>>,
    operation: Operation,
) -> Result<Seq<Part>, Seq<char>> {
    match operation {
        Operation::CalibrationFlash => match number_of(flash_info.block_names@, "CAL"@) {
            None => Err(NO_CAL_NAME@),
            Some(cal) => if blocks.contains_key(cal) {
                Ok(seq![Part::Block(cal)])
            } else {
                Err(NO_CAL_BLOCK@)
            },
        },
        Operation::FullFlash | Operation::Relock => Ok(file_parts(numbers_below(blocks, 6))),
        Operation::Unlock => match flash_info.patch_info {
            None => Err(NO_PATCH@),
            Some(p) => match missing_below(blocks, 5) {
                Some(n) => Err("The file is missing block "@ + dec(n as nat) + "."@),
                None => if blocks.contains_key(5) {
                    Ok(
                        seq![
                            Part::Block(1u8),
                            Part::Block(2u8),
                            Part::Block(3u8),
                            Part::Block(4u8),
                            Part::Patch((p.patch_block_index + 5) as u8),
                            Part::Block(5u8),
                        ],
                    )
                } else {
                    Err(MISSING_CAL@)
                },
            },
        },
    }
}

/// The first block number from 1 below `n` that is not there.
pub open spec fn missing_below(blocks: Map<u8, Seq<u8>>, n: nat) -> Option<u8>
    decreases n,
{
    if n <= 1 {
        None
    } else {
        match missing_below(blocks, (n - 1) as nat) {
            Some(m) => Some(m),
            None => if blocks.contains_key((n - 1) as u8) {
                None
            } else {
                Some((n - 1) as u8)
            },
        }
    }
}

/// Which parts an operation writes, in the order they are written.
pub fn choose_parts(
    flash_info: &FlashInfo,
    blocks: &HashMap<u8, Vec<u8>>,
    operation: Operation,
) -> (r: Result<Vec<Part>, String>)
    requires
        operation == Operation::Unlock ==> (flash_info.patch_info matches Some(p) ==>
            p.patch_block_index <= 250),
    ensures
        match r {
            Ok(v) => parts_of(*flash_info, raw_blocks(blocks@), operation) == Ok::<_, Seq<char>>(v@),
            Err(e) => parts_of(*flash_info, raw_blocks(blocks@), operation) == Err::<Seq<Part>, _>(
                e@,
            ),
        },
{
    let mut parts: Vec<Part> = Vec::new();
    match operation {
        Operation::CalibrationFlash => {
            let cal: u8 = match flash_info.block_to_number("CAL") {
                Some(n) => n,
                None => {
                    return Err(NO_CAL_NAME.to_owned());
                },
            };
            if !blocks.contains_key(&cal) {
                return Err(NO_CAL_BLOCK.to_owned());
            }
            parts.push(Part::Block(cal));
            assert(parts@ == seq![Part::Block(cal)]);
        },
        Operation::FullFlash | Operation::Relock => {
            let nums = list_numbers(blocks, 6);
            let mut i: usize = 0;
            while i < nums.len()
                invariant
                    i <= nums@.len(),
                    parts@ == file_parts(nums@.take(i as int)),
                decreases nums@.len() - i,
            {
                assert(nums@.take(i + 1) == nums@.take(i as int).push(nums@[i as int]));
                parts.push(Part::Block(nums[i]));
                assert(parts@ == file_parts(nums@.take(i + 1)));
                i = i + 1;
            }
            assert(nums@.take(i as int) == nums@);
        },
        Operation::Unlock => {
            let patch: u8 = match &flash_info.patch_info {
                Some(p) => p.patch_block_index + 5,
                None => {
                    return Err(NO_PATCH.to_owned());
                },
            };
            let ghost raw = raw_blocks(blocks@);
            let mut n: u8 = 1;
            while n < 5
                invariant
                    1 <= n <= 5,
                    raw == raw_blocks(blocks@),
                    missing_below(raw, n as nat) is None,
                    parts@ == Seq::new((n - 1) as nat, |k: int| Part::Block((k + 1) as u8)),
                    flash_info.patch_info is Some,
                    operation == Operation::Unlock,
                decreases 5 - n,
            {
                if !blocks.contains_key(&n) {
                    proof {
                        assert(missing_below(raw, (n + 1) as nat) == Some(n));
                        lemma_missing_stays(raw, (n + 1) as nat, 5);
                    }
                    let mut s: String = "The file is missing block ".to_owned();
                    push_dec(&mut s, n as u64);
                    s.push_str(".");
                    return Err(s);
                }
                parts.push(Part::Block(n));
                n = n + 1;
            }
            parts.push(Part::Patch(patch));
            if !blocks.contains_key(&5) {
                return Err(MISSING_CAL.to_owned());
            }
            parts.push(Part::Block(5));
            assert(parts@ == seq![
                Part::Block(1u8),
                Part::Block(2u8),
                Part::Block(3u8),
                Part::Block(4u8),
                Part::Patch(patch),
                Part::Block(5u8),
            ]);
        },
    }
    Ok(parts)
}

/// A missing block stays missing.
pub proof fn lemma_missing_stays(blocks: Map<u8, Seq<u8>>, m: nat, n: nat)
    requires
        m <= n,
        missing_below(blocks, m) is Some,
    ensures
        missing_below(blocks, n) == missing_below(blocks, m),
    decreases n,
{
    if m < n {
        lemma_missing_stays(blocks, m, (n - 1) as nat);
    }
}

/// What correcting a file for an operation leads to: the corrected blocks, the
/// notes, and the parts to write or why there are none.
pub struct Correction {
    pub blocks: Map<u8, Seq<u8>>,
    pub notes: Seq<Seq<char>>,
    pub parts: Result<Seq<Part>, Seq<char>>,
}

/// How a file is corrected for an operation. A full flash of a module with a
/// bootloader patches it, which is what makes the ECU accept modified software; a
/// relock is the same flash without that patch.
pub open spec fn corrected(
    csv: Seq<char>,
    flash_info: FlashInfo,
    blocks: Map<u8, Seq<u8>>,
    operation: Operation,
    simos: Seq<(u8, (ChecksumState, Vec<u8>))>,
) -> Correction {
    let cboot = has_cboot(flash_info, blocks);
    if operation == Operation::Relock && !cboot {
        Correction { blocks, notes: Seq::empty(), parts: Err(NO_BOOTLOADER@) }
    } else {
        let start = Fixing { blocks, notes: Seq::empty(), changed: Seq::empty() };
        let (f, fault) = after_all(
            csv,
            flash_info,
            start,
            operation == Operation::FullFlash && cboot,
            simos,
        );
        match fault {
            Some(why) => Correction {
                blocks: f.blocks,
                notes: Seq::empty(),
                parts: Err(why.text()),
            },
            None => Correction {
                blocks: f.blocks,
                notes: f.notes,
                parts: parts_of(flash_info, f.blocks, operation),
            },
        }
    }
}

/// Correct the blocks of a file for an operation and choose the parts it writes,
/// before they are compressed and encrypted.
///
/// The order is load-bearing: where the checksum of the block routine is a CRC-32
/// of the plain block, it has to be taken after the internal checksums are
/// corrected and before compression.
pub fn correct_blocks(
    csv: &str,
    flash_info: &FlashInfo,
    blocks: &mut HashMap<u8, Vec<u8>>,
    operation: Operation,
    simos: &Vec<(u8, (ChecksumState, Vec<u8>))>,
) -> (r: (Result<Vec<Part>, String>, Vec<String>))
    requires
        range_is_ordered(csv@, *flash_info, raw_blocks(old(blocks)@)),
        operation == Operation::Unlock ==> (flash_info.patch_info matches Some(p) ==>
            p.patch_block_index <= 250),
    ensures
        ({
            let c = corrected(csv@, *flash_info, raw_blocks(old(blocks)@), operation, simos@);
            &&& raw_blocks(final(blocks)@) == c.blocks
            &&& strings(r.1@) == c.notes
            &&& match r.0 {
                Ok(v) => c.parts == Ok::<_, Seq<char>>(v@),
                Err(e) => c.parts == Err::<Seq<Part>, _>(e@),
            }
        }),
{
    let cboot = match flash_info.block_to_number("CBOOT") {
        Some(n) => blocks.contains_key(&n),
        None => false,
    };
    assert(strings(Seq::<String>::empty()) == Seq::<Seq<char>>::empty());
    if operation == Operation::Relock && !cboot {
        return (Err(NO_BOOTLOADER.to_owned()), Vec::new());
    }
    let patch_cboot = operation == Operation::FullFlash && cboot;
    match checksum_and_patch_blocks(csv, flash_info, blocks, patch_cboot, simos) {
        Err(e) => (Err(e.message()), Vec::new()),
        Ok(report) => {
            assert(strings(report.notes@) == lines(report.notes@));
            (choose_parts(flash_info, blocks, operation), report.notes)
        },
    }
}

/// A part as it is sent, given what it was compressed and encrypted to.
pub open spec fn prepared_part(
    flash_info: FlashInfo,
    blocks: Map<u8, Seq<u8>>,
    part: Part,
    payload: Seq<u8>,
) -> Prepared {
    match part {
        Part::Block(n) => prepared(
            flash_info,
            n,
            blocks[n].len() as int,
            crc32(blocks[n]),
            payload,
        ),
        Part::Patch(n) => prepared_patch(
            flash_info,
            n,
            match flash_info.patch_info {
                Some(p) => p.patch_bytes@.len() as int,
                None => 0,
            },
            payload,
        ),
    }
}

/// Whether a part can be made from the blocks of a file.
pub open spec fn available(blocks: Map<u8, Seq<u8>>, part: Part) -> bool {
    part matches Part::Block(n) ==> blocks.contains_key(n)
}

/// A part as it is sent, given what it was compressed and encrypted to.
pub fn prepare_part(
    flash_info: &FlashInfo,
    blocks: &HashMap<u8, Vec<u8>>,
    part: Part,
    payload: Vec<u8>,
) -> (r: PreparedBlockData)
    requires
        available(raw_blocks(blocks@), part),
    ensures
        r@ == prepared_part(*flash_info, raw_blocks(blocks@), part, payload@),
{
    match part {
        Part::Block(n) => match blocks.get(&n) {
            Some(raw) => prepare_block(flash_info, n, raw.as_slice(), payload),
            None => prepare_block(flash_info, n, &[], payload),
        },
        Part::Patch(n) => {
            let len: usize = match &flash_info.patch_info {
                Some(p) => p.patch_bytes.len(),
                None => 0,
            };
            prepare_patch_block(flash_info, n, len, payload)
        },
    }
}

/// What is noted once `count` blocks are prepared.
pub fn prepared_note(count: usize) -> (s: String)
    ensures
        s@ == dec(count as nat) + " block(s) prepared"@,
{
    let mut s = String::new();
    push_dec(&mut s, count as u64);
    s.push_str(" block(s) prepared");
    s
}

/// An unlock writes the four software blocks, then the patch, then the
/// calibration last, and is never checked against the immobilizer.
pub proof fn law_an_unlock_ends_with_the_calibration(
    flash_info: FlashInfo,
    blocks: Map<u8, Seq<u8>>,
)
    ensures
        parts_of(flash_info, blocks, Operation::Unlock) matches Ok(parts) ==> {
            &&& parts.len() == 6
            &&& parts[5] == Part::Block(5u8)
            &&& parts[4] is Patch
            &&& forall|i: int| 0 <= i < 4 ==> #[trigger] parts[i] == Part::Block((i + 1) as u8)
        },
        !immo_applies(flash_info, blocks, Operation::Unlock),
{
}

/// Whatever is written of a file is in the file.
pub proof fn law_only_blocks_of_the_file_are_written(
    flash_info: FlashInfo,
    blocks: Map<u8, Seq<u8>>,
    operation: Operation,
    part: Part,
)
    requires
        parts_of(flash_info, blocks, operation) matches Ok(parts) && parts.contains(part),
    ensures
        available(blocks, part),
{
    match operation {
        Operation::FullFlash | Operation::Relock => {
            lemma_numbers_below(blocks, 6);
            let list = numbers_below(blocks, 6);
            let i = choose|i: int| 0 <= i < file_parts(list).len() && file_parts(list)[i] == part;
            assert(list.contains(list[i]));
        },
        Operation::Unlock => {
            reveal_with_fuel(missing_below, 5);
        },
        Operation::CalibrationFlash => {},
    }
}

/// Only a full flash patches the bootloader: a relock corrects the blocks as they
/// are, without it.
pub proof fn law_a_relock_never_patches(
    csv: Seq<char>,
    flash_info: FlashInfo,
    blocks: Map<u8, Seq<u8>>,
    simos: Seq<(u8, (ChecksumState, Vec<u8>))>,
)
    requires
        has_cboot(flash_info, blocks),
    ensures
        corrected(csv, flash_info, blocks, Operation::Relock, simos).blocks == after_all(
            csv,
            flash_info,
            Fixing { blocks, notes: Seq::empty(), changed: Seq::empty() },
            false,
            simos,
        ).0.blocks,
        corrected(csv, flash_info, blocks, Operation::FullFlash, simos).blocks == after_all(
            csv,
            flash_info,
            Fixing { blocks, notes: Seq::empty(), changed: Seq::empty() },
            true,
            simos,
        ).0.blocks,
{
}

} // verus!
