//! The decisions behind the commands: which module and blocks are meant, how an
//! image is corrected, and which blocks an unlock writes.

use std::collections::HashMap;

use vstd::prelude::*;

use crate::a2l::table::{with_row, Table};
use crate::binfile::{
    belongs, blocks_from_bytes, blocks_of, cut, insert_block, raw_blocks, with_block, Block,
};
use crate::bytes::{copy_range, overwrite, spliced};
use crate::cboot::{
    law_patch_removes_every_needle, patch_cboot, patched, positions, PatchError,
};
use crate::fixup::{block_pass, validate_block};
use crate::module::{
    number_of, row_of, BlockData, ChecksumState, FlashInfo, PatchInfo, PreparedBlockData, Registry,
};
use crate::prepare::Prepared;
use crate::text::{
    chars_of, copy_chars, dec, join, joined, push_dec, str_eq, strict_utf8, string_of, strings,
    trim, trimmed,
};
use crate::wizard::firmware::{part_number, part_of};

verus! {

broadcast use vstd::std_specs::hash::group_hash_axioms;

/// The names of the modules.
pub open spec fn module_names(modules: Seq<(String, FlashInfo)>) -> Seq<Seq<char>> {
    modules.map_values(|m: (String, FlashInfo)| m.0@)
}

/// What is said of a module nobody knows.
pub open spec fn unknown_module(registry: Registry, module: Seq<char>) -> Seq<char> {
    "Unknown module: '"@ + module + "'. Valid modules: "@ + joined(
        module_names(registry.modules@),
        ", "@,
    )
}

/// Look a module up by name.
pub fn get_flash_info<'a>(registry: &'a Registry, module: &str) -> (r: Result<
    &'a FlashInfo,
    String,
>)
    ensures
        match r {
            Ok(fi) => registry.spec_get(module@) == Some(*fi),
            Err(e) => registry.spec_get(module@) is None && e@ == unknown_module(
                *registry,
                module@,
            ),
        },
{
    if let Some(fi) = registry.get_flash_info(module) {
        return Ok(fi);
    }
    let mut names: Vec<String> = Vec::new();
    let ghost all = module_names(registry.modules@);
    let mut i: usize = 0;
    while i < registry.modules.len()
        invariant
            i <= registry.modules@.len(),
            all == module_names(registry.modules@),
            strings(names@) == all.take(i as int),
        decreases registry.modules@.len() - i,
    {
        let name = registry.modules[i].0.clone();
        let ghost before = strings(names@);
        names.push(name);
        assert(strings(names@) == before.push(name@));
        assert(all[i as int] == name@);
        assert(all.take(i + 1) == all.take(i as int).push(name@));
        i = i + 1;
    }
    assert(all.take(i as int) == all);
    let mut s: String = "Unknown module: '".to_owned();
    s.push_str(module);
    s.push_str("'. Valid modules: ");
    s.push_str(join(&names, ", ").as_str());
    Err(s)
}

/// The place of the first colon.
pub open spec fn colon(s: Seq<char>) -> Option<int>
    decreases s.len(),
{
    if s.len() == 0 {
        None
    } else if s[0] == ':' {
        Some(0int)
    } else {
        match colon(s.skip(1)) {
            Some(i) => Some(i + 1),
            None => None,
        }
    }
}

fn find_colon(s: &Vec<char>) -> (r: Option<usize>)
    ensures
        match r {
            Some(i) => colon(s@) == Some(i as int) && i < s@.len(),
            None => colon(s@) is None,
        },
{
    let mut i: usize = 0;
    assert(s@.skip(0) == s@);
    while i < s.len()
        invariant
            i <= s@.len(),
            colon(s@) == match colon(s@.skip(i as int)) {
                Some(k) => Some(k + i),
                None => None::<int>,
            },
        decreases s@.len() - i,
    {
        assert(s@.skip(i as int).skip(1) == s@.skip(i + 1));
        if s[i] == ':' {
            return Some(i);
        }
        i = i + 1;
    }
    None
}

/// What the first `n` arguments name: paths by block name, the last one of a name
/// counting; or the argument that has no colon.
pub open spec fn files_below(args: Seq<Seq<char>>, n: nat) -> Result<
    Seq<(Seq<char>, Seq<char>)>,
    Seq<char>,
>
    decreases n,
{
    if n == 0 {
        Ok(Seq::empty())
    } else {
        match files_below(args, (n - 1) as nat) {
            Err(e) => Err(e),
            Ok(rows) => match colon(args[n - 1]) {
                None => Err(args[n - 1]),
                Some(i) => Ok(with_row(rows, args[n - 1].take(i), args[n - 1].skip(i + 1))),
            },
        }
    }
}

/// A fault stays the first.
proof fn lemma_files_fault(args: Seq<Seq<char>>, m: nat, n: nat)
    requires
        m <= n,
        files_below(args, m) is Err,
    ensures
        files_below(args, n) == files_below(args, m),
    decreases n,
{
    if m < n {
        lemma_files_fault(args, m, (n - 1) as nat);
    }
}

/// Parse block arguments, each `NAME:PATH`.
pub fn parse_block_args(args: &Vec<String>) -> (r: Result<Table<String>, String>)
    ensures
        match r {
            Ok(t) => files_below(strings(args@), args@.len()) == Ok::<_, Seq<char>>(t@),
            Err(e) => files_below(strings(args@), args@.len()) matches Err(arg) && e@
                == "Block argument '"@ + arg + "' must be in 'NAME:PATH' format"@,
        },
{
    let ghost all = strings(args@);
    let mut table: Table<String> = Table::new();
    let mut i: usize = 0;
    while i < args.len()
        invariant
            i <= args@.len(),
            all == strings(args@),
            files_below(all, i as nat) == Ok::<_, Seq<char>>(table@),
        decreases args@.len() - i,
    {
        assert(all[i as int] == args@[i as int]@);
        let chars = chars_of(args[i].as_str());
        match find_colon(&chars) {
            Some(k) => {
                let name = copy_chars(&chars, 0, k);
                let path = copy_chars(&chars, k + 1, chars.len());
                assert(name@ == chars@.take(k as int));
                assert(path@ == chars@.skip(k + 1));
                table.put(string_of(&name), string_of(&path));
            },
            None => {
                proof {
                    assert(files_below(all, (i + 1) as nat) is Err);
                    lemma_files_fault(all, (i + 1) as nat, args@.len());
                }
                let mut s: String = "Block argument '".to_owned();
                s.push_str(args[i].as_str());
                s.push_str("' must be in 'NAME:PATH' format");
                return Err(s);
            },
        }
        i = i + 1;
    }
    Ok(table)
}

/// Why a block is looked up by name.
#[derive(Debug, Clone, Copy, PartialEq, Eq, Structural)]
pub enum Purpose {
    Combine,
    Odx,
    Flash,
}

/// What is said of a block nobody knows.
pub open spec fn unknown_block(purpose: Purpose, name: Seq<char>, module: Seq<char>) -> Seq<char> {
    match purpose {
        Purpose::Combine => "Unknown block name: '"@ + name + "' for module '"@ + module + "'"@,
        Purpose::Odx => "Unknown ODX block '"@ + name + "'"@,
        Purpose::Flash => "Unknown block: '"@ + name + "'"@,
    }
}

/// The number of a block.
pub fn find_block(flash_info: &FlashInfo, module: &str, name: &str, purpose: Purpose) -> (r: Result<
    u8,
    String,
>)
    ensures
        match r {
            Ok(n) => number_of(flash_info.block_names@, name@) == Some(n),
            Err(e) => number_of(flash_info.block_names@, name@) is None && e@ == unknown_block(
                purpose,
                name@,
                module@,
            ),
        },
{
    if let Some(n) = flash_info.block_to_number(name) {
        return Ok(n);
    }
    let head: &'static str = match purpose {
        Purpose::Combine => "Unknown block name: '",
        Purpose::Odx => "Unknown ODX block '",
        Purpose::Flash => "Unknown block: '",
    };
    let mut s: String = head.to_owned();
    s.push_str(name);
    if purpose == Purpose::Combine {
        s.push_str("' for module '");
        s.push_str(module);
    }
    s.push_str("'");
    Err(s)
}

/// The names and bytes of several blocks.
pub open spec fn named_bytes(v: Seq<(String, Vec<u8>)>) -> Seq<(Seq<char>, Seq<u8>)> {
    v.map_values(|b: (String, Vec<u8>)| (b.0@, b.1@))
}

/// The first `n` blocks under their numbers, the last one of a name counting; or
/// the first name nobody knows.
pub open spec fn numbered_below(
    flash_info: FlashInfo,
    named: Seq<(Seq<char>, Seq<u8>)>,
    n: nat,
) -> Result<Seq<Block>, Seq<char>>
    decreases n,
{
    if n == 0 {
        Ok(Seq::empty())
    } else {
        match numbered_below(flash_info, named, (n - 1) as nat) {
            Err(name) => Err(name),
            Ok(blocks) => match number_of(flash_info.block_names@, named[n - 1].0) {
                None => Err(named[n - 1].0),
                Some(number) => Ok(
                    with_block(
                        blocks,
                        Block { number, bytes: named[n - 1].1, name: named[n - 1].0 },
                    ),
                ),
            },
        }
    }
}

/// An unknown name stays the first.
proof fn lemma_unknown_stays(
    flash_info: FlashInfo,
    named: Seq<(Seq<char>, Seq<u8>)>,
    m: nat,
    n: nat,
)
    requires
        m <= n,
        numbered_below(flash_info, named, m) is Err,
    ensures
        numbered_below(flash_info, named, n) == numbered_below(flash_info, named, m),
    decreases n,
{
    if m < n {
        lemma_unknown_stays(flash_info, named, m, (n - 1) as nat);
    }
}

/// Put named blocks under their numbers, ready to be combined.
pub fn number_blocks(
    flash_info: &FlashInfo,
    module: &str,
    named: &Vec<(String, Vec<u8>)>,
    purpose: Purpose,
) -> (r: Result<Vec<BlockData>, String>)
    ensures
        match r {
            Ok(blocks) => numbered_below(*flash_info, named_bytes(named@), named@.len()) == Ok::<
                _,
                Seq<char>,
            >(blocks_of(blocks@)),
            Err(e) => numbered_below(*flash_info, named_bytes(named@), named@.len()) matches Err(
                name,
            ) && e@ == unknown_block(purpose, name, module@),
        },
{
    let ghost all = named_bytes(named@);
    let mut blocks: Vec<BlockData> = Vec::new();
    let mut i: usize = 0;
    assert(blocks_of(blocks@) == Seq::<Block>::empty());
    while i < named.len()
        invariant
            i <= named@.len(),
            all == named_bytes(named@),
            numbered_below(*flash_info, all, i as nat) == Ok::<_, Seq<char>>(blocks_of(blocks@)),
        decreases named@.len() - i,
    {
        assert(all[i as int] == (named@[i as int].0@, named@[i as int].1@));
        match find_block(flash_info, module, named[i].0.as_str(), purpose) {
            Ok(number) => {
                let bytes = copy_range(named[i].1.as_slice(), 0, named[i].1.len());
                assert(bytes@ == named@[i as int].1@);
                let block = BlockData::with_name(number, bytes, named[i].0.as_str());
                insert_block(&mut blocks, block);
            },
            Err(e) => {
                proof {
                    assert(numbered_below(*flash_info, all, (i + 1) as nat) is Err);
                    lemma_unknown_stays(*flash_info, all, (i + 1) as nat, named@.len());
                }
                return Err(e);
            },
        }
        i = i + 1;
    }
    Ok(blocks)
}

/// Why an image is not patched.
#[derive(Debug, Clone)]
pub enum ImageError {
    /// The module has no CBOOT block; holds the module.
    NoCboot(String),
    NoOffset,
    NoLength,
    /// The block reaches past the end of the image.
    Beyond,
    Patch(PatchError),
}

/// Why an image is not patched, as a value.
pub enum ImageFault {
    NoCboot(Seq<char>),
    NoOffset,
    NoLength,
    Beyond,
    Patch(PatchError),
}

impl View for ImageError {
    type V = ImageFault;

    open spec fn view(&self) -> ImageFault {
        match self {
            ImageError::NoCboot(module) => ImageFault::NoCboot(module@),
            ImageError::NoOffset => ImageFault::NoOffset,
            ImageError::NoLength => ImageFault::NoLength,
            ImageError::Beyond => ImageFault::Beyond,
            ImageError::Patch(e) => ImageFault::Patch(*e),
        }
    }
}

impl ImageError {
    /// What the user is told. Of a failed patch, the error it holds tells more.
    pub fn message(&self) -> (s: String)
        ensures
            s@ == match self@ {
                ImageFault::NoCboot(module) => "Module '"@ + module + "' has no CBOOT block"@,
                ImageFault::NoOffset => "No binfile offset for CBOOT block"@,
                ImageFault::NoLength => "No block length for CBOOT block"@,
                ImageFault::Beyond => "CBOOT block extends beyond binary"@,
                ImageFault::Patch(_) => "CBOOT patch failed"@,
            },
    {
        match self {
            ImageError::NoCboot(module) => {
                let mut s: String = "Module '".to_owned();
                s.push_str(module.as_str());
                s.push_str("' has no CBOOT block");
                s
            },
            ImageError::NoOffset => "No binfile offset for CBOOT block".to_owned(),
            ImageError::NoLength => "No block length for CBOOT block".to_owned(),
            ImageError::Beyond => "CBOOT block extends beyond binary".to_owned(),
            ImageError::Patch(_) => "CBOOT patch failed".to_owned(),
        }
    }
}

/// Where the CBOOT block lies in an image of `size` bytes.
pub open spec fn cboot_range(flash_info: FlashInfo, module: Seq<char>, size: int) -> Result<
    (int, int),
    ImageFault,
> {
    match number_of(flash_info.block_names@, "CBOOT"@) {
        None => Err(ImageFault::NoCboot(module)),
        Some(n) => match row_of(flash_info.binfile_offsets@, n) {
            None => Err(ImageFault::NoOffset),
            Some(offset) => match row_of(flash_info.block_lengths@, n) {
                None => Err(ImageFault::NoLength),
                Some(length) => if offset + length > size {
                    Err(ImageFault::Beyond)
                } else {
                    Ok((offset as int, offset + length))
                },
            },
        },
    }
}

/// An image with its CBOOT block patched.
pub open spec fn image_patched(flash_info: FlashInfo, module: Seq<char>, data: Seq<u8>) -> Result<
    Seq<u8>,
    ImageFault,
> {
    match cboot_range(flash_info, module, data.len() as int) {
        Err(e) => Err(e),
        Ok((from, to)) => {
            let block = data.subrange(from, to);
            let found = positions(block);
            if found.len() == 2 {
                Ok(spliced(data, from, patched(block, found[0], found[1])))
            } else {
                Err(ImageFault::Patch(PatchError::WrongMatchCount(found.len() as usize)))
            }
        },
    }
}

/// Patch the CBOOT block of an image to enable sample mode. A failure leaves the
/// image alone.
pub fn patch_image(flash_info: &FlashInfo, module: &str, data: &mut Vec<u8>) -> (r: Result<
    (),
    ImageError,
>)
    ensures
        match image_patched(*flash_info, module@, old(data)@) {
            Ok(image) => r is Ok && final(data)@ == image,
            Err(why) => (r matches Err(e) && e@ == why) && final(data)@ == old(data)@,
        },
{
    let number: u8 = match flash_info.block_to_number("CBOOT") {
        Some(n) => n,
        None => {
            return Err(ImageError::NoCboot(module.to_owned()));
        },
    };
    let offset: usize = match flash_info.binfile_offset(number) {
        Some(n) => n,
        None => {
            return Err(ImageError::NoOffset);
        },
    };
    let length: usize = match flash_info.block_length(number) {
        Some(n) => n,
        None => {
            return Err(ImageError::NoLength);
        },
    };
    if offset > data.len() || length > data.len() - offset {
        return Err(ImageError::Beyond);
    }
    let block = copy_range(data.as_slice(), offset, offset + length);
    match patch_cboot(block.as_slice()) {
        Ok(bytes) => {
            proof {
                law_patch_removes_every_needle(block@);
            }
            overwrite(data, offset, bytes.as_slice());
            Ok(())
        },
        Err(e) => Err(ImageError::Patch(e)),
    }
}

/// What a checksum pass is told as.
pub open spec fn state_line(name: Seq<char>, state: ChecksumState) -> Seq<char> {
    name + match state {
        ChecksumState::Valid => ": valid"@,
        ChecksumState::Fixed => ": fixed"@,
        ChecksumState::Invalid => ": invalid (could not fix)"@,
        ChecksumState::Failed => ": failed"@,
    }
}

/// An image in the course of being corrected.
pub struct Image {
    pub data: Seq<u8>,
    pub lines: Seq<Seq<char>>,
    pub failed: bool,
}

/// An image with a corrected block put back, as far as the image reaches.
pub open spec fn put_back(data: Seq<u8>, offset: Option<usize>, block: Seq<u8>) -> Seq<u8> {
    match offset {
        Some(from) => if from <= data.len() {
            let room = data.len() - from;
            spliced(
                data,
                from as int,
                block.take(
                    if block.len() < room {
                        block.len() as int
                    } else {
                        room
                    },
                ),
            )
        } else {
            data
        },
        None => data,
    }
}

/// An image after its first `n` blocks were corrected.
pub open spec fn image_below(
    flash_info: FlashInfo,
    simos: Seq<(u8, (ChecksumState, Vec<u8>))>,
    data: Seq<u8>,
    blocks: Seq<Block>,
    n: nat,
) -> Image
    decreases n,
{
    if n == 0 {
        Image { data, lines: Seq::empty(), failed: false }
    } else {
        let before = image_below(flash_info, simos, data, blocks, (n - 1) as nat);
        let b = blocks[n - 1];
        let (state, fixed) = block_pass(flash_info, b.bytes, b.number, simos);
        Image {
            data: if state == ChecksumState::Fixed {
                put_back(before.data, row_of(flash_info.binfile_offsets@, b.number), fixed)
            } else {
                before.data
            },
            lines: before.lines.push(state_line(b.name, state)),
            failed: before.failed || state == ChecksumState::Invalid || state
                == ChecksumState::Failed,
        }
    }
}

/// The blocks of an image.
pub open spec fn image_blocks(flash_info: FlashInfo, lengths: Seq<(u8, usize)>, data: Seq<u8>) -> Seq<
    Block,
> {
    cut(data, flash_info, lengths).filter(|b: Block| belongs(flash_info, b))
}

/// An image after all of its blocks were corrected.
pub open spec fn image_fixed(
    flash_info: FlashInfo,
    simos: Seq<(u8, (ChecksumState, Vec<u8>))>,
    lengths: Seq<(u8, usize)>,
    data: Seq<u8>,
) -> Image {
    let blocks = image_blocks(flash_info, lengths, data);
    image_below(flash_info, simos, data, blocks, blocks.len())
}

fn write_back(data: &mut Vec<u8>, offset: Option<usize>, block: &Vec<u8>)
    ensures
        final(data)@ == put_back(old(data)@, offset, block@),
        final(data)@.len() == old(data)@.len(),
{
    if let Some(from) = offset {
        if from <= data.len() {
            let room: usize = data.len() - from;
            let len: usize = if block.len() < room {
                block.len()
            } else {
                room
            };
            let part = copy_range(block.as_slice(), 0, len);
            assert(part@ == block@.take(len as int));
            overwrite(data, from, part.as_slice());
        }
    }
}

/// Correct the checksums of an image in place. `lengths` gives the length each
/// block has in it, `simos` what the Simos checksum gave for its blocks. Returns
/// what is told of each block, and whether all of them check out.
pub fn fix_image(
    flash_info: &FlashInfo,
    data: &mut Vec<u8>,
    lengths: &Vec<(u8, usize)>,
    simos: &Vec<(u8, (ChecksumState, Vec<u8>))>,
) -> (r: (Vec<String>, Result<(), String>))
    ensures
        ({
            let done = image_fixed(*flash_info, simos@, lengths@, old(data)@);
            &&& final(data)@ == done.data
            &&& strings(r.0@) == done.lines
            &&& r.1 is Ok <==> !done.failed
            &&& r.1 matches Err(e) ==> e@ == "One or more blocks could not be checksummed"@
        }),
{
    let ghost start = data@;
    let blocks = blocks_from_bytes(data.as_slice(), flash_info, lengths);
    let ghost all = blocks_of(blocks@);
    assert(all == image_blocks(*flash_info, lengths@, start));
    let mut out: Vec<String> = Vec::new();
    let mut failed = false;
    let mut i: usize = 0;
    assert(strings(out@) == Seq::<Seq<char>>::empty());
    while i < blocks.len()
        invariant
            i <= blocks@.len(),
            all == blocks_of(blocks@),
            ({
                let so_far = image_below(*flash_info, simos@, start, all, i as nat);
                &&& data@ == so_far.data
                &&& strings(out@) == so_far.lines
                &&& failed == so_far.failed
            }),
        decreases blocks@.len() - i,
    {
        let b = &blocks[i];
        assert(all[i as int] == b@);
        let (state, fixed) = validate_block(
            flash_info,
            b.block_bytes.as_slice(),
            b.block_number,
            simos,
        );
        let mut line: String = b.block_name.clone();
        match state {
            ChecksumState::Valid => {
                line.push_str(": valid");
            },
            ChecksumState::Fixed => {
                line.push_str(": fixed");
                write_back(data, flash_info.binfile_offset(b.block_number), &fixed);
            },
            ChecksumState::Invalid => {
                failed = true;
                line.push_str(": invalid (could not fix)");
            },
            ChecksumState::Failed => {
                failed = true;
                line.push_str(": failed");
            },
        }
        let ghost before = strings(out@);
        out.push(line);
        assert(strings(out@) == before.push(line@));
        i = i + 1;
    }
    assert(all.len() == blocks@.len());
    let verdict = if failed {
        Err("One or more blocks could not be checksummed".to_owned())
    } else {
        Ok(())
    };
    (out, verdict)
}

/// Why an unlock is not made.
#[derive(Debug, Clone)]
pub enum UnlockError {
    /// The module has no unlock patch; holds the module.
    Unsupported(String),
    NoCal,
    NoBoxCodeLocation,
    /// The box code lies outside the calibration block.
    OutOfBounds,
    NotUtf8,
    /// The file is for another box code: what it has, the part number that is
    /// required, and the full box code of the patch.
    Mismatch { found: String, required: String, full: String },
    Missing(u8),
}

/// Why an unlock is not made, as a value.
pub enum UnlockFault {
    Unsupported(Seq<char>),
    NoCal,
    NoBoxCodeLocation,
    OutOfBounds,
    NotUtf8,
    Mismatch(Seq<char>, Seq<char>, Seq<char>),
    Missing(u8),
}

impl View for UnlockError {
    type V = UnlockFault;

    open spec fn view(&self) -> UnlockFault {
        match self {
            UnlockError::Unsupported(module) => UnlockFault::Unsupported(module@),
            UnlockError::NoCal => UnlockFault::NoCal,
            UnlockError::NoBoxCodeLocation => UnlockFault::NoBoxCodeLocation,
            UnlockError::OutOfBounds => UnlockFault::OutOfBounds,
            UnlockError::NotUtf8 => UnlockFault::NotUtf8,
            UnlockError::Mismatch { found, required, full } => UnlockFault::Mismatch(
                found@,
                required@,
                full@,
            ),
            UnlockError::Missing(n) => UnlockFault::Missing(*n),
        }
    }
}

impl UnlockFault {
    /// What the user is told.
    pub open spec fn text(self) -> Seq<char> {
        match self {
            UnlockFault::Unsupported(module) => "Module '"@ + module
                + "' does not support unlock (no patch_info)"@,
            UnlockFault::NoCal => "FRF does not contain CAL (block 5)"@,
            UnlockFault::NoBoxCodeLocation => "No box_code_location for block 5"@,
            UnlockFault::OutOfBounds => "Box code range out of bounds in CAL block"@,
            UnlockFault::NotUtf8 => "Box code bytes are not valid UTF-8"@,
            UnlockFault::Mismatch(found, required, full) => "Box code mismatch: file has '"@ + found
                + "' but unlock patch requires '"@ + required + "' (full patch_box_code: '"@ + full
                + "')"@,
            UnlockFault::Missing(n) => "FRF is missing block "@ + dec(n as nat),
        }
    }
}

impl UnlockError {
    /// What the user is told.
    pub fn message(&self) -> (s: String)
        ensures
            s@ == self@.text(),
    {
        match self {
            UnlockError::Unsupported(module) => {
                let mut s: String = "Module '".to_owned();
                s.push_str(module.as_str());
                s.push_str("' does not support unlock (no patch_info)");
                s
            },
            UnlockError::NoCal => "FRF does not contain CAL (block 5)".to_owned(),
            UnlockError::NoBoxCodeLocation => "No box_code_location for block 5".to_owned(),
            UnlockError::OutOfBounds => "Box code range out of bounds in CAL block".to_owned(),
            UnlockError::NotUtf8 => "Box code bytes are not valid UTF-8".to_owned(),
            UnlockError::Mismatch { found, required, full } => {
                let mut s: String = "Box code mismatch: file has '".to_owned();
                s.push_str(found.as_str());
                s.push_str("' but unlock patch requires '");
                s.push_str(required.as_str());
                s.push_str("' (full patch_box_code: '");
                s.push_str(full.as_str());
                s.push_str("')");
                s
            },
            UnlockError::Missing(n) => {
                let mut s: String = "FRF is missing block ".to_owned();
                push_dec(&mut s, *n as u64);
                s
            },
        }
    }
}

/// The box code of a file for an unlock, checked against the one of the patch.
pub open spec fn unlock_box_code(
    flash_info: FlashInfo,
    module: Seq<char>,
    blocks: Map<u8, Seq<u8>>,
) -> Result<Seq<char>, UnlockFault> {
    match flash_info.patch_info {
        None => Err(UnlockFault::Unsupported(module)),
        Some(patch) => if !blocks.contains_key(5) {
            Err(UnlockFault::NoCal)
        } else {
            match row_of(flash_info.box_code_locations@, 5) {
                None => Err(UnlockFault::NoBoxCodeLocation),
                Some((from, to)) => if to > blocks[5].len() {
                    Err(UnlockFault::OutOfBounds)
                } else {
                    let bytes = blocks[5].subrange(from as int, to as int);
                    if !vstd::utf8::valid_utf8(bytes) {
                        Err(UnlockFault::NotUtf8)
                    } else {
                        let found = trimmed(vstd::utf8::decode_utf8(bytes), false);
                        let required = part_of(patch.patch_box_code@);
                        if found == required {
                            Ok(found)
                        } else {
                            Err(UnlockFault::Mismatch(found, required, patch.patch_box_code@))
                        }
                    }
                },
            }
        },
    }
}

/// Whether the box code of the calibration block starts before it ends.
pub open spec fn box_code_ordered(flash_info: FlashInfo) -> bool {
    row_of(flash_info.box_code_locations@, 5) matches Some(place) ==> place.0 <= place.1
}

/// Check that a file is the one the unlock was made for; gives its box code.
pub fn check_unlock_file(
    flash_info: &FlashInfo,
    module: &str,
    blocks: &HashMap<u8, Vec<u8>>,
) -> (r: Result<String, UnlockError>)
    requires
        box_code_ordered(*flash_info),
    ensures
        match r {
            Ok(s) => unlock_box_code(*flash_info, module@, raw_blocks(blocks@)) == Ok::<
                _,
                UnlockFault,
            >(s@),
            Err(e) => unlock_box_code(*flash_info, module@, raw_blocks(blocks@)) == Err::<
                Seq<char>,
                _,
            >(e@),
        },
{
    let patch: &PatchInfo = match &flash_info.patch_info {
        Some(p) => p,
        None => {
            return Err(UnlockError::Unsupported(module.to_owned()));
        },
    };
    let cal: &Vec<u8> = match blocks.get(&5) {
        Some(v) => v,
        None => {
            return Err(UnlockError::NoCal);
        },
    };
    let (from, to): (usize, usize) = match flash_info.box_code_location(5) {
        Some(place) => place,
        None => {
            return Err(UnlockError::NoBoxCodeLocation);
        },
    };
    if to > cal.len() {
        return Err(UnlockError::OutOfBounds);
    }
    let bytes = copy_range(cal.as_slice(), from, to);
    let text = match strict_utf8(bytes.as_slice()) {
        Some(t) => t,
        None => {
            return Err(UnlockError::NotUtf8);
        },
    };
    let found = string_of(&trim(&chars_of(text.as_str()), false));
    let required = part_number(patch.patch_box_code.as_str());
    if str_eq(found.as_str(), required.as_str()) {
        Ok(found)
    } else {
        Err(UnlockError::Mismatch { found, required, full: patch.patch_box_code.clone() })
    }
}

/// A block of a command-line flash as it is sent: always encrypted and compressed
/// in the same way, with its checksum from the module's table, and erased unless
/// it is a patch.
pub open spec fn flash_block(
    flash_info: FlashInfo,
    number: u8,
    name: Seq<char>,
    boxcode: Seq<char>,
    raw_len: int,
    payload: Seq<u8>,
) -> Prepared {
    Prepared {
        number,
        payload,
        boxcode,
        encryption_type: 0x0A,
        compression_type: 0x0A,
        erase: number <= 5,
        checksum: match row_of(flash_info.block_checksums@, number) {
            Some(b) => b@,
            None => seq![0u8, 0u8, 0u8, 0u8],
        },
        name,
        announced_length: flash_info.spec_announced_length(number, raw_len) as u32,
    }
}

/// A block of a command-line flash as it is sent.
pub fn describe_flash_block(
    flash_info: &FlashInfo,
    number: u8,
    name: &str,
    boxcode: &str,
    raw_len: usize,
    payload: Vec<u8>,
) -> (r: PreparedBlockData)
    ensures
        r@ == flash_block(*flash_info, number, name@, boxcode@, raw_len as int, payload@),
{
    let uds_checksum: [u8; 4] = match flash_info.block_checksum(number) {
        Some(b) => b,
        None => [0, 0, 0, 0],
    };
    let length: usize = flash_info.announced_length(number, raw_len);
    let r = PreparedBlockData {
        block_number: number,
        block_encrypted_bytes: payload,
        boxcode: boxcode.to_owned(),
        encryption_type: 0x0A,
        compression_type: 0x0A,
        should_erase: number <= 5,
        uds_checksum,
        block_name: name.to_owned(),
        announced_length: length as u32,
    };
    assert(r@.checksum == flash_block(
        *flash_info,
        number,
        name@,
        boxcode@,
        raw_len as int,
        payload@,
    ).checksum);
    r
}

/// The unlock patch as the command line sends it.
pub open spec fn patch_block(number: u8, raw_len: int, payload: Seq<u8>) -> Prepared {
    Prepared {
        number,
        payload,
        boxcode: Seq::empty(),
        encryption_type: 0x0A,
        compression_type: 0x0A,
        erase: false,
        checksum: seq![0u8, 0u8, 0u8, 0u8],
        name: "UNLOCK_PATCH"@,
        announced_length: raw_len as u32,
    }
}

/// The unlock patch as the command line sends it.
pub fn describe_patch_block(number: u8, raw_len: usize, payload: Vec<u8>) -> (r: PreparedBlockData)
    ensures
        r@ == patch_block(number, raw_len as int, payload@),
{
    let r = PreparedBlockData {
        block_number: number,
        block_encrypted_bytes: payload,
        boxcode: String::new(),
        encryption_type: 0x0A,
        compression_type: 0x0A,
        should_erase: false,
        uds_checksum: [0, 0, 0, 0],
        block_name: "UNLOCK_PATCH".to_owned(),
        announced_length: raw_len as u32,
    };
    assert(r@.checksum == seq![0u8, 0u8, 0u8, 0u8]);
    r
}

/// The first of the blocks 1 to 4 that a file lacks.
pub fn missing_block(blocks: &HashMap<u8, Vec<u8>>) -> (r: Option<u8>)
    ensures
        r == crate::wizard::firmware::missing_below(raw_blocks(blocks@), 5),
{
    let ghost raw = raw_blocks(blocks@);
    let mut n: u8 = 1;
    while n < 5
        invariant
            1 <= n <= 5,
            raw == raw_blocks(blocks@),
            crate::wizard::firmware::missing_below(raw, n as nat) is None,
        decreases 5 - n,
    {
        if !blocks.contains_key(&n) {
            proof {
                assert(crate::wizard::firmware::missing_below(raw, (n + 1) as nat) == Some(n));
                crate::wizard::firmware::lemma_missing_stays(raw, (n + 1) as nat, 5);
            }
            return Some(n);
        }
        n = n + 1;
    }
    None
}

/// The places of the given number in a list, in order.
pub open spec fn places_of(numbers: Seq<u8>, number: u8) -> Seq<int>
    decreases numbers.len(),
{
    if numbers.len() == 0 {
        Seq::empty()
    } else {
        let fewer = places_of(numbers.drop_last(), number);
        if numbers.last() == number {
            fewer.push(numbers.len() - 1)
        } else {
            fewer
        }
    }
}

/// The places of the numbers below `n`, by number, and in order where they are the
/// same.
pub open spec fn order_below(numbers: Seq<u8>, n: nat) -> Seq<int>
    decreases n,
{
    if n == 0 {
        Seq::empty()
    } else {
        order_below(numbers, (n - 1) as nat) + places_of(numbers, (n - 1) as u8)
    }
}

/// Places as mathematical integers.
pub open spec fn places(v: Seq<usize>) -> Seq<int> {
    v.map_values(|i: usize| i as int)
}

/// The order blocks are flashed in: by number, and in the order given where they
/// share one.
pub fn flash_order(numbers: &Vec<u8>) -> (v: Vec<usize>)
    ensures
        places(v@) == order_below(numbers@, 256),
{
    let mut v: Vec<usize> = Vec::new();
    let mut n: u16 = 0;
    assert(places(v@) == Seq::<int>::empty());
    while n < 256
        invariant
            n <= 256,
            places(v@) == order_below(numbers@, n as nat),
        decreases 256 - n,
    {
        let ghost before = places(v@);
        let mut i: usize = 0;
        assert(numbers@.take(0) == Seq::<u8>::empty());
        assert(before + Seq::<int>::empty() == before);
        while i < numbers.len()
            invariant
                i <= numbers@.len(),
                n < 256,
                places(v@) == before + places_of(numbers@.take(i as int), n as u8),
            decreases numbers@.len() - i,
        {
            assert(numbers@.take(i + 1).drop_last() == numbers@.take(i as int));
            if numbers[i] == n as u8 {
                let ghost was = places(v@);
                v.push(i);
                assert(places(v@) == was.push(i as int));
                assert(places(v@) == before + places_of(numbers@.take(i + 1), n as u8));
            }
            i = i + 1;
        }
        assert(numbers@.take(i as int) == numbers@);
        n = n + 1;
    }
    v
}

/// Every place of a list is among the places of its number, and nothing else is.
proof fn lemma_places(numbers: Seq<u8>, number: u8)
    ensures
        forall|i: int|
            #[trigger] places_of(numbers, number).contains(i) <==> 0 <= i < numbers.len()
                && numbers[i] == number,
        forall|a: int, b: int|
            0 <= a < b < places_of(numbers, number).len() ==> places_of(numbers, number)[a]
                < places_of(numbers, number)[b],
    decreases numbers.len(),
{
    if numbers.len() > 0 {
        let fewer = places_of(numbers.drop_last(), number);
        let all = places_of(numbers, number);
        lemma_places(numbers.drop_last(), number);
        assert forall|i: int|
            #[trigger] all.contains(i) <==> 0 <= i < numbers.len() && numbers[i] == number by {
            assert(fewer.contains(i) <==> 0 <= i < numbers.len() - 1 && numbers.drop_last()[i]
                == number);
            if numbers.last() == number {
                if i == numbers.len() - 1 {
                    assert(all[all.len() - 1] == i);
                } else if all.contains(i) {
                    let k = choose|k: int| 0 <= k < all.len() && all[k] == i;
                    assert(fewer[k] == i);
                } else if fewer.contains(i) {
                    let k = choose|k: int| 0 <= k < fewer.len() && fewer[k] == i;
                    assert(all[k] == i);
                }
            }
        }
        assert forall|a: int, b: int| 0 <= a < b < all.len() implies all[a] < all[b] by {
            if b == all.len() - 1 && numbers.last() == number {
                assert(fewer.contains(fewer[a]));
            }
        }
    }
}

/// The flash order takes every block once and never puts a higher number before a
/// lower one.
pub proof fn law_flash_order_sorts(numbers: Seq<u8>, n: nat)
    requires
        n <= 256,
    ensures
        forall|i: int|
            #[trigger] order_below(numbers, n).contains(i) <==> 0 <= i < numbers.len()
                && numbers[i] < n,
        forall|a: int, b: int|
            0 <= a < b < order_below(numbers, n).len() ==> {
                let i = #[trigger] order_below(numbers, n)[a];
                let j = #[trigger] order_below(numbers, n)[b];
                numbers[i] < numbers[j] || (numbers[i] == numbers[j] && i < j)
            },
    decreases n,
{
    if n > 0 {
        law_flash_order_sorts(numbers, (n - 1) as nat);
        let last = (n - 1) as u8;
        lemma_places(numbers, last);
        let fewer = order_below(numbers, (n - 1) as nat);
        let more = places_of(numbers, last);
        let all = order_below(numbers, n);
        assert forall|i: int|
            #[trigger] all.contains(i) <==> 0 <= i < numbers.len() && numbers[i] < n by {
            assert(fewer.contains(i) <==> 0 <= i < numbers.len() && numbers[i] < n - 1);
            assert(more.contains(i) <==> 0 <= i < numbers.len() && numbers[i] == last);
            if all.contains(i) {
                let k = choose|k: int| 0 <= k < all.len() && all[k] == i;
                if k < fewer.len() {
                    assert(fewer[k] == i);
                } else {
                    assert(more[k - fewer.len()] == i);
                }
            }
            if fewer.contains(i) {
                let k = choose|k: int| 0 <= k < fewer.len() && fewer[k] == i;
                assert(all[k] == i);
            }
            if more.contains(i) {
                let k = choose|k: int| 0 <= k < more.len() && more[k] == i;
                assert(all[fewer.len() + k] == i);
            }
        }
        assert forall|a: int, b: int| 0 <= a < b < all.len() implies {
            let i = #[trigger] all[a];
            let j = #[trigger] all[b];
            numbers[i] < numbers[j] || (numbers[i] == numbers[j] && i < j)
        } by {
            if b < fewer.len() {
                assert(all[a] == fewer[a] && all[b] == fewer[b]);
            } else {
                assert(all[b] == more[b - fewer.len()]);
                assert(more.contains(all[b]));
                if a < fewer.len() {
                    assert(all[a] == fewer[a]);
                    assert(fewer.contains(all[a]));
                } else {
                    assert(all[a] == more[a - fewer.len()]);
                    assert(more.contains(all[a]));
                }
            }
        }
    }
}

/// Correcting an image never changes its size.
pub proof fn law_fixing_keeps_the_size(
    flash_info: FlashInfo,
    simos: Seq<(u8, (ChecksumState, Vec<u8>))>,
    data: Seq<u8>,
    blocks: Seq<Block>,
    n: nat,
)
    requires
        n <= blocks.len(),
    ensures
        image_below(flash_info, simos, data, blocks, n).data.len() == data.len(),
    decreases n,
{
    if n > 0 {
        law_fixing_keeps_the_size(flash_info, simos, data, blocks, (n - 1) as nat);
    }
}

} // verus!
