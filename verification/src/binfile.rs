//! Splitting and combining of full flash images, and the choice of how a
//! firmware file is to be read.

use std::collections::HashMap;

use vstd::prelude::*;

use crate::bytes::{copy_range, overwrite, spliced};
use crate::frf::{files_of, File};
use crate::module::{name_of, number_of, row_of, BlockData, FlashInfo};
use crate::text::{
    chars_of, ends_with, has_prefix, has_suffix, lower_chars, lowered, starts_with, str_eq,
    strict_utf8,
};

verus! {

broadcast use vstd::std_specs::hash::group_hash_axioms;

/// Why a firmware file gave no blocks.
#[derive(Debug, Clone)]
pub enum BinfileError {
    /// The file could not be read.
    Io(String),
    /// The extension is none of the known ones; holds the path.
    UnsupportedType(String),
    /// The container holds no ODX file.
    NoOdx,
    /// The ODX file is not text.
    OdxNotUtf8,
    /// The ODX file holds no flash blocks.
    NoBlocks,
}

impl BinfileError {
    /// What the user is told.
    pub open spec fn text(self) -> Seq<char> {
        match self {
            BinfileError::Io(e) => "IO error: "@ + e@,
            BinfileError::UnsupportedType(
                path,
            ) => "Unsupported file type (expected .frf, .odx, or .bin): "@ + path@,
            BinfileError::NoOdx => "FRF does not contain an ODX file (SGO format not yet supported)"@,
            BinfileError::OdxNotUtf8 => "ODX entry is not valid UTF-8"@,
            BinfileError::NoBlocks => "ODX contains no flash blocks"@,
        }
    }

    /// What the user is told.
    pub fn message(&self) -> (s: String)
        ensures
            s@ == self.text(),
    {
        match self {
            BinfileError::Io(e) => {
                let mut s = "IO error: ".to_owned();
                s.push_str(e.as_str());
                s
            },
            BinfileError::UnsupportedType(path) => {
                let mut s = "Unsupported file type (expected .frf, .odx, or .bin): ".to_owned();
                s.push_str(path.as_str());
                s
            },
            BinfileError::NoOdx => {
                "FRF does not contain an ODX file (SGO format not yet supported)".to_owned()
            },
            BinfileError::OdxNotUtf8 => "ODX entry is not valid UTF-8".to_owned(),
            BinfileError::NoBlocks => "ODX contains no flash blocks".to_owned(),
        }
    }
}

/// A block as a value.
pub struct Block {
    pub number: u8,
    pub bytes: Seq<u8>,
    pub name: Seq<char>,
}

impl View for BlockData {
    type V = Block;

    open spec fn view(&self) -> Block {
        Block { number: self.block_number, bytes: self.block_bytes@, name: self.block_name@ }
    }
}

/// What a list of blocks holds.
pub open spec fn blocks_of(v: Seq<BlockData>) -> Seq<Block> {
    v.map_values(|b: BlockData| b@)
}

impl BlockData {
    /// A block with a name.
    pub fn with_name(block_number: u8, block_bytes: Vec<u8>, name: &str) -> (r: Self)
        ensures
            r.block_number == block_number,
            r.block_bytes == block_bytes,
            r.block_name@ == name@,
    {
        BlockData { block_number, block_bytes, block_name: name.to_owned() }
    }
}

/// A block belongs to the module: it carries no version, or one that starts with
/// the project name.
pub open spec fn belongs(flash_info: FlashInfo, block: Block) -> bool {
    if flash_info.project_name@.len() == 0 {
        true
    } else {
        match row_of(flash_info.software_version_locations@, block.number) {
            Some((from, to)) => if to > from {
                to <= block.bytes.len() && vstd::utf8::valid_utf8(
                    block.bytes.subrange(from as int, to as int),
                ) && starts_with(
                    vstd::utf8::decode_utf8(block.bytes.subrange(from as int, to as int)),
                    flash_info.project_name@,
                )
            } else {
                true
            },
            None => true,
        }
    }
}

fn block_belongs(flash_info: &FlashInfo, block: &BlockData) -> (r: bool)
    ensures
        r == belongs(*flash_info, block@),
{
    if flash_info.project_name.as_str().is_empty() {
        return true;
    }
    match flash_info.software_version_location(block.block_number) {
        Some((from, to)) => {
            if to <= from {
                return true;
            }
            if to > block.block_bytes.len() {
                return false;
            }
            let version = copy_range(block.block_bytes.as_slice(), from, to);
            match strict_utf8(version.as_slice()) {
                Some(text) => {
                    let chars = chars_of(text.as_str());
                    has_prefix(&chars, flash_info.project_name.as_str())
                },
                None => false,
            }
        },
        None => true,
    }
}

/// Drop the blocks whose software version does not start with the module's
/// project name.
pub fn filter_blocks(blocks: Vec<BlockData>, flash_info: &FlashInfo) -> (r: Vec<BlockData>)
    ensures
        blocks_of(r@) == blocks_of(blocks@).filter(|b: Block| belongs(*flash_info, b)),
{
    let ghost keep = |b: Block| belongs(*flash_info, b);
    let ghost all = blocks_of(blocks@);
    let mut kept: Vec<BlockData> = Vec::new();
    let mut i: usize = 0;
    assert(blocks_of(kept@) == all.take(0).filter(keep)) by {
        reveal(Seq::filter);
    }
    while i < blocks.len()
        invariant
            i <= blocks@.len(),
            all == blocks_of(blocks@),
            keep == (|b: Block| belongs(*flash_info, b)),
            blocks_of(kept@) == all.take(i as int).filter(keep),
        decreases blocks@.len() - i,
    {
        let ghost before = kept@;
        proof {
            let next = all.take(i + 1);
            assert(next.drop_last() == all.take(i as int));
            assert(next.last() == blocks@[i as int]@);
            reveal(Seq::filter);
        }
        if block_belongs(flash_info, &blocks[i]) {
            let b = &blocks[i];
            let copy = BlockData {
                block_number: b.block_number,
                block_bytes: copy_range(b.block_bytes.as_slice(), 0, b.block_bytes.len()),
                block_name: b.block_name.clone(),
            };
            assert(copy.block_bytes@ == b.block_bytes@);
            kept.push(copy);
            assert(blocks_of(kept@) == blocks_of(before).push(b@));
        }
        i = i + 1;
    }
    assert(all.take(i as int) == all);
    kept
}

/// `blocks` with one more: it takes the place of one with the same name.
pub open spec fn with_block(blocks: Seq<Block>, block: Block) -> Seq<Block>
    decreases blocks.len(),
{
    if blocks.len() == 0 {
        seq![block]
    } else if blocks[0].name == block.name {
        seq![block] + blocks.skip(1)
    } else {
        seq![blocks[0]] + with_block(blocks.skip(1), block)
    }
}

/// Add a block to a list in which no name occurs twice.
pub fn insert_block(blocks: &mut Vec<BlockData>, block: BlockData)
    ensures
        blocks_of(final(blocks)@) == with_block(blocks_of(old(blocks)@), block@),
{
    let ghost all = blocks_of(blocks@);
    let mut i: usize = 0;
    assert(all.skip(0) == all);
    assert(all.take(0) + with_block(all.skip(0), block@) == with_block(all, block@));
    while i < blocks.len()
        invariant
            i <= blocks@.len(),
            blocks@ == old(blocks)@,
            all == blocks_of(blocks@),
            with_block(all, block@) == all.take(i as int) + with_block(all.skip(i as int), block@),
        decreases blocks@.len() - i,
    {
        let ghost rest = all.skip(i as int);
        assert(rest[0] == all[i as int]);
        assert(rest.skip(1) == all.skip(i + 1));
        if str_eq(blocks[i].block_name.as_str(), block.block_name.as_str()) {
            let ghost b = block@;
            blocks.set(i, block);
            assert(blocks_of(blocks@) == all.take(i as int) + (seq![b] + all.skip(i + 1)));
            return;
        }
        assert(all.take(i as int) + (seq![rest[0]] + with_block(rest.skip(1), block@)) == all.take(
            i + 1,
        ) + with_block(all.skip(i + 1), block@));
        i = i + 1;
    }
    assert(all.take(i as int) == all);
    assert(all.skip(i as int).len() == 0);
    let ghost b = block@;
    blocks.push(block);
    assert(blocks_of(blocks@) == all + seq![b]);
}

/// Where a block lies in an image of `size` bytes, if it lies inside.
pub open spec fn placed_at(
    flash_info: FlashInfo,
    lengths: Seq<(u8, usize)>,
    number: u8,
    size: int,
) -> Option<(int, int)> {
    match (row_of(flash_info.binfile_offsets@, number), row_of(lengths, number)) {
        (Some(offset), Some(length)) => if offset + length <= size {
            Some((offset as int, offset + length))
        } else {
            None
        },
        _ => None,
    }
}

/// The logical name of a block, or else its name inside a container: what a
/// split gives out can be fed back without renaming.
pub open spec fn split_name(flash_info: FlashInfo, row: (u8, String)) -> Seq<char> {
    match name_of(flash_info.block_names@, row.0) {
        Some(name) => name,
        None => row.1@,
    }
}

/// The blocks the first `n` rows of the table cut out of an image.
pub open spec fn cut_below(
    data: Seq<u8>,
    flash_info: FlashInfo,
    lengths: Seq<(u8, usize)>,
    n: nat,
) -> Seq<Block>
    decreases n,
{
    if n == 0 {
        Seq::empty()
    } else {
        let before = cut_below(data, flash_info, lengths, (n - 1) as nat);
        let row = flash_info.block_names_frf@[n - 1];
        match placed_at(flash_info, lengths, row.0, data.len() as int) {
            Some((from, to)) => with_block(
                before,
                Block {
                    number: row.0,
                    bytes: data.subrange(from, to),
                    name: split_name(flash_info, row),
                },
            ),
            None => before,
        }
    }
}

/// All blocks cut out of an image.
pub open spec fn cut(data: Seq<u8>, flash_info: FlashInfo, lengths: Seq<(u8, usize)>) -> Seq<
    Block,
> {
    cut_below(data, flash_info, lengths, flash_info.block_names_frf@.len())
}

fn length_of(lengths: &Vec<(u8, usize)>, number: u8) -> (r: Option<usize>)
    ensures
        r == row_of(lengths@, number),
{
    let mut i: usize = 0;
    assert(lengths@.skip(0) == lengths@);
    while i < lengths.len()
        invariant
            i <= lengths@.len(),
            row_of(lengths@, number) == row_of(lengths@.skip(i as int), number),
        decreases lengths@.len() - i,
    {
        assert(lengths@.skip(i as int).skip(1) == lengths@.skip(i + 1));
        if lengths[i].0 == number {
            return Some(lengths[i].1);
        }
        i = i + 1;
    }
    None
}

/// Split an image into named blocks. `lengths` gives the length each block has
/// in this image.
pub fn blocks_from_bytes(data: &[u8], flash_info: &FlashInfo, lengths: &Vec<(u8, usize)>) -> (r:
    Vec<BlockData>)
    ensures
        blocks_of(r@) == cut(data@, *flash_info, lengths@).filter(
            |b: Block| belongs(*flash_info, b),
        ),
{
    let mut blocks: Vec<BlockData> = Vec::new();
    let mut i: usize = 0;
    assert(blocks_of(blocks@) == cut_below(data@, *flash_info, lengths@, 0));
    while i < flash_info.block_names_frf.len()
        invariant
            i <= flash_info.block_names_frf@.len(),
            blocks_of(blocks@) == cut_below(data@, *flash_info, lengths@, i as nat),
        decreases flash_info.block_names_frf@.len() - i,
    {
        let number: u8 = flash_info.block_names_frf[i].0;
        let offset = flash_info.binfile_offset(number);
        let length = length_of(lengths, number);
        if let Some(from) = offset {
            if let Some(count) = length {
                if count <= data.len() && from <= data.len() - count {
                    let name = match flash_info.block_number_to_name(number) {
                        Some(name) => name,
                        None => flash_info.block_names_frf[i].1.as_str(),
                    };
                    let bytes = copy_range(data, from, from + count);
                    let block = BlockData::with_name(number, bytes, name);
                    insert_block(&mut blocks, block);
                }
            }
        }
        i = i + 1;
    }
    filter_blocks(blocks, flash_info)
}

/// What is left of a block when it is laid into an image of `size` bytes.
pub open spec fn clipped(bytes: Seq<u8>, offset: int, size: int) -> Seq<u8> {
    if bytes.len() <= size - offset {
        bytes
    } else {
        bytes.take(size - offset)
    }
}

/// An image after the first `n` blocks were laid into it.
pub open spec fn laid_below(
    empty: Seq<u8>,
    flash_info: FlashInfo,
    blocks: Seq<Block>,
    n: nat,
) -> Seq<u8>
    decreases n,
{
    if n == 0 {
        empty
    } else {
        let before = laid_below(empty, flash_info, blocks, (n - 1) as nat);
        match row_of(flash_info.binfile_offsets@, blocks[n - 1].number) {
            Some(offset) => spliced(
                before,
                offset as int,
                clipped(blocks[n - 1].bytes, offset as int, empty.len() as int),
            ),
            None => before,
        }
    }
}

/// An image of zeroes.
pub open spec fn blank(size: nat) -> Seq<u8> {
    Seq::new(size, |i: int| 0u8)
}

/// The image blocks are combined to.
pub open spec fn combined(flash_info: FlashInfo, blocks: Seq<Block>) -> Seq<u8> {
    laid_below(blank(flash_info.binfile_size as nat), flash_info, blocks, blocks.len())
}

/// Every block starts inside the image.
pub open spec fn starts_inside(flash_info: FlashInfo, blocks: Seq<Block>) -> bool {
    forall|i: int|
        #![trigger blocks[i]]
        0 <= i < blocks.len() ==> match row_of(flash_info.binfile_offsets@, blocks[i].number) {
            Some(offset) => offset <= flash_info.binfile_size,
            None => true,
        }
}

proof fn lemma_laid_len(empty: Seq<u8>, flash_info: FlashInfo, blocks: Seq<Block>, n: nat)
    requires
        n <= blocks.len(),
        empty.len() == flash_info.binfile_size,
        starts_inside(flash_info, blocks),
    ensures
        laid_below(empty, flash_info, blocks, n).len() == empty.len(),
    decreases n,
{
    if n > 0 {
        lemma_laid_len(empty, flash_info, blocks, (n - 1) as nat);
        let b = blocks[n - 1];
    }
}

/// Assemble blocks into a full image, in the order given.
pub fn bin_from_blocks(blocks: &Vec<BlockData>, flash_info: &FlashInfo) -> (out: Vec<u8>)
    requires
        starts_inside(*flash_info, blocks_of(blocks@)),
    ensures
        out@ == combined(*flash_info, blocks_of(blocks@)),
        out@.len() == flash_info.binfile_size,
{
    let ghost all = blocks_of(blocks@);
    let size: usize = flash_info.binfile_size;
    let mut output: Vec<u8> = Vec::new();
    let mut k: usize = 0;
    while k < size
        invariant
            k <= size,
            output@ == blank(k as nat),
        decreases size - k,
    {
        output.push(0);
        k = k + 1;
        assert(output@ == blank(k as nat));
    }
    let ghost empty = output@;
    let mut i: usize = 0;
    while i < blocks.len()
        invariant
            i <= blocks@.len(),
            all == blocks_of(blocks@),
            size == flash_info.binfile_size,
            empty == blank(size as nat),
            starts_inside(*flash_info, all),
            output@ == laid_below(empty, *flash_info, all, i as nat),
            output@.len() == size,
        decreases blocks@.len() - i,
    {
        assert(all[i as int] == blocks@[i as int]@);
        let block = &blocks[i];
        if let Some(offset) = flash_info.binfile_offset(block.block_number) {
            let room: usize = size - offset;
            let count: usize = if block.block_bytes.len() <= room {
                block.block_bytes.len()
            } else {
                room
            };
            let part = copy_range(block.block_bytes.as_slice(), 0, count);
            assert(part@ == clipped(block.block_bytes@, offset as int, size as int));
            overwrite(&mut output, offset, part.as_slice());
        }
        i = i + 1;
    }
    output
}

/// The bytes a block takes up in an image.
pub open spec fn extent(flash_info: FlashInfo, block: Block) -> (int, int) {
    match row_of(flash_info.binfile_offsets@, block.number) {
        Some(offset) => (offset as int, offset + block.bytes.len()),
        None => (0, 0),
    }
}

/// No two blocks share a byte of the image.
pub open spec fn disjoint(flash_info: FlashInfo, blocks: Seq<Block>) -> bool {
    forall|i: int, j: int|
        #![trigger blocks[i], blocks[j]]
        0 <= i < blocks.len() && 0 <= j < blocks.len() && i != j ==> extent(
            flash_info,
            blocks[i],
        ).1 <= extent(flash_info, blocks[j]).0 || extent(flash_info, blocks[j]).1 <= extent(
            flash_info,
            blocks[i],
        ).0
}

proof fn lemma_laid_block(
    empty: Seq<u8>,
    flash_info: FlashInfo,
    blocks: Seq<Block>,
    n: nat,
    k: int,
)
    requires
        0 <= k < n <= blocks.len(),
        empty.len() == flash_info.binfile_size,
        starts_inside(flash_info, blocks),
        disjoint(flash_info, blocks),
        row_of(flash_info.binfile_offsets@, blocks[k].number) is Some,
        extent(flash_info, blocks[k]).1 <= flash_info.binfile_size,
    ensures
        laid_below(empty, flash_info, blocks, n).subrange(
            extent(flash_info, blocks[k]).0,
            extent(flash_info, blocks[k]).1,
        ) == blocks[k].bytes,
    decreases n,
{
    lemma_laid_len(empty, flash_info, blocks, n);
    lemma_laid_len(empty, flash_info, blocks, (n - 1) as nat);
    let (from, to) = extent(flash_info, blocks[k]);
    let after = laid_below(empty, flash_info, blocks, n);
    let before = laid_below(empty, flash_info, blocks, (n - 1) as nat);
    if k == n - 1 {
        assert(after.subrange(from, to) == blocks[k].bytes);
    } else {
        lemma_laid_block(empty, flash_info, blocks, (n - 1) as nat, k);
        let b = blocks[n - 1];
        match row_of(flash_info.binfile_offsets@, b.number) {
            Some(offset) => {
                assert(extent(flash_info, b).1 <= from || to <= extent(flash_info, b).0);
                assert(after.subrange(from, to) == before.subrange(from, to)) by {
                    assert forall|i: int| from <= i < to implies after[i] == before[i] by {}
                }
            },
            None => {},
        }
    }
}

/// A block that fits into the image can be cut out of it again, unless another
/// one lies over it.
pub proof fn law_blocks_can_be_cut_out_again(
    flash_info: FlashInfo,
    blocks: Seq<Block>,
    k: int,
)
    requires
        0 <= k < blocks.len(),
        starts_inside(flash_info, blocks),
        disjoint(flash_info, blocks),
        row_of(flash_info.binfile_offsets@, blocks[k].number) is Some,
        extent(flash_info, blocks[k]).1 <= flash_info.binfile_size,
    ensures
        combined(flash_info, blocks).subrange(
            extent(flash_info, blocks[k]).0,
            extent(flash_info, blocks[k]).1,
        ) == blocks[k].bytes,
        combined(flash_info, blocks).len() == flash_info.binfile_size,
{
    let empty = blank(flash_info.binfile_size as nat);
    lemma_laid_len(empty, flash_info, blocks, blocks.len());
    lemma_laid_block(empty, flash_info, blocks, blocks.len(), k);
}

/// Every block that is cut out of an image holds the bytes of its place there.
pub proof fn law_cut_blocks_hold_their_place(
    data: Seq<u8>,
    flash_info: FlashInfo,
    lengths: Seq<(u8, usize)>,
    n: nat,
    k: int,
)
    requires
        n <= flash_info.block_names_frf@.len(),
        0 <= k < cut_below(data, flash_info, lengths, n).len(),
    ensures
        ({
            let b = cut_below(data, flash_info, lengths, n)[k];
            placed_at(flash_info, lengths, b.number, data.len() as int) matches Some((from, to))
                && b.bytes == data.subrange(from, to)
        }),
    decreases n,
{
    if n > 0 {
        let before = cut_below(data, flash_info, lengths, (n - 1) as nat);
        let row = flash_info.block_names_frf@[n - 1];
        assert forall|j: int| 0 <= j < before.len() implies ({
            placed_at(flash_info, lengths, (#[trigger] before[j]).number, data.len() as int)
                matches Some((from, to)) && before[j].bytes == data.subrange(from, to)
        }) by {
            law_cut_blocks_hold_their_place(data, flash_info, lengths, (n - 1) as nat, j);
        }
        match placed_at(flash_info, lengths, row.0, data.len() as int) {
            Some((from, to)) => {
                let block = Block {
                    number: row.0,
                    bytes: data.subrange(from, to),
                    name: split_name(flash_info, row),
                };
                lemma_with_block_members(before, block, k);
            },
            None => {},
        }
    }
}

proof fn lemma_with_block_members(blocks: Seq<Block>, block: Block, k: int)
    requires
        0 <= k < with_block(blocks, block).len(),
    ensures
        with_block(blocks, block)[k] == block || exists|j: int|
            0 <= j < blocks.len() && #[trigger] blocks[j] == with_block(blocks, block)[k],
    decreases blocks.len(),
{
    let out = with_block(blocks, block);
    if blocks.len() == 0 {
    } else if blocks[0].name == block.name {
        if k > 0 {
            assert(out[k] == blocks[k]);
        }
    } else if k == 0 {
        assert(out[0] == blocks[0]);
    } else {
        let rest = blocks.skip(1);
        lemma_with_block_members(rest, block, k - 1);
        assert(out[k] == with_block(rest, block)[k - 1]);
        if out[k] != block {
            let j = choose|j: int|
                0 <= j < rest.len() && #[trigger] rest[j] == with_block(rest, block)[k - 1];
            assert(blocks[j + 1] == out[k]);
        }
    }
}

/// How a firmware file is read.
#[derive(Debug, Clone, Copy, PartialEq, Eq, Structural)]
pub enum FirmwareKind {
    Frf,
    Odx,
    Bin,
}

/// The kind of a file, by its extension in any case.
pub open spec fn kind_of(extension: Seq<char>) -> Option<FirmwareKind> {
    if lowered(extension) == "frf"@ {
        Some(FirmwareKind::Frf)
    } else if lowered(extension) == "odx"@ {
        Some(FirmwareKind::Odx)
    } else if lowered(extension) == "bin"@ {
        Some(FirmwareKind::Bin)
    } else {
        None
    }
}

/// The kind of a firmware file, from the extension of its name.
pub fn firmware_kind(extension: Option<&str>, path: &str) -> (r: Result<FirmwareKind, BinfileError>)
    ensures
        match extension {
            Some(e) => match kind_of(e@) {
                Some(kind) => r == Ok::<FirmwareKind, BinfileError>(kind),
                None => r matches Err(BinfileError::UnsupportedType(p)) && p@ == path@,
            },
            None => r matches Err(BinfileError::UnsupportedType(p)) && p@ == path@,
        },
{
    if let Some(e) = extension {
        let chars = chars_of(e);
        let low = crate::text::string_of(&lower_chars(&chars));
        if str_eq(low.as_str(), "frf") {
            return Ok(FirmwareKind::Frf);
        }
        if str_eq(low.as_str(), "odx") {
            return Ok(FirmwareKind::Odx);
        }
        if str_eq(low.as_str(), "bin") {
            return Ok(FirmwareKind::Bin);
        }
    }
    Err(BinfileError::UnsupportedType(path.to_owned()))
}

/// A file is an ODX file.
pub open spec fn is_odx(file: File) -> bool {
    ends_with(lowered(file.name), ".odx"@)
}

/// The position of the first ODX file.
pub open spec fn first_odx(files: Seq<File>) -> Option<int>
    decreases files.len(),
{
    if files.len() == 0 {
        None
    } else if is_odx(files[0]) {
        Some(0int)
    } else {
        match first_odx(files.skip(1)) {
            Some(i) => Some(i + 1),
            None => None,
        }
    }
}

/// The text of the first ODX file of a container.
pub fn odx_text(files: &Vec<(String, Vec<u8>)>) -> (r: Result<String, BinfileError>)
    ensures
        match first_odx(files_of(files@)) {
            None => r matches Err(e) && e is NoOdx,
            Some(i) => if vstd::utf8::valid_utf8(files@[i].1@) {
                r matches Ok(s) && s@ == vstd::utf8::decode_utf8(files@[i].1@)
            } else {
                r matches Err(e) && e is OdxNotUtf8
            },
        },
{
    let ghost all = files_of(files@);
    let mut i: usize = 0;
    assert(all.skip(0) == all);
    while i < files.len()
        invariant
            i <= files@.len(),
            all == files_of(files@),
            first_odx(all) == match first_odx(all.skip(i as int)) {
                Some(k) => Some(k + i),
                None => None::<int>,
            },
        decreases files@.len() - i,
    {
        assert(all.skip(i as int).skip(1) == all.skip(i + 1));
        assert(all.skip(i as int)[0].name == files@[i as int].0@);
        let chars = chars_of(files[i].0.as_str());
        let low = lower_chars(&chars);
        if has_suffix(&low, ".odx") {
            return match strict_utf8(files[i].1.as_slice()) {
                Some(s) => Ok(s),
                None => Err(BinfileError::OdxNotUtf8),
            };
        }
        i = i + 1;
    }
    Err(BinfileError::NoOdx)
}

/// Raw blocks by number, of the first `n` blocks of an ODX file. Blocks whose
/// name the module does not know are left out; of two with one number the later
/// counts.
pub open spec fn numbered_below(flash_info: FlashInfo, blocks: Seq<File>, n: nat) -> Map<
    u8,
    Seq<u8>,
>
    decreases n,
{
    if n == 0 {
        Map::empty()
    } else {
        let before = numbered_below(flash_info, blocks, (n - 1) as nat);
        match number_of(flash_info.block_names@, blocks[n - 1].name) {
            Some(number) => before.insert(number, blocks[n - 1].contents),
            None => before,
        }
    }
}

/// What a map of raw blocks holds.
pub open spec fn raw_blocks(m: Map<u8, Vec<u8>>) -> Map<u8, Seq<u8>> {
    m.map_values(|v: Vec<u8>| v@)
}

/// Raw blocks by number, from the blocks of an ODX file.
pub fn map_odx_blocks(odx_blocks: Vec<(String, Vec<u8>)>, flash_info: &FlashInfo) -> (r: Result<
    HashMap<u8, Vec<u8>>,
    BinfileError,
>)
    ensures
        odx_blocks@.len() == 0 ==> (r matches Err(e) && e is NoBlocks),
        odx_blocks@.len() > 0 ==> (r matches Ok(m) && raw_blocks(m@) == numbered_below(
            *flash_info,
            files_of(odx_blocks@),
            odx_blocks@.len(),
        )),
{
    if odx_blocks.len() == 0 {
        return Err(BinfileError::NoBlocks);
    }
    let ghost all = files_of(odx_blocks@);
    let mut result: HashMap<u8, Vec<u8>> = HashMap::new();
    assert(raw_blocks(result@) == Map::<u8, Seq<u8>>::empty());
    let mut i: usize = 0;
    while i < odx_blocks.len()
        invariant
            i <= odx_blocks@.len(),
            all == files_of(odx_blocks@),
            raw_blocks(result@) == numbered_below(*flash_info, all, i as nat),
        decreases odx_blocks@.len() - i,
    {
        assert(all[i as int].name == odx_blocks@[i as int].0@);
        let ghost before = result@;
        if let Some(number) = flash_info.block_to_number(odx_blocks[i].0.as_str()) {
            let bytes = copy_range(odx_blocks[i].1.as_slice(), 0, odx_blocks[i].1.len());
            assert(bytes@ == odx_blocks@[i as int].1@);
            result.insert(number, bytes);
            assert(raw_blocks(result@) == raw_blocks(before).insert(number, bytes@));
        }
        i = i + 1;
    }
    Ok(result)
}

/// Raw blocks by number, of the first `n` blocks of a split image.
pub open spec fn by_number_below(blocks: Seq<Block>, n: nat) -> Map<u8, Seq<u8>>
    decreases n,
{
    if n == 0 {
        Map::empty()
    } else {
        by_number_below(blocks, (n - 1) as nat).insert(blocks[n - 1].number, blocks[n - 1].bytes)
    }
}

/// Raw blocks by number, from the blocks of a split image.
pub fn map_bin_blocks(blocks: Vec<BlockData>) -> (r: HashMap<u8, Vec<u8>>)
    ensures
        raw_blocks(r@) == by_number_below(blocks_of(blocks@), blocks@.len()),
{
    let ghost all = blocks_of(blocks@);
    let mut result: HashMap<u8, Vec<u8>> = HashMap::new();
    assert(raw_blocks(result@) == Map::<u8, Seq<u8>>::empty());
    let mut i: usize = 0;
    while i < blocks.len()
        invariant
            i <= blocks@.len(),
            all == blocks_of(blocks@),
            raw_blocks(result@) == by_number_below(all, i as nat),
        decreases blocks@.len() - i,
    {
        assert(all[i as int] == blocks@[i as int]@);
        let ghost before = result@;
        let bytes = copy_range(blocks[i].block_bytes.as_slice(), 0, blocks[i].block_bytes.len());
        assert(bytes@ == blocks@[i as int].block_bytes@);
        result.insert(blocks[i].block_number, bytes);
        assert(raw_blocks(result@) == raw_blocks(before).insert(all[i as int].number, bytes@));
        i = i + 1;
    }
    result
}

} // verus!
