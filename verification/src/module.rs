//! What is known about a control module: its channel, block layout, and the
//! policies that govern how its blocks are checksummed, prepared and flashed.

use vstd::prelude::*;

use crate::text::str_eq;

verus! {

/// Which algorithm guards the blocks of a module.
#[derive(Debug, Clone, Copy, PartialEq, Eq, Structural)]
pub enum ChecksumKind {
    Simos,
    Dq381,
    Dsg,
    Haldex,
}

/// What a checksum pass found, or did.
#[derive(Debug, Clone, Copy, PartialEq, Eq, Structural)]
pub enum ChecksumState {
    /// The stored checksum is right.
    Valid,
    /// The stored checksum is wrong and was left alone.
    Invalid,
    /// The stored checksum was wrong and has been replaced.
    Fixed,
    /// The block does not have the shape the algorithm needs.
    Failed,
}

/// Where the four bytes of the block checksum routine come from.
#[derive(Debug, Clone, Copy, PartialEq, Eq, Structural)]
pub enum UdsChecksumKind {
    /// From the module's table.
    Static,
    /// CRC-32 of the plain block, big-endian.
    Crc32Be,
}

/// How a block is compressed before it is encrypted.
#[derive(Debug, Clone, Copy, PartialEq, Eq, Structural)]
pub enum BlockPrep {
    /// LZSS, padded to the AES block size.
    LzssAesBlock,
    /// LZSS without padding.
    LzssNone,
    /// LZSS padded exactly.
    LzssExact,
    /// No compression at all.
    Raw,
}

/// The diagnostic CAN identifiers of a module.
#[derive(Debug, Clone, Copy, PartialEq, Eq, Structural)]
pub struct ControlModuleIdentifier {
    /// Tester to control module.
    pub txid: u32,
    /// Control module to tester.
    pub rxid: u32,
}

/// The unlock patch of a module.
#[derive(Debug, Clone)]
pub struct PatchInfo {
    /// Box code of the only firmware the patch fits, with a version suffix.
    pub patch_box_code: String,
    /// The block the patch is written into.
    pub patch_block_index: u8,
    /// The patch itself.
    pub patch_bytes: Vec<u8>,
}

/// A block of a firmware image.
#[derive(Debug, Clone)]
pub struct BlockData {
    pub block_number: u8,
    pub block_bytes: Vec<u8>,
    pub block_name: String,
}

/// A block that is compressed, encrypted and ready to be sent.
#[derive(Debug, Clone)]
pub struct PreparedBlockData {
    pub block_number: u8,
    pub block_encrypted_bytes: Vec<u8>,
    pub boxcode: String,
    pub encryption_type: u8,
    pub compression_type: u8,
    pub should_erase: bool,
    pub uds_checksum: [u8; 4],
    pub block_name: String,
    /// The uncompressed length told to the control module.
    pub announced_length: u32,
}

/// A table from block numbers to values. The first row of a number counts.
pub open spec fn row_of<T>(table: Seq<(u8, T)>, number: u8) -> Option<T>
    decreases table.len(),
{
    if table.len() == 0 {
        None
    } else if table[0].0 == number {
        Some(table[0].1)
    } else {
        row_of(table.skip(1), number)
    }
}

/// A table from block numbers to names, by number.
pub open spec fn name_of(table: Seq<(u8, String)>, number: u8) -> Option<Seq<char>> {
    match row_of(table, number) {
        Some(name) => Some(name@),
        None => None,
    }
}

/// A table from block numbers to names, by name. The first row of a name counts.
pub open spec fn number_of(table: Seq<(u8, String)>, name: Seq<char>) -> Option<u8>
    decreases table.len(),
{
    if table.len() == 0 {
        None
    } else if table[0].1@ == name {
        Some(table[0].0)
    } else {
        number_of(table.skip(1), name)
    }
}

/// Everything the tool knows about one control module.
#[derive(Debug, Clone)]
pub struct FlashInfo {
    /// Prefix of every software version of the module.
    pub project_name: String,
    pub control_module_identifier: ControlModuleIdentifier,
    /// Logical block names ("CAL", "ASW1", ...).
    pub block_names: Vec<(u8, String)>,
    /// Block names inside a firmware container.
    pub block_names_frf: Vec<(u8, String)>,
    /// Where each block starts in a full image.
    pub binfile_offsets: Vec<(u8, usize)>,
    /// Size of a full image.
    pub binfile_size: usize,
    pub block_lengths: Vec<(u8, usize)>,
    /// Whether the length of a block is taken from the block itself.
    pub dynamic_lengths: bool,
    pub software_version_locations: Vec<(u8, (usize, usize))>,
    pub box_code_locations: Vec<(u8, (usize, usize))>,
    pub checksum_block_locations: Vec<(u8, usize)>,
    pub base_addresses: Vec<(u8, u32)>,
    pub block_identifiers: Vec<(u8, u8)>,
    pub block_transfer_sizes: Vec<(u8, usize)>,
    pub block_checksums: Vec<(u8, [u8; 4])>,
    /// Blocks that must not be erased before they are written.
    pub unerased_blocks: Vec<u8>,
    /// Blocks that carry no checksum of their own.
    pub unchecksummed_blocks: Vec<u8>,
    pub checksum_kind: ChecksumKind,
    pub uds_checksum_kind: UdsChecksumKind,
    pub block_prep: BlockPrep,
    pub encryption_type: u8,
    pub compression_type: u8,
    pub default_stmin_us: u32,
    pub patch_info: Option<PatchInfo>,
}

fn find_row<T: Copy>(table: &Vec<(u8, T)>, number: u8) -> (r: Option<T>)
    ensures
        r == row_of(table@, number),
{
    let mut i: usize = 0;
    assert(table@.skip(0) == table@);
    while i < table.len()
        invariant
            i <= table@.len(),
            row_of(table@, number) == row_of(table@.skip(i as int), number),
        decreases table@.len() - i,
    {
        let row: (u8, T) = table[i];
        assert(table@.skip(i as int).skip(1) == table@.skip(i + 1));
        if row.0 == number {
            return Some(row.1);
        }
        i = i + 1;
    }
    None
}

fn contains_number(list: &Vec<u8>, number: u8) -> (r: bool)
    ensures
        r == list@.contains(number),
{
    let mut i: usize = 0;
    while i < list.len()
        invariant
            i <= list@.len(),
            forall|j: int| 0 <= j < i ==> list@[j] != number,
        decreases list@.len() - i,
    {
        if list[i] == number {
            return true;
        }
        i = i + 1;
    }
    false
}

impl FlashInfo {
    /// The number of the block with the given logical name.
    pub fn block_to_number(&self, name: &str) -> (r: Option<u8>)
        ensures
            r == number_of(self.block_names@, name@),
    {
        let table = &self.block_names;
        let mut i: usize = 0;
        assert(table@.skip(0) == table@);
        while i < table.len()
            invariant
                i <= table@.len(),
                table == self.block_names,
                number_of(table@, name@) == number_of(table@.skip(i as int), name@),
            decreases table@.len() - i,
        {
            assert(table@.skip(i as int).skip(1) == table@.skip(i + 1));
            if str_eq(table[i].1.as_str(), name) {
                return Some(table[i].0);
            }
            i = i + 1;
        }
        None
    }

    /// The logical name of a block.
    pub fn block_number_to_name(&self, number: u8) -> (r: Option<&str>)
        ensures
            r is Some <==> name_of(self.block_names@, number) is Some,
            r matches Some(s) ==> name_of(self.block_names@, number) == Some(s@),
    {
        let table = &self.block_names;
        let mut i: usize = 0;
        assert(table@.skip(0) == table@);
        while i < table.len()
            invariant
                i <= table@.len(),
                table == self.block_names,
                row_of(table@, number) == row_of(table@.skip(i as int), number),
            decreases table@.len() - i,
        {
            assert(table@.skip(i as int).skip(1) == table@.skip(i + 1));
            if table[i].0 == number {
                return Some(table[i].1.as_str());
            }
            i = i + 1;
        }
        None
    }

    /// Where a block starts in a full image.
    pub fn binfile_offset(&self, number: u8) -> (r: Option<usize>)
        ensures
            r == row_of(self.binfile_offsets@, number),
    {
        find_row(&self.binfile_offsets, number)
    }

    /// The table length of a block.
    pub fn block_length(&self, number: u8) -> (r: Option<usize>)
        ensures
            r == row_of(self.block_lengths@, number),
    {
        find_row(&self.block_lengths, number)
    }

    /// The byte range of the software version inside a block.
    pub fn software_version_location(&self, number: u8) -> (r: Option<(usize, usize)>)
        ensures
            r == row_of(self.software_version_locations@, number),
    {
        find_row(&self.software_version_locations, number)
    }

    /// The byte range of the box code inside a block.
    pub fn box_code_location(&self, number: u8) -> (r: Option<(usize, usize)>)
        ensures
            r == row_of(self.box_code_locations@, number),
    {
        find_row(&self.box_code_locations, number)
    }

    /// Where the checksum structure of a block lies.
    pub fn checksum_block_location(&self, number: u8) -> (r: Option<usize>)
        ensures
            r == row_of(self.checksum_block_locations@, number),
    {
        find_row(&self.checksum_block_locations, number)
    }

    /// The address a block is mapped to.
    pub fn base_address(&self, number: u8) -> (r: Option<u32>)
        ensures
            r == row_of(self.base_addresses@, number),
    {
        find_row(&self.base_addresses, number)
    }

    /// The identifier a block has on the wire.
    pub fn block_identifier(&self, number: u8) -> (r: Option<u8>)
        ensures
            r == row_of(self.block_identifiers@, number),
    {
        find_row(&self.block_identifiers, number)
    }

    /// How many payload bytes of a block go into one transfer.
    pub fn block_transfer_size(&self, number: u8) -> (r: Option<usize>)
        ensures
            r == row_of(self.block_transfer_sizes@, number),
    {
        find_row(&self.block_transfer_sizes, number)
    }

    /// The table value of the block checksum routine.
    pub fn block_checksum(&self, number: u8) -> (r: Option<[u8; 4]>)
        ensures
            r == row_of(self.block_checksums@, number),
    {
        find_row(&self.block_checksums, number)
    }

    /// Whether a block is erased before it is written.
    pub fn should_erase(&self, number: u8) -> (r: bool)
        ensures
            r == !self.unerased_blocks@.contains(number),
    {
        !contains_number(&self.unerased_blocks, number)
    }

    /// Whether a block carries a checksum of its own.
    pub fn has_internal_checksum(&self, number: u8) -> (r: bool)
        ensures
            r == !self.unchecksummed_blocks@.contains(number),
    {
        !contains_number(&self.unchecksummed_blocks, number)
    }

    /// The uncompressed length announced for a block of `actual` bytes.
    pub open spec fn spec_announced_length(self, number: u8, actual: int) -> int {
        if self.dynamic_lengths {
            actual
        } else {
            match row_of(self.block_lengths@, number) {
                Some(n) => n as int,
                None => actual,
            }
        }
    }

    /// The uncompressed length announced for a block: the length it really has
    /// on a module with dynamic lengths, else the table's.
    pub fn announced_length(&self, number: u8, actual: usize) -> (r: usize)
        ensures
            r == self.spec_announced_length(number, actual as int),
    {
        if self.dynamic_lengths {
            actual
        } else {
            match self.block_length(number) {
                Some(n) => n,
                None => actual,
            }
        }
    }
}

/// The control modules known by name.
#[derive(Debug, Clone)]
pub struct Registry {
    pub modules: Vec<(String, FlashInfo)>,
}

/// The position of the module with the given name. The first one counts.
pub open spec fn position_of(modules: Seq<(String, FlashInfo)>, name: Seq<char>) -> Option<int>
    decreases modules.len(),
{
    if modules.len() == 0 {
        None
    } else if modules[0].0@ == name {
        Some(0int)
    } else {
        match position_of(modules.skip(1), name) {
            Some(i) => Some(i + 1),
            None => None,
        }
    }
}

impl Registry {
    /// The module with the given name.
    pub open spec fn spec_get(self, name: Seq<char>) -> Option<FlashInfo> {
        match position_of(self.modules@, name) {
            Some(i) => Some(self.modules@[i].1),
            None => None,
        }
    }

    /// Look a module up by name.
    pub fn get_flash_info(&self, name: &str) -> (r: Option<&FlashInfo>)
        ensures
            r is Some <==> self.spec_get(name@) is Some,
            r matches Some(f) ==> self.spec_get(name@) == Some(*f),
    {
        let mut i: usize = 0;
        assert(self.modules@.skip(0) == self.modules@);
        while i < self.modules.len()
            invariant
                i <= self.modules@.len(),
                position_of(self.modules@, name@) == match position_of(
                    self.modules@.skip(i as int),
                    name@,
                ) {
                    Some(k) => Some(k + i),
                    None => None::<int>,
                },
            decreases self.modules@.len() - i,
        {
            assert(self.modules@.skip(i as int).skip(1) == self.modules@.skip(i + 1));
            if str_eq(self.modules[i].0.as_str(), name) {
                return Some(&self.modules[i].1);
            }
            i = i + 1;
        }
        None
    }
}

} // verus!
