//! What containers and images hold, and what comes out of them.

use vstd::prelude::*;

use crate::binfile::{
    belongs, blank, by_number_below, clipped, combined, cut_below, first_odx, kind_of, laid_below,
    numbered_below, starts_inside, with_block, Block, FirmwareKind,
};
use crate::frf::{
    decrypted, entries_below, seeds, with_file, zip_contents, zip_finds, zip_name, File,
};
use crate::module::{name_of, number_of, row_of, FlashInfo};
use crate::text::lowered;

verus! {

/// Whether `a` and `b` run as the two values of the cipher do: the first is advanced by
/// the key byte before a byte is mixed, the second by the new first after it.
pub open spec fn run_along(key: Seq<u8>, a: Seq<int>, b: Seq<int>) -> bool {
    &&& a.len() == b.len()
    &&& a.len() > 0
    &&& a[0] == 0
    &&& b[0] == 1
    &&& forall|i: int|
        0 <= i < a.len() - 1 ==> #[trigger] a[i + 1] == (3 * (a[i] + key[i % key.len() as int]))
            % 256
    &&& forall|i: int|
        0 <= i < b.len() - 1 ==> #[trigger] b[i + 1] == ((b[i] + 1) * a[i + 1]) % 256
}

proof fn lemma_seeds_run_along(key: Seq<u8>, a: Seq<int>, b: Seq<int>, i: nat)
    requires
        run_along(key, a, b),
        key.len() > 0,
        i < a.len(),
    ensures
        seeds(key, i) == (a[i as int], b[i as int]),
    decreases i,
{
    if i > 0 {
        lemma_seeds_run_along(key, a, b, (i - 1) as nat);
        let k = i - 1;
        assert(a[k + 1] == (3 * (a[k] + key[k % key.len() as int])) % 256);
        assert(b[k + 1] == ((b[k] + 1) * a[k + 1]) % 256);
    }
}

/// Every byte is mixed with all ones, its key byte, the first value as it is after the key
/// byte, and the second as it was before.
pub proof fn law_every_byte_is_mixed(
    data: Seq<u8>,
    key: Seq<u8>,
    a: Seq<int>,
    b: Seq<int>,
    i: int,
)
    requires
        key.len() > 0,
        run_along(key, a, b),
        a.len() == data.len() + 1,
        0 <= i < data.len(),
    ensures
        decrypted(data, key).len() == data.len(),
        decrypted(data, key)[i] == data[i] ^ (a[i + 1] as u8 ^ 0xFF ^ b[i] as u8 ^ key[i
            % key.len() as int]),
{
    lemma_seeds_run_along(key, a, b, i as nat);
    lemma_seeds_run_along(key, a, b, (i + 1) as nat);
}

proof fn lemma_first_seeds(key: Seq<u8>)
    requires
        key.len() >= 2,
    ensures
        seeds(key, 0) == (0int, 1int),
        seeds(key, 1).0 == (3 * key[0]) % 256,
        seeds(key, 1).1 == (6 * key[0]) % 256,
        seeds(key, 2).0 == (3 * (3 * key[0] + key[1])) % 256,
        0int % key.len() as int == 0,
        1int % key.len() as int == 1,
{
    let k0 = key[0] as int;
    let k1 = key[1] as int;
    vstd::arithmetic::div_mod::lemma_small_mod(0, key.len());
    vstd::arithmetic::div_mod::lemma_small_mod(1, key.len());
    assert(seeds(key, 0) == (0int, 1int));
    let a = (3 * k0) % 256;
    assert(seeds(key, 1) == (((0 + k0) * 3) % 256, ((1 + 1) * (((0 + k0) * 3) % 256)) % 256));
    assert(((0 + k0) * 3) % 256 == a);
    vstd::arithmetic::div_mod::lemma_mul_mod_noop_right(2, 3 * k0, 256);
    assert(2 * (3 * k0) == 6 * k0);
    assert((2 * a) % 256 == (6 * k0) % 256);
    assert(seeds(key, 2).0 == ((a + k1) * 3) % 256);
    assert(((a + k1) * 3) % 256 == (3 * (3 * k0 + k1)) % 256);
}

/// The first two bytes of the stream, in terms of the key alone.
pub proof fn law_the_stream_begins_with_the_key(data: Seq<u8>, key: Seq<u8>)
    requires
        key.len() >= 2,
        data.len() >= 2,
    ensures
        decrypted(data, key)[0] == data[0] ^ (((3 * key[0]) % 256) as u8 ^ 0xFF ^ 1 ^ key[0]),
        decrypted(data, key)[1] == data[1] ^ (((3 * (3 * key[0] + key[1])) % 256) as u8 ^ 0xFF ^ ((
        6 * key[0]) % 256) as u8 ^ key[1]),
{
    lemma_first_seeds(key);
}

/// The key is used over and over: a key written twice is the same key.
pub proof fn law_the_key_is_used_over_and_over(data: Seq<u8>, key: Seq<u8>)
    requires
        key.len() > 0,
    ensures
        decrypted(data, key + key) == decrypted(data, key),
{
    assert forall|i: int| 0 <= i < data.len() implies decrypted(data, key + key)[i] == decrypted(
        data,
        key,
    )[i] by {
        lemma_twice(key, i as nat);
        lemma_twice(key, (i + 1) as nat);
        lemma_key_byte(key, i);
    }
    assert(decrypted(data, key + key) == decrypted(data, key));
}

proof fn lemma_key_byte(key: Seq<u8>, i: int)
    requires
        key.len() > 0,
        i >= 0,
    ensures
        (key + key)[i % (key + key).len() as int] == key[i % key.len() as int],
{
    let n = key.len() as int;
    let r = i % (2 * n);
    assert(0 <= r < 2 * n) by (nonlinear_arith)
        requires
            n > 0,
            r == i % (2 * n),
    ;
    assert(r % n == i % n) by {
        vstd::arithmetic::div_mod::lemma_mod_mod(i, n, 2);
        assert(n * 2 == 2 * n);
    }
    if r < n {
        vstd::arithmetic::div_mod::lemma_small_mod(r as nat, n as nat);
    } else {
        vstd::arithmetic::div_mod::lemma_small_mod((r - n) as nat, n as nat);
        vstd::arithmetic::div_mod::lemma_mod_sub_multiples_vanish(r, n);
        assert((r - n) % n == r % n);
    }
}

proof fn lemma_twice(key: Seq<u8>, n: nat)
    requires
        key.len() > 0,
    ensures
        seeds(key + key, n) == seeds(key, n),
    decreases n,
{
    if n > 0 {
        lemma_twice(key, (n - 1) as nat);
        lemma_key_byte(key, n - 1);
    }
}

proof fn lemma_with_file(files: Seq<File>, file: File, other: File)
    ensures
        with_file(files, file).contains(file),
        other.name != file.name ==> with_file(files, file).contains(other) == files.contains(other),
        with_file(files, file).contains(other) ==> other == file || files.contains(other),
    decreases files.len(),
{
    let out = with_file(files, file);
    if files.len() == 0 {
        assert(out[0] == file);
    } else {
        let rest = files.skip(1);
        assert(files == seq![files[0]] + rest);
        if files[0].name == file.name {
            assert(out[0] == file);
            if files.contains(other) && other.name != file.name {
                let i = choose|i: int| 0 <= i < files.len() && files[i] == other;
                assert(out[i] == other);
            }
            if out.contains(other) && other != file {
                let i = choose|i: int| 0 <= i < out.len() && out[i] == other;
                assert(files[i] == other);
            }
        } else {
            lemma_with_file(rest, file, other);
            let tail = with_file(rest, file);
            let k = choose|k: int| 0 <= k < tail.len() && tail[k] == file;
            assert(out[k + 1] == file);
            if files.contains(other) && other.name != file.name {
                let i = choose|i: int| 0 <= i < files.len() && files[i] == other;
                if i == 0 {
                    assert(out[0] == other);
                } else {
                    assert(rest[i - 1] == other);
                    let j = choose|j: int| 0 <= j < tail.len() && tail[j] == other;
                    assert(out[j + 1] == other);
                }
            }
            if out.contains(other) && other != file {
                let i = choose|i: int| 0 <= i < out.len() && out[i] == other;
                if i == 0 {
                    assert(files[0] == other);
                } else {
                    assert(tail[i - 1] == other);
                    let j = choose|j: int| 0 <= j < rest.len() && rest[j] == other;
                    assert(files[j + 1] == other);
                }
            }
        }
    }
}

/// Every entry of an archive is extracted under its name, unless a later one has the same.
pub proof fn law_every_entry_is_extracted(bytes: Seq<u8>, n: nat, i: int)
    requires
        entries_below(bytes, n) is Some,
        0 <= i < n,
        forall|j: int| i < j < n ==> #[trigger] zip_name(bytes, j) != zip_name(bytes, i),
    ensures
        zip_finds(bytes, i),
        zip_contents(bytes, i) is Some,
        entries_below(bytes, n)->0.contains(
            File { name: zip_name(bytes, i), contents: zip_contents(bytes, i)->0 },
        ),
    decreases n,
{
    let before = entries_below(bytes, (n - 1) as nat)->0;
    let last = File { name: zip_name(bytes, n - 1), contents: zip_contents(bytes, n - 1)->0 };
    let wanted = File { name: zip_name(bytes, i), contents: zip_contents(bytes, i)->0 };
    lemma_with_file(before, last, wanted);
    if i < n - 1 {
        law_every_entry_is_extracted(bytes, (n - 1) as nat, i);
        assert(zip_name(bytes, n - 1) != zip_name(bytes, i));
    }
}

/// Nothing is extracted but entries of the archive.
pub proof fn law_only_entries_are_extracted(bytes: Seq<u8>, n: nat, file: File)
    requires
        entries_below(bytes, n) is Some,
        entries_below(bytes, n)->0.contains(file),
    ensures
        exists|i: int|
            0 <= i < n && #[trigger] zip_name(bytes, i) == file.name && zip_contents(bytes, i)
                == Some(file.contents),
    decreases n,
{
    if n > 0 {
        let before = entries_below(bytes, (n - 1) as nat)->0;
        let last = File { name: zip_name(bytes, n - 1), contents: zip_contents(bytes, n - 1)->0 };
        lemma_with_file(before, last, file);
        if file == last {
            assert(zip_name(bytes, n - 1) == file.name);
        } else {
            law_only_entries_are_extracted(bytes, (n - 1) as nat, file);
        }
    } else {
        assert(false);
    }
}

proof fn lemma_with_block(blocks: Seq<Block>, block: Block, other: Block)
    ensures
        with_block(blocks, block).contains(block),
        other.name != block.name ==> with_block(blocks, block).contains(other) == blocks.contains(
            other,
        ),
        with_block(blocks, block).contains(other) ==> other == block || blocks.contains(other),
    decreases blocks.len(),
{
    let out = with_block(blocks, block);
    if blocks.len() == 0 {
        assert(out[0] == block);
    } else {
        let rest = blocks.skip(1);
        assert(blocks == seq![blocks[0]] + rest);
        if blocks[0].name == block.name {
            assert(out[0] == block);
            if blocks.contains(other) && other.name != block.name {
                let i = choose|i: int| 0 <= i < blocks.len() && blocks[i] == other;
                assert(out[i] == other);
            }
            if out.contains(other) && other != block {
                let i = choose|i: int| 0 <= i < out.len() && out[i] == other;
                assert(blocks[i] == other);
            }
        } else {
            lemma_with_block(rest, block, other);
            let tail = with_block(rest, block);
            let k = choose|k: int| 0 <= k < tail.len() && tail[k] == block;
            assert(out[k + 1] == block);
            if blocks.contains(other) && other.name != block.name {
                let i = choose|i: int| 0 <= i < blocks.len() && blocks[i] == other;
                if i == 0 {
                    assert(out[0] == other);
                } else {
                    assert(rest[i - 1] == other);
                    let j = choose|j: int| 0 <= j < tail.len() && tail[j] == other;
                    assert(out[j + 1] == other);
                }
            }
            if out.contains(other) && other != block {
                let i = choose|i: int| 0 <= i < out.len() && out[i] == other;
                if i == 0 {
                    assert(blocks[0] == other);
                } else {
                    assert(tail[i - 1] == other);
                    let j = choose|j: int| 0 <= j < rest.len() && rest[j] == other;
                    assert(blocks[j + 1] == other);
                }
            }
        }
    }
}

/// What row `i` of the table of a module says of an image: the number of the block, its
/// bytes from its offset on, as many as it is long, and its name, that of the module
/// before that of the container.
pub open spec fn block_of_row(
    data: Seq<u8>,
    flash_info: FlashInfo,
    lengths: Seq<(u8, usize)>,
    i: int,
) -> Option<Block> {
    let (number, frf_name) = flash_info.block_names_frf@[i];
    let offset = row_of(flash_info.binfile_offsets@, number);
    let length = row_of(lengths, number);
    if offset is Some && length is Some && offset->0 + length->0 <= data.len() {
        Some(
            Block {
                number,
                bytes: data.subrange(offset->0 as int, offset->0 + length->0),
                name: match name_of(flash_info.block_names@, number) {
                    Some(name) => name,
                    None => frf_name@,
                },
            },
        )
    } else {
        None
    }
}

/// Every block of the table that lies inside an image is cut out of it, unless a later
/// one has its name.
pub proof fn law_every_block_is_cut_out(
    data: Seq<u8>,
    flash_info: FlashInfo,
    lengths: Seq<(u8, usize)>,
    n: nat,
    i: int,
)
    requires
        0 <= i < n <= flash_info.block_names_frf@.len(),
        block_of_row(data, flash_info, lengths, i) is Some,
        forall|j: int|
            i < j < n ==> (#[trigger] block_of_row(data, flash_info, lengths, j) matches Some(b)
                ==> b.name != block_of_row(data, flash_info, lengths, i)->0.name),
    ensures
        cut_below(data, flash_info, lengths, n).contains(
            block_of_row(data, flash_info, lengths, i)->0,
        ),
    decreases n,
{
    let before = cut_below(data, flash_info, lengths, (n - 1) as nat);
    let wanted = block_of_row(data, flash_info, lengths, i)->0;
    if i < n - 1 {
        law_every_block_is_cut_out(data, flash_info, lengths, (n - 1) as nat, i);
    }
    if let Some(last) = block_of_row(data, flash_info, lengths, n - 1) {
        lemma_with_block(before, last, wanted);
    }
}

/// Nothing is cut out of an image but blocks of the table.
pub proof fn law_only_blocks_are_cut_out(
    data: Seq<u8>,
    flash_info: FlashInfo,
    lengths: Seq<(u8, usize)>,
    n: nat,
    block: Block,
)
    requires
        n <= flash_info.block_names_frf@.len(),
        cut_below(data, flash_info, lengths, n).contains(block),
    ensures
        exists|i: int|
            0 <= i < n && #[trigger] block_of_row(data, flash_info, lengths, i) == Some(block),
    decreases n,
{
    if n > 0 {
        let before = cut_below(data, flash_info, lengths, (n - 1) as nat);
        match block_of_row(data, flash_info, lengths, n - 1) {
            Some(last) => {
                lemma_with_block(before, last, block);
                if block == last {
                    assert(block_of_row(data, flash_info, lengths, n - 1) == Some(block));
                } else {
                    law_only_blocks_are_cut_out(data, flash_info, lengths, (n - 1) as nat, block);
                }
            },
            None => {
                law_only_blocks_are_cut_out(data, flash_info, lengths, (n - 1) as nat, block);
            },
        }
    } else {
        assert(false);
    }
}

/// A block of a module with a project name whose version is known must carry a version
/// that begins with the name of the project; any other block belongs to the module.
pub proof fn law_a_block_belongs_by_its_version(flash_info: FlashInfo, block: Block)
    ensures
        flash_info.project_name@.len() == 0 ==> belongs(flash_info, block),
        row_of(flash_info.software_version_locations@, block.number) is None ==> belongs(
            flash_info,
            block,
        ),
        row_of(flash_info.software_version_locations@, block.number) matches Some((from, to))
            ==> flash_info.project_name@.len() > 0 && from < to ==> belongs(flash_info, block) == {
            let version = block.bytes.subrange(from as int, to as int);
            let text = vstd::utf8::decode_utf8(version);
            &&& to <= block.bytes.len()
            &&& vstd::utf8::valid_utf8(version)
            &&& flash_info.project_name@.len() <= text.len()
            &&& forall|i: int|
                0 <= i < flash_info.project_name@.len() ==> text[i]
                    == #[trigger] flash_info.project_name@[i]
        },
{
    if let Some((from, to)) = row_of(flash_info.software_version_locations@, block.number) {
        let name = flash_info.project_name@;
        let text = vstd::utf8::decode_utf8(block.bytes.subrange(from as int, to as int));
        if name.len() <= text.len() {
            if forall|i: int| 0 <= i < name.len() ==> text[i] == #[trigger] name[i] {
                assert(text.take(name.len() as int) == name);
            }
            if text.take(name.len() as int) == name {
                assert forall|i: int| 0 <= i < name.len() implies text[i] == #[trigger] name[i] by {
                    assert(text.take(name.len() as int)[i] == name[i]);
                }
            }
        }
    }
}

/// Whether a block lies over byte `i` of an image.
pub open spec fn lies_over(flash_info: FlashInfo, block: Block, i: int) -> bool {
    row_of(flash_info.binfile_offsets@, block.number) matches Some(offset) && offset <= i < offset
        + block.bytes.len()
}

proof fn lemma_byte_of_image(flash_info: FlashInfo, blocks: Seq<Block>, n: nat, i: int, k: int)
    requires
        n <= blocks.len(),
        starts_inside(flash_info, blocks),
        0 <= i < flash_info.binfile_size,
        -1 <= k < n,
        k >= 0 ==> lies_over(flash_info, blocks[k], i),
        forall|j: int| k < j < n ==> !lies_over(flash_info, #[trigger] blocks[j], i),
    ensures
        ({
            let image = laid_below(
                blank(flash_info.binfile_size as nat),
                flash_info,
                blocks,
                n,
            );
            &&& image.len() == flash_info.binfile_size
            &&& image[i] == if k < 0 {
                0u8
            } else {
                blocks[k].bytes[i - row_of(flash_info.binfile_offsets@, blocks[k].number)->0]
            }
        }),
    decreases n,
{
    let empty = blank(flash_info.binfile_size as nat);
    if n > 0 {
        let b = blocks[n - 1];
        let image = laid_below(empty, flash_info, blocks, n);
        if k < n - 1 {
            lemma_byte_of_image(flash_info, blocks, (n - 1) as nat, i, k);
            assert(!lies_over(flash_info, b, i));
        } else {
            lemma_len_of_image(flash_info, blocks, (n - 1) as nat);
        }
        let before = laid_below(empty, flash_info, blocks, (n - 1) as nat);
        if let Some(offset) = row_of(flash_info.binfile_offsets@, b.number) {
            let part = clipped(b.bytes, offset as int, empty.len() as int);
            assert(offset <= flash_info.binfile_size);
            assert(image == crate::bytes::spliced(before, offset as int, part));
            assert(image[i] == if offset <= i < offset + part.len() {
                part[i - offset]
            } else {
                before[i]
            });
        }
    }
}

proof fn lemma_len_of_image(flash_info: FlashInfo, blocks: Seq<Block>, n: nat)
    requires
        n <= blocks.len(),
        starts_inside(flash_info, blocks),
    ensures
        laid_below(blank(flash_info.binfile_size as nat), flash_info, blocks, n).len()
            == flash_info.binfile_size,
    decreases n,
{
    if n > 0 {
        lemma_len_of_image(flash_info, blocks, (n - 1) as nat);
        let b = blocks[n - 1];
    }
}

/// Every byte of an image is that of the last block that lies over it, or zero where none
/// does.
pub proof fn law_every_byte_of_an_image(flash_info: FlashInfo, blocks: Seq<Block>, i: int, k: int)
    requires
        starts_inside(flash_info, blocks),
        0 <= i < flash_info.binfile_size,
        -1 <= k < blocks.len(),
        k >= 0 ==> lies_over(flash_info, blocks[k], i),
        forall|j: int| k < j < blocks.len() ==> !lies_over(flash_info, #[trigger] blocks[j], i),
    ensures
        combined(flash_info, blocks).len() == flash_info.binfile_size,
        combined(flash_info, blocks)[i] == if k < 0 {
            0u8
        } else {
            blocks[k].bytes[i - row_of(flash_info.binfile_offsets@, blocks[k].number)->0]
        },
{
    lemma_byte_of_image(flash_info, blocks, blocks.len(), i, k);
}

/// Of the blocks of a split image with one number, the last is the one of that number.
pub proof fn law_the_last_block_of_a_number_counts(blocks: Seq<Block>, n: nat, number: u8, i: int)
    requires
        n <= blocks.len(),
    ensures
        0 <= i < n && blocks[i].number == number && (forall|j: int|
            i < j < n ==> (#[trigger] blocks[j]).number != number) ==> by_number_below(
            blocks,
            n,
        ).contains_key(number) && by_number_below(blocks, n)[number] == blocks[i].bytes,
        (forall|j: int| 0 <= j < n ==> (#[trigger] blocks[j]).number != number)
            ==> !by_number_below(blocks, n).contains_key(number),
    decreases n,
{
    if n > 0 {
        law_the_last_block_of_a_number_counts(blocks, (n - 1) as nat, number, i);
        let b = blocks[n - 1];
    }
}

/// Of the blocks of an ODX file whose names stand for one number, the last is the one of
/// that number; a name that the module does not know stands for none.
pub proof fn law_the_last_named_block_counts(
    flash_info: FlashInfo,
    blocks: Seq<File>,
    n: nat,
    number: u8,
    i: int,
)
    requires
        n <= blocks.len(),
    ensures
        0 <= i < n && number_of(flash_info.block_names@, blocks[i].name) == Some(number) && (
        forall|j: int|
            i < j < n ==> number_of(flash_info.block_names@, (#[trigger] blocks[j]).name) != Some(
                number,
            )) ==> numbered_below(flash_info, blocks, n).contains_key(number) && numbered_below(
            flash_info,
            blocks,
            n,
        )[number] == blocks[i].contents,
        (forall|j: int|
            0 <= j < n ==> number_of(flash_info.block_names@, (#[trigger] blocks[j]).name) != Some(
                number,
            )) ==> !numbered_below(flash_info, blocks, n).contains_key(number),
    decreases n,
{
    if n > 0 {
        law_the_last_named_block_counts(flash_info, blocks, (n - 1) as nat, number, i);
        let b = blocks[n - 1];
    }
}

/// Files are told apart by their extension, whether it is written in upper or lower case.
pub proof fn law_extensions_tell_files_apart(extension: Seq<char>)
    ensures
        kind_of("frf"@) == Some(FirmwareKind::Frf),
        kind_of("odx"@) == Some(FirmwareKind::Odx),
        kind_of("bin"@) == Some(FirmwareKind::Bin),
        kind_of("FRF"@) == Some(FirmwareKind::Frf),
        kind_of("ODX"@) == Some(FirmwareKind::Odx),
        kind_of("BIN"@) == Some(FirmwareKind::Bin),
        extension.len() != 3 ==> kind_of(extension) is None,
{
    reveal_strlit("frf");
    reveal_strlit("odx");
    reveal_strlit("bin");
    reveal_strlit("FRF");
    reveal_strlit("ODX");
    reveal_strlit("BIN");
    assert(lowered("frf"@) == "frf"@);
    assert(lowered("odx"@) == "odx"@);
    assert(lowered("bin"@) == "bin"@);
    assert(lowered("FRF"@) == "frf"@);
    assert(lowered("ODX"@) == "odx"@);
    assert(lowered("BIN"@) == "bin"@);
    assert("frf"@[0] != "odx"@[0] && "odx"@[0] != "bin"@[0] && "frf"@[0] != "bin"@[0]);
    assert(lowered(extension).len() == extension.len());
}

/// Of the files in a container the first whose name ends in .odx, whatever its case, is
/// taken.
pub proof fn law_the_first_odx_is_taken(files: Seq<File>, i: int)
    ensures
        0 <= i < files.len() && odx_named(files[i]) && (forall|j: int|
            0 <= j < i ==> !odx_named(#[trigger] files[j])) ==> first_odx(files) == Some(i),
        (forall|j: int| 0 <= j < files.len() ==> !odx_named(#[trigger] files[j])) ==> first_odx(
            files,
        ) is None,
    decreases files.len(),
{
    reveal_strlit(".odx");
    if files.len() > 0 {
        let rest = files.skip(1);
        law_the_first_odx_is_taken(rest, i - 1);
        let name = lowered(files[0].name);
        if odx_named(files[0]) {
            assert(name.skip(name.len() - 4) =~= ".odx"@);
        } else if crate::text::ends_with(name, ".odx"@) {
            let end = name.skip(name.len() - 4);
            assert(end[0] == '.' && end[1] == 'o' && end[2] == 'd' && end[3] == 'x');
        }
        if 0 < i < files.len() && odx_named(files[i]) && (forall|j: int|
            0 <= j < i ==> !odx_named(#[trigger] files[j])) {
            assert(!odx_named(files[0]));
            assert(rest[i - 1] == files[i]);
            assert forall|j: int| 0 <= j < i - 1 implies !odx_named(#[trigger] rest[j]) by {
                assert(rest[j] == files[j + 1]);
            }
        }
        if forall|j: int| 0 <= j < files.len() ==> !odx_named(#[trigger] files[j]) {
            assert(!odx_named(files[0]));
            assert forall|j: int| 0 <= j < rest.len() implies !odx_named(#[trigger] rest[j]) by {
                assert(rest[j] == files[j + 1]);
            }
        }
    }
}

/// The name of a file ends in .odx, whatever its case.
pub open spec fn odx_named(file: File) -> bool {
    let name = lowered(file.name);
    let n = name.len();
    n >= 4 && name[n - 4] == '.' && name[n - 3] == 'o' && name[n - 2] == 'd' && name[n - 1] == 'x'
}

} // verus!
