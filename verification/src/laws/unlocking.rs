//! Unlocking a control module: finding out whether it is, the file for it, and what is
//! written.

use vstd::prelude::*;

use crate::cli::{flash_block, image_patched, patch_block, unlock_box_code, UnlockFault};
use crate::laws::checksums::asks_for_sample_mode;
use crate::module::{row_of, FlashInfo};
use crate::prepare::{prepared, prepared_patch};
use crate::text::trimmed;
use crate::uds::{Act, Reply, Trouble, UdsFault};
use crate::unlock::{classified, first_turn, next_turn, ProbeStage, Turn, Unlock};
use crate::wizard::firmware::{missing_below, part_of, parts_of, unlock_refusal, Part};
use crate::wizard::steps::Operation;

verus! {

/// A hardware version that begins with X is that of an unlocked control module; one that
/// begins with any other letter or digit is that of a locked one; nothing else tells.
pub proof fn law_an_x_means_unlocked(raw: Seq<u8>, shown: Seq<char>)
    ensures
        classified(raw, shown) is Unlocked <==> raw.len() > 0 && raw[0] == 'X' as u8,
        classified(raw, shown) is Locked <==> raw.len() > 0 && raw[0] != 'X' as u8 && (('0' as u8
            <= raw[0] <= '9' as u8) || ('A' as u8 <= raw[0] <= 'Z' as u8) || ('a' as u8 <= raw[0]
            <= 'z' as u8)),
{
    assert('X' as u8 == 0x58 && '0' as u8 == 0x30 && '9' as u8 == 0x39 && 'A' as u8 == 0x41
        && 'Z' as u8 == 0x5A && 'a' as u8 == 0x61 && 'z' as u8 == 0x7A);
}

/// Whether a turn asks for an action.
pub open spec fn asks(turn: Turn, action: Act) -> bool {
    turn matches Turn::Do(_, a) && a == action
}

/// What a turn that asks for something turns into with a reply.
pub open spec fn then_turn(turn: Turn, reply: Reply) -> Turn {
    match turn {
        Turn::Do(stage, _) => next_turn(stage, reply),
        _ => turn,
    }
}

/// A probe enters the bootloader as a flash does, extended session, precondition,
/// keep-alive, programming session, and then reads the hardware version there and nowhere
/// else.
pub proof fn law_a_probe_reads_in_the_bootloader(flash_info: FlashInfo, version: Vec<u8>)
    requires
        flash_info.patch_info is Some,
    ensures
        ({
            let a = first_turn(flash_info);
            let b = then_turn(a, Reply::Done);
            let c = then_turn(b, Reply::Done);
            let d = then_turn(c, Reply::Done);
            let e = then_turn(d, Reply::Done);
            let f = then_turn(e, Reply::Data(version));
            &&& asks(a, Act::Session(0x03))
            &&& asks(b, Act::Routine(0x0203, Seq::empty()))
            &&& asks(c, Act::TesterPresent)
            &&& asks(d, Act::Session(0x02))
            &&& asks(e, Act::ReadDid(0xF1A3))
            &&& f matches Turn::Found(p) && p.raw == Some(version@) && (p.state is Unlocked
                <==> version@.len() > 0 && version@[0] == 'X' as u8)
        }),
{
}

/// A module without an unlock patch is not asked anything.
pub proof fn law_a_module_without_a_patch_is_not_probed(flash_info: FlashInfo)
    requires
        flash_info.patch_info is None,
    ensures
        first_turn(flash_info) matches Turn::Found(p) && p.state is Unknown && p.raw is None
            && p.version is None,
{
}

/// Where the transport fails before the bootloader is asked for, the probe fails with that
/// error; a timeout is told as one.
pub proof fn law_a_dead_link_fails_a_probe(e: UdsFault, stage: ProbeStage)
    requires
        stage is Extended || stage is Present,
        !(e.kind is Negative),
    ensures
        next_turn(stage, Reply::Fault(e)) == Turn::Failed(
            if e.kind is Timeout {
                Trouble::Timeout
            } else {
                Trouble::Interface(e.text@)
            },
        ),
{
}

/// The part number of a box code is what stands before its first underscore.
pub proof fn law_the_part_number_ends_at_an_underscore(box_code: Seq<char>)
    ensures
        ({
            let part = part_of(box_code);
            &&& part.len() <= box_code.len()
            &&& part == box_code.take(part.len() as int)
            &&& forall|i: int| 0 <= i < part.len() ==> #[trigger] box_code[i] != '_'
            &&& part.len() < box_code.len() ==> box_code[part.len() as int] == '_'
        }),
{
    crate::laws::texts::law_pieces_make_the_text(box_code, '_');
    let pieces = crate::text::split(box_code, '_');
    let part = part_of(box_code);
    let whole = crate::laws::texts::rejoined(pieces, '_');
    if pieces.len() > 1 {
        assert(whole == part.push('_') + crate::laws::texts::rejoined(pieces.skip(1), '_'));
    }
    assert(part == box_code.take(part.len() as int));
    assert forall|i: int| 0 <= i < part.len() implies #[trigger] box_code[i] != '_' by {
        assert(pieces[0][i] != '_');
        assert(part[i] == box_code[i]);
    }
}

/// A file is the one for an unlock exactly where its calibration carries, round about
/// padded, the part number that the patch was made for.
pub proof fn law_only_the_file_of_the_patch_unlocks(
    flash_info: FlashInfo,
    module: Seq<char>,
    blocks: Map<u8, Seq<u8>>,
)
    requires
        crate::cli::box_code_ordered(flash_info),
    ensures
        ({
            let place = row_of(flash_info.box_code_locations@, 5);
            let (from, to) = place->Some_0;
            let bytes = blocks[5].subrange(from as int, to as int);
            let found = trimmed(vstd::utf8::decode_utf8(bytes), false);
            let fits = flash_info.patch_info is Some && blocks.contains_key(5) && place is Some
                && to <= blocks[5].len() && vstd::utf8::valid_utf8(bytes) && found
                == part_of(flash_info.patch_info->0.patch_box_code@);
            &&& unlock_box_code(flash_info, module, blocks) is Ok <==> fits
            &&& fits ==> unlock_box_code(flash_info, module, blocks) == Ok::<_, UnlockFault>(found)
        }),
{
}

/// The same of a file that was looked at before: its box code must be that part number.
pub proof fn law_only_the_box_code_of_the_patch_is_taken(
    flash_info: FlashInfo,
    box_code: Option<Seq<char>>,
)
    ensures
        unlock_refusal(flash_info, box_code) is None <==> flash_info.patch_info is Some && box_code
            == Some(part_of(flash_info.patch_info->0.patch_box_code@)),
{
}

/// An unlock writes the blocks 1 to 4, then the patch, under the number that is five above
/// the block that it goes over, then the calibration; and only from a file that has all
/// five blocks.
pub proof fn law_what_an_unlock_writes(flash_info: FlashInfo, blocks: Map<u8, Seq<u8>>)
    requires
        flash_info.patch_info matches Some(p) ==> p.patch_block_index <= 250,
    ensures
        parts_of(flash_info, blocks, Operation::Unlock) is Ok <==> flash_info.patch_info is Some
            && (forall|n: u8| 1 <= n <= 5 ==> #[trigger] blocks.contains_key(n)),
        parts_of(flash_info, blocks, Operation::Unlock) matches Ok(parts) ==> parts == seq![
            Part::Block(1u8),
            Part::Block(2u8),
            Part::Block(3u8),
            Part::Block(4u8),
            Part::Patch((flash_info.patch_info->0.patch_block_index + 5) as u8),
            Part::Block(5u8),
        ],
{
    reveal_with_fuel(missing_below, 5);
    if flash_info.patch_info is Some && missing_below(blocks, 5) is None && blocks.contains_key(
        5,
    ) {
        assert forall|n: u8| 1 <= n <= 5 implies #[trigger] blocks.contains_key(n) by {
            assert(n == 1 || n == 2 || n == 3 || n == 4 || n == 5);
        }
    }
}

/// A calibration flash writes the calibration and nothing else.
pub proof fn law_a_calibration_flash_writes_the_calibration(
    flash_info: FlashInfo,
    blocks: Map<u8, Seq<u8>>,
)
    ensures
        parts_of(flash_info, blocks, Operation::CalibrationFlash) matches Ok(parts) ==> parts.len()
            == 1 && (parts[0] matches Part::Block(n) && blocks.contains_key(n)
            && crate::module::number_of(flash_info.block_names@, "CAL"@) == Some(n)),
{
}

/// A patch is sent encrypted and not compressed, without an erase of the block that it
/// goes over and without a checksum; its length is announced as that of the block.
pub proof fn law_a_patch_is_written_over_its_block(
    flash_info: FlashInfo,
    number: u8,
    raw_len: int,
    payload: Seq<u8>,
)
    requires
        number > 5,
    ensures
        ({
            let p = prepared_patch(flash_info, number, raw_len, payload);
            &&& p.number == number
            &&& p.payload == payload
            &&& !p.erase
            &&& p.encryption_type == 0x0A
            &&& p.compression_type == 0x00
            &&& p.checksum == seq![0u8, 0u8, 0u8, 0u8]
            &&& row_of(flash_info.block_lengths@, (number - 5) as u8) matches Some(n)
                ==> p.announced_length == n as u32
        }),
{
}

/// A block is sent as its module wants it: erased unless the module says otherwise,
/// encrypted and compressed in the module's way, with the length that it has, or that the
/// module's table has for it, and with the checksum of the table, or else the CRC-32 of
/// the plain block, most significant byte first.
pub proof fn law_a_block_is_sent_as_its_module_wants_it(
    flash_info: FlashInfo,
    number: u8,
    raw_len: int,
    crc: u32,
    payload: Seq<u8>,
)
    ensures
        ({
            let p = prepared(flash_info, number, raw_len, crc, payload);
            &&& p.number == number
            &&& p.payload == payload
            &&& p.erase <==> !flash_info.unerased_blocks@.contains(number)
            &&& p.encryption_type == flash_info.encryption_type
            &&& p.compression_type == flash_info.compression_type
            &&& flash_info.dynamic_lengths ==> p.announced_length == raw_len as u32
            &&& !flash_info.dynamic_lengths ==> (row_of(flash_info.block_lengths@, number) matches
                Some(n) ==> p.announced_length == n as u32)
            &&& flash_info.uds_checksum_kind is Crc32Be ==> p.checksum.len() == 4
                && crate::laws::checksums::high_first(p.checksum, 0) == crc
            &&& flash_info.uds_checksum_kind is Static ==> (row_of(
                flash_info.block_checksums@,
                number,
            ) matches Some(b) ==> p.checksum == b@)
        }),
{
    if flash_info.uds_checksum_kind is Crc32Be {
        crate::bytes::lemma_be_round_trip(seq![0u8, 0u8, 0u8, 0u8], 0, crc as int);
        let s = seq![0u8, 0u8, 0u8, 0u8];
        let b = crate::bytes::be_bytes(crc as int);
        assert(crate::bytes::spliced(s, 0, b) == b);
    }
}

/// From the command line every block is sent encrypted and compressed in one way, and
/// erased unless it is a patch.
pub proof fn law_a_block_from_the_command_line(
    flash_info: FlashInfo,
    number: u8,
    name: Seq<char>,
    boxcode: Seq<char>,
    raw_len: int,
    payload: Seq<u8>,
)
    ensures
        ({
            let p = flash_block(flash_info, number, name, boxcode, raw_len, payload);
            let q = patch_block(number, raw_len, payload);
            &&& p.erase <==> number <= 5
            &&& !q.erase
            &&& p.encryption_type == 0x0A && p.compression_type == 0x0A
            &&& q.encryption_type == 0x0A && q.compression_type == 0x0A
            &&& p.number == number && q.number == number
            &&& p.payload == payload && q.payload == payload
            &&& p.name == name && p.boxcode == boxcode
            &&& q.announced_length == raw_len as u32
        }),
{
}

/// A patched image differs from what it was in the two places of its CBOOT that ask for
/// sample mode, which are four bytes of zeroes now.
pub proof fn law_a_patched_image_differs_in_its_cboot(
    flash_info: FlashInfo,
    module: Seq<char>,
    data: Seq<u8>,
    number: u8,
    from: usize,
    length: usize,
    p: int,
    q: int,
)
    requires
        crate::module::number_of(flash_info.block_names@, "CBOOT"@) == Some(number),
        row_of(flash_info.binfile_offsets@, number) == Some(from),
        row_of(flash_info.block_lengths@, number) == Some(length),
        from + length <= data.len(),
        p < q,
        forall|i: int|
            #[trigger] asks_for_sample_mode(data.subrange(from as int, from + length), i) <==> i
                == p || i == q,
    ensures
        image_patched(flash_info, module, data) matches Ok(out) && out.len() == data.len() && (
        forall|i: int|
            0 <= i < data.len() ==> #[trigger] out[i] == if from + p <= i < from + p + 4 || from + q
                <= i < from + q + 4 {
                0u8
            } else {
                data[i]
            }),
{
    let block = data.subrange(from as int, from + length);
    crate::laws::checksums::law_the_two_places_are_found(block, p, q);
    crate::laws::checksums::law_a_patched_cboot_is_always_in_sample_mode(block, p, q);
    let part = crate::cboot::patched(block, p, q);
    let out = crate::bytes::spliced(data, from as int, part);
    assert(asks_for_sample_mode(block, p) && asks_for_sample_mode(block, q));
    assert forall|i: int| 0 <= i < data.len() implies #[trigger] out[i] == if from + p <= i < from
        + p + 4 || from + q <= i < from + q + 4 {
        0u8
    } else {
        data[i]
    } by {
        if from <= i < from + length {
            assert(out[i] == part[i - from]);
        }
    }
}

} // verus!
