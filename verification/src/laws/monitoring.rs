//! Which areas of a calibration are monitored, and what becomes of the blocks of a file.

use vstd::prelude::*;

use crate::checksum::ecm3::{
    cal_range, cal_version, csv_range, ecm3_pass, located, range_among, table_offsets,
};
use crate::fixup::{after_all, after_patching, block_pass, Fault, Fixing};
use crate::laws::checksums::low_first;
use crate::module::{number_of, position_of, row_of, ChecksumState, FlashInfo, Registry};
use crate::text::{split, trimmed, unsigned_value};

verus! {

/// A row of the box code table is of a calibration version: the version stands in its sixth
/// column, and there are at least two more.
pub open spec fn row_of_version(line: Seq<char>, version: Seq<char>) -> bool {
    split(line, ',').len() >= 8 && trimmed(split(line, ',')[5], false) == version
}

/// The first row of a version gives its range, from the seventh column to the eighth, both
/// in decimal; where the first row does not, there is none.
pub proof fn law_the_row_of_a_version(lines: Seq<Seq<char>>, version: Seq<char>, i: int)
    ensures
        0 <= i < lines.len() && row_of_version(lines[i], version) && (forall|j: int|
            0 <= j < i ==> !row_of_version(#[trigger] lines[j], version)) ==> {
            let fields = split(lines[i], ',');
            let start = unsigned_value(trimmed(fields[6], false));
            let end = unsigned_value(trimmed(fields[7], false));
            &&& range_among(lines, version) is Some <==> start is Some && end is Some && start->0
                <= usize::MAX && end->0 <= usize::MAX
            &&& range_among(lines, version) matches Some((a, b)) ==> a == start->0 && b == end->0
        },
        (forall|j: int| 0 <= j < lines.len() ==> !row_of_version(#[trigger] lines[j], version))
            ==> range_among(lines, version) is None,
    decreases lines.len(),
{
    if lines.len() > 0 {
        let rest = lines.skip(1);
        law_the_row_of_a_version(rest, version, i - 1);
        if 0 < i < lines.len() && row_of_version(lines[i], version) && (forall|j: int|
            0 <= j < i ==> !row_of_version(#[trigger] lines[j], version)) {
            assert(!row_of_version(lines[0], version));
            assert(rest[i - 1] == lines[i]);
            assert forall|j: int| 0 <= j < i - 1 implies !row_of_version(
                #[trigger] rest[j],
                version,
            ) by {
                assert(rest[j] == lines[j + 1]);
            }
        }
        if forall|j: int| 0 <= j < lines.len() ==> !row_of_version(#[trigger] lines[j], version) {
            assert(!row_of_version(lines[0], version));
            assert forall|j: int| 0 <= j < rest.len() implies !row_of_version(
                #[trigger] rest[j],
                version,
            ) by {
                assert(rest[j] == lines[j + 1]);
            }
        }
    }
}

/// The first line of the table names its columns and is no row.
pub proof fn law_the_header_is_no_row(csv: Seq<char>, version: Seq<char>)
    ensures
        csv_range(csv, version) == range_among(split(csv, '\n').skip(1), version),
{
}

/// The version of a calibration stands where its module keeps it, up to the zeroes that
/// fill it up; it is looked up in the table.
pub proof fn law_the_version_of_a_calibration(
    csv: Seq<char>,
    cal: Seq<u8>,
    flash_info: FlashInfo,
    number: u8,
    from: usize,
    to: usize,
    text: Seq<char>,
    zeroes: Seq<char>,
)
    requires
        number_of(flash_info.block_names@, "CAL"@) == Some(number),
        row_of(flash_info.software_version_locations@, number) == Some((from, to)),
        from <= to <= cal.len(),
        vstd::utf8::valid_utf8(cal.subrange(from as int, to as int)),
        vstd::utf8::decode_utf8(cal.subrange(from as int, to as int)) == text + zeroes,
        forall|i: int| 0 <= i < zeroes.len() ==> #[trigger] zeroes[i] == '\0',
        text.len() > 0 ==> text[text.len() - 1] != '\0',
    ensures
        cal_version(cal, flash_info) == Some(text),
        cal_range(csv, cal, flash_info) == csv_range(csv, text),
{
    lemma_filled_up(text, zeroes);
}

proof fn lemma_filled_up(text: Seq<char>, zeroes: Seq<char>)
    requires
        forall|i: int| 0 <= i < zeroes.len() ==> #[trigger] zeroes[i] == '\0',
        text.len() > 0 ==> text[text.len() - 1] != '\0',
    ensures
        crate::checksum::ecm3::without_nuls(text + zeroes) == text,
    decreases zeroes.len(),
{
    if zeroes.len() == 0 {
        assert(text + zeroes =~= text);
    } else {
        let fewer = zeroes.drop_last();
        assert((text + zeroes).drop_last() =~= text + fewer);
        assert((text + zeroes).last() == zeroes[zeroes.len() - 1]);
        assert forall|i: int| 0 <= i < fewer.len() implies #[trigger] fewer[i] == '\0' by {
            assert(fewer[i] == zeroes[i]);
        }
        lemma_filled_up(text, fewer);
    }
}

/// The place in its block of an address: from where the block starts, or, below that, in
/// the cached view of the flash.
pub open spec fn place_of(address: int, base: int) -> int {
    if base <= address {
        address - base
    } else {
        address - base + 0x2000_0000
    }
}

proof fn lemma_table(table: Seq<u8>, at: int, base: int, n: nat)
    ensures
        n == 0 || at + 4 * n <= table.len() ==> table_offsets(table, at, base, n) is Some,
        table_offsets(table, at, base, n) matches Some(list) ==> {
            &&& list.len() == n
            &&& n > 0 ==> at + 4 * n <= table.len()
            &&& forall|i: int|
                0 <= i < n && place_of(low_first(table, at + 4 * i), base) >= 0 ==> #[trigger] list[i]
                    == place_of(low_first(table, at + 4 * i), base)
        },
    decreases n,
{
    if n > 0 {
        lemma_table(table, at, base, (n - 1) as nat);
        if let Some(list) = table_offsets(table, at, base, n) {
            let before = table_offsets(table, at, base, (n - 1) as nat)->0;
            assert(list =~= before.push(list[n - 1]));
            assert(at + (n - 1) * 4 == at + 4 * (n - 1));
        }
    }
}

/// The areas that are monitored are listed in the calibration, behind their number at
/// 0x410, where its list at 0x418 is not empty; else in the software block, at 0x520, or at
/// 0x540 of an early module. Each has a first and a last address, low byte first.
pub proof fn law_where_the_areas_are_listed(
    asw1: Seq<u8>,
    cal: Seq<u8>,
    base: int,
    early: bool,
    i: int,
)
    requires
        cal.len() >= 0x41C,
    ensures
        ({
            let count = low_first(cal, 0x410);
            let inside = low_first(cal, 0x418) > 0;
            let (table, at) = if inside {
                (cal, 0x418int)
            } else if early {
                (asw1, 0x540int)
            } else {
                (asw1, 0x520int)
            };
            let listed = crate::checksum::ecm3::listed_offsets(asw1, cal, base, early);
            &&& listed is Some <==> count == 0 || at + 8 * count <= table.len()
            &&& listed matches Some(list) ==> {
                &&& list.len() == 2 * count
                &&& 0 <= i < list.len() && place_of(low_first(table, at + 4 * i), base) >= 0
                    ==> list[i] == place_of(low_first(table, at + 4 * i), base)
            }
        }),
{
    let count = low_first(cal, 0x410);
    lemma_table(cal, 0x418, base, (2 * count) as nat);
    lemma_table(asw1, 0x540, base, (2 * count) as nat);
    lemma_table(asw1, 0x520, base, (2 * count) as nat);
    lemma_count(cal, 0x418, base, count);
    lemma_count(asw1, 0x540, base, count);
    lemma_count(asw1, 0x520, base, count);
}

proof fn lemma_count(table: Seq<u8>, at: int, base: int, count: int)
    requires
        count >= 0,
    ensures
        table_offsets(table, at, base, (count * 2) as nat) == table_offsets(
            table,
            at,
            base,
            (2 * count) as nat,
        ),
{
    assert(count * 2 == 2 * count);
}

/// A module that seems not to be an early one is tried as one where its list is empty or
/// leads out of the calibration.
pub proof fn law_early_modules_are_tried(
    asw1: Seq<u8>,
    cal: Seq<u8>,
    base: int,
    list: Seq<int>,
)
    requires
        crate::checksum::ecm3::listed_offsets(asw1, cal, base, false) == Some(list),
    ensures
        list.len() > 0 && list[0] <= cal.len() ==> located(asw1, cal, base, false) == Some(list),
        list.len() == 0 || list[0] > cal.len() ==> located(asw1, cal, base, false)
            == crate::checksum::ecm3::listed_offsets(asw1, cal, base, true),
        located(asw1, cal, base, true) == crate::checksum::ecm3::listed_offsets(
            asw1,
            cal,
            base,
            true,
        ),
{
}

/// The monitor checksum of a Simos calibration is corrected over the range that the table
/// gives for its version; no other kind of module has one.
pub proof fn law_the_monitor_checksum_is_corrected(
    csv: Seq<char>,
    flash_info: FlashInfo,
    f: Fixing,
    cal: u8,
)
    requires
        number_of(flash_info.block_names@, "CAL"@) == Some(cal),
        f.blocks.contains_key(cal),
    ensures
        ({
            let after = after_patching(csv, flash_info, f, false);
            &&& after.1 is None
            &&& !(flash_info.checksum_kind is Simos) ==> after.0 == f
            &&& flash_info.checksum_kind is Simos && cal_range(csv, f.blocks[cal], flash_info)
                is None ==> after.0.blocks == f.blocks && after.0.changed == f.changed
            &&& flash_info.checksum_kind is Simos ==> (cal_range(
                csv,
                f.blocks[cal],
                flash_info,
            ) matches Some((start, end)) ==> {
                let (state, fixed) = ecm3_pass(
                    seq![start as usize, end as usize],
                    f.blocks[cal],
                    true,
                );
                &&& state is Fixed ==> after.0.blocks == f.blocks.insert(cal, fixed)
                    && after.0.changed == f.changed.push(cal)
                &&& !(state is Fixed) ==> after.0.blocks == f.blocks && after.0.changed
                    == f.changed
            })
        }),
{
}

/// What the Simos checksum gave for a block is taken; a block without a result fails.
pub proof fn law_simos_results_are_taken(
    flash_info: FlashInfo,
    raw: Seq<u8>,
    number: u8,
    simos: Seq<(u8, (ChecksumState, Vec<u8>))>,
)
    requires
        flash_info.checksum_kind is Simos,
    ensures
        row_of(simos, number) matches Some((state, fixed)) ==> block_pass(
            flash_info,
            raw,
            number,
            simos,
        ) == (state, fixed@),
        row_of(simos, number) is None ==> block_pass(flash_info, raw, number, simos).0 is Failed,
{
}

proof fn lemma_first_fault(
    flash_info: FlashInfo,
    simos: Seq<(u8, (ChecksumState, Vec<u8>))>,
    f: Fixing,
    n: nat,
)
    requires
        n <= 6,
        crate::fixup::after_blocks(flash_info, simos, f, n).1 is Some,
    ensures
        crate::fixup::after_blocks(flash_info, simos, f, n).1 matches Some(why) && {
            ||| why matches Fault::Invalid(b) && b < n
            ||| why matches Fault::Failed(b) && b < n
        },
    decreases n,
{
    if n > 0 {
        if crate::fixup::after_blocks(flash_info, simos, f, (n - 1) as nat).1 is Some {
            lemma_first_fault(flash_info, simos, f, (n - 1) as nat);
        }
    }
}

/// A correction without the CBOOT patch fails only with a block whose checksum is wrong or
/// could not be worked out, and a file without such blocks is corrected.
pub proof fn law_when_a_file_cannot_be_corrected(
    csv: Seq<char>,
    flash_info: FlashInfo,
    f: Fixing,
    simos: Seq<(u8, (ChecksumState, Vec<u8>))>,
)
    ensures
        after_all(csv, flash_info, f, false, simos).1 matches Some(why) ==> {
            ||| why matches Fault::Invalid(b) && b <= 5
            ||| why matches Fault::Failed(b) && b <= 5
        },
        (forall|b: u8|
            #![trigger f.blocks.contains_key(b)]
            b <= 5 ==> !f.blocks.contains_key(b)) ==> after_all(
            csv,
            flash_info,
            f,
            false,
            simos,
        ).1 is None,
{
    let patched = after_patching(csv, flash_info, f, false).0;
    if after_all(csv, flash_info, f, false, simos).1 is Some {
        lemma_first_fault(flash_info, simos, patched, 6);
    }
    if forall|b: u8|
        #![trigger f.blocks.contains_key(b)]
        b <= 5 ==> !f.blocks.contains_key(b) {
        assert forall|b: u8| #![trigger patched.blocks.contains_key(b)] b <= 5 implies
            !patched.blocks.contains_key(b) by {
            assert(!f.blocks.contains_key(b));
        }
        lemma_nothing_to_do(flash_info, simos, patched, 6);
    }
}

proof fn lemma_nothing_to_do(
    flash_info: FlashInfo,
    simos: Seq<(u8, (ChecksumState, Vec<u8>))>,
    f: Fixing,
    n: nat,
)
    requires
        n <= 6,
        forall|b: u8|
            #![trigger f.blocks.contains_key(b)]
            b <= 5 ==> !f.blocks.contains_key(b),
    ensures
        crate::fixup::after_blocks(flash_info, simos, f, n) == (f, None::<Fault>),
    decreases n,
{
    if n > 0 {
        lemma_nothing_to_do(flash_info, simos, f, (n - 1) as nat);
        assert(!f.blocks.contains_key((n - 1) as u8));
    }
}

/// A module is found by its name; the first of a name counts.
pub proof fn law_modules_are_found(modules: Seq<(String, FlashInfo)>, name: Seq<char>, i: int)
    ensures
        0 <= i < modules.len() && modules[i].0@ == name && (forall|j: int|
            0 <= j < i ==> (#[trigger] modules[j]).0@ != name) ==> position_of(modules, name)
            == Some(i),
        (forall|j: int| 0 <= j < modules.len() ==> (#[trigger] modules[j]).0@ != name)
            ==> position_of(modules, name) is None,
    decreases modules.len(),
{
    if modules.len() > 0 {
        let rest = modules.skip(1);
        law_modules_are_found(rest, name, i - 1);
        if 0 < i < modules.len() && modules[i].0@ == name && (forall|j: int|
            0 <= j < i ==> (#[trigger] modules[j]).0@ != name) {
            assert(modules[0].0@ != name);
            assert(rest[i - 1] == modules[i]);
            assert forall|j: int| 0 <= j < i - 1 implies (#[trigger] rest[j]).0@ != name by {
                assert(rest[j] == modules[j + 1]);
            }
        }
        if forall|j: int| 0 <= j < modules.len() ==> (#[trigger] modules[j]).0@ != name {
            assert(modules[0].0@ != name);
            assert forall|j: int| 0 <= j < rest.len() implies (#[trigger] rest[j]).0@ != name by {
                assert(rest[j] == modules[j + 1]);
            }
        }
    }
}

/// What is known of a module is what stands beside its name.
pub proof fn law_what_is_known_of_a_module(registry: Registry, name: Seq<char>)
    ensures
        registry.spec_get(name) == (match position_of(registry.modules@, name) {
            Some(i) => Some(registry.modules@[i].1),
            None => None,
        }),
{
}

} // verus!
