//! ECM3 monitor checksum: 64-bit sum of little-endian `u32` words in CAL regions.
//!
//! The ECM3 process continuously checksums sections of CAL flash. In newer ECUs
//! the addresses of these areas are in ASW1; in older ones they are in CAL.

use std::collections::HashMap;

use vstd::prelude::*;

use crate::bytes::{copy_range, le32_at, le_bytes, lemma_le_round_trip, overwrite, read_u32_le, spliced, to_vec, u32_le_bytes};
use crate::checksum::{agree_outside, settled};
use crate::module::{number_of, row_of, BlockData, ChecksumState, FlashInfo};
use crate::text::{chars_eq, chars_of, parse_unsigned, split, split_chars, strict_utf8, texts, trim, trimmed, unsigned_value};

verus! {

broadcast use vstd::std_specs::hash::group_hash_axioms;

/// ECM3 header location in CAL.
pub const ECM3_CAL_MONITOR_CHECKSUM: usize = 0x400;

/// ECM3 address table location in ASW1 of a standard ECU.
pub const ECM3_CAL_MONITOR_ADDRESSES: usize = 0x520;

/// ECM3 address table location in ASW1 of an early ECU.
pub const ECM3_CAL_MONITOR_ADDRESSES_EARLY: usize = 0x540;

/// Distance between the uncached and the cached view of flash.
pub const ECM3_CAL_MONITOR_OFFSET_CACHED: i64 = 0x2000_0000;

/// Column of the calibration version in the box code table. The header is:
/// `box_code,box_version,engine_name,cboot_version,asw_version,cal_version,
/// ecm3_address_start,ecm3_address_end,allowed_boxcodes`
pub const CSV_COL_CAL_VERSION: usize = 5;

/// Column of the start of the ECM3 range.
pub const CSV_COL_ECM3_START: usize = 6;

/// Column of the end of the ECM3 range.
pub const CSV_COL_ECM3_END: usize = 7;

/// Columns before the trailing quoted list, which has commas of its own.
pub const CSV_FIELDS_BEFORE_QUOTED: usize = 8;

/// A row that names a calibration version and an ECM3 range.
pub open spec fn row_names(line: Seq<char>, cal_version: Seq<char>) -> bool {
    let fields = split(line, ',');
    fields.len() > CSV_COL_ECM3_END && trimmed(fields[CSV_COL_CAL_VERSION as int], false)
        == cal_version
}

/// A field as an offset.
pub open spec fn offset_value(field: Seq<char>) -> Option<int> {
    match unsigned_value(trimmed(field, false)) {
        Some(n) => if n <= usize::MAX {
            Some(n as int)
        } else {
            None
        },
        None => None,
    }
}

/// The range of a row. A negative or otherwise unusable value gives `None`.
pub open spec fn row_range(line: Seq<char>) -> Option<(int, int)> {
    let fields = split(line, ',');
    match (
        offset_value(fields[CSV_COL_ECM3_START as int]),
        offset_value(fields[CSV_COL_ECM3_END as int]),
    ) {
        (Some(start), Some(end)) => Some((start, end)),
        _ => None,
    }
}

/// The range of the first row that names the version.
pub open spec fn range_among(lines: Seq<Seq<char>>, cal_version: Seq<char>) -> Option<(int, int)>
    decreases lines.len(),
{
    if lines.len() == 0 {
        None
    } else if row_names(lines[0], cal_version) {
        row_range(lines[0])
    } else {
        range_among(lines.skip(1), cal_version)
    }
}

/// The ECM3 range a box code table gives for a calibration version. The first
/// line is the header.
pub open spec fn csv_range(csv: Seq<char>, cal_version: Seq<char>) -> Option<(int, int)> {
    range_among(split(csv, '\n').skip(1), cal_version)
}

/// A range of machine integers stands for a range.
pub open spec fn same_range(r: Option<(usize, usize)>, s: Option<(int, int)>) -> bool {
    match r {
        Some((a, b)) => s == Some((a as int, b as int)),
        None => s is None,
    }
}

fn parse_offset(field: &Vec<char>) -> (r: Option<usize>)
    ensures
        r == match offset_value(field@) {
            Some(n) => Some(n as usize),
            None => None,
        },
{
    let t = trim(field, false);
    match parse_unsigned(&t, usize::MAX as u64) {
        Some(n) => Some(n as usize),
        None => None,
    }
}

/// The ECM3 address range a box code table gives for a CAL version.
///
/// The two address columns are decimal and are offsets into the CAL block.
/// Some rows carry values that are not; those give `None`.
pub fn load_ecm3_from_csv(csv: &str, cal_version: &str) -> (r: Option<(usize, usize)>)
    ensures
        same_range(r, csv_range(csv@, cal_version@)),
{
    let text = chars_of(csv);
    let version = chars_of(cal_version);
    let lines = split_chars(&text, '\n');
    let ghost rows = split(csv@, '\n').skip(1);
    assert(texts(lines@).skip(1) == rows);
    let mut i: usize = 1;
    assert(rows.skip(0) == rows);
    while i < lines.len()
        invariant
            1 <= i <= lines@.len(),
            version@ == cal_version@,
            rows == texts(lines@).skip(1),
            csv_range(csv@, cal_version@) == range_among(rows.skip(i - 1), cal_version@),
        decreases lines@.len() - i,
    {
        let ghost rest = rows.skip(i - 1);
        assert(rest[0] == lines@[i as int]@);
        assert(rest.skip(1) == rows.skip(i as int));
        let fields = split_chars(&lines[i], ',');
        if fields.len() > CSV_COL_ECM3_END {
            let ghost f = split(lines@[i as int]@, ',');
            assert(f[5] == fields@[5]@ && f[6] == fields@[6]@ && f[7] == fields@[7]@);
            let name = trim(&fields[CSV_COL_CAL_VERSION], false);
            if chars_eq(&name, &version) {
                let start: usize = match parse_offset(&fields[CSV_COL_ECM3_START]) {
                    Some(n) => n,
                    None => {
                        return None;
                    },
                };
                let end: usize = match parse_offset(&fields[CSV_COL_ECM3_END]) {
                    Some(n) => n,
                    None => {
                        return None;
                    },
                };
                return Some((start, end));
            }
        }
        i = i + 1;
    }
    None
}

/// `s` without trailing NULs.
pub open spec fn without_nuls(s: Seq<char>) -> Seq<char>
    decreases s.len(),
{
    if s.len() > 0 && s.last() == '\0' {
        without_nuls(s.drop_last())
    } else {
        s
    }
}

/// The software version a CAL block carries.
pub open spec fn cal_version(cal: Seq<u8>, flash_info: FlashInfo) -> Option<Seq<char>> {
    match number_of(flash_info.block_names@, "CAL"@) {
        None => None,
        Some(n) => match row_of(flash_info.software_version_locations@, n) {
            None => None,
            Some((from, to)) => if from <= to <= cal.len() && vstd::utf8::valid_utf8(
                cal.subrange(from as int, to as int),
            ) {
                Some(
                    without_nuls(
                        vstd::utf8::decode_utf8(cal.subrange(from as int, to as int)),
                    ),
                )
            } else {
                None
            },
        },
    }
}

/// The ECM3 range of a CAL block, by its software version.
pub open spec fn cal_range(csv: Seq<char>, cal: Seq<u8>, flash_info: FlashInfo) -> Option<
    (int, int),
> {
    match cal_version(cal, flash_info) {
        None => None,
        Some(v) => csv_range(csv, v),
    }
}

/// The ECM3 address list of a CAL block, from its software version and a box
/// code table. Used when no ASW1 block is available to read it from.
pub fn load_ecm3_location(csv: &str, cal_data: &[u8], flash_info: &FlashInfo) -> (r: Option<
    Vec<usize>,
>)
    ensures
        r is Some <==> cal_range(csv@, cal_data@, *flash_info) is Some,
        r matches Some(v) ==> v@.len() == 2 && cal_range(csv@, cal_data@, *flash_info) == Some(
            (v@[0] as int, v@[1] as int),
        ),
{
    let number: u8 = match flash_info.block_to_number("CAL") {
        Some(n) => n,
        None => {
            return None;
        },
    };
    let (from, to): (usize, usize) = match flash_info.software_version_location(number) {
        Some(range) => range,
        None => {
            return None;
        },
    };
    if from > to || to > cal_data.len() {
        return None;
    }
    let bytes = copy_range(cal_data, from, to);
    let version = match strict_utf8(bytes.as_slice()) {
        Some(s) => s,
        None => {
            return None;
        },
    };
    let mut chars = chars_of(version.as_str());
    let ghost whole = chars@;
    while chars.len() > 0 && chars[chars.len() - 1] == '\0'
        invariant
            without_nuls(whole) == without_nuls(chars@),
        decreases chars@.len(),
    {
        let ghost before = chars@;
        chars.pop();
        assert(chars@ == before.drop_last());
    }
    let name = crate::text::string_of(&chars);
    match load_ecm3_from_csv(csv, name.as_str()) {
        Some((start, end)) => {
            let mut v: Vec<usize> = Vec::new();
            v.push(start);
            v.push(end);
            Some(v)
        },
        None => None,
    }
}

/// A block offset for an absolute address: relative to the base, or to the
/// cached view of it. What lies below both wraps to a huge offset.
pub open spec fn block_offset(address: int, base: int) -> int {
    let direct = address - base;
    let offset = if direct < 0 {
        direct + ECM3_CAL_MONITOR_OFFSET_CACHED
    } else {
        direct
    };
    if offset < 0 {
        usize::MAX + 1 + offset
    } else {
        offset
    }
}

/// The first `n` entries of an address table, as block offsets. `None` if the
/// table runs out of its block.
pub open spec fn table_offsets(table: Seq<u8>, at: int, base: int, n: nat) -> Option<Seq<int>>
    decreases n,
{
    if n == 0 {
        Some(Seq::empty())
    } else {
        match table_offsets(table, at, base, (n - 1) as nat) {
            None => None,
            Some(before) => {
                let off = at + (n - 1) * 4;
                if off + 4 > table.len() {
                    None
                } else {
                    Some(before.push(block_offset(le32_at(table, off), base)))
                }
            },
        }
    }
}

/// The address list, read from CAL where CAL holds it, else from ASW1.
pub open spec fn listed_offsets(asw1: Seq<u8>, cal: Seq<u8>, base: int, early: bool) -> Option<
    Seq<int>,
> {
    if cal.len() < 0x41C {
        None
    } else {
        let count = le32_at(cal, 0x410);
        if le32_at(cal, 0x418) > 0 {
            table_offsets(cal, 0x418, base, (count * 2) as nat)
        } else if early {
            table_offsets(asw1, 0x540, base, (count * 2) as nat)
        } else {
            table_offsets(asw1, 0x520, base, (count * 2) as nat)
        }
    }
}

/// The address list: the standard one, or the early one where the standard one
/// does not start inside CAL.
pub open spec fn located(asw1: Seq<u8>, cal: Seq<u8>, base: int, early: bool) -> Option<Seq<int>> {
    match listed_offsets(asw1, cal, base, early) {
        None => None,
        Some(list) => if !early && (list.len() == 0 || list[0] > cal.len()) {
            listed_offsets(asw1, cal, base, true)
        } else {
            Some(list)
        },
    }
}

/// The offsets of a list of machine integers.
pub open spec fn as_offsets(v: Seq<usize>) -> Seq<int> {
    v.map_values(|n: usize| n as int)
}

fn read_offsets(asw1: &[u8], cal: &[u8], base: i64, early: bool) -> (r: Option<Vec<usize>>)
    requires
        0 <= base <= u32::MAX,
    ensures
        r is Some <==> listed_offsets(asw1@, cal@, base as int, early) is Some,
        r matches Some(v) ==> listed_offsets(asw1@, cal@, base as int, early) == Some(
            as_offsets(v@),
        ),
{
    if cal.len() < 0x41C {
        return None;
    }
    let count: u32 = read_u32_le(cal, ECM3_CAL_MONITOR_CHECKSUM + 16);
    let embedded: u32 = read_u32_le(cal, ECM3_CAL_MONITOR_CHECKSUM + 24);
    let (table, at): (&[u8], usize) = if embedded > 0 {
        (cal, ECM3_CAL_MONITOR_CHECKSUM + 24)
    } else if early {
        (asw1, ECM3_CAL_MONITOR_ADDRESSES_EARLY)
    } else {
        (asw1, ECM3_CAL_MONITOR_ADDRESSES)
    };
    let total: u64 = count as u64 * 2;
    let len: u64 = table.len() as u64;
    let mut out: Vec<usize> = Vec::new();
    let mut i: u64 = 0;
    assert(as_offsets(out@) == Seq::<int>::empty());
    while i < total
        invariant
            i <= total <= 0x2_0000_0000,
            at <= 0x540,
            len == table@.len(),
            table@.len() <= usize::MAX,
            0 <= base <= u32::MAX,
            listed_offsets(asw1@, cal@, base as int, early) == table_offsets(
                table@,
                at as int,
                base as int,
                total as nat,
            ),
            table_offsets(table@, at as int, base as int, i as nat) == Some(as_offsets(out@)),
        decreases total - i,
    {
        let off: u64 = at as u64 + i * 4;
        if off + 4 > len {
            proof {
                lemma_table_ends(table@, at as int, base as int, (i + 1) as nat, total as nat);
            }
            return None;
        }
        let address: i64 = read_u32_le(table, off as usize) as i64;
        let direct: i64 = address - base;
        let offset: i64 = if direct < 0 {
            direct + ECM3_CAL_MONITOR_OFFSET_CACHED
        } else {
            direct
        };
        let wrapped: usize = if offset < 0 {
            usize::MAX - ((-offset - 1) as usize)
        } else {
            offset as usize
        };
        let ghost before = as_offsets(out@);
        out.push(wrapped);
        assert(as_offsets(out@) == before.push(wrapped as int));
        i = i + 1;
    }
    Some(out)
}

/// A table that ends before entry `m` has no `n` entries for a larger `n`.
proof fn lemma_table_ends(table: Seq<u8>, at: int, base: int, m: nat, n: nat)
    requires
        m <= n,
        table_offsets(table, at, base, m) is None,
    ensures
        table_offsets(table, at, base, n) is None,
    decreases n,
{
    if m < n {
        lemma_table_ends(table, at, base, m, (n - 1) as nat);
    }
}

/// Locate the ECM3 address list with ASW1 data, falling back to early mode.
pub fn locate_ecm3_with_asw1(
    flash_info: &FlashInfo,
    blocks: &HashMap<u8, &BlockData>,
    is_early: bool,
) -> (r: Option<Vec<usize>>)
    ensures
        ({
            let asw1 = number_of(flash_info.block_names@, "ASW1"@);
            let cal = number_of(flash_info.block_names@, "CAL"@);
            let known = asw1 is Some && cal is Some && blocks@.contains_key(asw1->0)
                && blocks@.contains_key(cal->0) && row_of(flash_info.base_addresses@, cal->0)
                is Some;
            let list = located(
                blocks@[asw1->0].block_bytes@,
                blocks@[cal->0].block_bytes@,
                row_of(flash_info.base_addresses@, cal->0)->0 as int,
                is_early,
            );
            &&& r is Some <==> known && list is Some
            &&& r matches Some(v) ==> list == Some(as_offsets(v@))
        }),
{
    let asw1_num: u8 = match flash_info.block_to_number("ASW1") {
        Some(n) => n,
        None => {
            return None;
        },
    };
    let cal_num: u8 = match flash_info.block_to_number("CAL") {
        Some(n) => n,
        None => {
            return None;
        },
    };
    let asw1: &BlockData = match blocks.get(&asw1_num) {
        Some(b) => *b,
        None => {
            return None;
        },
    };
    let cal: &BlockData = match blocks.get(&cal_num) {
        Some(b) => *b,
        None => {
            return None;
        },
    };
    let base: i64 = match flash_info.base_address(cal_num) {
        Some(a) => a as i64,
        None => {
            return None;
        },
    };
    let asw1_data = asw1.block_bytes.as_slice();
    let cal_data = cal.block_bytes.as_slice();
    match read_offsets(asw1_data, cal_data, base, is_early) {
        None => None,
        Some(list) => {
            assert(list@.len() > 0 ==> as_offsets(list@)[0] == list@[0]);
            if !is_early && (list.len() == 0 || list[0] > cal_data.len()) {
                read_offsets(asw1_data, cal_data, base, true)
            } else {
                Some(list)
            }
        },
    }
}

/// The sum of the first `n` little-endian `u32` words of `s`.
pub open spec fn words_below(s: Seq<u8>, n: nat) -> int
    decreases n,
{
    if n == 0 {
        0
    } else {
        words_below(s, (n - 1) as nat) + le32_at(s, 4 * (n - 1))
    }
}

/// The sum of the whole words of `s`.
pub open spec fn word_sum(s: Seq<u8>) -> int {
    words_below(s, s.len() / 4)
}

/// The sum over the first `n` areas. `None` if one of them ends outside.
pub open spec fn areas_below(cal: Seq<u8>, addresses: Seq<usize>, n: nat) -> Option<int>
    decreases n,
{
    if n == 0 {
        Some(0)
    } else {
        match areas_below(cal, addresses, (n - 1) as nat) {
            None => None,
            Some(sum) => {
                let from = addresses[2 * (n - 1)] as int;
                let to = addresses[2 * (n - 1) + 1] as int;
                if to > cal.len() {
                    None
                } else {
                    Some(sum + word_sum(cal.subrange(from, to)))
                }
            },
        }
    }
}

/// The 64-bit number at `off`, high word first, each word little-endian.
pub open spec fn pair_at(cal: Seq<u8>, off: int) -> int {
    le32_at(cal, off) * 0x1_0000_0000 + le32_at(cal, off + 4)
}

/// `v` as two little-endian words, high word first.
pub open spec fn pair_bytes(v: int) -> Seq<u8> {
    le_bytes(v / 0x1_0000_0000) + le_bytes(v % 0x1_0000_0000)
}

/// Where the checksum is stored: old ECUs have an alternate place.
pub open spec fn stored_at(cal: Seq<u8>) -> int {
    if cal[0x438] > 0 {
        0x438
    } else {
        0x400
    }
}

/// The monitor checksum of a CAL block. `None` if an area ends outside.
pub open spec fn monitor_sum(addresses: Seq<usize>, cal: Seq<u8>) -> Option<int> {
    match areas_below(cal, addresses, addresses.len() / 2) {
        None => None,
        Some(sum) => Some((pair_at(cal, 0x408) + sum) % 0x1_0000_0000_0000_0000),
    }
}

/// What a pass over a CAL block gives.
pub open spec fn ecm3_pass(addresses: Seq<usize>, cal: Seq<u8>, fix: bool) -> (
    ChecksumState,
    Seq<u8>,
) {
    if cal.len() < 0x440 {
        (ChecksumState::Failed, cal)
    } else {
        match monitor_sum(addresses, cal) {
            None => (ChecksumState::Failed, cal),
            Some(sum) => settled(
                cal,
                pair_at(cal, stored_at(cal)) == sum,
                fix,
                stored_at(cal),
                pair_bytes(sum),
            ),
        }
    }
}

/// No area that is reached ends before it starts.
pub open spec fn areas_ordered(addresses: Seq<usize>, len: int) -> bool {
    forall|k: int|
        0 <= k < addresses.len() / 2 && (forall|j: int|
            0 <= j <= k ==> #[trigger] addresses[2 * j + 1] <= len) ==> #[trigger] addresses[2 * k]
            <= addresses[2 * k + 1]
}

fn sum_area(cal: &[u8], from: usize, to: usize, start: u64) -> (r: u64)
    requires
        from <= to <= cal@.len() <= usize::MAX,
    ensures
        r == (start + word_sum(cal@.subrange(from as int, to as int))) % 0x1_0000_0000_0000_0000,
{
    let ghost part = cal@.subrange(from as int, to as int);
    let count: usize = (to - from) / 4;
    let mut sum: u64 = start;
    let mut i: usize = 0;
    while i < count
        invariant
            i <= count,
            count == (to - from) / 4,
            from <= to <= cal@.len() <= usize::MAX,
            part == cal@.subrange(from as int, to as int),
            sum == (start + words_below(part, i as nat)) % 0x1_0000_0000_0000_0000,
        decreases count - i,
    {
        let word: u32 = read_u32_le(cal, from + 4 * i);
        assert(le32_at(part, 4 * i) == le32_at(cal@, from + 4 * i));
        sum = sum.wrapping_add(word as u64);
        i = i + 1;
    }
    sum
}

/// Validate (and optionally fix) the ECM3 monitor checksum in CAL.
///
/// `addresses` alternates start and end offsets.
pub fn validate_ecm3(addresses: &[usize], cal_data: &[u8], fix: bool) -> (r: (
    ChecksumState,
    Vec<u8>,
))
    requires
        areas_ordered(addresses@, cal_data@.len() as int),
    ensures
        (r.0, r.1@) == ecm3_pass(addresses@, cal_data@, fix),
{
    if cal_data.len() < 0x440 {
        return (ChecksumState::Failed, to_vec(cal_data));
    }
    let init_hi: u64 = read_u32_le(cal_data, 0x408) as u64;
    let init_lo: u64 = read_u32_le(cal_data, 0x40C) as u64;
    let mut checksum: u64 = init_hi * 0x1_0000_0000 + init_lo;
    let ghost seed = pair_at(cal_data@, 0x408);
    let pairs: usize = addresses.len() / 2;
    let mut k: usize = 0;
    while k < pairs
        invariant
            k <= pairs,
            pairs == addresses@.len() / 2,
            addresses@.len() <= usize::MAX,
            cal_data@.len() <= usize::MAX,
            areas_ordered(addresses@, cal_data@.len() as int),
            forall|j: int|
                0 <= j < k ==> #[trigger] addresses@[2 * j + 1] <= cal_data@.len(),
            areas_below(cal_data@, addresses@, k as nat) is Some,
            checksum == (seed + areas_below(cal_data@, addresses@, k as nat)->0)
                % 0x1_0000_0000_0000_0000,
        decreases pairs - k,
    {
        let from: usize = addresses[2 * k];
        let to: usize = addresses[2 * k + 1];
        if to > cal_data.len() {
            proof {
                lemma_areas_end(cal_data@, addresses@, (k + 1) as nat, pairs as nat);
            }
            return (ChecksumState::Failed, to_vec(cal_data));
        }
        assert(addresses@[2 * (k as int)] <= addresses@[2 * (k as int) + 1]);
        checksum = sum_area(cal_data, from, to, checksum);
        k = k + 1;
    }
    let at: usize = if cal_data[0x438] > 0 {
        0x438
    } else {
        0x400
    };
    let stored_hi: u64 = read_u32_le(cal_data, at) as u64;
    let stored_lo: u64 = read_u32_le(cal_data, at + 4) as u64;
    let stored: u64 = stored_hi * 0x1_0000_0000 + stored_lo;
    if checksum == stored {
        (ChecksumState::Valid, to_vec(cal_data))
    } else if fix {
        let mut fixed = to_vec(cal_data);
        let hi = u32_le_bytes((checksum / 0x1_0000_0000) as u32);
        let lo = u32_le_bytes((checksum % 0x1_0000_0000) as u32);
        let part: [u8; 8] = [hi[0], hi[1], hi[2], hi[3], lo[0], lo[1], lo[2], lo[3]];
        assert(part@ == pair_bytes(checksum as int));
        overwrite(&mut fixed, at, &part);
        (ChecksumState::Fixed, fixed)
    } else {
        (ChecksumState::Invalid, to_vec(cal_data))
    }
}

/// An area that ends outside spoils every longer list.
proof fn lemma_areas_end(cal: Seq<u8>, addresses: Seq<usize>, m: nat, n: nat)
    requires
        m <= n,
        areas_below(cal, addresses, m) is None,
    ensures
        areas_below(cal, addresses, n) is None,
    decreases n,
{
    if m < n {
        lemma_areas_end(cal, addresses, m, (n - 1) as nat);
    }
}

/// The areas do not reach into the eight bytes at `at`.
pub open spec fn areas_avoid(addresses: Seq<usize>, at: int) -> bool {
    forall|k: int|
        0 <= k < addresses.len() / 2 ==> (#[trigger] addresses[2 * k + 1] <= at || at + 8
            <= addresses[2 * k])
}

proof fn lemma_areas_unchanged(cal: Seq<u8>, addresses: Seq<usize>, at: int, part: Seq<u8>, n: nat)
    requires
        0 <= at,
        part.len() == 8,
        at + 8 <= cal.len(),
        areas_avoid(addresses, at),
        n <= addresses.len() / 2,
        areas_ordered(addresses, cal.len() as int),
        areas_below(cal, addresses, n) is Some,
    ensures
        areas_below(spliced(cal, at, part), addresses, n) == areas_below(cal, addresses, n),
        forall|j: int| 0 <= j < n ==> #[trigger] addresses[2 * j + 1] <= cal.len(),
    decreases n,
{
    if n > 0 {
        lemma_areas_unchanged(cal, addresses, at, part, (n - 1) as nat);
        let k = n - 1;
        let from = addresses[2 * k] as int;
        let to = addresses[2 * k + 1] as int;
        assert(addresses[2 * k] <= addresses[2 * k + 1]);
        assert(to <= at || at + 8 <= from);
        assert(spliced(cal, at, part).subrange(from, to) == cal.subrange(from, to));
    }
}

/// A fixed CAL block validates, as long as the areas leave the stored checksum
/// out and the alternate place, where it is used, stays marked as used.
pub proof fn law_fixed_blocks_validate(addresses: Seq<usize>, cal: Seq<u8>)
    requires
        cal.len() >= 0x440,
        areas_ordered(addresses, cal.len() as int),
        monitor_sum(addresses, cal) is Some,
        areas_avoid(addresses, stored_at(cal)),
        stored_at(cal) == 0x438 ==> pair_bytes(monitor_sum(addresses, cal)->0)[0] > 0,
    ensures
        ecm3_pass(addresses, ecm3_pass(addresses, cal, true).1, false).0 == ChecksumState::Valid,
        ecm3_pass(addresses, cal, true).1.len() == cal.len(),
{
    let sum = monitor_sum(addresses, cal)->0;
    let at = stored_at(cal);
    let hi = sum / 0x1_0000_0000;
    let lo = sum % 0x1_0000_0000;
    let fixed = spliced(cal, at, pair_bytes(sum));
    let half = spliced(cal, at, le_bytes(hi));
    assert(fixed == spliced(half, at + 4, le_bytes(lo)));
    lemma_le_round_trip(cal, at, hi);
    lemma_le_round_trip(half, at + 4, lo);
    assert(le32_at(fixed, at) == le32_at(half, at));
    assert(pair_at(fixed, at) == sum);
    assert(le32_at(fixed, 0x408) == le32_at(cal, 0x408));
    assert(le32_at(fixed, 0x40C) == le32_at(cal, 0x40C));
    lemma_areas_unchanged(cal, addresses, at, pair_bytes(sum), addresses.len() / 2);
    assert(fixed[0x438] == if at == 0x438 {
        pair_bytes(sum)[0]
    } else {
        cal[0x438]
    });
}

/// A pass changes a CAL block exactly where it says that it fixed it, and then only
/// where the checksum is stored.
pub proof fn law_a_fix_changes_the_block(addresses: Seq<usize>, cal: Seq<u8>)
    ensures
        (ecm3_pass(addresses, cal, true).0 == ChecksumState::Fixed) == (ecm3_pass(
            addresses,
            cal,
            true,
        ).1 != cal),
        agree_outside(ecm3_pass(addresses, cal, true).1, cal, stored_at(cal), 8),
{
    if cal.len() >= 0x440 && monitor_sum(addresses, cal) is Some {
        let sum = monitor_sum(addresses, cal)->0;
        let at = stored_at(cal);
        let hi = sum / 0x1_0000_0000;
        let lo = sum % 0x1_0000_0000;
        let fixed = spliced(cal, at, pair_bytes(sum));
        let half = spliced(cal, at, le_bytes(hi));
        assert(fixed == spliced(half, at + 4, le_bytes(lo)));
        lemma_le_round_trip(cal, at, hi);
        lemma_le_round_trip(half, at + 4, lo);
        assert(le32_at(fixed, at) == le32_at(half, at));
        assert(pair_at(fixed, at) == sum);
    }
}

} // verus!
