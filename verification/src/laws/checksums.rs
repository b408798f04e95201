//! What the checksums cover, and where they are stored.

use vstd::prelude::*;

use crate::bytes::{le32_at, le_bytes, lemma_be_round_trip, lemma_le_round_trip, spliced};
use crate::cboot::{lemma_positions, patched, positions};
use crate::checksum::dq381::dq381_pass;
use crate::checksum::dsg::dsg_pass;
use crate::checksum::ecm3::{
    areas_below, ecm3_pass, monitor_sum, pair_bytes, words_below,
};
use crate::checksum::haldex::haldex_pass;
use crate::checksum::crc32;
use crate::module::ChecksumState;

verus! {

/// The four bytes at `at` as a number, least significant first.
pub open spec fn low_first(s: Seq<u8>, at: int) -> int {
    s[at] + 0x100 * s[at + 1] + 0x1_0000 * s[at + 2] + 0x100_0000 * s[at + 3]
}

/// The four bytes at `at` as a number, most significant first.
pub open spec fn high_first(s: Seq<u8>, at: int) -> int {
    0x100_0000 * s[at] + 0x1_0000 * s[at + 1] + 0x100 * s[at + 2] + s[at + 3]
}

/// Whether two blocks differ in the four bytes at `at` only, which are `d` more in the
/// second.
pub open spec fn raised(a: Seq<u8>, b: Seq<u8>, at: int, d: int) -> bool {
    &&& a.len() == b.len()
    &&& 0 <= at
    &&& at + 4 <= a.len()
    &&& low_first(b, at) == low_first(a, at) + d
    &&& forall|i: int| 0 <= i < a.len() && !(at <= i < at + 4) ==> a[i] == b[i]
}

proof fn lemma_same_word(a: Seq<u8>, b: Seq<u8>, at: int, d: int, i: int)
    requires
        raised(a, b, at, d),
        0 <= i,
        i + 4 <= a.len(),
        i + 4 <= at || at + 4 <= i,
    ensures
        le32_at(a, i) == le32_at(b, i),
{
}

proof fn lemma_words_raised(a: Seq<u8>, b: Seq<u8>, k: int, d: int, n: nat)
    requires
        0 <= k,
        raised(a, b, 4 * k, d),
        4 * n <= a.len(),
    ensures
        words_below(b, n) == words_below(a, n) + if k < n {
            d
        } else {
            0
        },
    decreases n,
{
    if n > 0 {
        lemma_words_raised(a, b, k, d, (n - 1) as nat);
        if k != n - 1 {
            lemma_same_word(a, b, 4 * k, d, 4 * (n - 1));
        }
    }
}

/// Area `j` of a list of areas.
pub open spec fn area(addresses: Seq<usize>, j: int) -> (int, int) {
    (addresses[2 * j] as int, addresses[2 * j + 1] as int)
}

/// Whether every area lies inside a block of `len` bytes.
pub open spec fn areas_inside(addresses: Seq<usize>, len: int) -> bool {
    forall|j: int|
        #![trigger area(addresses, j)]
        0 <= j < addresses.len() / 2 ==> area(addresses, j).0 <= area(addresses, j).1 <= len
}

/// Whether the four bytes at `at` lie outside the first `n` areas, but for area `j`.
pub open spec fn only_in(addresses: Seq<usize>, j: int, at: int, n: int) -> bool {
    forall|i: int|
        #![trigger area(addresses, i)]
        0 <= i < n && i != j ==> area(addresses, i).1 <= at || at + 4 <= area(addresses, i).0
}

proof fn lemma_areas_raised(
    addresses: Seq<usize>,
    a: Seq<u8>,
    b: Seq<u8>,
    j: int,
    k: int,
    d: int,
    n: nat,
)
    requires
        n <= addresses.len() / 2,
        0 <= j,
        0 <= k,
        areas_inside(addresses, a.len() as int),
        j < n ==> k < (area(addresses, j).1 - area(addresses, j).0) / 4,
        raised(a, b, area(addresses, j).0 + 4 * k, d),
        only_in(addresses, j, area(addresses, j).0 + 4 * k, n as int),
    ensures
        areas_below(a, addresses, n) is Some,
        areas_below(b, addresses, n) == Some(
            areas_below(a, addresses, n)->0 + if j < n {
                d
            } else {
                0
            },
        ),
    decreases n,
{
    if n > 0 {
        let i = n - 1;
        let (from, to) = area(addresses, i);
        let at = area(addresses, j).0 + 4 * k;
        lemma_areas_raised(addresses, a, b, j, k, d, (n - 1) as nat);
        let x = a.subrange(from, to);
        let y = b.subrange(from, to);
        if i == j {
            assert(raised(x, y, 4 * k, d));
            lemma_words_raised(x, y, k, d, x.len() / 4);
        } else {
            assert(to <= at || at + 4 <= from);
            assert(x == y);
        }
    }
}

/// The monitor sum depends on every whole word of every area: a word that is `d` more
/// makes the sum `d` more, modulo 2^64. The word must lie in one area only, and not where
/// the initial value is stored.
pub proof fn law_every_monitored_word_counts(
    addresses: Seq<usize>,
    a: Seq<u8>,
    b: Seq<u8>,
    j: int,
    k: int,
    d: int,
)
    requires
        0 <= j < addresses.len() / 2,
        areas_inside(addresses, a.len() as int),
        0 <= k < (area(addresses, j).1 - area(addresses, j).0) / 4,
        raised(a, b, area(addresses, j).0 + 4 * k, d),
        only_in(addresses, j, area(addresses, j).0 + 4 * k, (addresses.len() / 2) as int),
        area(addresses, j).0 + 4 * k + 4 <= 0x408 || 0x410 <= area(addresses, j).0 + 4 * k,
        a.len() >= 0x410,
    ensures
        monitor_sum(addresses, a) is Some,
        monitor_sum(addresses, b) == Some(
            (monitor_sum(addresses, a)->0 + d) % 0x1_0000_0000_0000_0000,
        ),
{
    let at = area(addresses, j).0 + 4 * k;
    lemma_areas_raised(addresses, a, b, j, k, d, (addresses.len() / 2) as nat);
    lemma_same_word(a, b, at, d, 0x408);
    lemma_same_word(a, b, at, d, 0x40C);
}

proof fn lemma_zero_words(s: Seq<u8>, n: nat)
    requires
        forall|i: int| 0 <= i < s.len() ==> s[i] == 0,
        4 * n <= s.len(),
    ensures
        words_below(s, n) == 0,
    decreases n,
{
    if n > 0 {
        lemma_zero_words(s, (n - 1) as nat);
    }
}

/// An area of zeroes adds nothing: without any other, the monitor sum is the initial
/// value, high word first.
pub proof fn law_zeroes_add_nothing(start: usize, end: usize, cal: Seq<u8>)
    requires
        start <= end <= cal.len(),
        cal.len() >= 0x410,
        forall|i: int| start <= i < end ==> cal[i] == 0,
    ensures
        monitor_sum(seq![start, end], cal) == Some(
            low_first(cal, 0x408) * 0x1_0000_0000 + low_first(cal, 0x40C),
        ),
{
    let addresses = seq![start, end];
    let part = cal.subrange(start as int, end as int);
    lemma_zero_words(part, part.len() / 4);
    reveal_with_fuel(areas_below, 2);
    assert(addresses.len() / 2 == 1);
}

/// An area may be cut at any word: the two parts are summed as the whole is.
pub proof fn law_areas_can_be_cut(start: usize, middle: usize, end: usize, cal: Seq<u8>)
    requires
        start <= middle <= end <= cal.len(),
        (middle - start) % 4 == 0,
    ensures
        monitor_sum(seq![start, middle, middle, end], cal) == monitor_sum(seq![start, end], cal),
{
    reveal_with_fuel(areas_below, 3);
    let two = seq![start, middle, middle, end];
    let one = seq![start, end];
    assert(two.len() / 2 == 2 && one.len() / 2 == 1);
    let whole = cal.subrange(start as int, end as int);
    let a = cal.subrange(start as int, middle as int);
    let b = cal.subrange(middle as int, end as int);
    assert(whole == a + b);
    assert(whole.take(a.len() as int) == a);
    lemma_words_cut(whole, a, b, b.len() / 4);
    lemma_words_prefix(whole, a, a.len() / 4);
    assert(whole.len() / 4 == a.len() / 4 + b.len() / 4);
}

proof fn lemma_words_prefix(whole: Seq<u8>, a: Seq<u8>, n: nat)
    requires
        4 * n <= a.len() <= whole.len(),
        whole.take(a.len() as int) == a,
    ensures
        words_below(whole, n) == words_below(a, n),
    decreases n,
{
    if n > 0 {
        lemma_words_prefix(whole, a, (n - 1) as nat);
        assert(forall|i: int| 0 <= i < a.len() ==> a[i] == whole.take(a.len() as int)[i]);
        assert(le32_at(whole, 4 * (n - 1)) == le32_at(a, 4 * (n - 1)));
    }
}

proof fn lemma_words_cut(whole: Seq<u8>, a: Seq<u8>, b: Seq<u8>, n: nat)
    requires
        a.len() % 4 == 0,
        whole == a + b,
        4 * n <= b.len(),
    ensures
        words_below(whole, (a.len() / 4 + n) as nat) == words_below(whole, (a.len() / 4) as nat)
            + words_below(b, n),
    decreases n,
{
    if n > 0 {
        lemma_words_cut(whole, a, b, (n - 1) as nat);
        let i = 4 * (a.len() / 4 + n - 1);
        assert(i == a.len() + 4 * (n - 1));
        assert(le32_at(whole, i) == le32_at(b, 4 * (n - 1)));
    }
}

/// Where the monitor sum is stored: at 0x438 where that place is in use, else at 0x400.
pub open spec fn sum_place(cal: Seq<u8>) -> int {
    if cal[0x438] != 0 {
        0x438
    } else {
        0x400
    }
}

/// A calibration checks out where the monitor sum is stored in its place, high word first,
/// each word least significant byte first; a fixed one holds it there.
pub proof fn law_the_monitor_sum_is_stored_high_word_first(
    addresses: Seq<usize>,
    cal: Seq<u8>,
    fix: bool,
)
    requires
        cal.len() >= 0x440,
        monitor_sum(addresses, cal) is Some,
    ensures
        ({
            let at = sum_place(cal);
            let sum = monitor_sum(addresses, cal)->0;
            let (state, out) = ecm3_pass(addresses, cal, fix);
            let right = low_first(cal, at) * 0x1_0000_0000 + low_first(cal, at + 4) == sum;
            &&& 0 <= sum < 0x1_0000_0000_0000_0000
            &&& state == (if right {
                ChecksumState::Valid
            } else if fix {
                ChecksumState::Fixed
            } else {
                ChecksumState::Invalid
            })
            &&& state is Fixed ==> low_first(out, at) == sum / 0x1_0000_0000 && low_first(
                out,
                at + 4,
            ) == sum % 0x1_0000_0000
            &&& !(state is Fixed) ==> out == cal
        }),
{
    let at = sum_place(cal);
    let sum = monitor_sum(addresses, cal)->0;
    let hi = sum / 0x1_0000_0000;
    let lo = sum % 0x1_0000_0000;
    let out = spliced(cal, at, pair_bytes(sum));
    let half = spliced(cal, at, le_bytes(hi));
    assert(out == spliced(half, at + 4, le_bytes(lo)));
    lemma_le_round_trip(cal, at, hi);
    lemma_le_round_trip(half, at + 4, lo);
    assert(le32_at(out, at) == le32_at(half, at));
}

/// A calibration that is too short, or an area that ends behind it, cannot be summed.
pub proof fn law_a_short_calibration_fails(addresses: Seq<usize>, cal: Seq<u8>, fix: bool)
    ensures
        cal.len() < 0x440 ==> ecm3_pass(addresses, cal, fix) == (ChecksumState::Failed, cal),
        addresses.len() == 2 && addresses[1] > cal.len() ==> ecm3_pass(addresses, cal, fix) == (
            ChecksumState::Failed,
            cal,
        ),
{
    reveal_with_fuel(areas_below, 2);
}

/// A DSG block checks out where its last four bytes, least significant first, and the
/// CRC-32 of the rest are complements; a fixed block is such a block and keeps the rest.
pub proof fn law_dsg_blocks_end_in_the_complement(data: Seq<u8>, fix: bool)
    ensures
        ({
            let (state, out) = dsg_pass(data, fix);
            let n = data.len() - 4;
            let right = low_first(data, n) + crc32(data.take(n)) == 0xFFFF_FFFF;
            &&& n < 0 ==> state is Failed && out == data
            &&& n >= 0 ==> state == (if right {
                ChecksumState::Valid
            } else if fix {
                ChecksumState::Fixed
            } else {
                ChecksumState::Invalid
            })
            &&& state is Fixed ==> out.len() == data.len() && out.take(n) == data.take(n)
                && low_first(out, n) + crc32(data.take(n)) == 0xFFFF_FFFF
            &&& !(state is Fixed) ==> out == data
        }),
{
    let n = data.len() - 4;
    if n >= 0 {
        let sum = 0xFFFF_FFFF - crc32(data.take(n));
        lemma_le_round_trip(data, n, sum);
        let out = spliced(data, n, le_bytes(sum));
        assert(out.take(n) == data.take(n));
    }
}

/// A DQ381 block names the first and the last address that its checksum covers, most
/// significant byte first, at 0x38 and 0x3C. It checks out where the CRC-32 of those
/// bytes, the last one too, is stored at 0x44, most significant byte first.
pub proof fn law_dq381_blocks_hold_their_crc(data: Seq<u8>, base: u32, fix: bool)
    ensures
        ({
            let (state, out) = dq381_pass(data, base, fix);
            let first = high_first(data, 0x38) - base;
            let last = high_first(data, 0x3C) - base;
            let covered = data.len() >= 0x48 && 0 <= first <= last < data.len();
            let crc = crc32(data.subrange(first, last + 1));
            &&& !covered ==> state is Failed && out == data
            &&& covered ==> state == (if high_first(data, 0x44) == crc {
                ChecksumState::Valid
            } else if fix {
                ChecksumState::Fixed
            } else {
                ChecksumState::Invalid
            })
            &&& state is Fixed ==> out.len() == data.len() && high_first(out, 0x44) == crc
            &&& !(state is Fixed) ==> out == data
        }),
{
    let first = high_first(data, 0x38) - base;
    let last = high_first(data, 0x3C) - base;
    if data.len() >= 0x48 && 0 <= first <= last < data.len() {
        let crc = crc32(data.subrange(first, last + 1));
        lemma_be_round_trip(data, 0x44, crc as int);
    }
}

/// The two bytes at `at` as a number, least significant first.
pub open spec fn half_word(s: Seq<u8>, at: int) -> int {
    s[at] + 0x100 * s[at + 1]
}

/// The sum of the whole half words of `s`, taken from its end.
pub open spec fn half_words(s: Seq<u8>) -> int
    decreases s.len(),
{
    if s.len() < 2 {
        0
    } else {
        half_word(s, 0) + half_words(s.skip(2))
    }
}

proof fn lemma_half_words(s: Seq<u8>, n: nat)
    requires
        2 * n <= s.len() < 2 * n + 2,
    ensures
        crate::checksum::haldex::words_below(s, n) == half_words(s),
    decreases n,
{
    if n > 0 {
        let rest = s.skip(2);
        lemma_half_words(rest, (n - 1) as nat);
        lemma_half_words_shift(s, rest, (n - 1) as nat);
    }
}

proof fn lemma_half_words_shift(s: Seq<u8>, rest: Seq<u8>, n: nat)
    requires
        s.len() >= 2,
        rest == s.skip(2),
        2 * n + 2 <= s.len(),
    ensures
        crate::checksum::haldex::words_below(s, n + 1) == half_word(s, 0)
            + crate::checksum::haldex::words_below(rest, n),
    decreases n,
{
    if n > 0 {
        lemma_half_words_shift(s, rest, (n - 1) as nat);
        let i = 2 * (n - 1);
        assert(rest[i] == s[i + 2] && rest[i + 1] == s[i + 3]);
    } else {
        reveal_with_fuel(crate::checksum::haldex::words_below, 2);
    }
}

/// A Haldex block has a structure of ten bytes, whose last two are the checksum, least
/// significant first. It checks out where the half words before the structure, those
/// behind it and the checksum come to 0xFFFF, modulo 2^16. Block 1 has no checksum.
pub proof fn law_haldex_blocks_come_to_all_ones(data: Seq<u8>, number: u8, at: usize, fix: bool)
    requires
        number != 1,
        at + 10 <= data.len(),
    ensures
        ({
            let (state, out) = haldex_pass(data, number, Some(at), fix);
            let rest = half_words(data.take(at as int)) + half_words(data.skip(at + 10));
            let right = (rest + half_word(data, at + 8)) % 0x1_0000 == 0xFFFF;
            &&& state == (if right {
                ChecksumState::Valid
            } else if fix {
                ChecksumState::Fixed
            } else {
                ChecksumState::Invalid
            })
            &&& state is Fixed ==> {
                &&& out.len() == data.len()
                &&& out.take(at + 8) == data.take(at + 8)
                &&& out.skip(at + 10) == data.skip(at + 10)
                &&& (rest + half_word(out, at + 8)) % 0x1_0000 == 0xFFFF
            }
            &&& !(state is Fixed) ==> out == data
        }),
{
    let before = data.take(at as int);
    let behind = data.skip(at + 10);
    lemma_half_words(before, before.len() / 2);
    lemma_half_words(behind, behind.len() / 2);
    let sum = crate::checksum::haldex::haldex_sum(data, at as int);
    let part = seq![(sum % 0x100) as u8, (sum / 0x100) as u8];
    let out = spliced(data, at + 8, part);
    assert(0 <= sum <= 0xFFFF);
    assert(out[at + 8] == part[0] && out[at + 9] == part[1]);
    assert(out.take(at + 8) == data.take(at + 8));
    assert(out.skip(at + 10) == data.skip(at + 10));
    let rest = half_words(before) + half_words(behind);
    assert(half_word(out, at + 8) == sum);
    let stored = half_word(data, at + 8);
    assert(sum == 0xFFFF - rest % 0x1_0000);
    assert(0 <= stored <= 0xFFFF);
    assert(((rest + stored) % 0x1_0000 == 0xFFFF) == (stored == sum));
    assert((rest + sum) % 0x1_0000 == 0xFFFF);
}

/// The driver block of a Haldex is always right, and one whose structure is unknown or
/// does not fit fails.
pub proof fn law_haldex_blocks_without_a_checksum(data: Seq<u8>, number: u8, fix: bool)
    ensures
        haldex_pass(data, 1, None, fix) == (ChecksumState::Valid, data),
        number != 1 ==> haldex_pass(data, number, None, fix) == (ChecksumState::Failed, data),
        forall|at: usize|
            number != 1 && at + 10 > data.len() ==> #[trigger] haldex_pass(
                data,
                number,
                Some(at),
                fix,
            ) == (ChecksumState::Failed, data),
{
}

/// The bytes that the CBOOT patch looks for stand at a place.
pub open spec fn asks_for_sample_mode(s: Seq<u8>, p: int) -> bool {
    &&& 0 <= p
    &&& p + 8 <= s.len()
    &&& s[p] == 0xDA && s[p + 1] == 0x00
    &&& s[p + 2] == 0x3C && s[p + 3] == 0x02
    &&& s[p + 4] == 0xDA && s[p + 5] == 0x01
    &&& s[p + 6] == 0x02 && s[p + 7] == 0xF2
}

proof fn lemma_needle(data: Seq<u8>, i: int)
    ensures
        crate::cboot::needle_at(data, i) == asks_for_sample_mode(data, i),
{
    let needle = crate::cboot::NEEDLE@;
    assert(needle == seq![0xDAu8, 0x00, 0x3C, 0x02, 0xDA, 0x01, 0x02, 0xF2]);
    if 0 <= i && i + 8 <= data.len() {
        let part = data.subrange(i, i + 8);
        assert(part[0] == data[i] && part[1] == data[i + 1] && part[2] == data[i + 2] && part[3]
            == data[i + 3] && part[4] == data[i + 4] && part[5] == data[i + 5] && part[6]
            == data[i + 6] && part[7] == data[i + 7]);
        if asks_for_sample_mode(data, i) {
            assert(part == needle);
        }
    }
}

/// The places that the CBOOT patch looks for are found, each once, in order.
pub proof fn law_the_two_places_are_found(data: Seq<u8>, p: int, q: int)
    requires
        p < q,
        forall|i: int| asks_for_sample_mode(data, i) <==> i == p || i == q,
    ensures
        positions(data) == seq![p, q],
{
    lemma_positions(data, data.len());
    let all = positions(data);
    assert(asks_for_sample_mode(data, p) && asks_for_sample_mode(data, q));
    lemma_needle(data, p);
    lemma_needle(data, q);
    assert(all.contains(p) && all.contains(q));
    assert forall|k: int| 0 <= k < all.len() implies all[k] == p || all[k] == q by {
        lemma_needle(data, all[k]);
        assert(crate::cboot::needle_at(data, all[k]));
        assert(asks_for_sample_mode(data, all[k]));
    }
    if all.len() > 2 {
        assert(all[0] < all[1] && all[1] < all[2]);
    }
    assert(all[0] < all[1]);
    assert(all == seq![p, q]);
}

/// A patched CBOOT differs in two places: where it loaded zero and jumped over the load of
/// one, it does nothing for four bytes, and then loads one.
pub proof fn law_a_patched_cboot_is_always_in_sample_mode(data: Seq<u8>, p: int, q: int)
    requires
        p < q,
        forall|i: int| asks_for_sample_mode(data, i) <==> i == p || i == q,
    ensures
        ({
            let out = patched(data, p, q);
            &&& out.len() == data.len()
            &&& forall|i: int|
                0 <= i < data.len() ==> #[trigger] out[i] == if p <= i < p + 4 || q <= i < q + 4 {
                    0u8
                } else {
                    data[i]
                }
        }),
{
    assert(asks_for_sample_mode(data, p) && asks_for_sample_mode(data, q));
    assert(q >= p + 8) by {
        if q < p + 8 {
            assert(data[q] == 0xDA && data[q + 1] == 0x00);
        }
    }
    let patch = crate::cboot::PATCH@;
    assert(patch == seq![0x00u8, 0x00, 0x00, 0x00, 0xDA, 0x01, 0x02, 0xF2]);
    let half = spliced(data, p, patch);
    let out = patched(data, p, q);
    assert(out == spliced(half, q, patch));
    assert forall|i: int| 0 <= i < data.len() implies #[trigger] out[i] == if p <= i < p + 4 || q
        <= i < q + 4 {
        0u8
    } else {
        data[i]
    } by {
        assert(half[i] == if p <= i < p + 8 {
            patch[i - p]
        } else {
            data[i]
        });
        assert(out[i] == if q <= i < q + 8 {
            patch[i - q]
        } else {
            half[i]
        });
    }
}

} // verus!
