//! VW workshop code ("fingerprint") written to DID `0xF15A` during flashing.
//!
//! The nine bytes are laid out as:
//!
//! ```text
//! YY MM DD  AA  UU UU UU UU  CC
//! ├──────┤  ├┤  ├──────────┤ ├┤
//! │         │   │            └── CRC8 over the preceding 8 bytes
//! │         │   └── 4 user bytes: on Simos, CAL[0x7A..0x7E]; on DQ381, "NONE"
//! │         └── CRC8 over the concatenated ASW blocks that were flashed
//! └── BCD flash date (two-digit year, month, day)
//! ```
//!
//! The point of the format is that a tool with nothing but ReadDataByIdentifier
//! access can tell what was last flashed. The date is a parameter rather than
//! "now", so that a captured byte string can be reproduced exactly.

use vstd::prelude::*;

use crate::text::{dec, dec_filled, lossy_utf8, push_dec, push_dec_filled, utf8_lossy};

verus! {

/// The historical hardcoded placeholder.
///
/// It does not check out: its trailing byte is `0x3D` while the CRC8 of the
/// first eight bytes is `0x58`. It also carries the signature of an old tool.
pub const FALLBACK_WORKSHOP_CODE: [u8; 9] = [
    0x20,
    0x04,
    0x20,
    0x42,
    0x04,
    0x20,
    0x42,
    0xB1,
    0x3D,
];

/// CAL ID used when no calibration block is available ("NONE").
pub const CAL_ID_NONE: [u8; 4] = [0x4E, 0x4F, 0x4E, 0x45];

/// CAL ID reported for a code whose CRC does not check out ("UNKN").
pub const CAL_ID_UNKNOWN: [u8; 4] = [0x55, 0x4E, 0x4B, 0x4E];

/// Start of the four fingerprint bytes in a Simos CAL block.
pub const SIMOS_FINGERPRINT_START: usize = 0x7A;

/// End of the four fingerprint bytes in a Simos CAL block.
pub const SIMOS_FINGERPRINT_END: usize = 0x7E;

/// One bit of the CRC: shift left, feed the polynomial `0x07` back when a one
/// falls out.
pub open spec fn crc8_bit(crc: u8) -> u8 {
    if crc & 0x80 != 0 {
        (crc << 1) ^ 0x07
    } else {
        crc << 1
    }
}

/// `n` bits of the CRC.
pub open spec fn crc8_bits(crc: u8, n: nat) -> u8
    decreases n,
{
    if n == 0 {
        crc
    } else {
        crc8_bit(crc8_bits(crc, (n - 1) as nat))
    }
}

/// CRC-8/SMBUS of `data`, continued from `crc`.
pub open spec fn crc8(crc: u8, data: Seq<u8>) -> u8
    decreases data.len(),
{
    if data.len() == 0 {
        crc
    } else {
        crc8_bits(crc8(crc, data.drop_last()) ^ data.last(), 8)
    }
}

/// Continue a CRC8 over another chunk.
fn crc8_continue(crc: u8, data: &[u8]) -> (r: u8)
    ensures
        r == crc8(crc, data@),
{
    let mut acc: u8 = crc;
    let mut i: usize = 0;
    while i < data.len()
        invariant
            i <= data@.len(),
            acc == crc8(crc, data@.take(i as int)),
        decreases data@.len() - i,
    {
        let ghost before = acc;
        acc = acc ^ data[i];
        let ghost mixed = acc;
        let mut bit: usize = 0;
        while bit < 8
            invariant
                bit <= 8,
                acc == crc8_bits(mixed, bit as nat),
            decreases 8 - bit,
        {
            acc = if acc & 0x80 != 0 {
                (acc << 1) ^ 0x07
            } else {
                acc << 1
            };
            bit = bit + 1;
        }
        proof {
            let next = data@.take(i + 1);
            assert(next.drop_last() == data@.take(i as int));
            assert(next.last() == data@[i as int]);
        }
        i = i + 1;
    }
    assert(data@.take(i as int) == data@);
    acc
}

/// CRC8 used throughout the workshop code (polynomial `0x07`, initial value 0,
/// no reflection, no final XOR).
pub fn crc8_hash(data: &[u8]) -> (r: u8)
    ensures
        r == crc8(0, data@),
{
    crc8_continue(0, data)
}

/// The trailing byte is the CRC8 of the first eight.
pub open spec fn checks_out(bytes: Seq<u8>) -> bool {
    bytes[8] == crc8(0, bytes.take(8))
}

/// True when the trailing CRC byte matches the first eight bytes.
pub fn is_valid(bytes: &[u8; 9]) -> (r: bool)
    ensures
        r == checks_out(bytes@),
{
    let head: [u8; 8] = [
        bytes[0],
        bytes[1],
        bytes[2],
        bytes[3],
        bytes[4],
        bytes[5],
        bytes[6],
        bytes[7],
    ];
    assert(head@ == bytes@.take(8));
    bytes[8] == crc8_hash(&head)
}

/// True for the signature of a workshop code written by an older tool.
///
/// Only meaningful once the CRC check has failed; [`WorkshopCode::from_bytes`]
/// consults it only then.
pub fn is_placeholder_signature(bytes: &[u8; 9]) -> (r: bool)
    ensures
        r == (bytes@[3] == 0x42 && bytes@[4] == 0x04),
{
    bytes[3] == 0x42 && bytes[4] == 0x04
}

/// A value packed as two decimal digits. Above 99 the tens digit wraps at 16.
pub open spec fn bcd(value: int) -> u8 {
    (((value / 10) % 16) * 16 + value % 10) as u8
}

/// The value of two packed decimal digits.
pub open spec fn bcd_value(packed: u8) -> Option<int> {
    if packed / 16 <= 9 && packed % 16 <= 9 {
        Some((packed / 16) * 10 + packed % 16)
    } else {
        None
    }
}

fn to_bcd(value: u8) -> (r: u8)
    ensures
        r == bcd(value as int),
{
    ((value / 10) % 16) * 16 + value % 10
}

fn from_bcd(value: u8) -> (r: Option<u8>)
    ensures
        r == match bcd_value(value) {
            Some(v) => Some(v as u8),
            None => None,
        },
{
    let high: u8 = value / 16;
    let low: u8 = value % 16;
    if high > 9 || low > 9 {
        return None;
    }
    Some(high * 10 + low)
}

/// The calendar date stamped into the first three bytes of a workshop code.
#[derive(Debug, Clone, Copy, PartialEq, Eq, Structural)]
pub struct FlashDate {
    /// Full year, e.g. `2026`. Only the last two digits survive the encoding.
    pub year: u16,
    /// Month, 1-12.
    pub month: u8,
    /// Day of month, 1-31.
    pub day: u8,
}

/// The date three packed bytes stand for: a year in 20xx, a month in 1..=12 and
/// a day in 1..=31.
pub open spec fn date_of(b: Seq<u8>) -> Option<FlashDate> {
    match (bcd_value(b[0]), bcd_value(b[1]), bcd_value(b[2])) {
        (Some(y), Some(m), Some(d)) => if 1 <= m <= 12 && 1 <= d <= 31 {
            Some(FlashDate { year: (2000 + y) as u16, month: m as u8, day: d as u8 })
        } else {
            None
        },
        _ => None,
    }
}

impl FlashDate {
    /// The three leading bytes of a workshop code.
    pub open spec fn packed(self) -> Seq<u8> {
        seq![bcd(self.year as int % 100), bcd(self.month as int), bcd(self.day as int)]
    }

    /// Builds a date from its calendar fields.
    pub fn new(year: u16, month: u8, day: u8) -> (r: Self)
        ensures
            r == (FlashDate { year, month, day }),
    {
        Self { year, month, day }
    }

    /// Encodes the date as the three leading BCD bytes of a workshop code.
    pub fn to_bcd_bytes(self) -> (r: [u8; 3])
        ensures
            r@ == self.packed(),
    {
        let r: [u8; 3] = [to_bcd((self.year % 100) as u8), to_bcd(self.month), to_bcd(self.day)];
        assert(r@ == self.packed());
        r
    }

    /// Decodes the three leading BCD bytes, or `None` if they are not a
    /// plausible date. Two-digit years are widened to 20xx; a day is only held
    /// to 1-31, whatever the month.
    pub fn from_bcd_bytes(bytes: [u8; 3]) -> (r: Option<Self>)
        ensures
            r == date_of(bytes@),
    {
        let year: u8 = match from_bcd(bytes[0]) {
            Some(v) => v,
            None => {
                return None;
            },
        };
        let month: u8 = match from_bcd(bytes[1]) {
            Some(v) => v,
            None => {
                return None;
            },
        };
        let day: u8 = match from_bcd(bytes[2]) {
            Some(v) => v,
            None => {
                return None;
            },
        };
        if month < 1 || month > 12 || day < 1 || day > 31 {
            return None;
        }
        Some(Self::new(2000 + year as u16, month, day))
    }
}

/// A decoded or freshly built workshop code.
#[derive(Debug, Clone, PartialEq, Eq)]
pub struct WorkshopCode {
    /// Flash date. `None` only when decoding bytes whose date field is not a
    /// date.
    pub flash_date: Option<FlashDate>,
    /// CRC8 over the concatenated ASW blocks that were flashed.
    pub asw_checksum: u8,
    /// Four user bytes; on Simos these come from the CAL, elsewhere `NONE`.
    pub cal_id: [u8; 4],
    /// Whether the trailing CRC checked out.
    pub is_valid: bool,
    /// Whether the bytes carry the signature of an old tool. Only ever `true`
    /// for an invalid code.
    pub is_old: bool,
}

/// The blocks one after the other.
pub open spec fn concatenated(blocks: Seq<&[u8]>) -> Seq<u8>
    decreases blocks.len(),
{
    if blocks.len() == 0 {
        Seq::empty()
    } else {
        concatenated(blocks.drop_last()) + blocks.last()@
    }
}

/// The first eight bytes of a code.
pub open spec fn code_head(date: Option<FlashDate>, asw_checksum: u8, cal_id: Seq<u8>) -> Seq<u8> {
    (match date {
        Some(d) => d.packed(),
        None => seq![0u8, 0u8, 0u8],
    }) + seq![asw_checksum] + cal_id
}

/// The nine bytes of a code.
pub open spec fn code_bytes(date: Option<FlashDate>, asw_checksum: u8, cal_id: Seq<u8>) -> Seq<
    u8,
> {
    let head = code_head(date, asw_checksum, cal_id);
    head.push(crc8(0, head))
}

/// How a date is printed.
pub open spec fn date_text(date: Option<FlashDate>) -> Seq<char> {
    match date {
        Some(d) => dec_filled(d.year as nat, 4) + "-"@ + dec_filled(d.month as nat, 2) + "-"@
            + dec_filled(d.day as nat, 2),
        None => "an unreadable date"@,
    }
}

impl WorkshopCode {
    /// Builds a code from an already-computed ASW checksum and CAL ID.
    pub fn new(flash_date: FlashDate, asw_checksum: u8, cal_id: [u8; 4]) -> (r: Self)
        ensures
            r.flash_date == Some(flash_date),
            r.asw_checksum == asw_checksum,
            r.cal_id == cal_id,
            r.is_valid,
            !r.is_old,
    {
        Self { flash_date: Some(flash_date), asw_checksum, cal_id, is_valid: true, is_old: false }
    }

    /// Builds the Simos flavour: CRC8 over the ASW blocks in flash order, and a
    /// CAL ID lifted from the calibration, or `NONE` where it is too short.
    pub fn for_simos(asw_blocks: &[&[u8]], cal: &[u8], flash_date: FlashDate) -> (r: Self)
        ensures
            r.flash_date == Some(flash_date),
            r.asw_checksum == crc8(0, concatenated(asw_blocks@)),
            r.cal_id@ == if cal@.len() >= SIMOS_FINGERPRINT_END {
                cal@.subrange(SIMOS_FINGERPRINT_START as int, SIMOS_FINGERPRINT_END as int)
            } else {
                CAL_ID_NONE@
            },
            r.is_valid,
            !r.is_old,
    {
        let mut crc: u8 = 0;
        let mut i: usize = 0;
        while i < asw_blocks.len()
            invariant
                i <= asw_blocks@.len(),
                crc == crc8(0, concatenated(asw_blocks@.take(i as int))),
            decreases asw_blocks@.len() - i,
        {
            crc = crc8_continue(crc, asw_blocks[i]);
            proof {
                let done = asw_blocks@.take(i as int);
                let next = asw_blocks@.take(i + 1);
                assert(next.drop_last() == done);
                assert(next.last() == asw_blocks@[i as int]);
                law_crc8_chains(0, concatenated(done), asw_blocks@[i as int]@);
            }
            i = i + 1;
        }
        assert(asw_blocks@.take(i as int) == asw_blocks@);
        let cal_id: [u8; 4] = if cal.len() >= SIMOS_FINGERPRINT_END {
            [cal[0x7A], cal[0x7B], cal[0x7C], cal[0x7D]]
        } else {
            CAL_ID_NONE
        };
        assert(cal@.len() >= SIMOS_FINGERPRINT_END ==> cal_id@ == cal@.subrange(
            SIMOS_FINGERPRINT_START as int,
            SIMOS_FINGERPRINT_END as int,
        ));
        Self::new(flash_date, crc, cal_id)
    }

    /// Builds the DQ381 flavour: CRC8 over the ASW data, CAL ID `NONE`.
    pub fn for_dq381(asw: &[u8], flash_date: FlashDate) -> (r: Self)
        ensures
            r.flash_date == Some(flash_date),
            r.asw_checksum == crc8(0, asw@),
            r.cal_id == CAL_ID_NONE,
            r.is_valid,
            !r.is_old,
    {
        Self::new(flash_date, crc8_hash(asw), CAL_ID_NONE)
    }

    /// Decodes nine bytes read back from an ECU. When the CRC fails, the
    /// checksum and CAL ID fields are not trusted and read as `0` and `UNKN`.
    pub fn from_bytes(bytes: &[u8; 9]) -> (r: Self)
        ensures
            r.flash_date == date_of(bytes@),
            r.is_valid == checks_out(bytes@),
            r.is_valid ==> r.asw_checksum == bytes@[3] && r.cal_id@ == bytes@.subrange(4, 8)
                && !r.is_old,
            !r.is_valid ==> r.asw_checksum == 0 && r.cal_id == CAL_ID_UNKNOWN && r.is_old == (
            bytes@[3] == 0x42 && bytes@[4] == 0x04),
    {
        let date: [u8; 3] = [bytes[0], bytes[1], bytes[2]];
        let flash_date = FlashDate::from_bcd_bytes(date);
        if is_valid(bytes) {
            let cal_id: [u8; 4] = [bytes[4], bytes[5], bytes[6], bytes[7]];
            assert(cal_id@ == bytes@.subrange(4, 8));
            Self { flash_date, asw_checksum: bytes[3], cal_id, is_valid: true, is_old: false }
        } else {
            Self {
                flash_date,
                asw_checksum: 0,
                cal_id: CAL_ID_UNKNOWN,
                is_valid: false,
                is_old: is_placeholder_signature(bytes),
            }
        }
    }

    /// Serialises to the nine bytes written to DID `0xF15A`. A `None` date
    /// encodes as `00 00 00`.
    pub fn as_bytes(&self) -> (r: [u8; 9])
        ensures
            r@ == code_bytes(self.flash_date, self.asw_checksum, self.cal_id@),
    {
        let date: [u8; 3] = match self.flash_date {
            Some(d) => d.to_bcd_bytes(),
            None => [0, 0, 0],
        };
        let head: [u8; 8] = [
            date[0],
            date[1],
            date[2],
            self.asw_checksum,
            self.cal_id[0],
            self.cal_id[1],
            self.cal_id[2],
            self.cal_id[3],
        ];
        assert(head@ == code_head(self.flash_date, self.asw_checksum, self.cal_id@));
        let crc: u8 = crc8_hash(&head);
        let r: [u8; 9] = [
            head[0],
            head[1],
            head[2],
            head[3],
            head[4],
            head[5],
            head[6],
            head[7],
            crc,
        ];
        assert(r@ == head@.push(crc));
        r
    }

    /// Human-readable summary.
    pub fn human_readable(&self) -> (s: String)
        ensures
            s@ == if self.is_valid {
                "Block fingerprint dated "@ + date_text(self.flash_date)
                    + " is valid and was written by SimosTools or VW_Flash. It was written with ASW Checksum "@
                    + dec(self.asw_checksum as nat) + " and CAL ID: "@ + utf8_lossy(self.cal_id@)
            } else if self.is_old {
                "Block fingerprint dated "@ + date_text(self.flash_date)
                    + " was written by an older version of SimosTools or VW_Flash."@
            } else {
                "Block fingerprint dated "@ + date_text(self.flash_date)
                    + " does not appear to be from SimosTools or VW_Flash."@
            },
    {
        let mut date = String::new();
        match self.flash_date {
            Some(d) => {
                push_dec_filled(&mut date, d.year as u64, 4);
                assert(date@ == dec_filled(d.year as nat, 4));
                date.push_str("-");
                push_dec_filled(&mut date, d.month as u64, 2);
                date.push_str("-");
                push_dec_filled(&mut date, d.day as u64, 2);
            },
            None => {
                date.push_str("an unreadable date");
            },
        }
        assert(date@ == date_text(self.flash_date));
        let mut s = "Block fingerprint dated ".to_owned();
        s.push_str(date.as_str());
        if self.is_valid {
            s.push_str(
                " is valid and was written by SimosTools or VW_Flash. It was written with ASW Checksum ",
            );
            push_dec(&mut s, self.asw_checksum as u64);
            s.push_str(" and CAL ID: ");
            let cal_id = lossy_utf8(&self.cal_id);
            s.push_str(cal_id.as_str());
        } else if self.is_old {
            s.push_str(" was written by an older version of SimosTools or VW_Flash.");
        } else {
            s.push_str(" does not appear to be from SimosTools or VW_Flash.");
        }
        s
    }
}

/// Hashing block after block is hashing the concatenation.
pub proof fn law_crc8_chains(crc: u8, a: Seq<u8>, b: Seq<u8>)
    ensures
        crc8(crc8(crc, a), b) == crc8(crc, a + b),
    decreases b.len(),
{
    if b.len() == 0 {
        assert(a + b == a);
    } else {
        law_crc8_chains(crc, a, b.drop_last());
        assert((a + b).drop_last() == a + b.drop_last());
        assert((a + b).last() == b.last());
    }
}

proof fn lemma_bit_is_linear(a: u8, b: u8)
    ensures
        crc8_bit(a ^ b) == crc8_bit(a) ^ crc8_bit(b),
        crc8_bit(a) == crc8_bit(b) ==> a == b,
{
    assert(crc8_bit(a ^ b) == crc8_bit(a) ^ crc8_bit(b)) by (bit_vector);
    assert(crc8_bit(a) == crc8_bit(b) ==> a == b) by (bit_vector);
}

proof fn lemma_bits_are_linear(a: u8, b: u8, n: nat)
    ensures
        crc8_bits(a ^ b, n) == crc8_bits(a, n) ^ crc8_bits(b, n),
        crc8_bits(a, n) == crc8_bits(b, n) ==> a == b,
    decreases n,
{
    if n > 0 {
        let m = (n - 1) as nat;
        lemma_bits_are_linear(a, b, m);
        lemma_bit_is_linear(crc8_bits(a, m), crc8_bits(b, m));
    }
}

/// Two sequences combined byte by byte.
pub open spec fn xored(a: Seq<u8>, b: Seq<u8>) -> Seq<u8> {
    Seq::new(a.len(), |i: int| a[i] ^ b[i])
}

/// The CRC8 is linear: of two chunks combined byte by byte, it is what their CRCs
/// are when they are combined.
pub proof fn law_crc8_is_linear(c: u8, d: u8, a: Seq<u8>, b: Seq<u8>)
    requires
        a.len() == b.len(),
    ensures
        crc8(c ^ d, xored(a, b)) == crc8(c, a) ^ crc8(d, b),
    decreases a.len(),
{
    if a.len() > 0 {
        law_crc8_is_linear(c, d, a.drop_last(), b.drop_last());
        assert(xored(a, b).drop_last() == xored(a.drop_last(), b.drop_last()));
        let x = crc8(c, a.drop_last());
        let y = crc8(d, b.drop_last());
        let (p, q) = (a.last(), b.last());
        assert((x ^ y) ^ (p ^ q) == (x ^ p) ^ (y ^ q)) by (bit_vector);
        lemma_bits_are_linear(x ^ p, y ^ q, 8);
    }
}

/// A change of one byte changes the CRC8.
pub proof fn law_crc8_detects_a_changed_byte(crc: u8, a: Seq<u8>, b: Seq<u8>, k: int)
    requires
        a.len() == b.len(),
        0 <= k < a.len(),
        a[k] != b[k],
        forall|i: int| 0 <= i < a.len() && i != k ==> #[trigger] a[i] == b[i],
    ensures
        crc8(crc, a) != crc8(crc, b),
    decreases a.len(),
{
    let x = crc8(crc, a.drop_last());
    let y = crc8(crc, b.drop_last());
    let (p, q) = (a.last(), b.last());
    if k == a.len() - 1 {
        assert(a.drop_last() == b.drop_last());
    } else {
        law_crc8_detects_a_changed_byte(crc, a.drop_last(), b.drop_last(), k);
        assert(a[a.len() - 1] == b[a.len() - 1]);
    }
    assert((x == y) != (p == q) ==> x ^ p != y ^ q) by (bit_vector);
    lemma_bits_are_linear(x ^ p, y ^ q, 8);
}

/// A code that checks out does so no longer when one of its bytes is changed.
pub proof fn law_a_changed_code_does_not_check_out(a: Seq<u8>, b: Seq<u8>, k: int)
    requires
        a.len() == 9,
        b.len() == 9,
        checks_out(a),
        0 <= k < 9,
        a[k] != b[k],
        forall|i: int| 0 <= i < 9 && i != k ==> #[trigger] a[i] == b[i],
    ensures
        !checks_out(b),
{
    if k == 8 {
        assert(a.take(8) == b.take(8));
    } else {
        assert(a[8] == b[8]);
        law_crc8_detects_a_changed_byte(0, a.take(8), b.take(8), k);
    }
}

/// Every serialised code checks out.
pub proof fn law_serialised_codes_check_out(
    date: Option<FlashDate>,
    asw_checksum: u8,
    cal_id: Seq<u8>,
)
    requires
        cal_id.len() == 4,
    ensures
        code_bytes(date, asw_checksum, cal_id).len() == 9,
        checks_out(code_bytes(date, asw_checksum, cal_id)),
{
    let head = code_head(date, asw_checksum, cal_id);
    assert(head.push(crc8(0, head)).take(8) == head);
}

/// A date in 20xx survives the packing.
pub proof fn law_dates_round_trip(d: FlashDate)
    requires
        2000 <= d.year < 2100,
        1 <= d.month <= 12,
        1 <= d.day <= 31,
    ensures
        date_of(d.packed()) == Some(d),
{
    lemma_bcd_round_trip(d.year as int % 100);
    lemma_bcd_round_trip(d.month as int);
    lemma_bcd_round_trip(d.day as int);
}

proof fn lemma_bcd_round_trip(v: int)
    requires
        0 <= v < 100,
    ensures
        bcd_value(bcd(v)) == Some(v),
{
}

proof fn lemma_packed_round_trip(b: u8)
    requires
        bcd_value(b) is Some,
    ensures
        0 <= bcd_value(b)->0 < 100,
        bcd(bcd_value(b)->0) == b,
{
}

/// Reading back a serialised code gives the date, checksum and CAL ID it was
/// built from.
pub proof fn law_codes_round_trip(d: FlashDate, asw_checksum: u8, cal_id: Seq<u8>)
    requires
        2000 <= d.year < 2100,
        1 <= d.month <= 12,
        1 <= d.day <= 31,
        cal_id.len() == 4,
    ensures
        ({
            let bytes = code_bytes(Some(d), asw_checksum, cal_id);
            &&& checks_out(bytes)
            &&& date_of(bytes) == Some(d)
            &&& bytes[3] == asw_checksum
            &&& bytes.subrange(4, 8) == cal_id
        }),
{
    law_serialised_codes_check_out(Some(d), asw_checksum, cal_id);
    law_dates_round_trip(d);
    let bytes = code_bytes(Some(d), asw_checksum, cal_id);
    assert(bytes.subrange(4, 8) == cal_id);
    assert(bytes[0] == d.packed()[0]);
    assert(bytes[1] == d.packed()[1]);
    assert(bytes[2] == d.packed()[2]);
}

/// Serialising what was read from a valid code with a readable date gives its
/// bytes back.
pub proof fn law_valid_bytes_round_trip(bytes: Seq<u8>)
    requires
        bytes.len() == 9,
        checks_out(bytes),
        date_of(bytes) is Some,
    ensures
        code_bytes(date_of(bytes), bytes[3], bytes.subrange(4, 8)) == bytes,
{
    lemma_packed_round_trip(bytes[0]);
    lemma_packed_round_trip(bytes[1]);
    lemma_packed_round_trip(bytes[2]);
    let d = date_of(bytes)->0;
    assert(d.year as int % 100 == bcd_value(bytes[0])->0);
    let head = code_head(Some(d), bytes[3], bytes.subrange(4, 8));
    assert(head == bytes.take(8));
    assert(code_bytes(Some(d), bytes[3], bytes.subrange(4, 8)) == bytes);
}

} // verus!
