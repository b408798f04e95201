//! Numbers as A2L files write them.
//!
//! A number that need not be whole is kept as it is written: [`Real`]. Where a
//! whole number is wanted and a decimal one stands in its place, what it rounds
//! to is looked up in a table of [`RealRow`]s.

use vstd::prelude::*;

use crate::text::{
    chars_of, copy_chars, digits_value, has_prefix, lower_chars, lowered, parse_unsigned, starts_with,
    str_eq, string_of, unsigned_value,
};

verus! {

/// The value of a hexadecimal digit.
pub open spec fn hexit(c: char) -> Option<nat> {
    if '0' <= c <= '9' {
        Some((c as u32 - 48) as nat)
    } else if 'a' <= c <= 'f' {
        Some((c as u32 - 87) as nat)
    } else if 'A' <= c <= 'F' {
        Some((c as u32 - 55) as nat)
    } else {
        None
    }
}

fn hexit_of(c: char) -> (r: Option<u64>)
    ensures
        match r {
            Some(d) => hexit(c) == Some(d as nat) && d < 16,
            None => hexit(c) is None,
        },
{
    if '0' <= c && c <= '9' {
        Some((c as u32 - 48) as u64)
    } else if 'a' <= c && c <= 'f' {
        Some((c as u32 - 87) as u64)
    } else if 'A' <= c && c <= 'F' {
        Some((c as u32 - 55) as u64)
    } else {
        None
    }
}

/// The value of a run of hexadecimal digits; `None` if there are none, or if
/// something else is among them.
pub open spec fn hexits_value(s: Seq<char>) -> Option<nat>
    decreases s.len(),
{
    if s.len() == 0 {
        None
    } else {
        match hexit(s.last()) {
            None => None,
            Some(d) => if s.len() == 1 {
                Some(d)
            } else {
                match hexits_value(s.drop_last()) {
                    Some(n) => Some((n * 16 + d) as nat),
                    None => None,
                }
            },
        }
    }
}

/// The value of an unsigned hexadecimal number, with a plus sign in front or
/// not.
pub open spec fn hex_value(s: Seq<char>) -> Option<nat> {
    if s.len() > 0 && s[0] == '+' {
        hexits_value(s.skip(1))
    } else {
        hexits_value(s)
    }
}

proof fn lemma_hexits_prefix(s: Seq<char>, n: int)
    requires
        1 <= n <= s.len(),
        hexits_value(s.take(n)) is None,
    ensures
        hexits_value(s) is None,
    decreases s.len(),
{
    if n == s.len() {
        assert(s.take(n) == s);
    } else {
        assert(s.drop_last().take(n) == s.take(n));
        lemma_hexits_prefix(s.drop_last(), n);
    }
}

/// Parse an unsigned hexadecimal number of at most `max`.
pub fn parse_hex(s: &Vec<char>, max: u64) -> (r: Option<u64>)
    ensures
        r == match hex_value(s@) {
            Some(n) => if n <= max {
                Some(n as u64)
            } else {
                None
            },
            None => None,
        },
{
    let start: usize = if s.len() > 0 && s[0] == '+' {
        1
    } else {
        0
    };
    let ghost body = s@.skip(start as int);
    assert(start == 0 ==> body == s@);
    if s.len() == start {
        return None;
    }
    let mut value: u64 = 0;
    let mut too_big = false;
    let mut i: usize = start;
    while i < s.len()
        invariant
            start <= i <= s@.len(),
            start <= 1,
            body == s@.skip(start as int),
            hex_value(s@) == hexits_value(body),
            i > start ==> hexits_value(body.take(i - start)) is Some,
            i == start ==> value == 0 && !too_big,
            i > start && !too_big ==> hexits_value(body.take(i - start))->0 == value && value
                <= max,
            too_big ==> hexits_value(body.take(i - start))->0 > max,
        decreases s@.len() - i,
    {
        let c: char = s[i];
        let ghost prefix = body.take(i - start);
        let ghost next = body.take(i + 1 - start);
        assert(next.drop_last() == prefix);
        assert(next.last() == c);
        match hexit_of(c) {
            None => {
                proof {
                    lemma_hexits_prefix(body, i + 1 - start);
                }
                return None;
            },
            Some(d) => {
                if !too_big {
                    if max < d || value > max / 16 || value * 16 > max - d {
                        too_big = true;
                    } else {
                        value = value * 16 + d;
                    }
                }
            },
        }
        i = i + 1;
    }
    assert(body.take(s@.len() - start) == body);
    if too_big {
        None
    } else {
        Some(value)
    }
}

/// Whether a number is written in hexadecimal.
pub open spec fn is_hex(s: Seq<char>) -> bool {
    starts_with(s, "0x"@) || starts_with(s, "0X"@)
}

fn hex_digits(s: &Vec<char>) -> (r: Option<Vec<char>>)
    ensures
        r is Some <==> is_hex(s@),
        r matches Some(v) ==> v@ == s@.skip(2),
{
    proof {
        reveal_strlit("0x");
        reveal_strlit("0X");
    }
    if has_prefix(s, "0x") || has_prefix(s, "0X") {
        let v = copy_chars(s, 2, s.len());
        assert(v@ == s@.skip(2));
        Some(v)
    } else {
        None
    }
}

/// The value of an unsigned number of at most `max`.
pub open spec fn unsigned(s: Seq<char>, max: nat) -> Option<nat> {
    let value = if is_hex(s) {
        hex_value(s.skip(2))
    } else {
        unsigned_value(s)
    };
    match value {
        Some(n) => if n <= max {
            Some(n)
        } else {
            None
        },
        None => None,
    }
}

/// Parse an unsigned number of at most `max`.
pub fn parse_number(s: &str, max: u64) -> (r: Option<u64>)
    ensures
        match r {
            Some(n) => unsigned(s@, max as nat) == Some(n as nat),
            None => unsigned(s@, max as nat) is None,
        },
{
    let chars = chars_of(s);
    match hex_digits(&chars) {
        Some(h) => parse_hex(&h, max),
        None => parse_unsigned(&chars, max),
    }
}

/// The value of a signed decimal number.
pub open spec fn signed_value(s: Seq<char>) -> Option<int> {
    if s.len() > 0 && s[0] == '-' {
        match digits_value(s.skip(1)) {
            Some(n) => if n <= 0x8000_0000_0000_0000 {
                Some(-(n as int))
            } else {
                None
            },
            None => None,
        }
    } else {
        match unsigned_value(s) {
            Some(n) => if n <= i64::MAX {
                Some(n as int)
            } else {
                None
            },
            None => None,
        }
    }
}

/// The value of a signed hexadecimal number, without the `0x`. Digits that fill
/// the sign bit stand for a negative number.
pub open spec fn signed_hex_value(s: Seq<char>) -> Option<int> {
    if s.len() > 0 && s[0] == '-' {
        match hexits_value(s.skip(1)) {
            Some(n) => if n <= 0x8000_0000_0000_0000 {
                Some(-(n as int))
            } else {
                None
            },
            None => None,
        }
    } else {
        match hex_value(s) {
            Some(n) => if n <= i64::MAX {
                Some(n as int)
            } else if n <= u64::MAX {
                Some(n - 0x1_0000_0000_0000_0000)
            } else {
                None
            },
            None => None,
        }
    }
}

fn negated(n: u64) -> (r: i64)
    requires
        n <= 0x8000_0000_0000_0000,
    ensures
        r == -(n as int),
{
    (0i128 - n as i128) as i64
}

fn parse_signed(s: &Vec<char>, hex: bool) -> (r: Option<i64>)
    ensures
        match r {
            Some(n) => (if hex {
                signed_hex_value(s@)
            } else {
                signed_value(s@)
            }) == Some(n as int),
            None => (if hex {
                signed_hex_value(s@)
            } else {
                signed_value(s@)
            }) is None,
        },
{
    if s.len() > 0 && s[0] == '-' {
        let rest = copy_chars(s, 1, s.len());
        assert(rest@ == s@.skip(1));
        if rest.len() > 0 && rest[0] == '+' {
            proof {
                lemma_plus_is_no_digit(rest@);
            }
            return None;
        }
        let n = if hex {
            parse_hex(&rest, 0x8000_0000_0000_0000)
        } else {
            parse_unsigned(&rest, 0x8000_0000_0000_0000)
        };
        match n {
            Some(n) => Some(negated(n)),
            None => None,
        }
    } else if hex {
        match parse_hex(s, u64::MAX) {
            Some(n) => if n <= i64::MAX as u64 {
                Some(n as i64)
            } else {
                Some((n as i128 - 0x1_0000_0000_0000_0000) as i64)
            },
            None => None,
        }
    } else {
        match parse_unsigned(s, i64::MAX as u64) {
            Some(n) => Some(n as i64),
            None => None,
        }
    }
}

proof fn lemma_plus_is_no_digit(s: Seq<char>)
    requires
        s.len() > 0,
        s[0] == '+',
    ensures
        digits_value(s) is None,
        hexits_value(s) is None,
    decreases s.len(),
{
    if s.len() > 1 {
        assert(s.drop_last()[0] == '+');
        lemma_plus_is_no_digit(s.drop_last());
    }
}

/// Whether a text is a run of decimal digits, or empty.
pub open spec fn only_digits(s: Seq<char>) -> bool {
    forall|i: int| 0 <= i < s.len() ==> '0' <= #[trigger] s[i] <= '9'
}

/// The place of the first `a` or `b`, or the length.
pub open spec fn first_place(s: Seq<char>, a: char, b: char) -> int
    decreases s.len(),
{
    if s.len() == 0 || s[0] == a || s[0] == b {
        0
    } else {
        1 + first_place(s.skip(1), a, b)
    }
}

/// Whether a sign stands in front.
pub open spec fn has_sign(s: Seq<char>) -> bool {
    s.len() > 0 && (s[0] == '+' || s[0] == '-')
}

/// A text without a sign in front.
pub open spec fn unsigned_part(s: Seq<char>) -> Seq<char> {
    if has_sign(s) {
        s.skip(1)
    } else {
        s
    }
}

/// Digits with at most one point among them, and at least one digit.
pub open spec fn is_mantissa(s: Seq<char>) -> bool {
    let dot = first_place(s, '.', '.');
    &&& only_digits(s.take(dot))
    &&& if dot < s.len() {
        only_digits(s.skip(dot + 1)) && s.len() > 1
    } else {
        s.len() > 0
    }
}

/// Digits, with a sign in front or not.
pub open spec fn is_exponent(s: Seq<char>) -> bool {
    unsigned_part(s).len() > 0 && only_digits(unsigned_part(s))
}

/// Whether a text is a decimal number: a mantissa, with an exponent or not, or a
/// name of infinity or of no number, with a sign in front or not.
pub open spec fn is_decimal(s: Seq<char>) -> bool {
    let body = unsigned_part(s);
    let e = first_place(body, 'e', 'E');
    let low = lowered(body);
    ||| low == "inf"@
    ||| low == "infinity"@
    ||| low == "nan"@
    ||| is_mantissa(body.take(e)) && (e == body.len() || is_exponent(body.skip(e + 1)))
}

fn find_first(s: &Vec<char>, a: char, b: char) -> (r: usize)
    ensures
        r == first_place(s@, a, b),
        r <= s@.len(),
{
    let mut i: usize = 0;
    assert(s@.skip(0) == s@);
    while i < s.len() && s[i] != a && s[i] != b
        invariant
            i <= s@.len(),
            first_place(s@, a, b) == i + first_place(s@.skip(i as int), a, b),
        decreases s@.len() - i,
    {
        assert(s@.skip(i as int).skip(1) == s@.skip(i + 1));
        i = i + 1;
    }
    i
}

fn all_digits(s: &Vec<char>, from: usize, to: usize) -> (r: bool)
    requires
        from <= to <= s@.len(),
    ensures
        r == only_digits(s@.subrange(from as int, to as int)),
{
    let ghost part = s@.subrange(from as int, to as int);
    let mut i: usize = from;
    while i < to
        invariant
            from <= i <= to,
            to <= s@.len(),
            part == s@.subrange(from as int, to as int),
            forall|j: int| 0 <= j < i - from ==> '0' <= #[trigger] part[j] <= '9',
        decreases to - i,
    {
        if !('0' <= s[i] && s[i] <= '9') {
            assert(part[i - from] == s@[i as int]);
            return false;
        }
        i = i + 1;
    }
    true
}

fn strip_sign(s: &Vec<char>) -> (v: Vec<char>)
    ensures
        v@ == unsigned_part(s@),
{
    if s.len() > 0 && (s[0] == '+' || s[0] == '-') {
        let v = copy_chars(s, 1, s.len());
        assert(v@ == s@.skip(1));
        v
    } else {
        let v = copy_chars(s, 0, s.len());
        assert(v@ == s@);
        v
    }
}

fn mantissa(s: &Vec<char>) -> (r: bool)
    ensures
        r == is_mantissa(s@),
{
    let dot: usize = find_first(s, '.', '.');
    assert(s@.take(dot as int) == s@.subrange(0, dot as int));
    if !all_digits(s, 0, dot) {
        return false;
    }
    if dot < s.len() {
        assert(s@.skip(dot + 1) == s@.subrange(dot + 1, s@.len() as int));
        all_digits(s, dot + 1, s.len()) && s.len() > 1
    } else {
        s.len() > 0
    }
}

fn exponent(s: &Vec<char>) -> (r: bool)
    ensures
        r == is_exponent(s@),
{
    let body = strip_sign(s);
    assert(body@.subrange(0, body@.len() as int) == body@);
    body.len() > 0 && all_digits(&body, 0, body.len())
}

/// Whether a text is a decimal number.
pub fn decimal(s: &str) -> (r: bool)
    ensures
        r == is_decimal(s@),
{
    let body = strip_sign(&chars_of(s));
    let low = string_of(&lower_chars(&body));
    if str_eq(low.as_str(), "inf") || str_eq(low.as_str(), "infinity") || str_eq(
        low.as_str(),
        "nan",
    ) {
        return true;
    }
    let e: usize = find_first(&body, 'e', 'E');
    let head = copy_chars(&body, 0, e);
    assert(head@ == body@.take(e as int));
    if !mantissa(&head) {
        return false;
    }
    if e == body.len() {
        return true;
    }
    let tail = copy_chars(&body, e + 1, body.len());
    assert(tail@ == body@.skip(e + 1));
    exponent(&tail)
}

/// A number that need not be whole.
#[derive(Debug, Clone)]
pub enum Real {
    /// A whole number.
    Whole(u64),
    /// A decimal number as it is written.
    Decimal(String),
}

/// A number that need not be whole, as a value.
pub enum RealValue {
    Whole(u64),
    Decimal(Seq<char>),
}

impl View for Real {
    type V = RealValue;

    open spec fn view(&self) -> RealValue {
        match self {
            Real::Whole(n) => RealValue::Whole(*n),
            Real::Decimal(s) => RealValue::Decimal(s@),
        }
    }
}

/// What a text stands for where a number is wanted that need not be whole.
pub open spec fn real_value(s: Seq<char>) -> Option<RealValue> {
    if is_hex(s) {
        match hex_value(s.skip(2)) {
            Some(n) => if n <= u64::MAX {
                Some(RealValue::Whole(n as u64))
            } else {
                None
            },
            None => None,
        }
    } else if is_decimal(s) {
        Some(RealValue::Decimal(s))
    } else {
        None
    }
}

/// Read a number that need not be whole.
pub fn parse_real(s: &str) -> (r: Option<Real>)
    ensures
        match r {
            Some(x) => real_value(s@) == Some(x@),
            None => real_value(s@) is None,
        },
{
    match hex_digits(&chars_of(s)) {
        Some(h) => match parse_hex(&h, u64::MAX) {
            Some(n) => Some(Real::Whole(n)),
            None => None,
        },
        None => if decimal(s) {
            Some(Real::Decimal(s.to_owned()))
        } else {
            None
        },
    }
}

/// What a decimal number comes to where a whole one is wanted.
#[derive(Debug, Clone)]
pub struct RealRow {
    /// The number as it is written.
    pub text: String,
    /// Its value, cut to a signed number of 64 bits.
    pub as_i64: i64,
    /// Its value, cut to an unsigned number of 16 bits.
    pub as_u16: u16,
}

/// The row of a text. The first one counts.
pub open spec fn real_row(rows: Seq<RealRow>, text: Seq<char>) -> Option<RealRow>
    decreases rows.len(),
{
    if rows.len() == 0 {
        None
    } else if rows[0].text@ == text {
        Some(rows[0])
    } else {
        real_row(rows.skip(1), text)
    }
}

fn find_real<'a>(rows: &'a Vec<RealRow>, text: &str) -> (r: Option<&'a RealRow>)
    ensures
        match r {
            Some(row) => real_row(rows@, text@) == Some(*row),
            None => real_row(rows@, text@) is None,
        },
{
    let mut i: usize = 0;
    assert(rows@.skip(0) == rows@);
    while i < rows.len()
        invariant
            i <= rows@.len(),
            real_row(rows@, text@) == real_row(rows@.skip(i as int), text@),
        decreases rows@.len() - i,
    {
        assert(rows@.skip(i as int).skip(1) == rows@.skip(i + 1));
        if str_eq(rows[i].text.as_str(), text) {
            return Some(&rows[i]);
        }
        i = i + 1;
    }
    None
}

/// What a text stands for where a whole signed number is wanted.
pub open spec fn whole_value(s: Seq<char>, reals: Seq<RealRow>) -> Option<int> {
    if is_hex(s) {
        signed_hex_value(s.skip(2))
    } else if signed_value(s) is Some {
        signed_value(s)
    } else if is_decimal(s) {
        match real_row(reals, s) {
            Some(row) => Some(row.as_i64 as int),
            None => None,
        }
    } else {
        None
    }
}

/// Read a whole signed number.
pub fn parse_whole(s: &str, reals: &Vec<RealRow>) -> (r: Option<i64>)
    ensures
        match r {
            Some(n) => whole_value(s@, reals@) == Some(n as int),
            None => whole_value(s@, reals@) is None,
        },
{
    let chars = chars_of(s);
    if let Some(h) = hex_digits(&chars) {
        return parse_signed(&h, true);
    }
    if let Some(n) = parse_signed(&chars, false) {
        return Some(n);
    }
    if decimal(s) {
        if let Some(row) = find_real(reals, s) {
            return Some(row.as_i64);
        }
    }
    None
}

/// What a text stands for where a count is wanted.
pub open spec fn count_value(s: Seq<char>, reals: Seq<RealRow>) -> Option<nat> {
    match unsigned_value(s) {
        Some(n) => if n <= u16::MAX {
            Some(n)
        } else {
            cut_count(s, reals)
        },
        None => cut_count(s, reals),
    }
}

/// What a decimal number stands for where a count is wanted.
pub open spec fn cut_count(s: Seq<char>, reals: Seq<RealRow>) -> Option<nat> {
    if is_decimal(s) {
        match real_row(reals, s) {
            Some(row) => Some(row.as_u16 as nat),
            None => None,
        }
    } else {
        None
    }
}

/// Read a count.
pub fn parse_count(s: &str, reals: &Vec<RealRow>) -> (r: Option<u16>)
    ensures
        match r {
            Some(n) => count_value(s@, reals@) == Some(n as nat),
            None => count_value(s@, reals@) is None,
        },
{
    let chars = chars_of(s);
    if let Some(n) = parse_unsigned(&chars, u16::MAX as u64) {
        return Some(n as u16);
    }
    if decimal(s) {
        if let Some(row) = find_real(reals, s) {
            return Some(row.as_u16);
        }
    }
    None
}

} // verus!
