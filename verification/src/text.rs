//! Text building blocks: number formatting, trimming and comparison over the
//! characters of a string.

use vstd::prelude::*;

use crate::bytes::bytes_eq;

verus! {

/// `String::push` appends one character at the end.
pub assume_specification[ String::push ](s: &mut String, c: char)
    ensures
        final(s)@ == old(s)@.push(c),
;

/// `String::push_str` appends the characters of a string slice at the end.
pub assume_specification[ String::push_str ](s: &mut String, t: &str)
    ensures
        final(s)@ == old(s)@ + t@,
;

/// The digit of a value below 16.
pub open spec fn digit(d: nat, upper: bool) -> char {
    if d < 10 {
        (48 + d) as char
    } else if upper {
        (55 + d) as char
    } else {
        (87 + d) as char
    }
}

/// Decimal digits of `n`, without leading zeroes.
pub open spec fn dec(n: nat) -> Seq<char>
    decreases n,
{
    if n < 10 {
        seq![digit(n, true)]
    } else {
        dec(n / 10).push(digit(n % 10, true))
    }
}

/// Hexadecimal digits of `n`, without leading zeroes.
pub open spec fn hex(n: nat, upper: bool) -> Seq<char>
    decreases n,
{
    if n < 16 {
        seq![digit(n, upper)]
    } else {
        hex(n / 16, upper).push(digit(n % 16, upper))
    }
}

/// `s` filled up with zeroes on the left to at least `width` characters.
pub open spec fn zero_filled(s: Seq<char>, width: nat) -> Seq<char> {
    if s.len() >= width {
        s
    } else {
        Seq::new((width - s.len()) as nat, |i: int| '0') + s
    }
}

/// Uppercase hexadecimal of `n` in at least `width` digits.
pub open spec fn hex_upper(n: nat, width: nat) -> Seq<char> {
    zero_filled(hex(n, true), width)
}

/// Decimal of `n` in at least `width` digits.
pub open spec fn dec_filled(n: nat, width: nat) -> Seq<char> {
    zero_filled(dec(n), width)
}

/// The character of a digit value below 16.
fn digit_char(d: u8, upper: bool) -> (c: char)
    requires
        d < 16,
    ensures
        c == digit(d as nat, upper),
{
    if d < 10 {
        (48 + d) as char
    } else if upper {
        (55 + d) as char
    } else {
        (87 + d) as char
    }
}

fn dec_chars(n: u64) -> (v: Vec<char>)
    ensures
        v@ == dec(n as nat),
    decreases n,
{
    if n < 10 {
        let mut v: Vec<char> = Vec::new();
        v.push(digit_char(n as u8, true));
        v
    } else {
        let mut v = dec_chars(n / 10);
        v.push(digit_char((n % 10) as u8, true));
        v
    }
}

fn hex_chars(n: u64, upper: bool) -> (v: Vec<char>)
    ensures
        v@ == hex(n as nat, upper),
    decreases n,
{
    if n < 16 {
        let mut v: Vec<char> = Vec::new();
        v.push(digit_char(n as u8, upper));
        v
    } else {
        let mut v = hex_chars(n / 16, upper);
        v.push(digit_char((n % 16) as u8, upper));
        v
    }
}

/// Append characters to a string.
pub fn push_chars(s: &mut String, chars: &Vec<char>)
    ensures
        final(s)@ == old(s)@ + chars@,
{
    let mut i: usize = 0;
    while i < chars.len()
        invariant
            i <= chars@.len(),
            s@ == old(s)@ + chars@.take(i as int),
        decreases chars@.len() - i,
    {
        s.push(chars[i]);
        assert(chars@.take(i + 1) == chars@.take(i as int).push(chars@[i as int]));
        i = i + 1;
    }
    assert(chars@.take(i as int) == chars@);
}

fn push_filled(s: &mut String, chars: &Vec<char>, width: usize)
    ensures
        final(s)@ == old(s)@ + zero_filled(chars@, width as nat),
{
    let mut n: usize = chars.len();
    let ghost mut zeroes = Seq::<char>::empty();
    while n < width
        invariant
            chars@.len() <= n,
            n <= width || n == chars@.len(),
            zeroes == Seq::new((n - chars@.len()) as nat, |i: int| '0'),
            s@ == old(s)@ + zeroes,
        decreases width - n,
    {
        s.push('0');
        proof {
            zeroes = zeroes.push('0');
        }
        n = n + 1;
    }
    push_chars(s, chars);
    assert(s@ == old(s)@ + zero_filled(chars@, width as nat));
}

/// Append `n` in decimal.
pub fn push_dec(s: &mut String, n: u64)
    ensures
        final(s)@ == old(s)@ + dec(n as nat),
{
    let v = dec_chars(n);
    push_chars(s, &v);
}

/// Append `n` in decimal, in at least `width` digits.
pub fn push_dec_filled(s: &mut String, n: u64, width: usize)
    ensures
        final(s)@ == old(s)@ + dec_filled(n as nat, width as nat),
{
    let v = dec_chars(n);
    push_filled(s, &v, width);
}

/// Append `n` in uppercase hexadecimal, in at least `width` digits.
pub fn push_hex(s: &mut String, n: u64, width: usize)
    ensures
        final(s)@ == old(s)@ + hex_upper(n as nat, width as nat),
{
    let v = hex_chars(n, true);
    push_filled(s, &v, width);
}

/// The parts joined with `sep` between neighbours.
pub open spec fn joined(parts: Seq<Seq<char>>, sep: Seq<char>) -> Seq<char>
    decreases parts.len(),
{
    if parts.len() == 0 {
        Seq::empty()
    } else if parts.len() == 1 {
        parts[0]
    } else {
        joined(parts.drop_last(), sep) + sep + parts.last()
    }
}

/// The characters of several strings.
pub open spec fn strings(v: Seq<String>) -> Seq<Seq<char>> {
    v.map_values(|s: String| s@)
}

/// Join strings with `sep` between neighbours.
pub fn join(parts: &Vec<String>, sep: &str) -> (s: String)
    ensures
        s@ == joined(strings(parts@), sep@),
{
    let ghost all = strings(parts@);
    let mut s = String::new();
    let mut i: usize = 0;
    assert(all.take(0) == Seq::<Seq<char>>::empty());
    assert(s@ == joined(all.take(0), sep@));
    while i < parts.len()
        invariant
            i <= parts@.len(),
            all == strings(parts@),
            s@ == joined(all.take(i as int), sep@),
        decreases parts@.len() - i,
    {
        let ghost next = all.take(i + 1);
        assert(next.drop_last() == all.take(i as int));
        assert(next.last() == parts@[i as int]@);
        if i > 0 {
            s.push_str(sep);
        }
        s.push_str(parts[i].as_str());
        assert(s@ == joined(next, sep@)) by {
            if i == 0 {
                assert(joined(all.take(0), sep@) == Seq::<char>::empty());
            }
        }
        i = i + 1;
    }
    assert(all.take(i as int) == all);
    s
}

/// Space-separated two-digit uppercase hexadecimal of some bytes.
pub open spec fn hex_bytes(bytes: Seq<u8>) -> Seq<char> {
    joined(bytes.map_values(|b: u8| hex_upper(b as nat, 2)), " "@)
}

/// Format bytes as space-separated uppercase hexadecimal.
pub fn push_hex_bytes(s: &mut String, bytes: &[u8])
    ensures
        final(s)@ == old(s)@ + hex_bytes(bytes@),
{
    let ghost parts = bytes@.map_values(|b: u8| hex_upper(b as nat, 2));
    let mut i: usize = 0;
    assert(joined(parts.take(0), " "@) == Seq::<char>::empty());
    while i < bytes.len()
        invariant
            i <= bytes@.len(),
            parts == bytes@.map_values(|b: u8| hex_upper(b as nat, 2)),
            s@ == old(s)@ + joined(parts.take(i as int), " "@),
        decreases bytes@.len() - i,
    {
        if i > 0 {
            s.push_str(" ");
        }
        push_hex(s, bytes[i] as u64, 2);
        proof {
            let next = parts.take(i + 1);
            assert(next.drop_last() == parts.take(i as int));
            assert(next.last() == hex_upper(bytes@[i as int] as nat, 2));
            if i == 0 {
                assert(parts.take(0) == Seq::<Seq<char>>::empty());
            }
            assert(s@ == old(s)@ + joined(next, " "@));
        }
        i = i + 1;
    }
    assert(parts.take(i as int) == parts);
}

/// Whether two strings hold the same characters.
pub fn str_eq(a: &str, b: &str) -> (r: bool)
    ensures
        r == (a@ == b@),
{
    proof {
        vstd::utf8::encode_utf8_decode_utf8(a@);
        vstd::utf8::encode_utf8_decode_utf8(b@);
    }
    bytes_eq(a.as_bytes(), b.as_bytes())
}

/// The characters of a string.
pub fn chars_of(s: &str) -> (v: Vec<char>)
    ensures
        v@ == s@,
{
    let mut v: Vec<char> = Vec::new();
    for c in it: s.chars()
        invariant
            v@ == it.seq().take(it.index() as int),
            it.seq() == s@,
    {
        v.push(c);
        assert(v@ == it.seq().take(it.index() + 1));
    }
    assert(v@ == s@);
    v
}

/// A string of the given characters.
pub fn string_of(chars: &Vec<char>) -> (s: String)
    ensures
        s@ == chars@,
{
    let mut s = String::new();
    push_chars(&mut s, chars);
    assert(s@ == chars@);
    s
}

/// The text `String::from_utf8_lossy` makes of some bytes.
pub uninterp spec fn utf8_repaired(bytes: Seq<u8>) -> Seq<char>;

/// Bytes as text: the characters they encode, or, where they are no UTF-8, what
/// `String::from_utf8_lossy` makes of them.
pub open spec fn utf8_lossy(bytes: Seq<u8>) -> Seq<char> {
    if vstd::utf8::valid_utf8(bytes) {
        vstd::utf8::decode_utf8(bytes)
    } else {
        utf8_repaired(bytes)
    }
}

/// `String::from_utf8_lossy` decodes valid UTF-8 as it stands; what it puts in
/// place of ill-formed parts is left to its name.
#[verifier::external_body]
pub(crate) fn lossy_utf8(bytes: &[u8]) -> (s: String)
    ensures
        s@ == utf8_repaired(bytes@),
        vstd::utf8::valid_utf8(bytes@) ==> s@ == vstd::utf8::decode_utf8(bytes@),
{
    String::from_utf8_lossy(bytes).into_owned()
}

/// `str::from_utf8` succeeds exactly on well-formed UTF-8 and gives its
/// characters.
#[verifier::external_body]
pub(crate) fn strict_utf8(bytes: &[u8]) -> (s: Option<String>)
    ensures
        s is Some <==> vstd::utf8::valid_utf8(bytes@),
        s matches Some(t) ==> t@ == vstd::utf8::decode_utf8(bytes@),
{
    std::str::from_utf8(bytes).ok().map(|t| t.to_owned())
}

/// A character with the Unicode property `White_Space`.
pub open spec fn is_white(c: char) -> bool {
    let n = c as u32;
    9 <= n <= 13 || n == 0x20 || n == 0x85 || n == 0xA0 || n == 0x1680 || 0x2000 <= n <= 0x200A || n
        == 0x2028 || n == 0x2029 || n == 0x202F || n == 0x205F || n == 0x3000
}

/// Whether a character is white space.
pub fn white(c: char) -> (r: bool)
    ensures
        r == is_white(c),
{
    let n: u32 = c as u32;
    (9 <= n && n <= 13) || n == 0x20 || n == 0x85 || n == 0xA0 || n == 0x1680 || (0x2000 <= n && n
        <= 0x200A) || n == 0x2028 || n == 0x2029 || n == 0x202F || n == 0x205F || n == 0x3000
}

/// What surrounds a text: white space, and NUL too where `nul` is set.
pub open spec fn is_padding(c: char, nul: bool) -> bool {
    is_white(c) || (nul && c == '\0')
}

/// `s` without leading padding.
pub open spec fn trimmed_start(s: Seq<char>, nul: bool) -> Seq<char>
    decreases s.len(),
{
    if s.len() > 0 && is_padding(s[0], nul) {
        trimmed_start(s.skip(1), nul)
    } else {
        s
    }
}

/// `s` without trailing padding.
pub open spec fn trimmed_end(s: Seq<char>, nul: bool) -> Seq<char>
    decreases s.len(),
{
    if s.len() > 0 && is_padding(s.last(), nul) {
        trimmed_end(s.drop_last(), nul)
    } else {
        s
    }
}

/// `s` without surrounding padding.
pub open spec fn trimmed(s: Seq<char>, nul: bool) -> Seq<char> {
    trimmed_end(trimmed_start(s, nul), nul)
}

/// A copy of `s[from..to]`.
pub fn copy_chars(s: &Vec<char>, from: usize, to: usize) -> (v: Vec<char>)
    requires
        from <= to <= s@.len(),
    ensures
        v@ == s@.subrange(from as int, to as int),
{
    let mut v: Vec<char> = Vec::new();
    let mut i: usize = from;
    while i < to
        invariant
            from <= i <= to,
            to <= s@.len(),
            v@ == s@.subrange(from as int, i as int),
        decreases to - i,
    {
        v.push(s[i]);
        assert(v@ == s@.subrange(from as int, i + 1));
        i = i + 1;
    }
    v
}

/// `s` without surrounding padding.
pub fn trim(s: &Vec<char>, nul: bool) -> (v: Vec<char>)
    ensures
        v@ == trimmed(s@, nul),
{
    let mut from: usize = 0;
    assert(s@.skip(0) == s@);
    while from < s.len() && (white(s[from]) || (nul && s[from] == '\0'))
        invariant
            from <= s@.len(),
            trimmed_start(s@, nul) == trimmed_start(s@.skip(from as int), nul),
        decreases s@.len() - from,
    {
        assert(s@.skip(from as int).skip(1) == s@.skip(from + 1));
        from = from + 1;
    }
    let ghost tail = s@.skip(from as int);
    assert(trimmed_start(s@, nul) == tail);
    let mut to: usize = s.len();
    assert(s@.subrange(from as int, to as int) == tail);
    while from < to && (white(s[to - 1]) || (nul && s[to - 1] == '\0'))
        invariant
            from <= to <= s@.len(),
            trimmed_end(tail, nul) == trimmed_end(s@.subrange(from as int, to as int), nul),
        decreases to,
    {
        let ghost part = s@.subrange(from as int, to as int);
        assert(part.drop_last() == s@.subrange(from as int, to - 1));
        assert(part.last() == s@[to - 1]);
        to = to - 1;
    }
    assert(trimmed_end(s@.subrange(from as int, to as int), nul) == s@.subrange(
        from as int,
        to as int,
    ));
    copy_chars(s, from, to)
}

/// The pieces of `s` between occurrences of `c`.
pub open spec fn split(s: Seq<char>, c: char) -> Seq<Seq<char>>
    decreases s.len(),
{
    if s.len() == 0 {
        seq![Seq::empty()]
    } else {
        let before = split(s.drop_last(), c);
        if s.last() == c {
            before.push(Seq::empty())
        } else {
            before.drop_last().push(before.last().push(s.last()))
        }
    }
}

/// The characters of several texts.
pub open spec fn texts(v: Seq<Vec<char>>) -> Seq<Seq<char>> {
    v.map_values(|t: Vec<char>| t@)
}

/// The pieces of `s` between occurrences of `c`.
pub fn split_chars(s: &Vec<char>, c: char) -> (v: Vec<Vec<char>>)
    ensures
        texts(v@) == split(s@, c),
        v@.len() >= 1,
{
    let mut done: Vec<Vec<char>> = Vec::new();
    let mut piece: Vec<char> = Vec::new();
    let mut i: usize = 0;
    assert(texts(done@).push(piece@) == split(s@.take(0), c));
    while i < s.len()
        invariant
            i <= s@.len(),
            texts(done@).push(piece@) == split(s@.take(i as int), c),
        decreases s@.len() - i,
    {
        let ghost before = texts(done@).push(piece@);
        let ghost next = s@.take(i + 1);
        assert(next.drop_last() == s@.take(i as int));
        assert(next.last() == s@[i as int]);
        assert(before.drop_last() == texts(done@));
        let ghost all = done@;
        if s[i] == c {
            done.push(piece);
            assert(texts(done@) == before);
            piece = Vec::new();
        } else {
            piece.push(s[i]);
        }
        assert(texts(done@).push(piece@) == split(next, c));
        i = i + 1;
    }
    let ghost before = texts(done@);
    done.push(piece);
    assert(texts(done@) == split(s@.take(i as int), c));
    assert(s@.take(i as int) == s@);
    done
}

/// The value of a run of decimal digits; `None` if there are none, or if
/// something else is among them.
pub open spec fn digits_value(s: Seq<char>) -> Option<nat>
    decreases s.len(),
{
    if s.len() == 0 {
        None
    } else if !('0' <= s.last() <= '9') {
        None
    } else if s.len() == 1 {
        Some((s[0] as u32 - 48) as nat)
    } else {
        match digits_value(s.drop_last()) {
            Some(n) => Some((n * 10 + (s.last() as u32 - 48)) as nat),
            None => None,
        }
    }
}

/// The value of an unsigned decimal number: digits, with a plus sign in front
/// or not.
pub open spec fn unsigned_value(s: Seq<char>) -> Option<nat> {
    if s.len() > 0 && s[0] == '+' {
        digits_value(s.skip(1))
    } else {
        digits_value(s)
    }
}

/// Parse an unsigned decimal number of at most `max`.
pub fn parse_unsigned(s: &Vec<char>, max: u64) -> (r: Option<u64>)
    ensures
        r == match unsigned_value(s@) {
            Some(n) => if n <= max {
                Some(n as u64)
            } else {
                None
            },
            None => None,
        },
{
    let start: usize = if s.len() > 0 && s[0] == '+' {
        1
    } else {
        0
    };
    let ghost body = s@.skip(start as int);
    assert(start == 0 ==> body == s@);
    if s.len() == start {
        return None;
    }
    let mut value: u64 = 0;
    let mut too_big = false;
    let mut i: usize = start;
    while i < s.len()
        invariant
            start <= i <= s@.len(),
            start <= 1,
            body == s@.skip(start as int),
            unsigned_value(s@) == digits_value(body),
            i > start ==> digits_value(body.take(i - start)) is Some,
            i == start ==> value == 0 && !too_big,
            i > start && !too_big ==> digits_value(body.take(i - start))->0 == value && value
                <= max,
            too_big ==> digits_value(body.take(i - start))->0 > max,
        decreases s@.len() - i,
    {
        let c: char = s[i];
        let ghost prefix = body.take(i - start);
        let ghost next = body.take(i + 1 - start);
        assert(next.drop_last() == prefix);
        assert(next.last() == c);
        if !('0' <= c && c <= '9') {
            proof {
                lemma_digits_prefix(body, i + 1 - start);
                assert(body.take(body.len() as int) == body);
            }
            return None;
        }
        let d: u64 = (c as u32 - 48) as u64;
        if !too_big {
            if max < d || value > max / 10 || value * 10 > max - d {
                too_big = true;
            } else {
                value = value * 10 + d;
            }
        }
        i = i + 1;
    }
    assert(body.take(s@.len() - start) == body);
    if too_big {
        None
    } else {
        Some(value)
    }
}

/// A text all of whose characters are digits has digit-only prefixes.
proof fn lemma_digits_prefix(s: Seq<char>, n: int)
    requires
        1 <= n <= s.len(),
        digits_value(s.take(n)) is None,
    ensures
        digits_value(s) is None,
    decreases s.len(),
{
    if n == s.len() {
        assert(s.take(n) == s);
    } else {
        assert(s.drop_last().take(n) == s.take(n));
        lemma_digits_prefix(s.drop_last(), n);
    }
}

/// The decimal digits of a number read back as the number.
pub proof fn lemma_dec_round_trip(n: nat)
    ensures
        digits_value(dec(n)) == Some(n),
        unsigned_value(dec(n)) == Some(n),
        dec(n).len() >= 1,
        forall|i: int| 0 <= i < dec(n).len() ==> '0' <= #[trigger] dec(n)[i] <= '9',
    decreases n,
{
    if n < 10 {
        assert(dec(n) == seq![digit(n, true)]);
    } else {
        lemma_dec_round_trip(n / 10);
        assert(dec(n).drop_last() == dec(n / 10));
        assert(dec(n).last() == digit(n % 10, true));
    }
    assert('0' <= dec(n)[0] <= '9');
}

/// Whether `s` starts with `prefix`.
pub open spec fn starts_with(s: Seq<char>, prefix: Seq<char>) -> bool {
    prefix.len() <= s.len() && s.take(prefix.len() as int) == prefix
}

/// Whether `s` starts with the characters of `prefix`.
pub fn has_prefix(s: &Vec<char>, prefix: &str) -> (r: bool)
    ensures
        r == starts_with(s@, prefix@),
{
    let p = chars_of(prefix);
    if p.len() > s.len() {
        return false;
    }
    let mut i: usize = 0;
    while i < p.len()
        invariant
            i <= p@.len(),
            p@.len() <= s@.len(),
            p@ == prefix@,
            forall|j: int| 0 <= j < i ==> s@[j] == p@[j],
        decreases p@.len() - i,
    {
        if s[i] != p[i] {
            assert(s@.take(p@.len() as int)[i as int] != p@[i as int]);
            return false;
        }
        i = i + 1;
    }
    assert(s@.take(p@.len() as int) == p@);
    true
}

/// Whether two lists of characters are the same.
pub fn chars_eq(a: &Vec<char>, b: &Vec<char>) -> (r: bool)
    ensures
        r == (a@ == b@),
{
    if a.len() != b.len() {
        return false;
    }
    let mut i: usize = 0;
    while i < a.len()
        invariant
            i <= a@.len(),
            a@.len() == b@.len(),
            forall|j: int| 0 <= j < i ==> a@[j] == b@[j],
        decreases a@.len() - i,
    {
        if a[i] != b[i] {
            return false;
        }
        i = i + 1;
    }
    assert(a@ == b@);
    true
}

/// The lowercase of an ASCII letter; anything else as it is.
pub open spec fn lower(c: char) -> char {
    if 'A' <= c <= 'Z' {
        (c as u32 + 32) as char
    } else {
        c
    }
}

/// The uppercase of an ASCII letter; anything else as it is.
pub open spec fn upper(c: char) -> char {
    if 'a' <= c <= 'z' {
        (c as u32 - 32) as char
    } else {
        c
    }
}

/// Every ASCII letter in lowercase.
pub open spec fn lowered(s: Seq<char>) -> Seq<char> {
    s.map_values(|c: char| lower(c))
}

/// Every ASCII letter in uppercase.
pub open spec fn raised(s: Seq<char>) -> Seq<char> {
    s.map_values(|c: char| upper(c))
}

fn lower_char(c: char) -> (r: char)
    ensures
        r == lower(c),
{
    if 'A' <= c && c <= 'Z' {
        ((c as u32 + 32) as u8) as char
    } else {
        c
    }
}

fn upper_char(c: char) -> (r: char)
    ensures
        r == upper(c),
{
    if 'a' <= c && c <= 'z' {
        ((c as u32 - 32) as u8) as char
    } else {
        c
    }
}

/// Every ASCII letter in lowercase.
pub fn lower_chars(s: &Vec<char>) -> (v: Vec<char>)
    ensures
        v@ == lowered(s@),
{
    let mut v: Vec<char> = Vec::new();
    let mut i: usize = 0;
    while i < s.len()
        invariant
            i <= s@.len(),
            v@ == lowered(s@).take(i as int),
        decreases s@.len() - i,
    {
        v.push(lower_char(s[i]));
        i = i + 1;
        assert(v@ == lowered(s@).take(i as int));
    }
    assert(v@ == lowered(s@));
    v
}

/// Every ASCII letter in uppercase.
pub fn upper_chars(s: &Vec<char>) -> (v: Vec<char>)
    ensures
        v@ == raised(s@),
{
    let mut v: Vec<char> = Vec::new();
    let mut i: usize = 0;
    while i < s.len()
        invariant
            i <= s@.len(),
            v@ == raised(s@).take(i as int),
        decreases s@.len() - i,
    {
        v.push(upper_char(s[i]));
        i = i + 1;
        assert(v@ == raised(s@).take(i as int));
    }
    assert(v@ == raised(s@));
    v
}

/// Whether `s` ends with `suffix`.
pub open spec fn ends_with(s: Seq<char>, suffix: Seq<char>) -> bool {
    suffix.len() <= s.len() && s.skip(s.len() - suffix.len()) == suffix
}

/// Whether `s` ends with the characters of `suffix`.
pub fn has_suffix(s: &Vec<char>, suffix: &str) -> (r: bool)
    ensures
        r == ends_with(s@, suffix@),
{
    let p = chars_of(suffix);
    if p.len() > s.len() {
        return false;
    }
    let from: usize = s.len() - p.len();
    let tail = copy_chars(s, from, s.len());
    assert(tail@ == s@.skip(s@.len() - p@.len()));
    chars_eq(&tail, &p)
}

/// The text `str::to_lowercase` makes of a text.
pub uninterp spec fn unicode_lowercase(s: Seq<char>) -> Seq<char>;

/// A text in lower case: of ASCII the letters alone change, of anything else it is
/// what `str::to_lowercase` makes of it.
pub open spec fn lowercased(s: Seq<char>) -> Seq<char> {
    if vstd::utf8::is_ascii_chars(s) {
        lowered(s)
    } else {
        unicode_lowercase(s)
    }
}

/// `str::to_lowercase` lowers every character that has a lowercase form; on ASCII
/// that is the letters alone. What becomes of other characters is left to its
/// name.
#[verifier::external_body]
pub(crate) fn lowercase(s: &str) -> (r: String)
    ensures
        r@ == unicode_lowercase(s@),
        vstd::utf8::is_ascii_chars(s@) ==> r@ == lowered(s@),
{
    s.to_lowercase()
}

/// Whether `part` occurs in `s`.
pub open spec fn has_part(s: Seq<char>, part: Seq<char>) -> bool {
    exists|k: int|
        0 <= k <= s.len() - part.len() && #[trigger] s.subrange(k, k + part.len()) == part
}

/// Whether `part` occurs in `s`.
pub fn contains_part(s: &str, part: &str) -> (r: bool)
    ensures
        r == has_part(s@, part@),
{
    let a = chars_of(s);
    let b = chars_of(part);
    if b.len() > a.len() {
        return false;
    }
    let last: usize = a.len() - b.len();
    let mut k: usize = 0;
    loop
        invariant
            k <= last,
            last == a@.len() - b@.len(),
            a@.len() <= usize::MAX,
            a@ == s@,
            b@ == part@,
            forall|j: int| 0 <= j < k ==> #[trigger] s@.subrange(j, j + part@.len()) != part@,
        decreases last - k,
    {
        let piece = copy_chars(&a, k, k + b.len());
        assert(piece@ == s@.subrange(k as int, k + part@.len()));
        if chars_eq(&piece, &b) {
            return true;
        }
        if k == last {
            return false;
        }
        k = k + 1;
    }
}

} // verus!
