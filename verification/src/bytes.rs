//! Fixed-width integers in byte buffers, and copies of byte ranges.

use vstd::prelude::*;

verus! {

/// The little-endian `u16` made of two bytes.
pub open spec fn le16(b0: u8, b1: u8) -> int {
    b0 + 256 * b1
}

/// The little-endian `u32` at `off`.
pub open spec fn le32_at(s: Seq<u8>, off: int) -> int {
    s[off] + 0x100 * s[off + 1] + 0x1_0000 * s[off + 2] + 0x100_0000 * s[off + 3]
}

/// The big-endian `u32` at `off`.
pub open spec fn be32_at(s: Seq<u8>, off: int) -> int {
    s[off + 3] + 0x100 * s[off + 2] + 0x1_0000 * s[off + 1] + 0x100_0000 * s[off]
}

/// Byte `i` of `v`, counted from the least significant.
pub open spec fn byte_of(v: int, i: int) -> u8 {
    if i == 0 {
        (v % 0x100) as u8
    } else if i == 1 {
        ((v / 0x100) % 0x100) as u8
    } else if i == 2 {
        ((v / 0x1_0000) % 0x100) as u8
    } else {
        ((v / 0x100_0000) % 0x100) as u8
    }
}

/// `v` as four little-endian bytes.
pub open spec fn le_bytes(v: int) -> Seq<u8> {
    seq![byte_of(v, 0), byte_of(v, 1), byte_of(v, 2), byte_of(v, 3)]
}

/// `v` as four big-endian bytes.
pub open spec fn be_bytes(v: int) -> Seq<u8> {
    seq![byte_of(v, 3), byte_of(v, 2), byte_of(v, 1), byte_of(v, 0)]
}

/// `s` with the bytes from `off` on replaced by `part`.
pub open spec fn spliced(s: Seq<u8>, off: int, part: Seq<u8>) -> Seq<u8> {
    s.take(off) + part + s.skip(off + part.len())
}

/// Whether two byte slices hold the same bytes.
pub fn bytes_eq(a: &[u8], b: &[u8]) -> (r: bool)
    ensures
        r == (a@ == b@),
{
    if a.len() != b.len() {
        return false;
    }
    let mut i: usize = 0;
    while i < a.len()
        invariant
            i <= a@.len(),
            a@.len() == b@.len(),
            forall|j: int| 0 <= j < i ==> a@[j] == b@[j],
        decreases a@.len() - i,
    {
        if a[i] != b[i] {
            return false;
        }
        i = i + 1;
    }
    assert(a@ == b@);
    true
}

/// Whether `s` holds the bytes of `part` from `off` on.
pub fn matches_at(s: &[u8], off: usize, part: &[u8]) -> (r: bool)
    ensures
        r == (off + part@.len() <= s@.len() && s@.subrange(off as int, off + part@.len()) == part@),
{
    if part.len() > s.len() || off > s.len() - part.len() {
        return false;
    }
    let mut i: usize = 0;
    while i < part.len()
        invariant
            i <= part@.len(),
            off + part@.len() <= s@.len() <= usize::MAX,
            forall|j: int| 0 <= j < i ==> s@[off + j] == part@[j],
        decreases part@.len() - i,
    {
        if s[off + i] != part[i] {
            assert(s@.subrange(off as int, off + part@.len())[i as int] != part@[i as int]);
            return false;
        }
        i = i + 1;
    }
    assert(s@.subrange(off as int, off + part@.len()) == part@);
    true
}

/// A copy of `s[from..to]`.
pub fn copy_range(s: &[u8], from: usize, to: usize) -> (v: Vec<u8>)
    requires
        from <= to <= s@.len(),
    ensures
        v@ == s@.subrange(from as int, to as int),
{
    let mut v: Vec<u8> = Vec::new();
    let mut i: usize = from;
    while i < to
        invariant
            from <= i <= to,
            to <= s@.len(),
            v@ == s@.subrange(from as int, i as int),
        decreases to - i,
    {
        v.push(s[i]);
        assert(v@ == s@.subrange(from as int, i + 1));
        i = i + 1;
    }
    v
}

/// A copy of all bytes of `s`.
pub fn to_vec(s: &[u8]) -> (v: Vec<u8>)
    ensures
        v@ == s@,
{
    let v = copy_range(s, 0, s.len());
    assert(s@.subrange(0, s@.len() as int) == s@);
    v
}

/// Overwrite bytes of `out` from `off` on with `part`.
pub fn overwrite(out: &mut Vec<u8>, off: usize, part: &[u8])
    requires
        off + part@.len() <= old(out)@.len(),
    ensures
        final(out)@ == spliced(old(out)@, off as int, part@),
        final(out)@.len() == old(out)@.len(),
{
    let ghost before = out@;
    let len: usize = out.len();
    let mut i: usize = 0;
    while i < part.len()
        invariant
            i <= part@.len(),
            off + part@.len() <= len,
            len == out@.len(),
            out@.len() == before.len(),
            out@ == before.take(off as int) + part@.take(i as int) + before.skip(off + i),
        decreases part@.len() - i,
    {
        out.set(off + i, part[i]);
        i = i + 1;
        assert(out@ == before.take(off as int) + part@.take(i as int) + before.skip(off + i));
    }
    assert(part@.take(i as int) == part@);
}

/// Read a little-endian `u16`.
pub fn read_u16_le(s: &[u8], off: usize) -> (v: u16)
    requires
        off + 2 <= s@.len(),
    ensures
        v == le16(s@[off as int], s@[off + 1]),
{
    s[off] as u16 + 256 * (s[off + 1] as u16)
}

/// Read a little-endian `u32`.
pub fn read_u32_le(s: &[u8], off: usize) -> (v: u32)
    requires
        off + 4 <= s@.len(),
    ensures
        v == le32_at(s@, off as int),
{
    s[off] as u32 + 0x100 * (s[off + 1] as u32) + 0x1_0000 * (s[off + 2] as u32) + 0x100_0000 * (
    s[off + 3] as u32)
}

/// Read a big-endian `u32`.
pub fn read_u32_be(s: &[u8], off: usize) -> (v: u32)
    requires
        off + 4 <= s@.len(),
    ensures
        v == be32_at(s@, off as int),
{
    0x100_0000 * (s[off] as u32) + 0x1_0000 * (s[off + 1] as u32) + 0x100 * (s[off + 2] as u32) + s[
    off + 3] as u32
}

/// `v` as four little-endian bytes.
pub fn u32_le_bytes(v: u32) -> (b: [u8; 4])
    ensures
        b@ == le_bytes(v as int),
{
    let b: [u8; 4] = [
        (v % 0x100) as u8,
        ((v / 0x100) % 0x100) as u8,
        ((v / 0x1_0000) % 0x100) as u8,
        ((v / 0x100_0000) % 0x100) as u8,
    ];
    assert(b@ == le_bytes(v as int));
    b
}

/// `v` as four big-endian bytes.
pub fn u32_be_bytes(v: u32) -> (b: [u8; 4])
    ensures
        b@ == be_bytes(v as int),
{
    let b: [u8; 4] = [
        ((v / 0x100_0000) % 0x100) as u8,
        ((v / 0x1_0000) % 0x100) as u8,
        ((v / 0x100) % 0x100) as u8,
        (v % 0x100) as u8,
    ];
    assert(b@ == be_bytes(v as int));
    b
}

/// Four bytes written little-endian read back as the value written.
pub proof fn lemma_le_round_trip(s: Seq<u8>, off: int, v: int)
    requires
        0 <= off,
        off + 4 <= s.len(),
        0 <= v < 0x1_0000_0000,
    ensures
        le32_at(spliced(s, off, le_bytes(v)), off) == v,
        spliced(s, off, le_bytes(v)).len() == s.len(),
{
    let t = spliced(s, off, le_bytes(v));
    assert(t[off] == byte_of(v, 0));
    assert(t[off + 1] == byte_of(v, 1));
    assert(t[off + 2] == byte_of(v, 2));
    assert(t[off + 3] == byte_of(v, 3));
    lemma_byte_sum(v);
}

/// Four bytes written big-endian read back as the value written.
pub proof fn lemma_be_round_trip(s: Seq<u8>, off: int, v: int)
    requires
        0 <= off,
        off + 4 <= s.len(),
        0 <= v < 0x1_0000_0000,
    ensures
        be32_at(spliced(s, off, be_bytes(v)), off) == v,
        spliced(s, off, be_bytes(v)).len() == s.len(),
{
    let t = spliced(s, off, be_bytes(v));
    assert(t[off] == byte_of(v, 3));
    assert(t[off + 1] == byte_of(v, 2));
    assert(t[off + 2] == byte_of(v, 1));
    assert(t[off + 3] == byte_of(v, 0));
    lemma_byte_sum(v);
}

proof fn lemma_byte_sum(v: int)
    requires
        0 <= v < 0x1_0000_0000,
    ensures
        byte_of(v, 0) + 0x100 * byte_of(v, 1) + 0x1_0000 * byte_of(v, 2) + 0x100_0000 * byte_of(
            v,
            3,
        ) == v,
{
}

} // verus!
