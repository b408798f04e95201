//! Read CHARACTERISTIC values from ECU binary data using A2L definitions.
//!
//! Numbers come out as they are stored ([`Raw`]), each list with the name of the
//! conversion that applies to it.

use vstd::prelude::*;

use super::lexer::latin_chars;
use super::number::{Real, RealValue};
use super::table::named;
use super::types::{
    views, A2lFile, A2lFileValue, AxisAttribute, AxisDescr, AxisDescrValue, Characteristic,
    CharacteristicType, CharacteristicValue, Conversion, DataType, FixAxisParDist,
    FixAxisParDistValue, FncValuesField, RecordLayout, RecordLayoutValue,
};
use crate::bytes::{copy_range, le16, le32_at, read_u16_le, read_u32_le};
use crate::text::str_eq;

verus! {

/// Address mapping: ECU base address, file offset and length of every block.
pub type AddressMap = Vec<(u32, usize, usize)>;

/// How far an address lies behind a base, modulo the address space.
pub open spec fn distance(addr: u32, base: u32) -> int {
    if addr >= base {
        addr - base
    } else {
        addr - base + 0x1_0000_0000
    }
}

/// The file offset of an address: that of the first block that holds it. Only
/// the low 32 bits of a length count.
pub open spec fn resolved(map: Seq<(u32, usize, usize)>, addr: u32) -> Option<int>
    decreases map.len(),
{
    if map.len() == 0 {
        None
    } else {
        let (base, off, len) = map[0];
        if distance(addr, base) < len as int % 0x1_0000_0000 {
            Some(off + distance(addr, base))
        } else {
            resolved(map.skip(1), addr)
        }
    }
}

/// Whether every block lies inside what a file offset can address.
pub open spec fn addressable(map: Seq<(u32, usize, usize)>) -> bool {
    forall|i: int| 0 <= i < map.len() ==> (#[trigger] map[i]).1 + map[i].2 <= usize::MAX
}

/// The file offset of an address.
pub fn resolve(map: &AddressMap, addr: u32) -> (r: Option<usize>)
    requires
        addressable(map@),
    ensures
        match r {
            Some(n) => resolved(map@, addr) == Some(n as int),
            None => resolved(map@, addr) is None,
        },
{
    let mut i: usize = 0;
    assert(map@.skip(0) == map@);
    while i < map.len()
        invariant
            i <= map@.len(),
            addressable(map@),
            resolved(map@, addr) == resolved(map@.skip(i as int), addr),
        decreases map@.len() - i,
    {
        assert(map@.skip(i as int).skip(1) == map@.skip(i + 1));
        assert(map@.skip(i as int)[0] == map@[i as int]);
        let (base, off, len) = map[i];
        let offset: u32 = if addr >= base {
            addr - base
        } else {
            (addr as u64 + 0x1_0000_0000 - base as u64) as u32
        };
        if (offset as u64) < (len as u64) % 0x1_0000_0000 {
            return Some(off + offset as usize);
        }
        i = i + 1;
    }
    None
}

/// A number as it is stored.
#[derive(Debug, Clone, Copy, PartialEq, Eq, Structural)]
pub enum Raw {
    /// A whole number.
    Whole(i128),
    /// The bits of an IEEE number of single precision.
    Single(u32),
    /// The bits of an IEEE number of double precision.
    Double(u64),
}

/// A number of `modulus` values read as a signed one.
pub open spec fn as_signed(v: int, modulus: int) -> int {
    if v >= modulus / 2 {
        v - modulus
    } else {
        v
    }
}

/// The little-endian 64-bit number at `at`.
pub open spec fn le64_at(data: Seq<u8>, at: int) -> int {
    le32_at(data, at) + 0x1_0000_0000 * le32_at(data, at + 4)
}

/// The number stored at `at`.
pub open spec fn raw_at(data: Seq<u8>, at: int, dt: DataType) -> Raw {
    match dt {
        DataType::UByte => Raw::Whole(data[at] as i128),
        DataType::SByte => Raw::Whole(as_signed(data[at] as int, 0x100) as i128),
        DataType::UWord => Raw::Whole(le16(data[at], data[at + 1]) as i128),
        DataType::SWord => Raw::Whole(as_signed(le16(data[at], data[at + 1]), 0x1_0000) as i128),
        DataType::ULong => Raw::Whole(le32_at(data, at) as i128),
        DataType::SLong => Raw::Whole(as_signed(le32_at(data, at), 0x1_0000_0000) as i128),
        DataType::AUint64 => Raw::Whole(le64_at(data, at) as i128),
        DataType::AInt64 => Raw::Whole(
            as_signed(le64_at(data, at), 0x1_0000_0000_0000_0000) as i128,
        ),
        DataType::Float32Ieee => Raw::Single(le32_at(data, at) as u32),
        DataType::Float64Ieee => Raw::Double(le64_at(data, at) as u64),
    }
}

/// Read the number stored at `at`, if it lies inside the data.
pub fn read_raw(data: &[u8], at: usize, dt: DataType) -> (r: Option<Raw>)
    ensures
        r is Some <==> at + dt.width() <= data@.len(),
        r matches Some(raw) ==> raw == raw_at(data@, at as int, dt) && data@.len() <= usize::MAX,
{
    let w: usize = dt.byte_width();
    if data.len() < w || at > data.len() - w {
        return None;
    }
    Some(
        match dt {
            DataType::UByte => Raw::Whole(data[at] as i128),
            DataType::SByte => {
                let v: i128 = data[at] as i128;
                Raw::Whole(
                    if v >= 0x80 {
                        v - 0x100
                    } else {
                        v
                    },
                )
            },
            DataType::UWord => Raw::Whole(read_u16_le(data, at) as i128),
            DataType::SWord => {
                let v: i128 = read_u16_le(data, at) as i128;
                Raw::Whole(
                    if v >= 0x8000 {
                        v - 0x1_0000
                    } else {
                        v
                    },
                )
            },
            DataType::ULong => Raw::Whole(read_u32_le(data, at) as i128),
            DataType::SLong => {
                let v: i128 = read_u32_le(data, at) as i128;
                Raw::Whole(
                    if v >= 0x8000_0000 {
                        v - 0x1_0000_0000
                    } else {
                        v
                    },
                )
            },
            DataType::AUint64 => Raw::Whole(read_u64(data, at) as i128),
            DataType::AInt64 => {
                let v: i128 = read_u64(data, at) as i128;
                Raw::Whole(
                    if v >= 0x8000_0000_0000_0000 {
                        v - 0x1_0000_0000_0000_0000
                    } else {
                        v
                    },
                )
            },
            DataType::Float32Ieee => Raw::Single(read_u32_le(data, at)),
            DataType::Float64Ieee => Raw::Double(read_u64(data, at)),
        },
    )
}

fn read_u64(data: &[u8], at: usize) -> (v: u64)
    requires
        at + 8 <= data@.len() <= usize::MAX,
    ensures
        v == le64_at(data@, at as int),
{
    let low: u64 = read_u32_le(data, at) as u64;
    let high: u64 = read_u32_le(data, at + 4) as u64;
    low + 0x1_0000_0000 * high
}

/// Why values cannot be read.
#[derive(Debug, Clone, Copy, PartialEq, Eq, Structural)]
pub enum Miss {
    /// Something is missing: a layout, an address, or data.
    Unreadable,
    /// A stored count is no small whole number, and what it comes to is not
    /// known.
    Uncounted(Raw),
}

/// What a stored number comes to where a count is wanted.
#[derive(Debug, Clone, Copy, PartialEq, Eq, Structural)]
pub struct Cut {
    pub raw: Raw,
    pub count: usize,
}

/// The largest whole number up to which every one is its own double.
pub const EXACT: i128 = 0x20_0000_0000_0000;

/// What a stored number comes to where a count is wanted, looked up. The first
/// row counts.
pub open spec fn cut_of(cuts: Seq<Cut>, raw: Raw) -> Option<int>
    decreases cuts.len(),
{
    if cuts.len() == 0 {
        None
    } else if cuts[0].raw == raw {
        Some(cuts[0].count as int)
    } else {
        cut_of(cuts.skip(1), raw)
    }
}

/// What a stored number comes to where a count is wanted.
pub open spec fn counted(cuts: Seq<Cut>, raw: Raw) -> Result<int, Miss> {
    match raw {
        Raw::Whole(n) if n <= 0 => Ok(0),
        Raw::Whole(n) if n <= EXACT => Ok(
            if n <= usize::MAX {
                n as int
            } else {
                usize::MAX as int
            },
        ),
        _ => match cut_of(cuts, raw) {
            Some(n) => Ok(n),
            None => Err(Miss::Uncounted(raw)),
        },
    }
}

fn find_cut(cuts: &Vec<Cut>, raw: Raw) -> (r: Option<usize>)
    ensures
        match r {
            Some(n) => cut_of(cuts@, raw) == Some(n as int),
            None => cut_of(cuts@, raw) is None,
        },
{
    let mut i: usize = 0;
    assert(cuts@.skip(0) == cuts@);
    while i < cuts.len()
        invariant
            i <= cuts@.len(),
            cut_of(cuts@, raw) == cut_of(cuts@.skip(i as int), raw),
        decreases cuts@.len() - i,
    {
        assert(cuts@.skip(i as int).skip(1) == cuts@.skip(i + 1));
        if cuts[i].raw == raw {
            return Some(cuts[i].count);
        }
        i = i + 1;
    }
    None
}

fn count_of(cuts: &Vec<Cut>, raw: Raw) -> (r: Result<usize, Miss>)
    ensures
        match r {
            Ok(n) => counted(cuts@, raw) == Ok::<int, Miss>(n as int),
            Err(m) => counted(cuts@, raw) == Err::<int, Miss>(m),
        },
{
    if let Raw::Whole(n) = raw {
        if n <= 0 {
            return Ok(0);
        }
        if n <= EXACT {
            if n <= usize::MAX as i128 {
                return Ok(n as usize);
            }
            return Ok(usize::MAX);
        }
    }
    match find_cut(cuts, raw) {
        Some(n) => Ok(n),
        None => Err(Miss::Uncounted(raw)),
    }
}

/// `n` numbers stored one after the other from `at` on.
pub open spec fn raws(data: Seq<u8>, at: int, dt: DataType, n: int) -> Result<Seq<Raw>, Miss> {
    if n <= 0 {
        Ok(Seq::empty())
    } else if at + n * dt.width() <= data.len() {
        Ok(Seq::new(n as nat, |i: int| raw_at(data, at + i * dt.width(), dt)))
    } else {
        Err(Miss::Unreadable)
    }
}

fn read_raws(data: &[u8], at: usize, dt: DataType, n: usize) -> (r: Result<Vec<Raw>, Miss>)
    ensures
        match r {
            Ok(v) => raws(data@, at as int, dt, n as int) == Ok::<Seq<Raw>, Miss>(v@) && v@.len()
                == n && (n > 0 ==> at + n * dt.width() <= data@.len() <= usize::MAX),
            Err(m) => raws(data@, at as int, dt, n as int) == Err::<Seq<Raw>, Miss>(m),
        },
{
    let w: usize = dt.byte_width();
    let mut v: Vec<Raw> = Vec::new();
    if n == 0 {
        assert(v@ == Seq::<Raw>::empty());
        return Ok(v);
    }
    let len: usize = data.len();
    if at > len || n > (len - at) / w {
        proof {
            let room = len - at;
            assert(at > len || n * w > room) by (nonlinear_arith)
                requires
                    w > 0,
                    n >= 0,
                    room == len - at,
                    at > len || n > room / w as int,
            ;
            assert(n * w >= 0) by (nonlinear_arith)
                requires
                    n >= 0,
                    w > 0,
            ;
        }
        return Err(Miss::Unreadable);
    }
    proof {
        let room = len - at;
        assert(n * w <= room) by (nonlinear_arith)
            requires
                w > 0,
                n <= room / w as int,
                room >= 0,
        ;
    }
    let ghost all = Seq::new(n as nat, |i: int| raw_at(data@, at + i * dt.width(), dt));
    let mut pos: usize = at;
    let mut i: usize = 0;
    while i < n
        invariant
            i <= n,
            w == dt.width(),
            w > 0,
            len == data@.len(),
            pos == at + i * w,
            at + n * w <= len,
            all == Seq::new(n as nat, |i: int| raw_at(data@, at + i * dt.width(), dt)),
            v@ == all.take(i as int),
        decreases n - i,
    {
        assert(i * w + w <= n * w) by (nonlinear_arith)
            requires
                i < n,
                w > 0,
        ;
        assert((i + 1) * w == i * w + w) by (nonlinear_arith);
        match read_raw(data, pos, dt) {
            Some(raw) => {
                v.push(raw);
                assert(all[i as int] == raw);
                assert(all.take(i + 1) == all.take(i as int).push(raw));
            },
            None => {
                assert(false);
            },
        }
        pos = pos + w;
        i = i + 1;
    }
    assert(all.take(n as int) == all);
    Ok(v)
}

/// The points of an axis.
#[derive(Debug, Clone)]
pub enum AxisPoints {
    /// Stored numbers, and the name of their conversion.
    Stored { raws: Vec<Raw>, method: String },
    /// Numbers from the description.
    Listed(Vec<Real>),
    /// Evenly spaced numbers from the description.
    Spaced(FixAxisParDist),
}

/// The points of an axis as a value.
pub enum Points {
    Stored { raws: Seq<Raw>, method: Seq<char> },
    Listed(Seq<RealValue>),
    Spaced(FixAxisParDistValue),
}

impl View for AxisPoints {
    type V = Points;

    open spec fn view(&self) -> Points {
        match self {
            AxisPoints::Stored { raws, method } => Points::Stored { raws: raws@, method: method@ },
            AxisPoints::Listed(list) => Points::Listed(views(list@)),
            AxisPoints::Spaced(dist) => Points::Spaced(dist@),
        }
    }
}

impl Points {
    /// How many points there are.
    pub open spec fn number(self) -> int {
        match self {
            Points::Stored { raws, .. } => raws.len() as int,
            Points::Listed(list) => list.len() as int,
            Points::Spaced(dist) => dist.count as int,
        }
    }
}

impl AxisPoints {
    /// How many points there are.
    pub fn len(&self) -> (n: usize)
        ensures
            n == self@.number(),
    {
        match self {
            AxisPoints::Stored { raws, .. } => raws.len(),
            AxisPoints::Listed(list) => list.len(),
            AxisPoints::Spaced(dist) => dist.count as usize,
        }
    }
}

fn copy_text(s: &String) -> (r: String)
    ensures
        r@ == s@,
{
    s.clone()
}

fn copy_real(x: &Real) -> (r: Real)
    ensures
        r@ == x@,
{
    match x {
        Real::Whole(n) => Real::Whole(*n),
        Real::Decimal(s) => Real::Decimal(s.clone()),
    }
}

fn copy_reals(list: &Vec<Real>) -> (r: Vec<Real>)
    ensures
        views(r@) == views(list@),
{
    let mut r: Vec<Real> = Vec::new();
    let mut i: usize = 0;
    assert(views(r@) == views(list@).take(0));
    while i < list.len()
        invariant
            i <= list@.len(),
            views(r@) == views(list@).take(i as int),
        decreases list@.len() - i,
    {
        let ghost before = r@;
        let x = copy_real(&list[i]);
        r.push(x);
        assert(views(r@) == views(before).push(x@));
        assert(views(list@).take(i + 1) == views(list@).take(i as int).push(x@));
        i = i + 1;
    }
    assert(views(list@).take(i as int) == views(list@));
    r
}

/// The points of a fixed axis.
pub open spec fn fixed_points(axis: AxisDescrValue) -> Result<Points, Miss> {
    match axis.fix_axis_par_list {
        Some(list) => Ok(Points::Listed(list)),
        None => match axis.fix_axis_par_dist {
            Some(dist) => Ok(Points::Spaced(dist)),
            None => Err(Miss::Unreadable),
        },
    }
}

fn compute_fix_axis(axis: &AxisDescr) -> (r: Result<AxisPoints, Miss>)
    ensures
        match r {
            Ok(p) => fixed_points(axis@) == Ok::<Points, Miss>(p@),
            Err(m) => fixed_points(axis@) == Err::<Points, Miss>(m),
        },
{
    if let Some(list) = &axis.fix_axis_par_list {
        return Ok(AxisPoints::Listed(copy_reals(list)));
    }
    match &axis.fix_axis_par_dist {
        Some(d) => Ok(
            AxisPoints::Spaced(
                FixAxisParDist {
                    offset: copy_real(&d.offset),
                    distance: copy_real(&d.distance),
                    count: d.count,
                },
            ),
        ),
        None => Err(Miss::Unreadable),
    }
}

/// The datatype of the points of a shared axis.
pub open spec fn points_type(layout: RecordLayoutValue) -> Option<DataType> {
    match layout.axis_pts_x {
        Some(f) => Some(f.datatype),
        None => match layout.fnc_values {
            Some(f) => Some(f.datatype),
            None => None,
        },
    }
}

/// How many points a shared axis at `at` has, and where they start.
pub open spec fn stored_count(
    layout: RecordLayoutValue,
    limit: u16,
    data: Seq<u8>,
    at: int,
    cuts: Seq<Cut>,
) -> Result<(int, int), Miss> {
    match layout.no_axis_pts_x {
        None => Ok((limit as int, at)),
        Some(f) => if at + f.datatype.width() > data.len() {
            Err(Miss::Unreadable)
        } else {
            match counted(cuts, raw_at(data, at, f.datatype)) {
                Ok(n) => Ok((n, at + f.datatype.width())),
                Err(m) => Err(m),
            }
        },
    }
}

/// The points of a shared axis.
pub open spec fn shared_points(
    axis: AxisDescrValue,
    a2l: A2lFileValue,
    data: Seq<u8>,
    map: Seq<(u32, usize, usize)>,
    cuts: Seq<Cut>,
) -> Result<Points, Miss> {
    if axis.axis_pts_ref is None {
        Err(Miss::Unreadable)
    } else {
        let pts = named(a2l.axis_pts, axis.axis_pts_ref->0);
        if pts is None {
            Err(Miss::Unreadable)
        } else {
            let layout = named(a2l.record_layouts, pts->0.deposit);
            let base = resolved(map, pts->0.address);
            if layout is None || base is None {
                Err(Miss::Unreadable)
            } else {
                match stored_count(layout->0, pts->0.max_axis_points, data, base->0, cuts) {
                    Err(m) => Err(m),
                    Ok((n, at)) => match points_type(layout->0) {
                        None => Err(Miss::Unreadable),
                        Some(dt) => match raws(data, at, dt, n) {
                            Ok(list) => Ok(
                                Points::Stored { raws: list, method: pts->0.compu_method_ref },
                            ),
                            Err(m) => Err(m),
                        },
                    },
                }
            }
        }
    }
}

fn read_stored_count(
    layout: &RecordLayout,
    limit: u16,
    data: &[u8],
    at: usize,
    cuts: &Vec<Cut>,
) -> (r: Result<(usize, usize), Miss>)
    ensures
        match r {
            Ok((n, p)) => stored_count(layout@, limit, data@, at as int, cuts@) == Ok::<
                (int, int),
                Miss,
            >((n as int, p as int)),
            Err(m) => stored_count(layout@, limit, data@, at as int, cuts@) == Err::<
                (int, int),
                Miss,
            >(m),
        },
{
    match &layout.no_axis_pts_x {
        None => Ok((limit as usize, at)),
        Some(f) => match read_raw(data, at, f.datatype) {
            None => Err(Miss::Unreadable),
            Some(raw) => match count_of(cuts, raw) {
                Ok(n) => Ok((n, at + f.datatype.byte_width())),
                Err(m) => Err(m),
            },
        },
    }
}

fn read_com_axis(
    axis: &AxisDescr,
    a2l: &A2lFile,
    data: &[u8],
    map: &AddressMap,
    cuts: &Vec<Cut>,
) -> (r: Result<AxisPoints, Miss>)
    requires
        addressable(map@),
    ensures
        match r {
            Ok(p) => shared_points(axis@, a2l@, data@, map@, cuts@) == Ok::<Points, Miss>(p@),
            Err(m) => shared_points(axis@, a2l@, data@, map@, cuts@) == Err::<Points, Miss>(m),
        },
{
    let name = match &axis.axis_pts_ref {
        Some(s) => s,
        None => {
            return Err(Miss::Unreadable);
        },
    };
    let pts = match a2l.axis_pts.get(name.as_str()) {
        Some(p) => p,
        None => {
            return Err(Miss::Unreadable);
        },
    };
    let layout = match a2l.record_layouts.get(pts.deposit.as_str()) {
        Some(l) => l,
        None => {
            return Err(Miss::Unreadable);
        },
    };
    let base: usize = match resolve(map, pts.address) {
        Some(b) => b,
        None => {
            return Err(Miss::Unreadable);
        },
    };
    let (n, at) = match read_stored_count(layout, pts.max_axis_points, data, base, cuts) {
        Ok(x) => x,
        Err(m) => {
            return Err(m);
        },
    };
    let dt = match &layout.axis_pts_x {
        Some(f) => f.datatype,
        None => match &layout.fnc_values {
            Some(f) => f.datatype,
            None => {
                return Err(Miss::Unreadable);
            },
        },
    };
    match read_raws(data, at, dt, n) {
        Ok(list) => Ok(
            AxisPoints::Stored { raws: list, method: copy_text(&pts.compu_method_ref) },
        ),
        Err(m) => Err(m),
    }
}

/// A part of a record that carries its axes with it.
#[derive(Debug, Clone, Copy, PartialEq, Eq, Structural)]
pub enum Tag {
    CountX,
    PointsX,
    CountY,
    PointsY,
    Values,
}

/// A part of a record: where it comes, what it is, and how it is stored.
#[derive(Debug, Clone, Copy, PartialEq, Eq, Structural)]
pub struct Part {
    pub position: u16,
    pub tag: Tag,
    pub datatype: DataType,
}

/// Parts with one more, behind those of the same position.
pub open spec fn placed(parts: Seq<Part>, part: Part) -> Seq<Part>
    decreases parts.len(),
{
    if parts.len() == 0 {
        seq![part]
    } else if parts.last().position <= part.position {
        parts.push(part)
    } else {
        placed(parts.drop_last(), part).push(parts.last())
    }
}

/// The part of a field that may be missing, put in its place.
pub open spec fn placed_field(
    parts: Seq<Part>,
    field: Option<super::types::LayoutField>,
    tag: Tag,
) -> Seq<Part> {
    match field {
        Some(f) => placed(parts, Part { position: f.position, tag, datatype: f.datatype }),
        None => parts,
    }
}

/// The parts of a record in the order they are stored.
pub open spec fn parts_of(layout: RecordLayoutValue) -> Seq<Part> {
    let a = placed_field(Seq::empty(), layout.no_axis_pts_x, Tag::CountX);
    let b = placed_field(a, layout.axis_pts_x, Tag::PointsX);
    let c = placed_field(b, layout.no_axis_pts_y, Tag::CountY);
    let d = placed_field(c, layout.axis_pts_y, Tag::PointsY);
    match layout.fnc_values {
        Some(f) => placed(
            d,
            Part { position: f.position, tag: Tag::Values, datatype: f.datatype },
        ),
        None => d,
    }
}

fn place(parts: &mut Vec<Part>, part: Part)
    ensures
        final(parts)@ == placed(old(parts)@, part),
{
    let ghost all = parts@;
    let mut n: usize = parts.len();
    assert(all.take(n as int) == all);
    assert(placed(all.take(n as int), part) + all.skip(n as int) == placed(all, part));
    while n > 0 && parts[n - 1].position > part.position
        invariant
            n <= all.len(),
            parts@ == all,
            placed(all, part) == placed(all.take(n as int), part) + all.skip(n as int),
        decreases n,
    {
        let ghost head = all.take(n as int);
        assert(head.drop_last() == all.take(n - 1));
        assert(head.last() == all[n - 1]);
        assert(placed(all.take(n - 1), part).push(all[n - 1]) + all.skip(n as int) == placed(
            all.take(n - 1),
            part,
        ) + all.skip(n - 1));
        n = n - 1;
    }
    assert(placed(all.take(n as int), part) == all.take(n as int).push(part)) by {
        if n > 0 {
            assert(all.take(n as int).last() == all[n - 1]);
        } else {
            assert(all.take(0).push(part) == seq![part]);
        }
    }
    parts.insert(n, part);
    assert(parts@ == all.take(n as int).push(part) + all.skip(n as int));
}

fn place_field(parts: &mut Vec<Part>, field: &Option<super::types::LayoutField>, tag: Tag)
    ensures
        final(parts)@ == placed_field(old(parts)@, *field, tag),
{
    if let Some(f) = field {
        place(parts, Part { position: f.position, tag, datatype: f.datatype });
    }
}

/// The parts of a record in the order they are stored.
pub fn ordered_parts(layout: &RecordLayout) -> (r: Vec<Part>)
    ensures
        r@ == parts_of(layout@),
{
    let mut parts: Vec<Part> = Vec::new();
    place_field(&mut parts, &layout.no_axis_pts_x, Tag::CountX);
    place_field(&mut parts, &layout.axis_pts_x, Tag::PointsX);
    place_field(&mut parts, &layout.no_axis_pts_y, Tag::CountY);
    place_field(&mut parts, &layout.axis_pts_y, Tag::PointsY);
    if let Some(f) = &layout.fnc_values {
        place(
            &mut parts,
            Part { position: f.position, tag: Tag::Values, datatype: f.datatype },
        );
    }
    parts
}

/// What is known of a record while its parts are read.
pub struct Walk {
    /// Where the next part starts.
    pub at: int,
    pub x_count: int,
    pub y_count: int,
    pub x: Seq<Raw>,
    pub y: Seq<Raw>,
    /// Where the values start.
    pub values_at: int,
}

/// A count stored at the start of a part.
pub open spec fn walk_count(data: Seq<u8>, at: int, dt: DataType, cuts: Seq<Cut>) -> Result<
    int,
    Miss,
> {
    if at + dt.width() > data.len() {
        Err(Miss::Unreadable)
    } else {
        counted(cuts, raw_at(data, at, dt))
    }
}

/// Read one part of a record.
pub open spec fn step(data: Seq<u8>, w: Walk, part: Part, cuts: Seq<Cut>) -> Result<Walk, Miss> {
    let width = part.datatype.width();
    match part.tag {
        Tag::CountX => match walk_count(data, w.at, part.datatype, cuts) {
            Ok(n) => Ok(Walk { x_count: n, at: w.at + width, ..w }),
            Err(m) => Err(m),
        },
        Tag::PointsX => match raws(data, w.at, part.datatype, w.x_count) {
            Ok(list) => Ok(Walk { x: list, at: w.at + w.x_count * width, ..w }),
            Err(m) => Err(m),
        },
        Tag::CountY => match walk_count(data, w.at, part.datatype, cuts) {
            Ok(n) => Ok(Walk { y_count: n, at: w.at + width, ..w }),
            Err(m) => Err(m),
        },
        Tag::PointsY => match raws(data, w.at, part.datatype, w.y_count) {
            Ok(list) => Ok(Walk { y: list, at: w.at + w.y_count * width, ..w }),
            Err(m) => Err(m),
        },
        Tag::Values => Ok(Walk { values_at: w.at, ..w }),
    }
}

/// Read the parts of a record one after the other.
pub open spec fn walked(data: Seq<u8>, w: Walk, parts: Seq<Part>, cuts: Seq<Cut>) -> Result<
    Walk,
    Miss,
>
    decreases parts.len(),
{
    if parts.len() == 0 {
        Ok(w)
    } else {
        match step(data, w, parts[0], cuts) {
            Ok(next) => walked(data, next, parts.skip(1), cuts),
            Err(m) => Err(m),
        }
    }
}

/// The axes a record carries with it, and where its values start.
pub open spec fn inline(
    layout: RecordLayoutValue,
    data: Seq<u8>,
    base: int,
    default_x: u16,
    default_y: u16,
    cuts: Seq<Cut>,
) -> Result<Walk, Miss> {
    walked(
        data,
        Walk {
            at: base,
            x_count: default_x as int,
            y_count: default_y as int,
            x: Seq::empty(),
            y: Seq::empty(),
            values_at: base,
        },
        parts_of(layout),
        cuts,
    )
}

/// The axes a record carries with it, and where its values start.
#[derive(Debug, Clone)]
pub struct InlineResult {
    pub x_values: Vec<Raw>,
    pub y_values: Vec<Raw>,
    pub values_at: usize,
}

fn read_inline(
    layout: &RecordLayout,
    data: &[u8],
    base: usize,
    default_x: u16,
    default_y: u16,
    cuts: &Vec<Cut>,
) -> (r: Result<InlineResult, Miss>)
    ensures
        match r {
            Ok(v) => inline(layout@, data@, base as int, default_x, default_y, cuts@) matches Ok(w)
                && w.x == v.x_values@ && w.y == v.y_values@ && w.values_at == v.values_at,
            Err(m) => inline(layout@, data@, base as int, default_x, default_y, cuts@) == Err::<
                Walk,
                Miss,
            >(m),
        },
{
    let parts = ordered_parts(layout);
    let ghost all = inline(layout@, data@, base as int, default_x, default_y, cuts@);
    let len: usize = data.len();
    let mut at: usize = base;
    let mut x_count: usize = default_x as usize;
    let mut y_count: usize = default_y as usize;
    let mut x: Vec<Raw> = Vec::new();
    let mut y: Vec<Raw> = Vec::new();
    let mut values_at: usize = base;
    let mut i: usize = 0;
    assert(parts@.skip(0) == parts@);
    assert(x@ == Seq::<Raw>::empty());
    assert(y@ == Seq::<Raw>::empty());
    while i < parts.len()
        invariant
            i <= parts@.len(),
            len == data@.len(),
            all == inline(layout@, data@, base as int, default_x, default_y, cuts@),
            all == walked(
                data@,
                (Walk {
                    at: at as int,
                    x_count: x_count as int,
                    y_count: y_count as int,
                    x: x@,
                    y: y@,
                    values_at: values_at as int,
                }),
                parts@.skip(i as int),
                cuts@,
            ),
        decreases parts@.len() - i,
    {
        let part = parts[i];
        let dt = part.datatype;
        assert(parts@.skip(i as int)[0] == part);
        assert(parts@.skip(i as int).skip(1) == parts@.skip(i + 1));
        match part.tag {
            Tag::CountX | Tag::CountY => {
                let raw = match read_raw(data, at, dt) {
                    Some(raw) => raw,
                    None => {
                        return Err(Miss::Unreadable);
                    },
                };
                let n: usize = match count_of(cuts, raw) {
                    Ok(n) => n,
                    Err(m) => {
                        return Err(m);
                    },
                };
                if part.tag == Tag::CountX {
                    x_count = n;
                } else {
                    y_count = n;
                }
                at = at + dt.byte_width();
            },
            Tag::PointsX => {
                match read_raws(data, at, dt, x_count) {
                    Ok(list) => {
                        x = list;
                        at = advance(at, x_count, dt, len);
                    },
                    Err(m) => {
                        return Err(m);
                    },
                }
            },
            Tag::PointsY => {
                match read_raws(data, at, dt, y_count) {
                    Ok(list) => {
                        y = list;
                        at = advance(at, y_count, dt, len);
                    },
                    Err(m) => {
                        return Err(m);
                    },
                }
            },
            Tag::Values => {
                values_at = at;
            },
        }
        i = i + 1;
    }
    Ok(InlineResult { x_values: x, y_values: y, values_at })
}

fn advance(at: usize, n: usize, dt: DataType, len: usize) -> (r: usize)
    requires
        n > 0 ==> at + n * dt.width() <= len,
    ensures
        r == at + n * dt.width(),
{
    if n == 0 {
        return at;
    }
    let w: usize = dt.byte_width();
    assert(n * w <= len);
    at + n * w
}

/// Values read from a CHARACTERISTIC.
#[allow(inconsistent_fields)]
#[derive(Debug, Clone)]
pub enum CharacteristicValues {
    Scalar(Raw),
    Ascii(String),
    Curve { x: AxisPoints, y: Vec<Raw> },
    /// `z[y_index][x_index]`.
    Map2d { x: AxisPoints, y: AxisPoints, z: Vec<Vec<Raw>> },
    /// `w[z_index][y_index][x_index]`.
    Cuboid { x: AxisPoints, y: AxisPoints, z: AxisPoints, w: Vec<Vec<Vec<Raw>>> },
    ValBlk(Vec<Raw>),
}

/// Values read from a CHARACTERISTIC, as a value.
#[allow(inconsistent_fields)]
pub enum Values {
    Scalar(Raw),
    Ascii(Seq<char>),
    Curve { x: Points, y: Seq<Raw> },
    Map2d { x: Points, y: Points, z: Seq<Seq<Raw>> },
    Cuboid { x: Points, y: Points, z: Points, w: Seq<Seq<Seq<Raw>>> },
    ValBlk(Seq<Raw>),
}

/// Rows of numbers.
pub open spec fn rows_of(v: Seq<Vec<Raw>>) -> Seq<Seq<Raw>> {
    v.map_values(|r: Vec<Raw>| r@)
}

/// Slices of rows of numbers.
pub open spec fn slices_of(v: Seq<Vec<Vec<Raw>>>) -> Seq<Seq<Seq<Raw>>> {
    v.map_values(|s: Vec<Vec<Raw>>| rows_of(s@))
}

impl View for CharacteristicValues {
    type V = Values;

    open spec fn view(&self) -> Values {
        match self {
            CharacteristicValues::Scalar(raw) => Values::Scalar(*raw),
            CharacteristicValues::Ascii(s) => Values::Ascii(s@),
            CharacteristicValues::Curve { x, y } => Values::Curve { x: x@, y: y@ },
            CharacteristicValues::Map2d { x, y, z } => Values::Map2d {
                x: x@,
                y: y@,
                z: rows_of(z@),
            },
            CharacteristicValues::Cuboid { x, y, z, w } => Values::Cuboid {
                x: x@,
                y: y@,
                z: z@,
                w: slices_of(w@),
            },
            CharacteristicValues::ValBlk(v) => Values::ValBlk(v@),
        }
    }
}

/// A flat list as rows: where a column lies together the second index runs
/// fastest, else the first does.
pub open spec fn shaped(flat: Seq<Raw>, from: int, xn: int, yn: int, column_dir: bool) -> Seq<
    Seq<Raw>,
> {
    Seq::new(
        yn as nat,
        |yi: int|
            Seq::new(
                xn as nat,
                |xi: int|
                    if column_dir {
                        flat[from + yi + xi * yn]
                    } else {
                        flat[from + xi + yi * xn]
                    },
            ),
    )
}

/// A flat list as slices of rows, one slice after the other.
pub open spec fn stacked(flat: Seq<Raw>, xn: int, yn: int, zn: int, column_dir: bool) -> Seq<
    Seq<Seq<Raw>>,
> {
    Seq::new(zn as nat, |zi: int| shaped(flat, zi * (xn * yn), xn, yn, column_dir))
}

proof fn lemma_inside(a: int, an: int, b: int, bn: int)
    requires
        0 <= a < an,
        0 <= b < bn,
    ensures
        0 <= b * an,
        0 <= a + b * an < an * bn,
{
    assert(0 <= b * an) by (nonlinear_arith)
        requires
            0 <= b,
            0 < an,
    ;
    assert(a + b * an < an * bn) by (nonlinear_arith)
        requires
            0 <= a < an,
            0 <= b < bn,
    ;
}

fn shape(flat: &Vec<Raw>, from: usize, xn: usize, yn: usize, column_dir: bool) -> (r: Vec<Vec<Raw>>)
    requires
        from + xn * yn <= flat@.len() <= usize::MAX,
    ensures
        rows_of(r@) == shaped(flat@, from as int, xn as int, yn as int, column_dir),
{
    let ghost all = shaped(flat@, from as int, xn as int, yn as int, column_dir);
    let mut rows: Vec<Vec<Raw>> = Vec::new();
    let mut yi: usize = 0;
    assert(rows_of(rows@) == all.take(0));
    while yi < yn
        invariant
            yi <= yn,
            from + xn * yn <= flat@.len() <= usize::MAX,
            all == shaped(flat@, from as int, xn as int, yn as int, column_dir),
            rows_of(rows@) == all.take(yi as int),
        decreases yn - yi,
    {
        let mut row: Vec<Raw> = Vec::new();
        let mut xi: usize = 0;
        let ghost whole = all[yi as int];
        assert(row@ == whole.take(0));
        while xi < xn
            invariant
                xi <= xn,
                yi < yn,
                from + xn * yn <= flat@.len() <= usize::MAX,
                all == shaped(flat@, from as int, xn as int, yn as int, column_dir),
                whole == all[yi as int],
                row@ == whole.take(xi as int),
            decreases xn - xi,
        {
            proof {
                lemma_inside(yi as int, yn as int, xi as int, xn as int);
                lemma_inside(xi as int, xn as int, yi as int, yn as int);
                assert(yn * xn == xn * yn) by (nonlinear_arith);
            }
            let at: usize = if column_dir {
                from + (yi + xi * yn)
            } else {
                from + (xi + yi * xn)
            };
            row.push(flat[at]);
            assert(whole[xi as int] == flat@[at as int]);
            assert(whole.take(xi + 1) == whole.take(xi as int).push(flat@[at as int]));
            xi = xi + 1;
        }
        assert(whole.take(xn as int) == whole);
        let ghost before = rows@;
        rows.push(row);
        assert(rows_of(rows@) == rows_of(before).push(whole));
        assert(all.take(yi + 1) == all.take(yi as int).push(whole));
        yi = yi + 1;
    }
    assert(all.take(yn as int) == all);
    rows
}

fn stack(flat: &Vec<Raw>, xn: usize, yn: usize, zn: usize, column_dir: bool) -> (r: Vec<
    Vec<Vec<Raw>>,
>)
    requires
        xn * yn <= usize::MAX,
        zn * (xn * yn) <= flat@.len() <= usize::MAX,
    ensures
        slices_of(r@) == stacked(flat@, xn as int, yn as int, zn as int, column_dir),
{
    let ghost all = stacked(flat@, xn as int, yn as int, zn as int, column_dir);
    let size: usize = xn * yn;
    let mut slices: Vec<Vec<Vec<Raw>>> = Vec::new();
    let mut zi: usize = 0;
    let mut from: usize = 0;
    assert(slices_of(slices@) == all.take(0));
    while zi < zn
        invariant
            zi <= zn,
            size == xn * yn,
            from == zi * size,
            zn * size <= flat@.len() <= usize::MAX,
            all == stacked(flat@, xn as int, yn as int, zn as int, column_dir),
            slices_of(slices@) == all.take(zi as int),
        decreases zn - zi,
    {
        assert(zi * size + size <= zn * size) by (nonlinear_arith)
            requires
                zi < zn,
                size >= 0,
        ;
        assert((zi + 1) * size == zi * size + size) by (nonlinear_arith);
        let slice = shape(flat, from, xn, yn, column_dir);
        let ghost before = slices@;
        slices.push(slice);
        assert(all[zi as int] == rows_of(slice@));
        assert(slices_of(slices@) == slices_of(before).push(rows_of(slice@)));
        assert(all.take(zi + 1) == all.take(zi as int).push(rows_of(slice@)));
        from = from + size;
        zi = zi + 1;
    }
    assert(all.take(zn as int) == all);
    slices
}

/// The points of the axis of a curve, and where the values start.
pub open spec fn curve_axis(
    axis: AxisDescrValue,
    layout: RecordLayoutValue,
    a2l: A2lFileValue,
    data: Seq<u8>,
    base: int,
    map: Seq<(u32, usize, usize)>,
    cuts: Seq<Cut>,
) -> Result<(Points, int), Miss> {
    match axis.attribute {
        AxisAttribute::ComAxis => match shared_points(axis, a2l, data, map, cuts) {
            Ok(x) => Ok((x, base)),
            Err(m) => Err(m),
        },
        AxisAttribute::StdAxis => match inline(layout, data, base, axis.max_axis_points, 0, cuts) {
            Ok(w) => Ok(
                (Points::Stored { raws: w.x, method: axis.compu_method_ref }, w.values_at),
            ),
            Err(m) => Err(m),
        },
        AxisAttribute::FixAxis => match fixed_points(axis) {
            Ok(x) => Ok((x, base)),
            Err(m) => Err(m),
        },
        _ => Err(Miss::Unreadable),
    }
}

/// The points of a shared or fixed axis.
pub open spec fn plain_axis(
    axis: AxisDescrValue,
    a2l: A2lFileValue,
    data: Seq<u8>,
    map: Seq<(u32, usize, usize)>,
    cuts: Seq<Cut>,
) -> Result<Points, Miss> {
    match axis.attribute {
        AxisAttribute::ComAxis => shared_points(axis, a2l, data, map, cuts),
        AxisAttribute::FixAxis => fixed_points(axis),
        _ => Err(Miss::Unreadable),
    }
}

/// The points of the axes of a map, and where the values start.
pub open spec fn map_axes(
    x: AxisDescrValue,
    y: AxisDescrValue,
    layout: RecordLayoutValue,
    a2l: A2lFileValue,
    data: Seq<u8>,
    base: int,
    map: Seq<(u32, usize, usize)>,
    cuts: Seq<Cut>,
) -> Result<(Points, Points, int), Miss> {
    if x.attribute == AxisAttribute::ComAxis && y.attribute == AxisAttribute::ComAxis {
        let px = shared_points(x, a2l, data, map, cuts);
        let py = shared_points(y, a2l, data, map, cuts);
        if px is Err {
            Err(px->Err_0)
        } else if py is Err {
            Err(py->Err_0)
        } else {
            Ok((px->Ok_0, py->Ok_0, base))
        }
    } else if x.attribute == AxisAttribute::FixAxis && y.attribute == AxisAttribute::FixAxis {
        let px = fixed_points(x);
        let py = fixed_points(y);
        if px is Err {
            Err(px->Err_0)
        } else if py is Err {
            Err(py->Err_0)
        } else {
            Ok((px->Ok_0, py->Ok_0, base))
        }
    } else {
        match inline(layout, data, base, x.max_axis_points, y.max_axis_points, cuts) {
            Ok(w) => Ok(
                (
                    Points::Stored { raws: w.x, method: x.compu_method_ref },
                    Points::Stored { raws: w.y, method: y.compu_method_ref },
                    w.values_at,
                ),
            ),
            Err(m) => Err(m),
        }
    }
}

/// How many values a block of values has.
pub open spec fn block_size(
    ch: CharacteristicValue,
    layout: RecordLayoutValue,
    a2l: A2lFileValue,
    data: Seq<u8>,
    map: Seq<(u32, usize, usize)>,
    cuts: Seq<Cut>,
) -> Result<int, Miss> {
    if ch.axes.len() > 0 {
        let axis = ch.axes[0];
        match axis.attribute {
            AxisAttribute::FixAxis => match axis.fix_axis_par_list {
                Some(list) => Ok(list.len() as int),
                None => match axis.fix_axis_par_dist {
                    Some(dist) => Ok(dist.count as int),
                    None => Ok(axis.max_axis_points as int),
                },
            },
            AxisAttribute::ComAxis => match shared_points(axis, a2l, data, map, cuts) {
                Ok(x) => Ok(x.number()),
                Err(m) => Err(m),
            },
            _ => Ok(axis.max_axis_points as int),
        }
    } else {
        match layout.fix_no_axis_pts_x {
            Some(n) => Ok(n as int),
            None => Ok(1),
        }
    }
}

/// What comes before the first zero byte.
pub open spec fn before_zero(b: Seq<u8>) -> Seq<u8>
    decreases b.len(),
{
    if b.len() == 0 || b[0] == 0 {
        Seq::empty()
    } else {
        seq![b[0]] + before_zero(b.skip(1))
    }
}

/// A stored text, up to the first zero byte, each byte its own code point. Where
/// the layout gives a count, that many bytes have to be there; where it gives none,
/// at most 32 are looked at.
pub open spec fn stored_text(layout: RecordLayoutValue, data: Seq<u8>, base: int) -> Result<
    Seq<char>,
    Miss,
> {
    let n = match layout.fix_no_axis_pts_x {
        Some(n) => n as int,
        None => 32,
    };
    let end = if base + n <= data.len() {
        base + n
    } else {
        data.len() as int
    };
    if base >= data.len() || (layout.fix_no_axis_pts_x is Some && base + n > data.len()) {
        Err(Miss::Unreadable)
    } else {
        Ok(before_zero(data.subrange(base, end)).map_values(|x: u8| x as char))
    }
}

/// The values of a characteristic whose record lies at `base`.
pub open spec fn values_at(
    ch: CharacteristicValue,
    layout: RecordLayoutValue,
    a2l: A2lFileValue,
    data: Seq<u8>,
    base: int,
    map: Seq<(u32, usize, usize)>,
    cuts: Seq<Cut>,
) -> Result<Values, Miss> {
    match ch.char_type {
        CharacteristicType::Value => match layout.fnc_values {
            Some(f) if base + f.datatype.width() <= data.len() => Ok(
                Values::Scalar(raw_at(data, base, f.datatype)),
            ),
            _ => Err(Miss::Unreadable),
        },
        CharacteristicType::Curve => if ch.axes.len() < 1 || layout.fnc_values is None {
            Err(Miss::Unreadable)
        } else {
            match curve_axis(ch.axes[0], layout, a2l, data, base, map, cuts) {
                Err(m) => Err(m),
                Ok((x, at)) => match raws(data, at, layout.fnc_values->0.datatype, x.number()) {
                    Ok(y) => Ok(Values::Curve { x, y }),
                    Err(m) => Err(m),
                },
            }
        },
        CharacteristicType::Map2d => if ch.axes.len() < 2 || layout.fnc_values is None {
            Err(Miss::Unreadable)
        } else {
            let f = layout.fnc_values->0;
            match map_axes(ch.axes[0], ch.axes[1], layout, a2l, data, base, map, cuts) {
                Err(m) => Err(m),
                Ok((x, y, at)) => match raws(data, at, f.datatype, x.number() * y.number()) {
                    Ok(flat) => Ok(
                        Values::Map2d {
                            x,
                            y,
                            z: shaped(flat, 0, x.number(), y.number(), f.column_dir),
                        },
                    ),
                    Err(m) => Err(m),
                },
            }
        },
        CharacteristicType::ValBlk => match layout.fnc_values {
            None => Err(Miss::Unreadable),
            Some(f) => match block_size(ch, layout, a2l, data, map, cuts) {
                Err(m) => Err(m),
                Ok(n) => match raws(data, base, f.datatype, n) {
                    Ok(v) => Ok(Values::ValBlk(v)),
                    Err(m) => Err(m),
                },
            },
        },
        CharacteristicType::Ascii => match stored_text(layout, data, base) {
            Ok(s) => Ok(Values::Ascii(s)),
            Err(m) => Err(m),
        },
        CharacteristicType::Cuboid => if ch.axes.len() < 3 || layout.fnc_values is None {
            Err(Miss::Unreadable)
        } else {
            let f = layout.fnc_values->0;
            let x = plain_axis(ch.axes[0], a2l, data, map, cuts);
            let y = plain_axis(ch.axes[1], a2l, data, map, cuts);
            let z = plain_axis(ch.axes[2], a2l, data, map, cuts);
            if x is Err {
                Err(x->Err_0)
            } else if y is Err {
                Err(y->Err_0)
            } else if z is Err {
                Err(z->Err_0)
            } else {
                let (xn, yn, zn) = (x->Ok_0.number(), y->Ok_0.number(), z->Ok_0.number());
                match raws(data, base, f.datatype, zn * (xn * yn)) {
                    Ok(flat) => Ok(
                        Values::Cuboid {
                            x: x->Ok_0,
                            y: y->Ok_0,
                            z: z->Ok_0,
                            w: stacked(flat, xn, yn, zn, f.column_dir),
                        },
                    ),
                    Err(m) => Err(m),
                }
            }
        },
        _ => Err(Miss::Unreadable),
    }
}

/// The values of a characteristic.
pub open spec fn values_of(
    ch: CharacteristicValue,
    a2l: A2lFileValue,
    data: Seq<u8>,
    map: Seq<(u32, usize, usize)>,
    cuts: Seq<Cut>,
) -> Result<Values, Miss> {
    let layout = named(a2l.record_layouts, ch.deposit);
    let base = resolved(map, ch.address);
    if layout is None || base is None {
        Err(Miss::Unreadable)
    } else {
        values_at(ch, layout->0, a2l, data, base->0, map, cuts)
    }
}

fn resolve_axis_x(
    axis: &AxisDescr,
    layout: &RecordLayout,
    a2l: &A2lFile,
    data: &[u8],
    base: usize,
    map: &AddressMap,
    cuts: &Vec<Cut>,
) -> (r: Result<(AxisPoints, usize), Miss>)
    requires
        addressable(map@),
    ensures
        match r {
            Ok((p, at)) => curve_axis(axis@, layout@, a2l@, data@, base as int, map@, cuts@)
                == Ok::<(Points, int), Miss>((p@, at as int)),
            Err(m) => curve_axis(axis@, layout@, a2l@, data@, base as int, map@, cuts@) == Err::<
                (Points, int),
                Miss,
            >(m),
        },
{
    match axis.attribute {
        AxisAttribute::ComAxis => match read_com_axis(axis, a2l, data, map, cuts) {
            Ok(p) => Ok((p, base)),
            Err(m) => Err(m),
        },
        AxisAttribute::StdAxis => match read_inline(
            layout,
            data,
            base,
            axis.max_axis_points,
            0,
            cuts,
        ) {
            Ok(v) => Ok(
                (
                    AxisPoints::Stored {
                        raws: v.x_values,
                        method: copy_text(&axis.compu_method_ref),
                    },
                    v.values_at,
                ),
            ),
            Err(m) => Err(m),
        },
        AxisAttribute::FixAxis => match compute_fix_axis(axis) {
            Ok(p) => Ok((p, base)),
            Err(m) => Err(m),
        },
        _ => Err(Miss::Unreadable),
    }
}

fn resolve_axis_values(
    axis: &AxisDescr,
    a2l: &A2lFile,
    data: &[u8],
    map: &AddressMap,
    cuts: &Vec<Cut>,
) -> (r: Result<AxisPoints, Miss>)
    requires
        addressable(map@),
    ensures
        match r {
            Ok(p) => plain_axis(axis@, a2l@, data@, map@, cuts@) == Ok::<Points, Miss>(p@),
            Err(m) => plain_axis(axis@, a2l@, data@, map@, cuts@) == Err::<Points, Miss>(m),
        },
{
    match axis.attribute {
        AxisAttribute::ComAxis => read_com_axis(axis, a2l, data, map, cuts),
        AxisAttribute::FixAxis => compute_fix_axis(axis),
        _ => Err(Miss::Unreadable),
    }
}

fn resolve_map_axes(
    x: &AxisDescr,
    y: &AxisDescr,
    layout: &RecordLayout,
    a2l: &A2lFile,
    data: &[u8],
    base: usize,
    map: &AddressMap,
    cuts: &Vec<Cut>,
) -> (r: Result<(AxisPoints, AxisPoints, usize), Miss>)
    requires
        addressable(map@),
    ensures
        match r {
            Ok((px, py, at)) => map_axes(x@, y@, layout@, a2l@, data@, base as int, map@, cuts@)
                == Ok::<(Points, Points, int), Miss>((px@, py@, at as int)),
            Err(m) => map_axes(x@, y@, layout@, a2l@, data@, base as int, map@, cuts@) == Err::<
                (Points, Points, int),
                Miss,
            >(m),
        },
{
    if x.attribute == AxisAttribute::ComAxis && y.attribute == AxisAttribute::ComAxis {
        let px = match read_com_axis(x, a2l, data, map, cuts) {
            Ok(p) => p,
            Err(m) => {
                return Err(m);
            },
        };
        match read_com_axis(y, a2l, data, map, cuts) {
            Ok(py) => Ok((px, py, base)),
            Err(m) => Err(m),
        }
    } else if x.attribute == AxisAttribute::FixAxis && y.attribute == AxisAttribute::FixAxis {
        let px = match compute_fix_axis(x) {
            Ok(p) => p,
            Err(m) => {
                return Err(m);
            },
        };
        match compute_fix_axis(y) {
            Ok(py) => Ok((px, py, base)),
            Err(m) => Err(m),
        }
    } else {
        match read_inline(layout, data, base, x.max_axis_points, y.max_axis_points, cuts) {
            Ok(v) => Ok(
                (
                    AxisPoints::Stored { raws: v.x_values, method: copy_text(&x.compu_method_ref) },
                    AxisPoints::Stored { raws: v.y_values, method: copy_text(&y.compu_method_ref) },
                    v.values_at,
                ),
            ),
            Err(m) => Err(m),
        }
    }
}

fn product(a: usize, b: usize) -> (r: Option<usize>)
    ensures
        match r {
            Some(n) => n == a * b,
            None => a * b > usize::MAX,
        },
{
    a.checked_mul(b)
}

proof fn lemma_too_many(data: Seq<u8>, at: int, dt: DataType, n: int)
    requires
        data.len() <= usize::MAX,
        at >= 0,
        n > usize::MAX,
    ensures
        raws(data, at, dt, n) == Err::<Seq<Raw>, Miss>(Miss::Unreadable),
{
    let w = dt.width();
    assert(n * w >= n) by (nonlinear_arith)
        requires
            n > 0,
            w >= 1,
    ;
}

fn read_curve(
    ch: &Characteristic,
    f: FncValuesField,
    layout: &RecordLayout,
    a2l: &A2lFile,
    data: &[u8],
    base: usize,
    map: &AddressMap,
    cuts: &Vec<Cut>,
) -> (r: Result<CharacteristicValues, Miss>)
    requires
        addressable(map@),
        ch.char_type == CharacteristicType::Curve,
        layout.fnc_values == Some(f),
    ensures
        match r {
            Ok(v) => values_at(ch@, layout@, a2l@, data@, base as int, map@, cuts@) == Ok::<
                Values,
                Miss,
            >(v@),
            Err(m) => values_at(ch@, layout@, a2l@, data@, base as int, map@, cuts@) == Err::<
                Values,
                Miss,
            >(m),
        },
{
    if ch.axes.len() < 1 {
        return Err(Miss::Unreadable);
    }
    assert(ch@.axes[0] == ch.axes@[0]@);
    let (x, at) = match resolve_axis_x(&ch.axes[0], layout, a2l, data, base, map, cuts) {
        Ok(p) => p,
        Err(m) => {
            return Err(m);
        },
    };
    match read_raws(data, at, f.datatype, x.len()) {
        Ok(y) => Ok(CharacteristicValues::Curve { x, y }),
        Err(m) => Err(m),
    }
}

fn read_map(
    ch: &Characteristic,
    f: FncValuesField,
    layout: &RecordLayout,
    a2l: &A2lFile,
    data: &[u8],
    base: usize,
    map: &AddressMap,
    cuts: &Vec<Cut>,
) -> (r: Result<CharacteristicValues, Miss>)
    requires
        addressable(map@),
        ch.char_type == CharacteristicType::Map2d,
        layout.fnc_values == Some(f),
    ensures
        match r {
            Ok(v) => values_at(ch@, layout@, a2l@, data@, base as int, map@, cuts@) == Ok::<
                Values,
                Miss,
            >(v@),
            Err(m) => values_at(ch@, layout@, a2l@, data@, base as int, map@, cuts@) == Err::<
                Values,
                Miss,
            >(m),
        },
{
    let len: usize = data.len();
    if ch.axes.len() < 2 {
        return Err(Miss::Unreadable);
    }
    assert(ch@.axes[0] == ch.axes@[0]@);
    assert(ch@.axes[1] == ch.axes@[1]@);
    let (x, y, at) = match resolve_map_axes(
        &ch.axes[0],
        &ch.axes[1],
        layout,
        a2l,
        data,
        base,
        map,
        cuts,
    ) {
        Ok(p) => p,
        Err(m) => {
            return Err(m);
        },
    };
    let xn: usize = x.len();
    let yn: usize = y.len();
    assert(len == data@.len());
    let total: usize = match product(xn, yn) {
        Some(n) => n,
        None => {
            proof {
                lemma_too_many(data@, at as int, f.datatype, xn * yn);
            }
            return Err(Miss::Unreadable);
        },
    };
    match read_raws(data, at, f.datatype, total) {
        Ok(flat) => {
            let count: usize = flat.len();
            assert(count == total);
            let z = shape(&flat, 0, xn, yn, f.column_dir);
            Ok(CharacteristicValues::Map2d { x, y, z })
        },
        Err(m) => Err(m),
    }
}

fn read_cuboid(
    ch: &Characteristic,
    f: FncValuesField,
    layout: &RecordLayout,
    a2l: &A2lFile,
    data: &[u8],
    base: usize,
    map: &AddressMap,
    cuts: &Vec<Cut>,
) -> (r: Result<CharacteristicValues, Miss>)
    requires
        addressable(map@),
        ch.char_type == CharacteristicType::Cuboid,
        layout.fnc_values == Some(f),
    ensures
        match r {
            Ok(v) => values_at(ch@, layout@, a2l@, data@, base as int, map@, cuts@) == Ok::<
                Values,
                Miss,
            >(v@),
            Err(m) => values_at(ch@, layout@, a2l@, data@, base as int, map@, cuts@) == Err::<
                Values,
                Miss,
            >(m),
        },
{
    let len: usize = data.len();
    if ch.axes.len() < 3 {
        return Err(Miss::Unreadable);
    }
    assert(ch@.axes[0] == ch.axes@[0]@);
    assert(ch@.axes[1] == ch.axes@[1]@);
    assert(ch@.axes[2] == ch.axes@[2]@);
    let x = match resolve_axis_values(&ch.axes[0], a2l, data, map, cuts) {
        Ok(p) => p,
        Err(m) => {
            return Err(m);
        },
    };
    let y = match resolve_axis_values(&ch.axes[1], a2l, data, map, cuts) {
        Ok(p) => p,
        Err(m) => {
            return Err(m);
        },
    };
    let z = match resolve_axis_values(&ch.axes[2], a2l, data, map, cuts) {
        Ok(p) => p,
        Err(m) => {
            return Err(m);
        },
    };
    let xn: usize = x.len();
    let yn: usize = y.len();
    let zn: usize = z.len();
    assert(len == data@.len());
    if zn == 0 {
        assert(zn * (xn * yn) == 0) by (nonlinear_arith)
            requires
                zn == 0,
        ;
        let none: Vec<Vec<Vec<Raw>>> = Vec::new();
        assert(slices_of(none@) == stacked(Seq::empty(), xn as int, yn as int, 0, f.column_dir));
        return Ok(CharacteristicValues::Cuboid { x, y, z, w: none });
    }
    assert(zn * (xn * yn) >= xn * yn) by (nonlinear_arith)
        requires
            zn >= 1,
            xn >= 0,
            yn >= 0,
    ;
    let size: usize = match product(xn, yn) {
        Some(n) => n,
        None => {
            proof {
                lemma_too_many(data@, base as int, f.datatype, zn * (xn * yn));
            }
            return Err(Miss::Unreadable);
        },
    };
    let total: usize = match product(zn, size) {
        Some(n) => n,
        None => {
            proof {
                lemma_too_many(data@, base as int, f.datatype, zn * (xn * yn));
            }
            return Err(Miss::Unreadable);
        },
    };
    match read_raws(data, base, f.datatype, total) {
        Ok(flat) => {
            let count: usize = flat.len();
            assert(count == total);
            let w = stack(&flat, xn, yn, zn, f.column_dir);
            Ok(CharacteristicValues::Cuboid { x, y, z, w })
        },
        Err(m) => Err(m),
    }
}

fn count_block(
    ch: &Characteristic,
    layout: &RecordLayout,
    a2l: &A2lFile,
    data: &[u8],
    map: &AddressMap,
    cuts: &Vec<Cut>,
) -> (r: Result<usize, Miss>)
    requires
        addressable(map@),
    ensures
        match r {
            Ok(n) => block_size(ch@, layout@, a2l@, data@, map@, cuts@) == Ok::<int, Miss>(
                n as int,
            ),
            Err(m) => block_size(ch@, layout@, a2l@, data@, map@, cuts@) == Err::<int, Miss>(m),
        },
{
    if ch.axes.len() > 0 {
        assert(ch@.axes[0] == ch.axes@[0]@);
        let axis = &ch.axes[0];
        match axis.attribute {
            AxisAttribute::FixAxis => match &axis.fix_axis_par_list {
                Some(list) => Ok(list.len()),
                None => match &axis.fix_axis_par_dist {
                    Some(dist) => Ok(dist.count as usize),
                    None => Ok(axis.max_axis_points as usize),
                },
            },
            AxisAttribute::ComAxis => match read_com_axis(axis, a2l, data, map, cuts) {
                Ok(p) => Ok(p.len()),
                Err(m) => Err(m),
            },
            _ => Ok(axis.max_axis_points as usize),
        }
    } else {
        match layout.fix_no_axis_pts_x {
            Some(n) => Ok(n as usize),
            None => Ok(1),
        }
    }
}

fn read_ascii(layout: &RecordLayout, data: &[u8], base: usize) -> (r: Result<String, Miss>)
    ensures
        match r {
            Ok(s) => stored_text(layout@, data@, base as int) == Ok::<Seq<char>, Miss>(s@),
            Err(m) => stored_text(layout@, data@, base as int) == Err::<Seq<char>, Miss>(m),
        },
{
    let n: usize = match layout.fix_no_axis_pts_x {
        Some(n) => n as usize,
        None => 32,
    };
    if base >= data.len() {
        return Err(Miss::Unreadable);
    }
    let end: usize = if n <= data.len() - base {
        base + n
    } else if layout.fix_no_axis_pts_x.is_some() {
        return Err(Miss::Unreadable);
    } else {
        data.len()
    };
    let bytes = copy_range(data, base, end);
    let mut stop: usize = 0;
    assert(bytes@.skip(0) == bytes@);
    assert(bytes@.take(0) + before_zero(bytes@.skip(0)) == before_zero(bytes@));
    while stop < bytes.len() && bytes[stop] != 0
        invariant
            stop <= bytes@.len(),
            before_zero(bytes@) == bytes@.take(stop as int) + before_zero(
                bytes@.skip(stop as int),
            ),
        decreases bytes@.len() - stop,
    {
        let ghost rest = bytes@.skip(stop as int);
        assert(rest[0] == bytes@[stop as int]);
        assert(rest.skip(1) == bytes@.skip(stop + 1));
        assert(bytes@.take(stop as int) + (seq![rest[0]] + before_zero(rest.skip(1)))
            == bytes@.take(stop + 1) + before_zero(bytes@.skip(stop + 1)));
        stop = stop + 1;
    }
    assert(before_zero(bytes@) == bytes@.take(stop as int)) by {
        let rest = bytes@.skip(stop as int);
        assert(rest.len() == 0 || rest[0] == 0);
        assert(before_zero(rest) == Seq::<u8>::empty());
    }
    let kept = copy_range(bytes.as_slice(), 0, stop);
    assert(kept@ == bytes@.take(stop as int));
    Ok(latin_chars(kept.as_slice()))
}

/// Read a characteristic's values from binary data. `cuts` tells what stored
/// counts come to that are no small whole numbers.
pub fn read_characteristic(
    ch: &Characteristic,
    a2l: &A2lFile,
    data: &[u8],
    map: &AddressMap,
    cuts: &Vec<Cut>,
) -> (r: Result<CharacteristicValues, Miss>)
    requires
        addressable(map@),
    ensures
        match r {
            Ok(v) => values_of(ch@, a2l@, data@, map@, cuts@) == Ok::<Values, Miss>(v@),
            Err(m) => values_of(ch@, a2l@, data@, map@, cuts@) == Err::<Values, Miss>(m),
        },
{
    let layout = match a2l.record_layouts.get(ch.deposit.as_str()) {
        Some(l) => l,
        None => {
            return Err(Miss::Unreadable);
        },
    };
    let base: usize = match resolve(map, ch.address) {
        Some(b) => b,
        None => {
            return Err(Miss::Unreadable);
        },
    };
    if ch.char_type == CharacteristicType::Ascii {
        return match read_ascii(layout, data, base) {
            Ok(s) => Ok(CharacteristicValues::Ascii(s)),
            Err(m) => Err(m),
        };
    }
    let f = match layout.fnc_values {
        Some(f) => f,
        None => {
            return Err(Miss::Unreadable);
        },
    };
    match ch.char_type {
        CharacteristicType::Value => match read_raw(data, base, f.datatype) {
            Some(raw) => Ok(CharacteristicValues::Scalar(raw)),
            None => Err(Miss::Unreadable),
        },
        CharacteristicType::Curve => read_curve(ch, f, layout, a2l, data, base, map, cuts),
        CharacteristicType::Map2d => read_map(ch, f, layout, a2l, data, base, map, cuts),
        CharacteristicType::Cuboid => read_cuboid(ch, f, layout, a2l, data, base, map, cuts),
        CharacteristicType::ValBlk => {
            let n: usize = match count_block(ch, layout, a2l, data, map, cuts) {
                Ok(n) => n,
                Err(m) => {
                    return Err(m);
                },
            };
            match read_raws(data, base, f.datatype, n) {
                Ok(v) => Ok(CharacteristicValues::ValBlk(v)),
                Err(m) => Err(m),
            }
        },
        _ => Err(Miss::Unreadable),
    }
}

/// The conversion that applies to numbers under a name.
pub fn conversion_for<'a>(method: &str, a2l: &'a A2lFile) -> (r: Option<&'a Conversion>)
    ensures
        ({
            let found = if method@ == "NO_COMPU_METHOD"@ {
                None
            } else {
                named(a2l@.compu_methods, method@)
            };
            match r {
                Some(c) => found matches Some(m) && m.conversion == c@,
                None => found is None,
            }
        }),
{
    if str_eq(method, "NO_COMPU_METHOD") {
        return None;
    }
    match a2l.compu_methods.get(method) {
        Some(m) => Some(&m.conversion),
        None => None,
    }
}

/// An address that lies in a block of the map, the first that holds it, is found
/// at the same distance from the start of the block in the file.
pub proof fn law_addresses_keep_their_distance(
    map: Seq<(u32, usize, usize)>,
    addr: u32,
    i: int,
)
    requires
        0 <= i < map.len(),
        distance(addr, map[i].0) < map[i].2 as int % 0x1_0000_0000,
        forall|j: int|
            0 <= j < i ==> distance(addr, (#[trigger] map[j]).0) >= map[j].2 as int % 0x1_0000_0000,
    ensures
        resolved(map, addr) == Some(map[i].1 + distance(addr, map[i].0)),
    decreases i,
{
    if i > 0 {
        let rest = map.skip(1);
        assert forall|j: int| 0 <= j < i - 1 implies distance(addr, (#[trigger] rest[j]).0)
            >= rest[j].2 as int % 0x1_0000_0000 by {
            assert(rest[j] == map[j + 1]);
        }
        assert(rest[i - 1] == map[i]);
        assert(distance(addr, map[0].0) >= map[0].2 as int % 0x1_0000_0000);
        law_addresses_keep_their_distance(rest, addr, i - 1);
    }
}

/// The parts of a record come in the order of their positions.
pub proof fn law_parts_are_in_order(layout: RecordLayoutValue, i: int, j: int)
    requires
        0 <= i < j < parts_of(layout).len(),
    ensures
        parts_of(layout)[i].position <= parts_of(layout)[j].position,
{
    let e = Seq::<Part>::empty();
    let a = placed_field(e, layout.no_axis_pts_x, Tag::CountX);
    let b = placed_field(a, layout.axis_pts_x, Tag::PointsX);
    let c = placed_field(b, layout.no_axis_pts_y, Tag::CountY);
    let d = placed_field(c, layout.axis_pts_y, Tag::PointsY);
    lemma_placed_field_in_order(e, layout.no_axis_pts_x, Tag::CountX);
    lemma_placed_field_in_order(a, layout.axis_pts_x, Tag::PointsX);
    lemma_placed_field_in_order(b, layout.no_axis_pts_y, Tag::CountY);
    lemma_placed_field_in_order(c, layout.axis_pts_y, Tag::PointsY);
    if let Some(f) = layout.fnc_values {
        lemma_placed_in_order(
            d,
            Part { position: f.position, tag: Tag::Values, datatype: f.datatype },
        );
    }
}

spec fn in_order(parts: Seq<Part>) -> bool {
    forall|i: int, j: int| 0 <= i < j < parts.len() ==> parts[i].position <= parts[j].position
}

proof fn lemma_placed_field_in_order(
    parts: Seq<Part>,
    field: Option<super::types::LayoutField>,
    tag: Tag,
)
    requires
        in_order(parts),
    ensures
        in_order(placed_field(parts, field, tag)),
{
    if let Some(f) = field {
        lemma_placed_in_order(parts, Part { position: f.position, tag, datatype: f.datatype });
    }
}

proof fn lemma_placed_in_order(parts: Seq<Part>, part: Part)
    requires
        in_order(parts),
    ensures
        in_order(placed(parts, part)),
        forall|i: int|
            0 <= i < placed(parts, part).len() ==> (#[trigger] placed(parts, part)[i]).position
                <= part.position || (parts.len() > 0 && placed(parts, part)[i].position
                <= parts.last().position),
    decreases parts.len(),
{
    if parts.len() > 0 && parts.last().position > part.position {
        let head = parts.drop_last();
        lemma_placed_in_order(head, part);
        let r = placed(head, part);
        assert forall|i: int| 0 <= i < r.len() implies (#[trigger] r[i]).position
            <= parts.last().position by {
            if head.len() > 0 {
                assert(head.last() == parts[parts.len() - 2]);
            }
        }
    } else if parts.len() > 0 {
        let r = parts.push(part);
        assert forall|i: int, j: int| 0 <= i < j < r.len() implies r[i].position
            <= r[j].position by {
            if j == parts.len() {
                if i < parts.len() - 1 {
                    assert(parts[i].position <= parts[parts.len() - 1].position);
                }
            }
        }
        assert forall|i: int| 0 <= i < r.len() implies (#[trigger] r[i]).position
            <= part.position by {
            if i < parts.len() - 1 {
                assert(parts[i].position <= parts[parts.len() - 1].position);
            }
        }
    }
}

} // verus!
