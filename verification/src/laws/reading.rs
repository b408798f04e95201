//! What is read from a firmware image by a description.

use vstd::prelude::*;

use crate::a2l::reader::{
    counted, curve_axis, fixed_points, map_axes, parts_of, placed, plain_axis, raw_at, raws, resolved,
    shared_points, step, stored_text, values_of, walked, Cut, Miss, Part, Points, Raw, Tag, Values,
    Walk,
};
use crate::a2l::table::named;
use crate::a2l::types::{
    A2lFileValue, AxisDescrValue, CharacteristicValue, DataType, RecordLayoutValue,
};

verus! {

/// The number that `n` bytes from `at` on make, least significant first.
pub open spec fn digits(data: Seq<u8>, at: int, n: nat) -> int
    decreases n,
{
    if n == 0 {
        0
    } else {
        data[at] + 256 * digits(data, at + 1, (n - 1) as nat)
    }
}

/// Whether `v` is what `n` bytes from `at` on stand for as a number with a sign: the same
/// modulo `modulus`, and in the lower or upper half around zero.
pub open spec fn signed_digits(data: Seq<u8>, at: int, n: nat, modulus: int, v: int) -> bool {
    &&& (v == digits(data, at, n) || v == digits(data, at, n) - modulus)
    &&& -modulus <= 2 * v < modulus
}

/// Numbers are stored least significant byte first, in as many bytes as their type says;
/// those with a sign in two's complement.
pub proof fn law_numbers_are_little_endian(data: Seq<u8>, at: int)
    ensures
        raw_at(data, at, DataType::UByte) == Raw::Whole(digits(data, at, 1) as i128),
        raw_at(data, at, DataType::UWord) == Raw::Whole(digits(data, at, 2) as i128),
        raw_at(data, at, DataType::ULong) == Raw::Whole(digits(data, at, 4) as i128),
        raw_at(data, at, DataType::AUint64) == Raw::Whole(digits(data, at, 8) as i128),
        raw_at(data, at, DataType::SByte) matches Raw::Whole(v) && signed_digits(
            data,
            at,
            1,
            0x100,
            v as int,
        ),
        raw_at(data, at, DataType::SWord) matches Raw::Whole(v) && signed_digits(
            data,
            at,
            2,
            0x1_0000,
            v as int,
        ),
        raw_at(data, at, DataType::SLong) matches Raw::Whole(v) && signed_digits(
            data,
            at,
            4,
            0x1_0000_0000,
            v as int,
        ),
        raw_at(data, at, DataType::AInt64) matches Raw::Whole(v) && signed_digits(
            data,
            at,
            8,
            0x1_0000_0000_0000_0000,
            v as int,
        ),
        raw_at(data, at, DataType::Float32Ieee) == Raw::Single(digits(data, at, 4) as u32),
        raw_at(data, at, DataType::Float64Ieee) == Raw::Double(digits(data, at, 8) as u64),
        DataType::UByte.width() == 1,
        DataType::SByte.width() == 1,
        DataType::UWord.width() == 2,
        DataType::SWord.width() == 2,
        DataType::ULong.width() == 4,
        DataType::SLong.width() == 4,
        DataType::Float32Ieee.width() == 4,
        DataType::AUint64.width() == 8,
        DataType::AInt64.width() == 8,
        DataType::Float64Ieee.width() == 8,
{
    reveal_with_fuel(digits, 9);
}

/// An address of a block of memory is found in the file as far behind the start of the
/// block as it is in memory; of two blocks that hold it, in the first.
pub proof fn law_addresses_are_found(map: Seq<(u32, usize, usize)>, addr: u32, i: int)
    requires
        0 <= i < map.len(),
        map[i].0 <= addr < map[i].0 + map[i].2,
        forall|j: int|
            0 <= j < map.len() ==> (#[trigger] map[j]).0 + map[j].2 <= 0x1_0000_0000 && map[j].2
                < 0x1_0000_0000,
        forall|j: int| 0 <= j < i ==> !((#[trigger] map[j]).0 <= addr < map[j].0 + map[j].2),
    ensures
        resolved(map, addr) == Some(map[i].1 + (addr - map[i].0)),
    decreases i,
{
    if i > 0 {
        let rest = map.skip(1);
        assert(rest[i - 1] == map[i]);
        assert forall|j: int| 0 <= j < rest.len() implies (#[trigger] rest[j]).0 + rest[j].2
            <= 0x1_0000_0000 && rest[j].2 < 0x1_0000_0000 by {
            assert(rest[j] == map[j + 1]);
        }
        assert forall|j: int| 0 <= j < i - 1 implies !((#[trigger] rest[j]).0 <= addr < rest[j].0
            + rest[j].2) by {
            assert(rest[j] == map[j + 1]);
        }
        assert(!(map[0].0 <= addr < map[0].0 + map[0].2));
        law_addresses_are_found(rest, addr, i - 1);
    }
}

/// An address that no block of memory holds is not found.
pub proof fn law_other_addresses_are_not_found(map: Seq<(u32, usize, usize)>, addr: u32)
    requires
        forall|j: int|
            0 <= j < map.len() ==> (#[trigger] map[j]).0 + map[j].2 <= 0x1_0000_0000 && map[j].2
                < 0x1_0000_0000,
        forall|j: int|
            0 <= j < map.len() ==> !((#[trigger] map[j]).0 <= addr < map[j].0 + map[j].2),
    ensures
        resolved(map, addr) is None,
    decreases map.len(),
{
    if map.len() > 0 {
        let rest = map.skip(1);
        assert forall|j: int| 0 <= j < rest.len() implies (#[trigger] rest[j]).0 + rest[j].2
            <= 0x1_0000_0000 && rest[j].2 < 0x1_0000_0000 && !(rest[j].0 <= addr < rest[j].0
            + rest[j].2) by {
            assert(rest[j] == map[j + 1]);
        }
        assert(!(map[0].0 <= addr < map[0].0 + map[0].2));
        law_other_addresses_are_not_found(rest, addr);
    }
}

/// Whether `list` is what is stored from `at` on, one number after the other.
pub open spec fn stored_from(data: Seq<u8>, at: int, dt: DataType, list: Seq<Raw>) -> bool {
    forall|i: int|
        0 <= i < list.len() ==> #[trigger] list[i] == raw_at(data, at + i * dt.width(), dt)
}

proof fn lemma_raws(data: Seq<u8>, at: int, dt: DataType, n: int)
    requires
        raws(data, at, dt, n) is Ok,
        n >= 0,
    ensures
        raws(data, at, dt, n)->Ok_0.len() == n,
        stored_from(data, at, dt, raws(data, at, dt, n)->Ok_0),
        n > 0 ==> at + n * dt.width() <= data.len(),
{
}

/// The layout of the record of a characteristic.
pub open spec fn layout_of(ch: CharacteristicValue, a2l: A2lFileValue) -> RecordLayoutValue {
    named(a2l.record_layouts, ch.deposit)->0
}

/// Whether both axes of a map lie elsewhere, so that its values start its record.
pub open spec fn bare(ch: CharacteristicValue) -> bool {
    ||| ch.axes[0].attribute is ComAxis && ch.axes[1].attribute is ComAxis
    ||| ch.axes[0].attribute is FixAxis && ch.axes[1].attribute is FixAxis
}

/// Where the values of a map start: at its address, or behind the axes that it brings.
pub open spec fn map_start(
    ch: CharacteristicValue,
    a2l: A2lFileValue,
    data: Seq<u8>,
    map: Seq<(u32, usize, usize)>,
    cuts: Seq<Cut>,
) -> int {
    let base = resolved(map, ch.address)->0;
    if bare(ch) {
        base
    } else {
        crate::a2l::reader::inline(
            layout_of(ch, a2l),
            data,
            base,
            ch.axes[0].max_axis_points,
            ch.axes[1].max_axis_points,
            cuts,
        )->Ok_0.values_at
    }
}

/// A map of xn by yn points has yn rows of xn cells. Where its columns lie together in the
/// firmware, the cell at (x, y) is the number stored as number y + x * yn of its values,
/// else it is number x + y * xn.
pub proof fn law_the_cells_of_a_map(
    ch: CharacteristicValue,
    a2l: A2lFileValue,
    data: Seq<u8>,
    map: Seq<(u32, usize, usize)>,
    cuts: Seq<Cut>,
    xi: int,
    yi: int,
)
    requires
        values_of(ch, a2l, data, map, cuts) is Ok,
        ch.char_type is Map2d,
    ensures
        ({
            let f = layout_of(ch, a2l).fnc_values->0;
            let start = map_start(ch, a2l, data, map, cuts);
            values_of(ch, a2l, data, map, cuts)->Ok_0 matches Values::Map2d { x, y, z } && {
                let xn = x.number();
                let yn = y.number();
                &&& z.len() == yn
                &&& 0 <= yi < yn ==> z[yi].len() == xn
                &&& 0 <= yi < yn && 0 <= xi < xn && f.column_dir ==> z[yi][xi] == raw_at(
                    data,
                    start + (yi + xi * yn) * f.datatype.width(),
                    f.datatype,
                )
                &&& 0 <= yi < yn && 0 <= xi < xn && !f.column_dir ==> z[yi][xi] == raw_at(
                    data,
                    start + (xi + yi * xn) * f.datatype.width(),
                    f.datatype,
                )
            }
        }),
{
    let layout = layout_of(ch, a2l);
    let base = resolved(map, ch.address)->0;
    let f = layout.fnc_values->0;
    let (x, y, at) = map_axes(ch.axes[0], ch.axes[1], layout, a2l, data, base, map, cuts)->Ok_0;
    let xn = x.number();
    let yn = y.number();
    assert(xn >= 0 && yn >= 0);
    assert(xn * yn >= 0) by (nonlinear_arith)
        requires
            xn >= 0,
            yn >= 0,
    ;
    lemma_raws(data, at, f.datatype, xn * yn);
    if 0 <= xi < xn && 0 <= yi < yn {
        lemma_cell_inside(xi, xn, yi, yn);
        lemma_cell_inside(yi, yn, xi, xn);
        assert(yn * xn == xn * yn) by (nonlinear_arith);
    }
}

proof fn lemma_cell_inside(a: int, an: int, b: int, bn: int)
    requires
        0 <= a < an,
        0 <= b < bn,
    ensures
        0 <= a + b * an < an * bn,
        0 <= b * an,
{
    assert(0 <= b * an) by (nonlinear_arith)
        requires
            0 <= b,
            0 < an,
    ;
    assert(a + b * an < an * bn) by (nonlinear_arith)
        requires
            0 <= a < an,
            0 <= b < bn,
    ;
}

/// A cuboid is stored as one map after the other, each of xn by yn cells.
pub proof fn law_the_cells_of_a_cuboid(
    ch: CharacteristicValue,
    a2l: A2lFileValue,
    data: Seq<u8>,
    map: Seq<(u32, usize, usize)>,
    cuts: Seq<Cut>,
    xi: int,
    yi: int,
    zi: int,
)
    requires
        values_of(ch, a2l, data, map, cuts) is Ok,
        ch.char_type is Cuboid,
    ensures
        ({
            let f = layout_of(ch, a2l).fnc_values->0;
            let start = resolved(map, ch.address)->0;
            values_of(ch, a2l, data, map, cuts)->Ok_0 matches Values::Cuboid { x, y, z, w } && {
                let xn = x.number();
                let yn = y.number();
                let zn = z.number();
                &&& w.len() == zn
                &&& 0 <= zi < zn ==> w[zi].len() == yn
                &&& 0 <= zi < zn && 0 <= yi < yn ==> w[zi][yi].len() == xn
                &&& 0 <= zi < zn && 0 <= yi < yn && 0 <= xi < xn ==> w[zi][yi][xi] == raw_at(
                    data,
                    start + (zi * (xn * yn) + (if f.column_dir {
                        yi + xi * yn
                    } else {
                        xi + yi * xn
                    })) * f.datatype.width(),
                    f.datatype,
                )
            }
        }),
{
    let layout = layout_of(ch, a2l);
    let base = resolved(map, ch.address)->0;
    let f = layout.fnc_values->0;
    let x = plain_axis(ch.axes[0], a2l, data, map, cuts)->Ok_0;
    let y = plain_axis(ch.axes[1], a2l, data, map, cuts)->Ok_0;
    let z = plain_axis(ch.axes[2], a2l, data, map, cuts)->Ok_0;
    let (xn, yn, zn) = (x.number(), y.number(), z.number());
    assert(xn >= 0 && yn >= 0 && zn >= 0);
    assert(zn * (xn * yn) >= 0) by (nonlinear_arith)
        requires
            xn >= 0,
            yn >= 0,
            zn >= 0,
    ;
    lemma_raws(data, base, f.datatype, zn * (xn * yn));
    if 0 <= xi < xn && 0 <= yi < yn && 0 <= zi < zn {
        lemma_cell_inside(xi, xn, yi, yn);
        lemma_cell_inside(yi, yn, xi, xn);
        assert(yn * xn == xn * yn) by (nonlinear_arith);
        let inner = if f.column_dir {
            yi + xi * yn
        } else {
            xi + yi * xn
        };
        lemma_cell_inside(inner, xn * yn, zi, zn);
        assert((xn * yn) * zn == zn * (xn * yn)) by (nonlinear_arith);
    }
}

/// The values of a curve are stored one after the other, one for every point.
pub proof fn law_the_values_of_a_curve(
    ch: CharacteristicValue,
    a2l: A2lFileValue,
    data: Seq<u8>,
    map: Seq<(u32, usize, usize)>,
    cuts: Seq<Cut>,
)
    requires
        values_of(ch, a2l, data, map, cuts) is Ok,
        ch.char_type is Curve,
    ensures
        ({
            let layout = layout_of(ch, a2l);
            let base = resolved(map, ch.address)->0;
            let start = if ch.axes[0].attribute is StdAxis {
                crate::a2l::reader::inline(layout, data, base, ch.axes[0].max_axis_points, 0, cuts)->Ok_0.values_at
            } else {
                base
            };
            values_of(ch, a2l, data, map, cuts)->Ok_0 matches Values::Curve { x, y } && y.len()
                == x.number() && stored_from(data, start, layout.fnc_values->0.datatype, y)
        }),
{
    let layout = layout_of(ch, a2l);
    let base = resolved(map, ch.address)->0;
    let (x, at) = curve_axis(ch.axes[0], layout, a2l, data, base, map, cuts)->Ok_0;
    lemma_raws(data, at, layout.fnc_values->0.datatype, x.number());
}

/// A single value is stored at its address, and a block of values from its address on.
pub proof fn law_values_lie_at_their_address(
    ch: CharacteristicValue,
    a2l: A2lFileValue,
    data: Seq<u8>,
    map: Seq<(u32, usize, usize)>,
    cuts: Seq<Cut>,
)
    requires
        values_of(ch, a2l, data, map, cuts) is Ok,
        ch.char_type is Value || ch.char_type is ValBlk,
    ensures
        ({
            let dt = layout_of(ch, a2l).fnc_values->0.datatype;
            let base = resolved(map, ch.address)->0;
            match values_of(ch, a2l, data, map, cuts)->Ok_0 {
                Values::Scalar(raw) => ch.char_type is Value && raw == raw_at(data, base, dt)
                    && base + dt.width() <= data.len(),
                Values::ValBlk(list) => {
                    &&& ch.char_type is ValBlk
                    &&& stored_from(data, base, dt, list)
                    &&& ch.axes.len() == 0 ==> list.len() == (match layout_of(
                        ch,
                        a2l,
                    ).fix_no_axis_pts_x {
                        Some(n) => n as int,
                        None => 1,
                    })
                    &&& ch.axes.len() > 0 && ch.axes[0].attribute is FixAxis
                        && ch.axes[0].fix_axis_par_list is None
                        && ch.axes[0].fix_axis_par_dist is None ==> list.len()
                        == ch.axes[0].max_axis_points
                    &&& ch.axes.len() > 0 && ch.axes[0].attribute is FixAxis ==> (
                    ch.axes[0].fix_axis_par_list matches Some(points) ==> list.len()
                        == points.len())
                    &&& ch.axes.len() > 0 && ch.axes[0].attribute is ComAxis ==> list.len()
                        == shared_points(ch.axes[0], a2l, data, map, cuts)->Ok_0.number()
                },
                _ => false,
            }
        }),
{
    let layout = layout_of(ch, a2l);
    let base = resolved(map, ch.address)->0;
    if ch.char_type is ValBlk {
        let n = crate::a2l::reader::block_size(ch, layout, a2l, data, map, cuts)->Ok_0;
        assert(n >= 0);
        lemma_raws(data, base, layout.fnc_values->0.datatype, n);
    }
}

proof fn lemma_before_zero(b: Seq<u8>)
    ensures
        ({
            let t = crate::a2l::reader::before_zero(b);
            &&& t.len() <= b.len()
            &&& t.len() < b.len() ==> b[t.len() as int] == 0
            &&& forall|i: int| 0 <= i < t.len() ==> #[trigger] t[i] == b[i] && b[i] != 0
        }),
    decreases b.len(),
{
    if b.len() > 0 && b[0] != 0 {
        let rest = b.skip(1);
        lemma_before_zero(rest);
        let t = crate::a2l::reader::before_zero(b);
        let u = crate::a2l::reader::before_zero(rest);
        assert forall|i: int| 0 <= i < t.len() implies #[trigger] t[i] == b[i] && b[i] != 0 by {
            if i > 0 {
                assert(t[i] == u[i - 1]);
                assert(rest[i - 1] == b[i]);
            }
        }
        if t.len() < b.len() {
            assert(rest[u.len() as int] == b[t.len() as int]);
        }
    }
}

/// A text is the bytes from its address on, each its own code point, up to the first that
/// is zero, or as many as its layout counts, or 32.
pub proof fn law_a_text_ends_before_a_zero(
    ch: CharacteristicValue,
    a2l: A2lFileValue,
    data: Seq<u8>,
    map: Seq<(u32, usize, usize)>,
    cuts: Seq<Cut>,
)
    requires
        values_of(ch, a2l, data, map, cuts) is Ok,
        ch.char_type is Ascii,
    ensures
        ({
            let base = resolved(map, ch.address)->0;
            let most = match layout_of(ch, a2l).fix_no_axis_pts_x {
                Some(n) => n as int,
                None => 32,
            };
            values_of(ch, a2l, data, map, cuts)->Ok_0 matches Values::Ascii(text) && {
                &&& text.len() <= most
                &&& base + text.len() <= data.len()
                &&& forall|i: int|
                    0 <= i < text.len() ==> #[trigger] text[i] as int == data[base + i] as int
                        && data[base + i] != 0
                &&& text.len() < most && base + text.len() < data.len() ==> data[base
                    + text.len()] == 0
            }
        }),
{
    let base = resolved(map, ch.address)->0;
    lemma_found_not_negative(map, ch.address);
    let most = match layout_of(ch, a2l).fix_no_axis_pts_x {
        Some(n) => n as int,
        None => 32,
    };
    let end = if base + most <= data.len() {
        base + most
    } else {
        data.len() as int
    };
    let part = data.subrange(base, end);
    lemma_before_zero(part);
    let kept = crate::a2l::reader::before_zero(part);
    let text = kept.map_values(|x: u8| x as char);
    assert(stored_text(layout_of(ch, a2l), data, base) == Ok::<Seq<char>, Miss>(text));
    assert forall|i: int| 0 <= i < text.len() implies #[trigger] text[i] as int == data[base
        + i] as int && data[base + i] != 0 by {
        assert(kept[i] == part[i]);
    }
}

proof fn lemma_found_not_negative(map: Seq<(u32, usize, usize)>, addr: u32)
    ensures
        resolved(map, addr) matches Some(at) ==> at >= 0,
    decreases map.len(),
{
    if map.len() > 0 {
        lemma_found_not_negative(map.skip(1), addr);
    }
}

/// A whole number that is stored where a count is wanted is that count; one below zero is
/// none.
pub proof fn law_whole_counts_count(cuts: Seq<Cut>, n: i128)
    requires
        n <= 0x20_0000_0000_0000,
        n <= usize::MAX,
    ensures
        counted(cuts, Raw::Whole(n)) == Ok::<int, Miss>(
            if n > 0 {
                n as int
            } else {
                0
            },
        ),
{
}

/// A shared axis: where its layout has a count, the count is stored first and the points
/// behind it; else the points are as many as the description says at most.
pub proof fn law_the_points_of_a_shared_axis(
    axis: AxisDescrValue,
    a2l: A2lFileValue,
    data: Seq<u8>,
    map: Seq<(u32, usize, usize)>,
    cuts: Seq<Cut>,
)
    requires
        shared_points(axis, a2l, data, map, cuts) is Ok,
    ensures
        ({
            let pts = named(a2l.axis_pts, axis.axis_pts_ref->0)->0;
            let layout = named(a2l.record_layouts, pts.deposit)->0;
            let base = resolved(map, pts.address)->0;
            let dt = match layout.axis_pts_x {
                Some(f) => f.datatype,
                None => layout.fnc_values->0.datatype,
            };
            shared_points(axis, a2l, data, map, cuts)->Ok_0 matches Points::Stored { raws, method }
                && method == pts.compu_method_ref && match layout.no_axis_pts_x {
                Some(f) => counted(cuts, raw_at(data, base, f.datatype)) == Ok::<int, Miss>(
                    raws.len() as int,
                ) && stored_from(data, base + f.datatype.width(), dt, raws),
                None => raws.len() == pts.max_axis_points && stored_from(data, base, dt, raws),
            }
        }),
{
    let pts = named(a2l.axis_pts, axis.axis_pts_ref->0)->0;
    let layout = named(a2l.record_layouts, pts.deposit)->0;
    let base = resolved(map, pts.address)->0;
    let (n, at) = crate::a2l::reader::stored_count(
        layout,
        pts.max_axis_points,
        data,
        base,
        cuts,
    )->Ok_0;
    let dt = crate::a2l::reader::points_type(layout)->0;
    if n >= 0 {
        lemma_raws(data, at, dt, n);
    }
    lemma_counted(cuts, match layout.no_axis_pts_x {
        Some(f) => raw_at(data, base, f.datatype),
        None => Raw::Whole(0),
    });
}

proof fn lemma_counted(cuts: Seq<Cut>, raw: Raw)
    ensures
        counted(cuts, raw) matches Ok(n) ==> n >= 0,
{
    lemma_cut(cuts, raw);
}

proof fn lemma_cut(cuts: Seq<Cut>, raw: Raw)
    ensures
        crate::a2l::reader::cut_of(cuts, raw) matches Some(n) ==> n >= 0,
    decreases cuts.len(),
{
    if cuts.len() > 0 {
        lemma_cut(cuts.skip(1), raw);
    }
}

/// A fixed axis has the points that are listed for it, or else those at even distances.
pub proof fn law_the_points_of_a_fixed_axis(axis: AxisDescrValue)
    ensures
        axis.fix_axis_par_list matches Some(list) ==> fixed_points(axis) == Ok::<Points, Miss>(
            Points::Listed(list),
        ),
        axis.fix_axis_par_list is None ==> (axis.fix_axis_par_dist matches Some(dist)
            ==> fixed_points(axis) == Ok::<Points, Miss>(Points::Spaced(dist))),
        axis.fix_axis_par_list is None && axis.fix_axis_par_dist is None ==> fixed_points(
            axis,
        ) is Err,
{
}

/// Whether the fields of a layout that brings its axes come in the common order: the
/// counts, the points, the values.
pub open spec fn in_common_order(layout: RecordLayoutValue) -> bool {
    &&& layout.no_axis_pts_x matches Some(nx)
    &&& layout.axis_pts_x matches Some(px)
    &&& layout.no_axis_pts_y matches Some(ny)
    &&& layout.axis_pts_y matches Some(py)
    &&& layout.fnc_values matches Some(v)
    &&& nx.position < ny.position < px.position < py.position < v.position
}

/// A record that brings its axes with it, in the common order: the number of points of X,
/// that of Y, the points of X, the points of Y, and the values, each right behind the one
/// before.
#[verifier::rlimit(40)]
pub proof fn law_a_record_brings_its_axes(
    layout: RecordLayoutValue,
    data: Seq<u8>,
    base: int,
    default_x: u16,
    default_y: u16,
    cuts: Seq<Cut>,
)
    requires
        in_common_order(layout),
        crate::a2l::reader::inline(layout, data, base, default_x, default_y, cuts) is Ok,
    ensures
        ({
            let w = crate::a2l::reader::inline(layout, data, base, default_x, default_y, cuts)->Ok_0;
            let nx = layout.no_axis_pts_x->0.datatype;
            let ny = layout.no_axis_pts_y->0.datatype;
            let px = layout.axis_pts_x->0.datatype;
            let py = layout.axis_pts_y->0.datatype;
            let points = base + nx.width() + ny.width();
            &&& counted(cuts, raw_at(data, base, nx)) == Ok::<int, Miss>(w.x.len() as int)
            &&& counted(cuts, raw_at(data, base + nx.width(), ny)) == Ok::<int, Miss>(
                w.y.len() as int,
            )
            &&& stored_from(data, points, px, w.x)
            &&& stored_from(data, points + w.x.len() * px.width(), py, w.y)
            &&& w.values_at == points + w.x.len() * px.width() + w.y.len() * py.width()
        }),
{
    let nx = layout.no_axis_pts_x->0;
    let px = layout.axis_pts_x->0;
    let ny = layout.no_axis_pts_y->0;
    let py = layout.axis_pts_y->0;
    let v = layout.fnc_values->0;
    let a = Part { position: nx.position, tag: Tag::CountX, datatype: nx.datatype };
    let b = Part { position: ny.position, tag: Tag::CountY, datatype: ny.datatype };
    let c = Part { position: px.position, tag: Tag::PointsX, datatype: px.datatype };
    let d = Part { position: py.position, tag: Tag::PointsY, datatype: py.datatype };
    let e = Part { position: v.position, tag: Tag::Values, datatype: v.datatype };
    let parts = seq![a, b, c, d, e];
    assert(parts_of(layout) == parts) by {
        assert(placed(Seq::empty(), a) == seq![a]);
        assert(placed(seq![a], c) == seq![a, c]);
        assert(seq![a, c].drop_last() == seq![a]);
        reveal_with_fuel(placed, 3);
        assert(placed(seq![a], b) == seq![a, b]);
        assert(placed(seq![a, c], b) == seq![a, b].push(c));
        assert(seq![a, b].push(c) == seq![a, b, c]);
        assert(placed(seq![a, b, c], d) == seq![a, b, c, d]);
        assert(placed(seq![a, b, c, d], e) == parts);
    }
    let w0 = Walk {
        at: base,
        x_count: default_x as int,
        y_count: default_y as int,
        x: Seq::empty(),
        y: Seq::empty(),
        values_at: base,
    };
    assert(parts.skip(1) == seq![b, c, d, e]);
    assert(seq![b, c, d, e].skip(1) == seq![c, d, e]);
    assert(seq![c, d, e].skip(1) == seq![d, e]);
    assert(seq![d, e].skip(1) == seq![e]);
    assert(seq![e].skip(1) == Seq::<Part>::empty());
    reveal_with_fuel(walked, 6);
    let w1 = step(data, w0, a, cuts)->Ok_0;
    let w2 = step(data, w1, b, cuts)->Ok_0;
    lemma_counted(cuts, raw_at(data, base, nx.datatype));
    lemma_counted(cuts, raw_at(data, base + nx.datatype.width(), ny.datatype));
    lemma_raws(data, w2.at, px.datatype, w2.x_count);
    let w3 = step(data, w2, c, cuts)->Ok_0;
    lemma_raws(data, w3.at, py.datatype, w3.y_count);
}

/// The same for a curve: the number of points, the points, the values.
pub proof fn law_a_curve_brings_its_axis(
    layout: RecordLayoutValue,
    data: Seq<u8>,
    base: int,
    default_x: u16,
    default_y: u16,
    cuts: Seq<Cut>,
)
    requires
        layout.no_axis_pts_y is None,
        layout.axis_pts_y is None,
        layout.axis_pts_x matches Some(px) && layout.fnc_values matches Some(v) && px.position
            < v.position && (layout.no_axis_pts_x matches Some(nx) ==> nx.position < px.position),
        crate::a2l::reader::inline(layout, data, base, default_x, default_y, cuts) is Ok,
    ensures
        ({
            let w = crate::a2l::reader::inline(layout, data, base, default_x, default_y, cuts)->Ok_0;
            let px = layout.axis_pts_x->0.datatype;
            let points = match layout.no_axis_pts_x {
                Some(nx) => base + nx.datatype.width(),
                None => base,
            };
            &&& layout.no_axis_pts_x matches Some(nx) ==> counted(
                cuts,
                raw_at(data, base, nx.datatype),
            ) == Ok::<int, Miss>(w.x.len() as int)
            &&& layout.no_axis_pts_x is None ==> w.x.len() == default_x
            &&& stored_from(data, points, px, w.x)
            &&& w.values_at == points + w.x.len() * px.width()
        }),
{
    let px = layout.axis_pts_x->0;
    let v = layout.fnc_values->0;
    let c = Part { position: px.position, tag: Tag::PointsX, datatype: px.datatype };
    let e = Part { position: v.position, tag: Tag::Values, datatype: v.datatype };
    let w0 = Walk {
        at: base,
        x_count: default_x as int,
        y_count: default_y as int,
        x: Seq::empty(),
        y: Seq::empty(),
        values_at: base,
    };
    reveal_with_fuel(walked, 4);
    assert(seq![c, e].skip(1) == seq![e]);
    assert(seq![e].skip(1) == Seq::<Part>::empty());
    match layout.no_axis_pts_x {
        Some(nx) => {
            let a = Part { position: nx.position, tag: Tag::CountX, datatype: nx.datatype };
            let parts = seq![a, c, e];
            assert(parts_of(layout) == parts) by {
                assert(placed(Seq::empty(), a) == seq![a]);
                assert(placed(seq![a], c) == seq![a, c]);
                assert(placed(seq![a, c], e) == parts);
            }
            assert(parts.skip(1) == seq![c, e]);
            let w1 = step(data, w0, a, cuts)->Ok_0;
            lemma_counted(cuts, raw_at(data, base, nx.datatype));
            lemma_raws(data, w1.at, px.datatype, w1.x_count);
        },
        None => {
            let parts = seq![c, e];
            assert(parts_of(layout) == parts) by {
                assert(placed(Seq::empty(), c) == seq![c]);
                assert(placed(seq![c], e) == parts);
            }
            lemma_raws(data, w0.at, px.datatype, w0.x_count);
        },
    }
}

/// A characteristic can be read only with its layout and its address; a single value then
/// wherever it lies inside the image, and a text wherever it begins inside, and ends inside
/// where its layout counts it.
pub proof fn law_when_values_can_be_read(
    ch: CharacteristicValue,
    a2l: A2lFileValue,
    data: Seq<u8>,
    map: Seq<(u32, usize, usize)>,
    cuts: Seq<Cut>,
)
    ensures
        ({
            let r = values_of(ch, a2l, data, map, cuts);
            let layout = layout_of(ch, a2l);
            let base = resolved(map, ch.address)->0;
            let known = named(a2l.record_layouts, ch.deposit) is Some && resolved(
                map,
                ch.address,
            ) is Some;
            &&& !known ==> r == Err::<Values, Miss>(Miss::Unreadable)
            &&& known && ch.char_type is Value ==> (r is Ok <==> (layout.fnc_values matches Some(f)
                && base + f.datatype.width() <= data.len()))
            &&& known && ch.char_type is Ascii ==> (r is Ok <==> base < data.len() && (
            layout.fix_no_axis_pts_x matches Some(n) ==> base + n <= data.len()))
            &&& known && ch.char_type is ValBlk && ch.axes.len() == 0 ==> {
                let n = match layout.fix_no_axis_pts_x {
                    Some(n) => n as int,
                    None => 1,
                };
                r is Ok <==> (layout.fnc_values matches Some(f) && (n == 0 || base + n
                    * f.datatype.width() <= data.len()))
            }
        }),
{
}

/// The points of a curve, and when it can be read: a shared axis is that of its reference,
/// a fixed one that of its description, and one that it brings is read by its own
/// conversion. One value for every point has to lie inside the image.
pub proof fn law_the_axis_of_a_curve(
    ch: CharacteristicValue,
    a2l: A2lFileValue,
    data: Seq<u8>,
    map: Seq<(u32, usize, usize)>,
    cuts: Seq<Cut>,
)
    requires
        named(a2l.record_layouts, ch.deposit) is Some,
        resolved(map, ch.address) is Some,
        layout_of(ch, a2l).fnc_values is Some,
        ch.char_type is Curve,
        ch.axes.len() >= 1,
    ensures
        ({
            let r = values_of(ch, a2l, data, map, cuts);
            let layout = layout_of(ch, a2l);
            let base = resolved(map, ch.address)->0;
            let dt = layout.fnc_values->0.datatype;
            let axis = ch.axes[0];
            let room = |x: Points, at: int|
                x.number() == 0 || at + x.number() * dt.width() <= data.len();
            let shared = shared_points(axis, a2l, data, map, cuts);
            let own = crate::a2l::reader::inline(
                layout,
                data,
                base,
                axis.max_axis_points,
                0,
                cuts,
            );
            &&& axis.attribute is ComAxis ==> {
                &&& r is Ok <==> shared is Ok && room(shared->Ok_0, base)
                &&& r matches Ok(v) ==> v->Curve_x == shared->Ok_0
            }
            &&& axis.attribute is FixAxis ==> {
                &&& r is Ok <==> fixed_points(axis) is Ok && room(fixed_points(axis)->Ok_0, base)
                &&& r matches Ok(v) ==> v->Curve_x == fixed_points(axis)->Ok_0
            }
            &&& axis.attribute is StdAxis ==> {
                let x = Points::Stored { raws: own->Ok_0.x, method: axis.compu_method_ref };
                &&& r is Ok <==> own is Ok && room(x, own->Ok_0.values_at)
                &&& r matches Ok(v) ==> v->Curve_x == x
            }
        }),
{
}

/// The points of a map, and when it can be read: both axes shared, both fixed, or both
/// brought along, each by its own conversion. The values of all points have to lie inside
/// the image.
pub proof fn law_the_axes_of_a_map(
    ch: CharacteristicValue,
    a2l: A2lFileValue,
    data: Seq<u8>,
    map: Seq<(u32, usize, usize)>,
    cuts: Seq<Cut>,
)
    requires
        named(a2l.record_layouts, ch.deposit) is Some,
        resolved(map, ch.address) is Some,
        layout_of(ch, a2l).fnc_values is Some,
        ch.char_type is Map2d,
        ch.axes.len() >= 2,
    ensures
        ({
            let r = values_of(ch, a2l, data, map, cuts);
            let layout = layout_of(ch, a2l);
            let base = resolved(map, ch.address)->0;
            let dt = layout.fnc_values->0.datatype;
            let (a, b) = (ch.axes[0], ch.axes[1]);
            let room = |x: Points, y: Points, at: int|
                x.number() * y.number() <= 0 || at + (x.number() * y.number()) * dt.width()
                    <= data.len();
            let is_read = |x: Result<Points, Miss>, y: Result<Points, Miss>, at: int|
                {
                    &&& r is Ok <==> x is Ok && y is Ok && room(x->Ok_0, y->Ok_0, at)
                    &&& r matches Ok(v) ==> v->Map2d_x == x->Ok_0 && v->Map2d_y == y->Ok_0
                };
            let own = crate::a2l::reader::inline(
                layout,
                data,
                base,
                a.max_axis_points,
                b.max_axis_points,
                cuts,
            );
            &&& a.attribute is ComAxis && b.attribute is ComAxis ==> is_read(
                shared_points(a, a2l, data, map, cuts),
                shared_points(b, a2l, data, map, cuts),
                base,
            )
            &&& a.attribute is FixAxis && b.attribute is FixAxis ==> is_read(
                fixed_points(a),
                fixed_points(b),
                base,
            )
            &&& !bare(ch) ==> {
                let x = Points::Stored { raws: own->Ok_0.x, method: a.compu_method_ref };
                let y = Points::Stored { raws: own->Ok_0.y, method: b.compu_method_ref };
                &&& r is Ok <==> own is Ok && room(x, y, own->Ok_0.values_at)
                &&& r matches Ok(v) ==> v->Map2d_x == x && v->Map2d_y == y
            }
        }),
{
}

/// The points of an axis that lies outside of the record: a shared or a fixed one.
pub open spec fn lies_outside(
    axis: AxisDescrValue,
    a2l: A2lFileValue,
    data: Seq<u8>,
    map: Seq<(u32, usize, usize)>,
    cuts: Seq<Cut>,
) -> Option<Points> {
    if axis.attribute is ComAxis && shared_points(axis, a2l, data, map, cuts) is Ok {
        Some(shared_points(axis, a2l, data, map, cuts)->Ok_0)
    } else if axis.attribute is FixAxis && fixed_points(axis) is Ok {
        Some(fixed_points(axis)->Ok_0)
    } else {
        None
    }
}

/// The points of a cuboid, and when it can be read: three axes that lie outside of its
/// record, in their order.
pub proof fn law_the_axes_of_a_cuboid(
    ch: CharacteristicValue,
    a2l: A2lFileValue,
    data: Seq<u8>,
    map: Seq<(u32, usize, usize)>,
    cuts: Seq<Cut>,
)
    requires
        named(a2l.record_layouts, ch.deposit) is Some,
        resolved(map, ch.address) is Some,
        layout_of(ch, a2l).fnc_values is Some,
        ch.char_type is Cuboid,
        ch.axes.len() >= 3,
    ensures
        ({
            let r = values_of(ch, a2l, data, map, cuts);
            let base = resolved(map, ch.address)->0;
            let dt = layout_of(ch, a2l).fnc_values->0.datatype;
            let x = lies_outside(ch.axes[0], a2l, data, map, cuts);
            let y = lies_outside(ch.axes[1], a2l, data, map, cuts);
            let z = lies_outside(ch.axes[2], a2l, data, map, cuts);
            let n = z->0.number() * (x->0.number() * y->0.number());
            &&& r is Ok <==> x is Some && y is Some && z is Some && (n <= 0 || base + n
                * dt.width() <= data.len())
            &&& r matches Ok(v) ==> v->Cuboid_x == x->0 && v->Cuboid_y == y->0 && v->Cuboid_z
                == z->0
        }),
{
}

/// Characteristics with too few axes, without values in their layout, or of more than three
/// dimensions, are not read.
pub proof fn law_what_is_not_read(
    ch: CharacteristicValue,
    a2l: A2lFileValue,
    data: Seq<u8>,
    map: Seq<(u32, usize, usize)>,
    cuts: Seq<Cut>,
)
    requires
        ({
            ||| ch.char_type is Curve && ch.axes.len() == 0
            ||| ch.char_type is Map2d && ch.axes.len() <= 1
            ||| ch.char_type is Cuboid && ch.axes.len() <= 2
            ||| ch.char_type is Cube4
            ||| ch.char_type is Cube5
            ||| !(ch.char_type is Ascii) && layout_of(ch, a2l).fnc_values is None
        }),
    ensures
        values_of(ch, a2l, data, map, cuts) is Err,
{
}

/// How many values a block with an axis has: as many as the axis has points.
pub proof fn law_the_size_of_a_block_of_values(
    ch: CharacteristicValue,
    a2l: A2lFileValue,
    data: Seq<u8>,
    map: Seq<(u32, usize, usize)>,
    cuts: Seq<Cut>,
)
    requires
        values_of(ch, a2l, data, map, cuts) is Ok,
        ch.char_type is ValBlk,
        ch.axes.len() > 0,
    ensures
        ({
            let n = values_of(ch, a2l, data, map, cuts)->Ok_0->ValBlk_0.len();
            let axis = ch.axes[0];
            &&& axis.attribute is FixAxis && axis.fix_axis_par_list is None ==> (
            axis.fix_axis_par_dist matches Some(dist) ==> n == dist.count)
            &&& !(axis.attribute is FixAxis) && !(axis.attribute is ComAxis) ==> n
                == axis.max_axis_points
        }),
{
}

/// What is not a whole number that can be counted exactly counts as it was cut, and is
/// asked for where it was not cut yet.
pub proof fn law_other_counts_are_asked_for(cuts: Seq<Cut>, raw: Raw, count: usize)
    requires
        raw matches Raw::Whole(n) ==> n > 0x20_0000_0000_0000,
    ensures
        counted(seq![Cut { raw, count }] + cuts, raw) == Ok::<int, Miss>(count as int),
        (forall|i: int| 0 <= i < cuts.len() ==> (#[trigger] cuts[i]).raw != raw) ==> counted(
            cuts,
            raw,
        ) == Err::<int, Miss>(Miss::Uncounted(raw)),
{
    let more = seq![Cut { raw, count }] + cuts;
    assert(more[0].raw == raw);
    if forall|i: int| 0 <= i < cuts.len() ==> (#[trigger] cuts[i]).raw != raw {
        lemma_no_cut(cuts, raw);
    }
}

proof fn lemma_no_cut(cuts: Seq<Cut>, raw: Raw)
    requires
        forall|i: int| 0 <= i < cuts.len() ==> (#[trigger] cuts[i]).raw != raw,
    ensures
        crate::a2l::reader::cut_of(cuts, raw) is None,
    decreases cuts.len(),
{
    if cuts.len() > 0 {
        assert(cuts[0].raw != raw);
        let rest = cuts.skip(1);
        assert forall|i: int| 0 <= i < rest.len() implies (#[trigger] rest[i]).raw != raw by {
            assert(rest[i] == cuts[i + 1]);
        }
        lemma_no_cut(rest, raw);
    }
}

/// The fields of a record are read by their positions; fields of one position keep their
/// order.
pub proof fn law_fields_are_read_by_position(parts: Seq<Part>, part: Part, k: int)
    requires
        0 <= k <= parts.len(),
        forall|i: int| 0 <= i < k ==> (#[trigger] parts[i]).position <= part.position,
        forall|i: int| k <= i < parts.len() ==> (#[trigger] parts[i]).position > part.position,
    ensures
        placed(parts, part) == parts.take(k) + seq![part] + parts.skip(k),
    decreases parts.len(),
{
    if parts.len() == 0 {
        assert(placed(parts, part) =~= parts.take(k) + seq![part] + parts.skip(k));
    } else if k == parts.len() {
        assert(parts[parts.len() - 1].position <= part.position);
        assert(placed(parts, part) =~= parts.take(k) + seq![part] + parts.skip(k));
    } else {
        let shorter = parts.drop_last();
        assert(parts[parts.len() - 1].position > part.position);
        assert forall|i: int| 0 <= i < k implies (#[trigger] shorter[i]).position
            <= part.position by {
            assert(shorter[i] == parts[i]);
        }
        assert forall|i: int| k <= i < shorter.len() implies (#[trigger] shorter[i]).position
            > part.position by {
            assert(shorter[i] == parts[i]);
        }
        law_fields_are_read_by_position(shorter, part, k);
        assert(placed(parts, part) =~= parts.take(k) + seq![part] + parts.skip(k));
    }
}

} // verus!
