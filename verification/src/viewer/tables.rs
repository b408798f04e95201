//! The tables and captions values are shown in.
//!
//! The numbers themselves are drawn by the caller: a table says of every cell
//! which number stands in it and which one it is compared with.

use vstd::prelude::*;

use super::panels::{grid, unit_for, unit_of, CurveLayout, CurveValue};
use crate::a2l::table::named;
use crate::a2l::types::{
    label_of, views, A2lFile, A2lFileValue, Characteristic, CharacteristicValue, ConversionValue,
};
use crate::text::{dec, push_dec, str_eq, strings};

verus! {

/// A cell of a table.
#[derive(Debug, Clone, Copy, PartialEq, Eq, Structural)]
pub enum Cell {
    /// The empty cell where the headers meet.
    Corner,
    /// A point of the horizontal axis.
    X(usize),
    /// A point of the vertical axis.
    Y(usize),
    /// A value, shaded by how large it is.
    Value { row: usize, col: usize },
    /// A point of the horizontal axis, marked where it differs from the one at
    /// the same place of the old axis, or where that has none.
    XAgainst { index: usize, old: bool },
    /// A point of the vertical axis, marked in the same way.
    YAgainst { index: usize, old: bool },
    /// A value, shaded by how far it is from the old one at the same place, or
    /// from zero where there is none.
    Against { row: usize, col: usize, old: bool },
}

/// How the headers of a table are drawn.
#[derive(Debug, Clone, Copy, PartialEq, Eq, Structural)]
pub enum Headers {
    Plain,
    /// Against old axes of so many points.
    Against { x_old: usize, y_old: usize },
}

/// A point of the horizontal axis.
pub open spec fn x_cell(h: Headers, i: int) -> Cell {
    match h {
        Headers::Plain => Cell::X(i as usize),
        Headers::Against { x_old, .. } => Cell::XAgainst { index: i as usize, old: i < x_old },
    }
}

/// A point of the vertical axis.
pub open spec fn y_cell(h: Headers, i: int) -> Cell {
    match h {
        Headers::Plain => Cell::Y(i as usize),
        Headers::Against { y_old, .. } => Cell::YAgainst { index: i as usize, old: i < y_old },
    }
}

/// A value. `old` holds the lengths of the old rows, where there are any to compare
/// with.
pub open spec fn value_cell(old: Option<Seq<usize>>, row: int, col: int) -> Cell {
    match old {
        None => Cell::Value { row: row as usize, col: col as usize },
        Some(lengths) => Cell::Against {
            row: row as usize,
            col: col as usize,
            old: row < lengths.len() && col < lengths[row],
        },
    }
}

/// The header of a table with `nx` columns.
pub open spec fn header_row(h: Headers, nx: int) -> Seq<Cell> {
    seq![Cell::Corner] + Seq::new(nx as nat, |i: int| x_cell(h, i))
}

/// A row of a table: the point of the vertical axis, and the values of that row
/// where there are any.
pub open spec fn body_row(
    h: Headers,
    lengths: Seq<usize>,
    old: Option<Seq<usize>>,
    row: int,
) -> Seq<Cell> {
    seq![y_cell(h, row)] + Seq::new(
        if row < lengths.len() {
            lengths[row] as nat
        } else {
            0
        },
        |col: int| value_cell(old, row, col),
    )
}

/// A table of `nx` columns and `ny` rows, whose rows hold as many values as
/// `lengths` tells.
pub open spec fn table_of(
    h: Headers,
    nx: int,
    ny: int,
    lengths: Seq<usize>,
    old: Option<Seq<usize>>,
) -> Seq<Seq<Cell>> {
    seq![header_row(h, nx)] + Seq::new(ny as nat, |row: int| body_row(h, lengths, old, row))
}

/// The rows of a table.
pub open spec fn cells(v: Seq<Vec<Cell>>) -> Seq<Seq<Cell>> {
    v.map_values(|r: Vec<Cell>| r@)
}

/// The old rows as a value.
pub open spec fn old_rows(old: Option<&Vec<usize>>) -> Option<Seq<usize>> {
    match old {
        Some(v) => Some(v@),
        None => None,
    }
}

fn make_header(h: Headers, nx: usize) -> (v: Vec<Cell>)
    ensures
        v@ == header_row(h, nx as int),
{
    let mut v: Vec<Cell> = Vec::new();
    v.push(Cell::Corner);
    let mut i: usize = 0;
    assert(v@ == header_row(h, 0));
    while i < nx
        invariant
            i <= nx,
            v@ == header_row(h, i as int),
        decreases nx - i,
    {
        let cell = match h {
            Headers::Plain => Cell::X(i),
            Headers::Against { x_old, .. } => Cell::XAgainst { index: i, old: i < x_old },
        };
        v.push(cell);
        assert(v@ == header_row(h, i + 1));
        i = i + 1;
    }
    v
}

fn make_row(h: Headers, lengths: &Vec<usize>, old: Option<&Vec<usize>>, row: usize) -> (v: Vec<Cell>)
    ensures
        v@ == body_row(h, lengths@, old_rows(old), row as int),
{
    let mut v: Vec<Cell> = Vec::new();
    let head = match h {
        Headers::Plain => Cell::Y(row),
        Headers::Against { y_old, .. } => Cell::YAgainst { index: row, old: row < y_old },
    };
    v.push(head);
    let n: usize = if row < lengths.len() {
        lengths[row]
    } else {
        0
    };
    let ghost tail = |col: int| value_cell(old_rows(old), row as int, col);
    let mut col: usize = 0;
    assert(v@ == seq![y_cell(h, row as int)] + Seq::new(0, tail));
    while col < n
        invariant
            col <= n,
            tail == (|col: int| value_cell(old_rows(old), row as int, col)),
            v@ == seq![y_cell(h, row as int)] + Seq::new(col as nat, tail),
        decreases n - col,
    {
        let cell = match old {
            None => Cell::Value { row, col },
            Some(lengths) => Cell::Against {
                row,
                col,
                old: row < lengths.len() && col < lengths[row],
            },
        };
        v.push(cell);
        assert(cell == tail(col as int));
        assert(v@ == seq![y_cell(h, row as int)] + Seq::new((col + 1) as nat, tail));
        col = col + 1;
    }
    assert(v@ == body_row(h, lengths@, old_rows(old), row as int));
    v
}

fn make_table(
    h: Headers,
    nx: usize,
    ny: usize,
    lengths: &Vec<usize>,
    old: Option<&Vec<usize>>,
) -> (v: Vec<Vec<Cell>>)
    ensures
        cells(v@) == table_of(h, nx as int, ny as int, lengths@, old_rows(old)),
{
    let mut v: Vec<Vec<Cell>> = Vec::new();
    v.push(make_header(h, nx));
    let mut row: usize = 0;
    assert(cells(v@) == table_of(h, nx as int, 0, lengths@, old_rows(old)));
    while row < ny
        invariant
            row <= ny,
            cells(v@) == table_of(h, nx as int, row as int, lengths@, old_rows(old)),
        decreases ny - row,
    {
        let r = make_row(h, lengths, old, row);
        let ghost before = cells(v@);
        v.push(r);
        assert(cells(v@) == before.push(r@));
        assert(cells(v@) == table_of(h, nx as int, row + 1, lengths@, old_rows(old)));
        row = row + 1;
    }
    v
}

/// The table of a map: the points of the axes round the grid of values.
pub fn map_table(nx: usize, ny: usize, lengths: &Vec<usize>) -> (v: Vec<Vec<Cell>>)
    ensures
        cells(v@) == table_of(Headers::Plain, nx as int, ny as int, lengths@, None),
{
    make_table(Headers::Plain, nx, ny, lengths, None)
}

/// The table of a map whose axes are marked where they differ from the old ones.
/// The old axes may have other lengths; only points at the same place are
/// compared.
pub fn map_table_with_axis_diff(
    x_old: usize,
    y_old: usize,
    nx: usize,
    ny: usize,
    lengths: &Vec<usize>,
) -> (v: Vec<Vec<Cell>>)
    ensures
        cells(v@) == table_of(
            Headers::Against { x_old, y_old },
            nx as int,
            ny as int,
            lengths@,
            None,
        ),
{
    make_table(Headers::Against { x_old, y_old }, nx, ny, lengths, None)
}

/// The table of a map whose axes and values are marked by how far they are from
/// the old ones. `lengths1` and `lengths2` are the lengths of the old and the new
/// rows.
pub fn diff_map_table_with_axis_diff(
    x_old: usize,
    y_old: usize,
    nx: usize,
    ny: usize,
    lengths1: &Vec<usize>,
    lengths2: &Vec<usize>,
) -> (v: Vec<Vec<Cell>>)
    ensures
        cells(v@) == table_of(
            Headers::Against { x_old, y_old },
            nx as int,
            ny as int,
            lengths2@,
            Some(lengths1@),
        ),
{
    make_table(Headers::Against { x_old, y_old }, nx, ny, lengths2, Some(lengths1))
}

/// Every value of a map that has a row on the vertical axis stands in its table,
/// in its row, one place to the right of its column.
pub proof fn law_every_value_has_its_cell(
    h: Headers,
    nx: int,
    ny: int,
    lengths: Seq<usize>,
    old: Option<Seq<usize>>,
    row: int,
    col: int,
)
    requires
        0 <= row < ny,
        row < lengths.len(),
        0 <= col < lengths[row],
    ensures
        table_of(h, nx, ny, lengths, old)[row + 1][col + 1] == value_cell(old, row, col),
        table_of(h, nx, ny, lengths, old)[row + 1][0] == y_cell(h, row),
{
    assert(table_of(h, nx, ny, lengths, old)[row + 1] == body_row(h, lengths, old, row));
}

/// A whole number in decimal, with a minus sign where it is negative.
pub open spec fn signed(n: int) -> Seq<char> {
    if n < 0 {
        "-"@ + dec((-n) as nat)
    } else {
        dec(n as nat)
    }
}

fn push_signed(s: &mut String, n: i64)
    ensures
        final(s)@ == old(s)@ + signed(n as int),
{
    if n < 0 {
        s.push_str("-");
        push_dec(s, (-(n + 1)) as u64 + 1);
        assert(s@ == old(s)@ + ("-"@ + dec((-n) as nat)));
    } else {
        push_dec(s, n as u64);
    }
}

/// The verbal label of a value under a conversion.
pub open spec fn verbal(a2l: A2lFileValue, method: Seq<char>, raw: i64) -> Option<Seq<char>> {
    match named(a2l.compu_methods, method) {
        Some(m) => match m.conversion {
            ConversionValue::TabVerb { tab_ref } => match named(a2l.compu_vtabs, tab_ref) {
                Some(table) => label_of(table.entries, raw),
                None => None,
            },
            _ => None,
        },
        None => None,
    }
}

fn verbal_label<'a>(a2l: &'a A2lFile, method: &str, raw: i64) -> (r: Option<&'a str>)
    ensures
        match r {
            Some(s) => verbal(a2l@, method@, raw) == Some(s@),
            None => verbal(a2l@, method@, raw) is None,
        },
{
    match a2l.compu_methods.get(method) {
        Some(m) => m.conversion.to_verbal(raw, &a2l.compu_vtabs),
        None => None,
    }
}

/// What is shown of a single value: its verbal label and the whole number behind
/// it, else the number as text and its unit.
pub open spec fn scalar_text(a2l: A2lFileValue, method: Seq<char>, raw: i64, number: Seq<char>) -> Seq<
    char,
> {
    match verbal(a2l, method, raw) {
        Some(label) => label + " (raw: "@ + signed(raw as int) + ")"@,
        None => number + " "@ + unit_of(a2l, method),
    }
}

/// What is shown of a single value. `raw` is its whole part, `number` the value as
/// text.
pub fn view_scalar(raw: i64, number: &str, ch: &Characteristic, a2l: &A2lFile) -> (s: String)
    ensures
        s@ == scalar_text(a2l@, ch.compu_method_ref@, raw, number@),
{
    match verbal_label(a2l, ch.compu_method_ref.as_str(), raw) {
        Some(label) => {
            let mut s: String = label.to_owned();
            s.push_str(" (raw: ");
            push_signed(&mut s, raw);
            s.push_str(")");
            s
        },
        None => {
            let mut s: String = number.to_owned();
            s.push_str(" ");
            s.push_str(unit_for(a2l, ch.compu_method_ref.as_str()).as_str());
            s
        },
    }
}

/// What is shown of a text.
pub fn view_ascii(text: &str) -> (s: String)
    ensures
        s@ == "\""@ + text@ + "\""@,
{
    let mut s: String = "\"".to_owned();
    s.push_str(text);
    s.push_str("\"");
    s
}

/// A label with a unit behind it.
pub open spec fn with_unit(label: Seq<char>, unit: Seq<char>) -> Seq<char> {
    label + " ("@ + unit + ")"@
}

fn labelled(label: &str, unit: &str) -> (s: String)
    ensures
        s@ == with_unit(label@, unit@),
{
    let mut s: String = label.to_owned();
    s.push_str(" (");
    s.push_str(unit);
    s.push_str(")");
    s
}

/// The unit of an axis.
pub open spec fn axis_unit(a2l: A2lFileValue, ch: CharacteristicValue, axis: int) -> Seq<char> {
    if axis < ch.axes.len() {
        unit_of(a2l, ch.axes[axis].compu_method_ref)
    } else {
        Seq::empty()
    }
}

/// The unit of an axis.
pub fn unit_of_axis(a2l: &A2lFile, ch: &Characteristic, axis: usize) -> (s: String)
    ensures
        s@ == axis_unit(a2l@, ch@, axis as int),
{
    assert(ch@.axes == views(ch.axes@));
    if axis < ch.axes.len() {
        assert(ch@.axes[axis as int] == ch.axes@[axis as int]@);
        unit_for(a2l, ch.axes[axis].compu_method_ref.as_str())
    } else {
        let s = String::new();
        assert(s@ == Seq::<char>::empty());
        s
    }
}

/// The column titles of a curve.
pub open spec fn curve_titles(axis: Seq<char>, value: Seq<char>) -> Seq<Seq<char>> {
    seq![with_unit("X"@, axis), with_unit("Y"@, value)]
}

/// The column titles of a curve, and how many rows it has.
pub fn view_curve(nx: usize, ny: usize, ch: &Characteristic, a2l: &A2lFile) -> (r: (
    Vec<String>,
    usize,
))
    ensures
        strings(r.0@) == curve_titles(
            axis_unit(a2l@, ch@, 0),
            unit_of(a2l@, ch.compu_method_ref@),
        ),
        r.1 == (if nx < ny {
            nx
        } else {
            ny
        }),
{
    let axis = unit_of_axis(a2l, ch, 0);
    let unit = unit_for(a2l, ch.compu_method_ref.as_str());
    let mut v: Vec<String> = Vec::new();
    v.push(labelled("X", axis.as_str()));
    v.push(labelled("Y", unit.as_str()));
    assert(strings(v@) == curve_titles(axis@, unit@));
    (
        v,
        if nx < ny {
            nx
        } else {
            ny
        },
    )
}

/// The column titles of two curves side by side.
pub open spec fn compare_titles(layout: CurveValue, axis: Seq<char>, value: Seq<char>) -> Seq<
    Seq<char>,
> {
    match layout {
        CurveValue::Apart { .. } => curve_titles(axis, value),
        CurveValue::Aligned { .. } => seq![
            with_unit("X"@, axis),
            with_unit("BIN 1"@, value),
            with_unit("BIN 2"@, value),
            "Δ"@,
            "%"@,
        ],
        CurveValue::Shifted { .. } => seq![
            with_unit("X1"@, axis),
            with_unit("BIN 1"@, value),
            with_unit("X2"@, axis),
            with_unit("BIN 2"@, value),
            "ΔX"@,
            "ΔY"@,
            "%Y"@,
        ],
    }
}

/// The column titles of two curves side by side.
pub fn compare_curve_titles(layout: &CurveLayout, axis: &str, value: &str) -> (v: Vec<String>)
    ensures
        strings(v@) == compare_titles(layout@, axis@, value@),
{
    let mut v: Vec<String> = Vec::new();
    match layout {
        CurveLayout::Apart { .. } => {
            v.push(labelled("X", axis));
            v.push(labelled("Y", value));
        },
        CurveLayout::Aligned { .. } => {
            v.push(labelled("X", axis));
            v.push(labelled("BIN 1", value));
            v.push(labelled("BIN 2", value));
            v.push("Δ".to_owned());
            v.push("%".to_owned());
        },
        CurveLayout::Shifted { .. } => {
            v.push(labelled("X1", axis));
            v.push(labelled("BIN 1", value));
            v.push(labelled("X2", axis));
            v.push(labelled("BIN 2", value));
            v.push("ΔX".to_owned());
            v.push("ΔY".to_owned());
            v.push("%Y".to_owned());
        },
    }
    assert(strings(v@) == compare_titles(layout@, axis@, value@));
    v
}

/// The text of a difference: a plus sign stands before one that is positive.
pub fn delta_text(positive: bool, number: &str) -> (s: String)
    ensures
        s@ == (if positive {
            "+"@
        } else {
            ""@
        }) + number@,
{
    let mut s: String = if positive {
        "+".to_owned()
    } else {
        "".to_owned()
    };
    s.push_str(number);
    s
}

/// The caption of a map.
pub fn view_map(nx: usize, ny: usize, ch: &Characteristic, a2l: &A2lFile) -> (s: String)
    ensures
        s@ == grid(nx as int, ny as int) + " map (unit: "@ + unit_of(a2l@, ch.compu_method_ref@)
            + ")"@,
{
    let mut s = String::new();
    push_dec(&mut s, nx as u64);
    s.push_str("x");
    push_dec(&mut s, ny as u64);
    s.push_str(" map (unit: ");
    s.push_str(unit_for(a2l, ch.compu_method_ref.as_str()).as_str());
    s.push_str(")");
    assert(s@ == grid(nx as int, ny as int) + " map (unit: "@ + unit_of(
        a2l@,
        ch.compu_method_ref@,
    ) + ")"@);
    s
}

/// The caption of a cuboid.
pub open spec fn cuboid_caption(nx: int, ny: int, nz: int, unit: Seq<char>) -> Seq<char> {
    grid(nx, ny) + "x"@ + dec(nz as nat) + " cuboid (unit: "@ + unit + ")"@
}

/// The caption of a slice of a cuboid.
pub open spec fn slice_caption(index: int, number: Seq<char>, unit: Seq<char>) -> Seq<char> {
    "Z["@ + dec(index as nat) + "] = "@ + number + " "@ + unit
}

/// The caption of a cuboid.
pub fn view_cuboid(nx: usize, ny: usize, nz: usize, ch: &Characteristic, a2l: &A2lFile) -> (s:
    String)
    ensures
        s@ == cuboid_caption(
            nx as int,
            ny as int,
            nz as int,
            unit_of(a2l@, ch.compu_method_ref@),
        ),
{
    let mut s = String::new();
    push_dec(&mut s, nx as u64);
    s.push_str("x");
    push_dec(&mut s, ny as u64);
    s.push_str("x");
    push_dec(&mut s, nz as u64);
    s.push_str(" cuboid (unit: ");
    s.push_str(unit_for(a2l, ch.compu_method_ref.as_str()).as_str());
    s.push_str(")");
    assert(s@ == cuboid_caption(
        nx as int,
        ny as int,
        nz as int,
        unit_of(a2l@, ch.compu_method_ref@),
    ));
    s
}

/// The captions of the slices of a cuboid: one for every point of the third axis
/// that has a slice. `numbers` are those points as text.
pub open spec fn slices(numbers: Seq<Seq<char>>, count: int, unit: Seq<char>) -> Seq<Seq<char>> {
    Seq::new(
        if numbers.len() < count {
            numbers.len()
        } else {
            count as nat
        },
        |i: int| slice_caption(i, numbers[i], unit),
    )
}

/// The captions of the slices of a cuboid.
pub fn slice_captions(numbers: &Vec<String>, count: usize, ch: &Characteristic, a2l: &A2lFile) -> (v:
    Vec<String>)
    ensures
        strings(v@) == slices(strings(numbers@), count as int, axis_unit(a2l@, ch@, 2)),
{
    let unit = unit_of_axis(a2l, ch, 2);
    let ghost all = strings(numbers@);
    let mut v: Vec<String> = Vec::new();
    let mut i: usize = 0;
    assert(strings(v@) == slices(all, 0, unit@));
    while i < numbers.len() && i < count
        invariant
            i <= numbers@.len(),
            i <= count,
            all == strings(numbers@),
            strings(v@) == slices(all, i as int, unit@),
        decreases numbers@.len() - i,
    {
        let mut s: String = "Z[".to_owned();
        push_dec(&mut s, i as u64);
        s.push_str("] = ");
        s.push_str(numbers[i].as_str());
        s.push_str(" ");
        s.push_str(unit.as_str());
        assert(all[i as int] == numbers@[i as int]@);
        assert(s@ == slice_caption(i as int, all[i as int], unit@));
        let ghost before = strings(v@);
        v.push(s);
        assert(strings(v@) == before.push(s@));
        assert(strings(v@) == slices(all, i + 1, unit@));
        i = i + 1;
    }
    assert(strings(v@) == slices(all, count as int, unit@));
    v
}

/// A value of a block: by its verbal label if it has one, else the number as text.
pub open spec fn block_label(
    a2l: A2lFileValue,
    method: Seq<char>,
    index: int,
    raw: i64,
    number: Seq<char>,
) -> Seq<char> {
    "["@ + dec(index as nat) + "] "@ + match verbal(a2l, method, raw) {
        Some(label) => label + " ("@ + signed(raw as int) + ")"@,
        None => number,
    }
}

/// A value of a block.
pub fn view_val_blk_item(
    index: usize,
    raw: i64,
    number: &str,
    ch: &Characteristic,
    a2l: &A2lFile,
) -> (s: String)
    ensures
        s@ == block_label(a2l@, ch.compu_method_ref@, index as int, raw, number@),
{
    let mut s: String = "[".to_owned();
    push_dec(&mut s, index as u64);
    s.push_str("] ");
    match verbal_label(a2l, ch.compu_method_ref.as_str(), raw) {
        Some(label) => {
            s.push_str(label);
            s.push_str(" (");
            push_signed(&mut s, raw);
            s.push_str(")");
            assert(s@ == "["@ + dec(index as nat) + "] "@ + (label@ + " ("@ + signed(raw as int)
                + ")"@));
        },
        None => {
            s.push_str(number);
        },
    }
    s
}

/// The caption of a block of values.
pub fn view_val_blk(count: usize, ch: &Characteristic, a2l: &A2lFile) -> (s: String)
    ensures
        s@ == dec(count as nat) + " values (unit: "@ + unit_of(a2l@, ch.compu_method_ref@) + ")"@,
{
    let mut s = String::new();
    push_dec(&mut s, count as u64);
    s.push_str(" values (unit: ");
    s.push_str(unit_for(a2l, ch.compu_method_ref.as_str()).as_str());
    s.push_str(")");
    s
}

/// The rows of two blocks of values side by side: of each row, whether each of
/// them has it. A missing value counts as zero.
pub fn view_compare_val_blk(n1: usize, n2: usize) -> (v: Vec<(bool, bool)>)
    ensures
        v@ == Seq::new(
            (if n1 < n2 {
                n2
            } else {
                n1
            }) as nat,
            |i: int| (i < n1, i < n2),
        ),
{
    let n: usize = if n1 < n2 {
        n2
    } else {
        n1
    };
    let mut v: Vec<(bool, bool)> = Vec::new();
    let mut i: usize = 0;
    while i < n
        invariant
            i <= n,
            v@ == Seq::new(i as nat, |k: int| (k < n1, k < n2)),
        decreases n - i,
    {
        v.push((i < n1, i < n2));
        i = i + 1;
        assert(v@ == Seq::new(i as nat, |k: int| (k < n1, k < n2)));
    }
    v
}

/// The kind of the values that were read.
#[derive(Debug, Clone, Copy, PartialEq, Eq, Structural)]
pub enum Shape {
    Scalar,
    Ascii,
    Curve,
    Map2d,
    Cuboid,
    ValBlk,
}

/// How two readings are shown.
#[derive(Debug, Clone, Copy, PartialEq, Eq, Structural)]
pub enum CompareLayout {
    /// Both of one kind, side by side.
    Pair(Shape),
    /// One below the other.
    Stacked,
    /// The second could not be read.
    FirstOnly,
    /// The first could not be read.
    SecondOnly,
    Neither,
}

/// How two readings are shown. Cuboids, and readings of two kinds, are shown one
/// below the other.
pub fn view_compare(first: Option<Shape>, second: Option<Shape>) -> (r: CompareLayout)
    ensures
        r == match (first, second) {
            (Some(a), Some(b)) => if a == b && a != Shape::Cuboid {
                CompareLayout::Pair(a)
            } else {
                CompareLayout::Stacked
            },
            (Some(_), None) => CompareLayout::FirstOnly,
            (None, Some(_)) => CompareLayout::SecondOnly,
            (None, None) => CompareLayout::Neither,
        },
{
    match (first, second) {
        (Some(a), Some(b)) => if a == b && a != Shape::Cuboid {
            CompareLayout::Pair(a)
        } else {
            CompareLayout::Stacked
        },
        (Some(_), None) => CompareLayout::FirstOnly,
        (None, Some(_)) => CompareLayout::SecondOnly,
        (None, None) => CompareLayout::Neither,
    }
}

/// What is said of a map whose axes changed and whose values did not.
pub const RESCALE_BANNER: &'static str =
    "Axis changed but map values are identical — may need rescaling";

/// Two texts side by side, and whether they are the same.
#[derive(Debug, Clone)]
pub struct TextPair {
    pub first: String,
    pub second: String,
    pub same: bool,
}

/// Two texts side by side.
pub fn view_compare_ascii(a: &str, b: &str) -> (r: TextPair)
    ensures
        r.same == (a@ == b@),
        r.first@ == "BIN 1:  \""@ + a@ + "\""@,
        r.second@ == "BIN 2:  \""@ + b@ + (if a@ == b@ {
            "\"  (identical)"@
        } else {
            "\"  (changed)"@
        }),
{
    let same = str_eq(a, b);
    let mut first: String = "BIN 1:  \"".to_owned();
    first.push_str(a);
    first.push_str("\"");
    let mut second: String = "BIN 2:  \"".to_owned();
    second.push_str(b);
    second.push_str(
        if same {
            "\"  (identical)"
        } else {
            "\"  (changed)"
        },
    );
    TextPair { first, second, same }
}

/// Two single values side by side.
#[derive(Debug, Clone)]
pub struct ScalarPair {
    pub first: String,
    pub second: String,
    /// The difference; there is none between verbal values.
    pub difference: Option<String>,
    /// Whether two verbal values are the same.
    pub same: bool,
}

/// Two single values side by side, as a value.
pub struct ScalarPairValue {
    pub first: Seq<char>,
    pub second: Seq<char>,
    pub difference: Option<Seq<char>>,
    pub same: bool,
}

impl View for ScalarPair {
    type V = ScalarPairValue;

    open spec fn view(&self) -> ScalarPairValue {
        ScalarPairValue {
            first: self.first@,
            second: self.second@,
            difference: crate::a2l::types::said(self.difference),
            same: self.same,
        }
    }
}

/// A value of one of two firmwares, by its verbal label.
pub open spec fn verbal_line(bin: Seq<char>, label: Seq<char>, raw: i64) -> Seq<char> {
    bin + label + " (raw: "@ + signed(raw as int) + ")"@
}

/// A value of one of two firmwares, as a number.
pub open spec fn number_line(bin: Seq<char>, number: Seq<char>, unit: Seq<char>) -> Seq<char> {
    bin + number + " "@ + unit
}

/// Two single values side by side.
pub open spec fn scalars_beside(
    a2l: A2lFileValue,
    method: Seq<char>,
    raw: (i64, i64),
    number: (Seq<char>, Seq<char>),
    delta: Seq<char>,
    percent: Seq<char>,
) -> ScalarPairValue {
    match (verbal(a2l, method, raw.0), verbal(a2l, method, raw.1)) {
        (Some(l1), Some(l2)) => ScalarPairValue {
            first: verbal_line("BIN 1:  "@, l1, raw.0),
            second: verbal_line("BIN 2:  "@, l2, raw.1),
            difference: None,
            same: raw.0 == raw.1,
        },
        _ => ScalarPairValue {
            first: number_line("BIN 1:  "@, number.0, unit_of(a2l, method)),
            second: number_line("BIN 2:  "@, number.1, unit_of(a2l, method)),
            difference: Some("  ("@ + delta + ", "@ + percent + ")"@),
            same: false,
        },
    }
}

fn say_verbal(bin: &str, label: &str, raw: i64) -> (s: String)
    ensures
        s@ == verbal_line(bin@, label@, raw),
{
    let mut s: String = bin.to_owned();
    s.push_str(label);
    s.push_str(" (raw: ");
    push_signed(&mut s, raw);
    s.push_str(")");
    s
}

fn say_number(bin: &str, number: &str, unit: &str) -> (s: String)
    ensures
        s@ == number_line(bin@, number@, unit@),
{
    let mut s: String = bin.to_owned();
    s.push_str(number);
    s.push_str(" ");
    s.push_str(unit);
    s
}

/// Two single values side by side. `raw1` and `raw2` are their whole parts; the
/// values, their difference and its share are given as text.
pub fn view_compare_scalar(
    raw1: i64,
    raw2: i64,
    number1: &str,
    number2: &str,
    delta: &str,
    percent: &str,
    ch: &Characteristic,
    a2l: &A2lFile,
) -> (r: ScalarPair)
    ensures
        r@ == scalars_beside(
            a2l@,
            ch.compu_method_ref@,
            (raw1, raw2),
            (number1@, number2@),
            delta@,
            percent@,
        ),
{
    let method = ch.compu_method_ref.as_str();
    match (verbal_label(a2l, method, raw1), verbal_label(a2l, method, raw2)) {
        (Some(l1), Some(l2)) => ScalarPair {
            first: say_verbal("BIN 1:  ", l1, raw1),
            second: say_verbal("BIN 2:  ", l2, raw2),
            difference: None,
            same: raw1 == raw2,
        },
        _ => {
            let unit = unit_for(a2l, method);
            let mut s: String = "  (".to_owned();
            s.push_str(delta);
            s.push_str(", ");
            s.push_str(percent);
            s.push_str(")");
            ScalarPair {
                first: say_number("BIN 1:  ", number1, unit.as_str()),
                second: say_number("BIN 2:  ", number2, unit.as_str()),
                difference: Some(s),
                same: false,
            }
        },
    }
}

} // verus!
