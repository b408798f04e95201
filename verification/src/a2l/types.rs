//! What an A2L file describes.

use vstd::prelude::*;

use super::number::{Real, RealValue};
use super::table::{named, Table};

verus! {

/// Several values.
pub open spec fn views<T: View>(v: Seq<T>) -> Seq<T::V> {
    v.map_values(|t: T| t@)
}

/// A text that may be missing as a value.
pub open spec fn said(o: Option<String>) -> Option<Seq<char>> {
    match o {
        Some(s) => Some(s@),
        None => None,
    }
}

/// How a value is stored.
#[derive(Debug, Clone, Copy, PartialEq, Eq, Structural)]
pub enum DataType {
    UByte,
    SByte,
    UWord,
    SWord,
    ULong,
    SLong,
    AUint64,
    AInt64,
    Float32Ieee,
    Float64Ieee,
}

impl DataType {
    /// How many bytes a value takes.
    pub open spec fn width(self) -> int {
        match self {
            DataType::UByte | DataType::SByte => 1,
            DataType::UWord | DataType::SWord => 2,
            DataType::ULong | DataType::SLong | DataType::Float32Ieee => 4,
            DataType::AUint64 | DataType::AInt64 | DataType::Float64Ieee => 8,
        }
    }

    /// How many bytes a value takes.
    pub fn byte_width(self) -> (r: usize)
        ensures
            r == self.width(),
    {
        match self {
            DataType::UByte | DataType::SByte => 1,
            DataType::UWord | DataType::SWord => 2,
            DataType::ULong | DataType::SLong | DataType::Float32Ieee => 4,
            DataType::AUint64 | DataType::AInt64 | DataType::Float64Ieee => 8,
        }
    }
}

/// A MEASUREMENT block.
#[derive(Debug, Clone)]
pub struct Measurement {
    pub name: String,
    pub description: String,
    pub datatype: DataType,
    /// Name of the COMPU_METHOD, possibly `NO_COMPU_METHOD`.
    pub compu_method_ref: String,
    pub ecu_address: Option<u32>,
    pub bit_mask: Option<u64>,
}

/// A MEASUREMENT block as a value.
pub struct MeasurementValue {
    pub name: Seq<char>,
    pub description: Seq<char>,
    pub datatype: DataType,
    pub compu_method_ref: Seq<char>,
    pub ecu_address: Option<u32>,
    pub bit_mask: Option<u64>,
}

impl View for Measurement {
    type V = MeasurementValue;

    open spec fn view(&self) -> MeasurementValue {
        MeasurementValue {
            name: self.name@,
            description: self.description@,
            datatype: self.datatype,
            compu_method_ref: self.compu_method_ref@,
            ecu_address: self.ecu_address,
            bit_mask: self.bit_mask,
        }
    }
}

/// Conversion formula of a COMPU_METHOD.
#[derive(Debug, Clone)]
pub enum Conversion {
    /// No conversion.
    Identical,
    /// `internal = (a p^2 + b p + c) / (d p^2 + e p + f)` for a physical `p`.
    RatFunc { a: Real, b: Real, c: Real, d: Real, e: Real, f: Real },
    /// `physical = a internal + b`.
    Linear { a: Real, b: Real },
    /// Verbal lookup table.
    TabVerb { tab_ref: String },
    /// Arbitrary formula.
    Form { formula: String },
    /// Anything else, by its keyword.
    Other(String),
}

/// A conversion as a value.
pub enum ConversionValue {
    Identical,
    RatFunc {
        a: RealValue,
        b: RealValue,
        c: RealValue,
        d: RealValue,
        e: RealValue,
        f: RealValue,
    },
    Linear { a: RealValue, b: RealValue },
    TabVerb { tab_ref: Seq<char> },
    Form { formula: Seq<char> },
    Other(Seq<char>),
}

impl View for Conversion {
    type V = ConversionValue;

    open spec fn view(&self) -> ConversionValue {
        match self {
            Conversion::Identical => ConversionValue::Identical,
            Conversion::RatFunc { a, b, c, d, e, f } => ConversionValue::RatFunc {
                a: a@,
                b: b@,
                c: c@,
                d: d@,
                e: e@,
                f: f@,
            },
            Conversion::Linear { a, b } => ConversionValue::Linear { a: a@, b: b@ },
            Conversion::TabVerb { tab_ref } => ConversionValue::TabVerb { tab_ref: tab_ref@ },
            Conversion::Form { formula } => ConversionValue::Form { formula: formula@ },
            Conversion::Other(kind) => ConversionValue::Other(kind@),
        }
    }
}

/// The verbal label of a value: that of the first entry with the value.
pub open spec fn label_of(entries: Seq<(i64, Seq<char>)>, internal: i64) -> Option<Seq<char>>
    decreases entries.len(),
{
    if entries.len() == 0 {
        None
    } else if entries[0].0 == internal {
        Some(entries[0].1)
    } else {
        label_of(entries.skip(1), internal)
    }
}

/// The verbal label of a value: that of the first range that holds it.
pub open spec fn range_label_of(entries: Seq<(i64, i64, Seq<char>)>, internal: i64) -> Option<
    Seq<char>,
>
    decreases entries.len(),
{
    if entries.len() == 0 {
        None
    } else if entries[0].0 <= internal <= entries[0].1 {
        Some(entries[0].2)
    } else {
        range_label_of(entries.skip(1), internal)
    }
}

/// The entries of a verbal table.
pub open spec fn entries_of(v: Seq<(i64, String)>) -> Seq<(i64, Seq<char>)> {
    v.map_values(|e: (i64, String)| (e.0, e.1@))
}

/// The entries of a verbal table of ranges.
pub open spec fn ranges_of(v: Seq<(i64, i64, String)>) -> Seq<(i64, i64, Seq<char>)> {
    v.map_values(|e: (i64, i64, String)| (e.0, e.1, e.2@))
}

/// A COMPU_METHOD block.
#[derive(Debug, Clone)]
pub struct CompuMethod {
    pub name: String,
    pub description: String,
    pub format: String,
    pub unit: String,
    pub conversion: Conversion,
}

/// A COMPU_METHOD block as a value.
pub struct CompuMethodValue {
    pub name: Seq<char>,
    pub description: Seq<char>,
    pub format: Seq<char>,
    pub unit: Seq<char>,
    pub conversion: ConversionValue,
}

impl View for CompuMethod {
    type V = CompuMethodValue;

    open spec fn view(&self) -> CompuMethodValue {
        CompuMethodValue {
            name: self.name@,
            description: self.description@,
            format: self.format@,
            unit: self.unit@,
            conversion: self.conversion@,
        }
    }
}

/// A COMPU_VTAB block.
#[derive(Debug)]
pub struct CompuVtab {
    pub name: String,
    /// Internal values and their labels.
    pub entries: Vec<(i64, String)>,
}

/// A COMPU_VTAB block as a value.
pub struct CompuVtabValue {
    pub name: Seq<char>,
    pub entries: Seq<(i64, Seq<char>)>,
}

impl View for CompuVtab {
    type V = CompuVtabValue;

    open spec fn view(&self) -> CompuVtabValue {
        CompuVtabValue {
            name: self.name@,
            entries: entries_of(self.entries@),
        }
    }
}

/// A COMPU_VTAB_RANGE block.
#[derive(Debug)]
pub struct CompuVtabRange {
    pub name: String,
    /// Smallest and largest internal value, and the label.
    pub entries: Vec<(i64, i64, String)>,
    pub default_label: Option<String>,
}

/// A COMPU_VTAB_RANGE block as a value.
pub struct CompuVtabRangeValue {
    pub name: Seq<char>,
    pub entries: Seq<(i64, i64, Seq<char>)>,
    pub default_label: Option<Seq<char>>,
}

impl View for CompuVtabRange {
    type V = CompuVtabRangeValue;

    open spec fn view(&self) -> CompuVtabRangeValue {
        CompuVtabRangeValue {
            name: self.name@,
            entries: ranges_of(self.entries@),
            default_label: said(self.default_label),
        }
    }
}

impl CompuVtab {
    /// The label of an internal value.
    pub fn lookup(&self, internal: i64) -> (r: Option<&str>)
        ensures
            match r {
                Some(s) => label_of(self@.entries, internal) == Some(s@),
                None => label_of(self@.entries, internal) is None,
            },
    {
        let ghost all = self@.entries;
        let mut i: usize = 0;
        assert(all.skip(0) == all);
        while i < self.entries.len()
            invariant
                i <= self.entries@.len(),
                all == entries_of(self.entries@),
                label_of(all, internal) == label_of(all.skip(i as int), internal),
            decreases self.entries@.len() - i,
        {
            assert(all.skip(i as int)[0] == all[i as int]);
            assert(all.skip(i as int).skip(1) == all.skip(i + 1));
            if self.entries[i].0 == internal {
                return Some(self.entries[i].1.as_str());
            }
            i = i + 1;
        }
        None
    }
}

impl CompuVtabRange {
    /// The label of an internal value: that of the first range that holds it,
    /// else the default.
    pub fn lookup(&self, internal: i64) -> (r: Option<&str>)
        ensures
            ({
                let label = match range_label_of(self@.entries, internal) {
                    Some(s) => Some(s),
                    None => self@.default_label,
                };
                match r {
                    Some(s) => label == Some(s@),
                    None => label is None,
                }
            }),
    {
        let ghost all = self@.entries;
        let mut i: usize = 0;
        assert(all.skip(0) == all);
        while i < self.entries.len()
            invariant
                i <= self.entries@.len(),
                all == ranges_of(self.entries@),
                all == self@.entries,
                range_label_of(all, internal) == range_label_of(all.skip(i as int), internal),
            decreases self.entries@.len() - i,
        {
            assert(all.skip(i as int)[0] == all[i as int]);
            assert(all.skip(i as int).skip(1) == all.skip(i + 1));
            if self.entries[i].0 <= internal && internal <= self.entries[i].1 {
                return Some(self.entries[i].2.as_str());
            }
            i = i + 1;
        }
        match &self.default_label {
            Some(s) => Some(s.as_str()),
            None => None,
        }
    }
}

impl Conversion {
    /// For a verbal conversion, the label of an internal value in its table.
    pub fn to_verbal<'a>(&'a self, internal: i64, vtabs: &'a Table<CompuVtab>) -> (r: Option<
        &'a str,
    >)
        ensures
            ({
                let label = match self@ {
                    ConversionValue::TabVerb { tab_ref } => match named(vtabs@, tab_ref) {
                        Some(table) => label_of(table.entries, internal),
                        None => None,
                    },
                    _ => None,
                };
                match r {
                    Some(s) => label == Some(s@),
                    None => label is None,
                }
            }),
    {
        match self {
            Conversion::TabVerb { tab_ref } => match vtabs.get(tab_ref.as_str()) {
                Some(table) => table.lookup(internal),
                None => None,
            },
            _ => None,
        }
    }
}

/// The shape of a CHARACTERISTIC.
#[derive(Debug, Clone, Copy, PartialEq, Eq, Structural)]
pub enum CharacteristicType {
    Value,
    Curve,
    Map2d,
    Cuboid,
    Cube4,
    Cube5,
    ValBlk,
    Ascii,
}

/// Where the points of an axis come from.
#[derive(Debug, Clone, Copy, PartialEq, Eq, Structural)]
pub enum AxisAttribute {
    StdAxis,
    ComAxis,
    FixAxis,
    CurveAxis,
    ResAxis,
}

/// A fixed axis with evenly spaced points.
#[derive(Debug, Clone)]
pub struct FixAxisParDist {
    pub offset: Real,
    pub distance: Real,
    pub count: u16,
}

/// A fixed axis with evenly spaced points as a value.
pub struct FixAxisParDistValue {
    pub offset: RealValue,
    pub distance: RealValue,
    pub count: u16,
}

impl View for FixAxisParDist {
    type V = FixAxisParDistValue;

    open spec fn view(&self) -> FixAxisParDistValue {
        FixAxisParDistValue {
            offset: self.offset@,
            distance: self.distance@,
            count: self.count,
        }
    }
}

/// A fixed axis that may be missing as a value.
pub open spec fn spaced(o: Option<FixAxisParDist>) -> Option<FixAxisParDistValue> {
    match o {
        Some(d) => Some(d@),
        None => None,
    }
}

/// A list of numbers that may be missing as a value.
pub open spec fn listed(o: Option<Vec<Real>>) -> Option<Seq<RealValue>> {
    match o {
        Some(v) => Some(views(v@)),
        None => None,
    }
}

/// An AXIS_DESCR block.
#[derive(Debug, Clone)]
pub struct AxisDescr {
    pub attribute: AxisAttribute,
    /// Name of a MEASUREMENT, or `NO_INPUT_QUANTITY`.
    pub input_quantity: String,
    /// Name of a COMPU_METHOD, or `NO_COMPU_METHOD`.
    pub compu_method_ref: String,
    pub max_axis_points: u16,
    pub lower_limit: Real,
    pub upper_limit: Real,
    /// Name of the AXIS_PTS of a shared axis.
    pub axis_pts_ref: Option<String>,
    /// Evenly spaced points of a fixed axis.
    pub fix_axis_par_dist: Option<FixAxisParDist>,
    /// Points of a fixed axis.
    pub fix_axis_par_list: Option<Vec<Real>>,
    pub format: Option<String>,
}

/// An AXIS_DESCR block as a value.
pub struct AxisDescrValue {
    pub attribute: AxisAttribute,
    pub input_quantity: Seq<char>,
    pub compu_method_ref: Seq<char>,
    pub max_axis_points: u16,
    pub lower_limit: RealValue,
    pub upper_limit: RealValue,
    pub axis_pts_ref: Option<Seq<char>>,
    pub fix_axis_par_dist: Option<FixAxisParDistValue>,
    pub fix_axis_par_list: Option<Seq<RealValue>>,
    pub format: Option<Seq<char>>,
}

impl View for AxisDescr {
    type V = AxisDescrValue;

    open spec fn view(&self) -> AxisDescrValue {
        AxisDescrValue {
            attribute: self.attribute,
            input_quantity: self.input_quantity@,
            compu_method_ref: self.compu_method_ref@,
            max_axis_points: self.max_axis_points,
            lower_limit: self.lower_limit@,
            upper_limit: self.upper_limit@,
            axis_pts_ref: said(self.axis_pts_ref),
            fix_axis_par_dist: spaced(self.fix_axis_par_dist),
            fix_axis_par_list: listed(self.fix_axis_par_list),
            format: said(self.format),
        }
    }
}

/// A CHARACTERISTIC block.
#[derive(Debug, Clone)]
pub struct Characteristic {
    pub name: String,
    pub description: String,
    pub char_type: CharacteristicType,
    pub address: u32,
    /// Name of the RECORD_LAYOUT.
    pub deposit: String,
    pub max_diff: Real,
    /// Name of the COMPU_METHOD, possibly `NO_COMPU_METHOD`.
    pub compu_method_ref: String,
    pub lower_limit: Real,
    pub upper_limit: Real,
    /// None for a value, one for a curve, two for a map, and so on.
    pub axes: Vec<AxisDescr>,
    pub format: Option<String>,
    pub display_identifier: Option<String>,
}

/// A CHARACTERISTIC block as a value.
pub struct CharacteristicValue {
    pub name: Seq<char>,
    pub description: Seq<char>,
    pub char_type: CharacteristicType,
    pub address: u32,
    pub deposit: Seq<char>,
    pub max_diff: RealValue,
    pub compu_method_ref: Seq<char>,
    pub lower_limit: RealValue,
    pub upper_limit: RealValue,
    pub axes: Seq<AxisDescrValue>,
    pub format: Option<Seq<char>>,
    pub display_identifier: Option<Seq<char>>,
}

impl View for Characteristic {
    type V = CharacteristicValue;

    open spec fn view(&self) -> CharacteristicValue {
        CharacteristicValue {
            name: self.name@,
            description: self.description@,
            char_type: self.char_type,
            address: self.address,
            deposit: self.deposit@,
            max_diff: self.max_diff@,
            compu_method_ref: self.compu_method_ref@,
            lower_limit: self.lower_limit@,
            upper_limit: self.upper_limit@,
            axes: views(self.axes@),
            format: said(self.format),
            display_identifier: said(self.display_identifier),
        }
    }
}

/// An AXIS_PTS block.
#[derive(Debug, Clone)]
pub struct AxisPts {
    pub name: String,
    pub description: String,
    pub address: u32,
    /// Name of a MEASUREMENT, or `NO_INPUT_QUANTITY`.
    pub input_quantity: String,
    /// Name of the RECORD_LAYOUT.
    pub deposit: String,
    pub max_diff: Real,
    /// Name of a COMPU_METHOD, or `NO_COMPU_METHOD`.
    pub compu_method_ref: String,
    pub max_axis_points: u16,
    pub lower_limit: Real,
    pub upper_limit: Real,
    pub format: Option<String>,
}

/// An AXIS_PTS block as a value.
pub struct AxisPtsValue {
    pub name: Seq<char>,
    pub description: Seq<char>,
    pub address: u32,
    pub input_quantity: Seq<char>,
    pub deposit: Seq<char>,
    pub max_diff: RealValue,
    pub compu_method_ref: Seq<char>,
    pub max_axis_points: u16,
    pub lower_limit: RealValue,
    pub upper_limit: RealValue,
    pub format: Option<Seq<char>>,
}

impl View for AxisPts {
    type V = AxisPtsValue;

    open spec fn view(&self) -> AxisPtsValue {
        AxisPtsValue {
            name: self.name@,
            description: self.description@,
            address: self.address,
            input_quantity: self.input_quantity@,
            deposit: self.deposit@,
            max_diff: self.max_diff@,
            compu_method_ref: self.compu_method_ref@,
            max_axis_points: self.max_axis_points,
            lower_limit: self.lower_limit@,
            upper_limit: self.upper_limit@,
            format: said(self.format),
        }
    }
}

/// Where the function values of a record lie.
#[derive(Debug, Clone, Copy, PartialEq, Eq, Structural)]
pub struct FncValuesField {
    pub position: u16,
    pub datatype: DataType,
    /// Whether the values of a column lie next to each other; else those of a row
    /// do.
    pub column_dir: bool,
}

/// Where an axis or a count of a record lies.
#[derive(Debug, Clone, Copy, PartialEq, Eq, Structural)]
pub struct LayoutField {
    pub position: u16,
    pub datatype: DataType,
}

/// A RECORD_LAYOUT block.
#[derive(Debug, Clone)]
pub struct RecordLayout {
    pub name: String,
    pub fnc_values: Option<FncValuesField>,
    pub axis_pts_x: Option<LayoutField>,
    pub axis_pts_y: Option<LayoutField>,
    pub no_axis_pts_x: Option<LayoutField>,
    pub no_axis_pts_y: Option<LayoutField>,
    pub axis_pts_z: Option<LayoutField>,
    pub no_axis_pts_z: Option<LayoutField>,
    pub fix_no_axis_pts_x: Option<u16>,
    pub fix_no_axis_pts_y: Option<u16>,
    pub fix_no_axis_pts_z: Option<u16>,
}

/// A RECORD_LAYOUT block as a value.
pub struct RecordLayoutValue {
    pub name: Seq<char>,
    pub fnc_values: Option<FncValuesField>,
    pub axis_pts_x: Option<LayoutField>,
    pub axis_pts_y: Option<LayoutField>,
    pub no_axis_pts_x: Option<LayoutField>,
    pub no_axis_pts_y: Option<LayoutField>,
    pub axis_pts_z: Option<LayoutField>,
    pub no_axis_pts_z: Option<LayoutField>,
    pub fix_no_axis_pts_x: Option<u16>,
    pub fix_no_axis_pts_y: Option<u16>,
    pub fix_no_axis_pts_z: Option<u16>,
}

impl View for RecordLayout {
    type V = RecordLayoutValue;

    open spec fn view(&self) -> RecordLayoutValue {
        RecordLayoutValue {
            name: self.name@,
            fnc_values: self.fnc_values,
            axis_pts_x: self.axis_pts_x,
            axis_pts_y: self.axis_pts_y,
            no_axis_pts_x: self.no_axis_pts_x,
            no_axis_pts_y: self.no_axis_pts_y,
            axis_pts_z: self.axis_pts_z,
            no_axis_pts_z: self.no_axis_pts_z,
            fix_no_axis_pts_x: self.fix_no_axis_pts_x,
            fix_no_axis_pts_y: self.fix_no_axis_pts_y,
            fix_no_axis_pts_z: self.fix_no_axis_pts_z,
        }
    }
}

/// A FUNCTION block.
#[derive(Debug, Clone)]
pub struct Function {
    pub name: String,
    pub description: String,
    /// Characteristics the function defines.
    pub def_characteristics: Vec<String>,
    /// Characteristics the function refers to.
    pub ref_characteristics: Vec<String>,
    /// Names of child functions.
    pub sub_functions: Vec<String>,
}

/// A FUNCTION block as a value.
pub struct FunctionValue {
    pub name: Seq<char>,
    pub description: Seq<char>,
    pub def_characteristics: Seq<Seq<char>>,
    pub ref_characteristics: Seq<Seq<char>>,
    pub sub_functions: Seq<Seq<char>>,
}

impl View for Function {
    type V = FunctionValue;

    open spec fn view(&self) -> FunctionValue {
        FunctionValue {
            name: self.name@,
            description: self.description@,
            def_characteristics: views(self.def_characteristics@),
            ref_characteristics: views(self.ref_characteristics@),
            sub_functions: views(self.sub_functions@),
        }
    }
}

/// The contents of an A2L file.
#[derive(Debug)]
pub struct A2lFile {
    pub measurements: Vec<Measurement>,
    pub characteristics: Vec<Characteristic>,
    pub axis_pts: Table<AxisPts>,
    pub record_layouts: Table<RecordLayout>,
    pub compu_methods: Table<CompuMethod>,
    pub compu_vtabs: Table<CompuVtab>,
    pub compu_vtab_ranges: Table<CompuVtabRange>,
    pub functions: Vec<Function>,
}

/// The contents of an A2L file as a value.
pub struct A2lFileValue {
    pub measurements: Seq<MeasurementValue>,
    pub characteristics: Seq<CharacteristicValue>,
    pub axis_pts: Seq<(Seq<char>, AxisPtsValue)>,
    pub record_layouts: Seq<(Seq<char>, RecordLayoutValue)>,
    pub compu_methods: Seq<(Seq<char>, CompuMethodValue)>,
    pub compu_vtabs: Seq<(Seq<char>, CompuVtabValue)>,
    pub compu_vtab_ranges: Seq<(Seq<char>, CompuVtabRangeValue)>,
    pub functions: Seq<FunctionValue>,
}

impl View for A2lFile {
    type V = A2lFileValue;

    open spec fn view(&self) -> A2lFileValue {
        A2lFileValue {
            measurements: views(self.measurements@),
            characteristics: views(self.characteristics@),
            axis_pts: self.axis_pts@,
            record_layouts: self.record_layouts@,
            compu_methods: self.compu_methods@,
            compu_vtabs: self.compu_vtabs@,
            compu_vtab_ranges: self.compu_vtab_ranges@,
            functions: views(self.functions@),
        }
    }
}

/// Why an A2L file cannot be read.
#[derive(Debug, Clone)]
pub enum Error {
    UnexpectedEof,
    ExpectedWord,
    UnexpectedKeyword { expected: String, got: String },
    UnknownDatatype(String),
    ParseFloat(String),
    ParseInt(String),
    Io(String),
}

/// An error as a value.
pub enum Fault {
    UnexpectedEof,
    ExpectedWord,
    UnexpectedKeyword { expected: Seq<char>, got: Seq<char> },
    UnknownDatatype(Seq<char>),
    ParseFloat(Seq<char>),
    ParseInt(Seq<char>),
    Io(Seq<char>),
}

impl View for Error {
    type V = Fault;

    open spec fn view(&self) -> Fault {
        match self {
            Error::UnexpectedEof => Fault::UnexpectedEof,
            Error::ExpectedWord => Fault::ExpectedWord,
            Error::UnexpectedKeyword { expected, got } => Fault::UnexpectedKeyword {
                expected: expected@,
                got: got@,
            },
            Error::UnknownDatatype(s) => Fault::UnknownDatatype(s@),
            Error::ParseFloat(s) => Fault::ParseFloat(s@),
            Error::ParseInt(s) => Fault::ParseInt(s@),
            Error::Io(s) => Fault::Io(s@),
        }
    }
}

impl Fault {
    /// What the user is told.
    pub open spec fn text(self) -> Seq<char> {
        match self {
            Fault::UnexpectedEof => "unexpected end of file"@,
            Fault::ExpectedWord => "expected a keyword/word token, got a string"@,
            Fault::UnexpectedKeyword { expected, got } => "expected keyword '"@ + expected
                + "', got '"@ + got + "'"@,
            Fault::UnknownDatatype(s) => "unknown datatype '"@ + s + "'"@,
            Fault::ParseFloat(s) => "cannot parse '"@ + s + "' as float"@,
            Fault::ParseInt(s) => "cannot parse '"@ + s + "' as integer"@,
            Fault::Io(s) => "I/O error: "@ + s,
        }
    }
}

fn around(before: &str, s: &String, after: &str) -> (r: String)
    ensures
        r@ == before@ + s@ + after@,
{
    let mut r = before.to_owned();
    r.push_str(s.as_str());
    r.push_str(after);
    r
}

impl Error {
    /// What the user is told.
    pub fn message(&self) -> (s: String)
        ensures
            s@ == self@.text(),
    {
        match self {
            Error::UnexpectedEof => "unexpected end of file".to_owned(),
            Error::ExpectedWord => "expected a keyword/word token, got a string".to_owned(),
            Error::UnexpectedKeyword { expected, got } => {
                let mut s = around("expected keyword '", expected, "', got '");
                s.push_str(got.as_str());
                s.push_str("'");
                s
            },
            Error::UnknownDatatype(s) => around("unknown datatype '", s, "'"),
            Error::ParseFloat(s) => around("cannot parse '", s, "' as float"),
            Error::ParseInt(s) => around("cannot parse '", s, "' as integer"),
            Error::Io(s) => {
                let mut r = "I/O error: ".to_owned();
                r.push_str(s.as_str());
                r
            },
        }
    }
}

} // verus!
