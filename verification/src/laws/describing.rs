//! What a description file is read as.

use vstd::prelude::*;

use crate::a2l::lexer::{comment_end, latin_text, string_end, token_at, word_end, Tok};
use crate::a2l::number::{
    count_value, first_place, hexits_value, is_decimal, is_exponent, is_mantissa, real_row,
    real_value, signed_hex_value, signed_value, unsigned, whole_value, RealRow, RealValue,
};
use crate::a2l::parser::{
    address, at, axis_attribute, axis_descr, axis_descr_attribute, axis_descr_rest, axis_pts,
    axis_pts_attribute, axis_pts_rest, characteristic, characteristic_attribute,
    characteristic_rest, characteristic_type, compu_method, compu_method_attribute,
    compu_method_rest, compu_vtab, compu_vtab_attribute, compu_vtab_range,
    compu_vtab_range_attribute, compu_vtab_range_rest, compu_vtab_rest, contents, count, datatype,
    function, function_attribute, function_rest, later, left, mask, measurement,
    measurement_attribute, measurement_rest, name_list, number, par_list, plain_conversion, record_layout,
    record_layout_attribute, record_layout_rest, skipped, text, whole, word,
};
use crate::a2l::table::with_row;
use crate::a2l::types::{
    label_of, range_label_of, A2lFileValue, AxisAttribute, AxisDescrValue, AxisPtsValue,
    CharacteristicType, CharacteristicValue, CompuMethodValue, CompuVtabRangeValue, CompuVtabValue,
    ConversionValue, DataType, Fault, FixAxisParDistValue, FncValuesField, FunctionValue,
    LayoutField, MeasurementValue, RecordLayoutValue,
};
use crate::text::{digits_value, starts_with, unsigned_value};

verus! {

/// A token is one word at most.
proof fn lemma_one_word(t: Seq<Tok>, i: int, a: Seq<char>, b: Seq<char>)
    requires
        a != b,
    ensures
        !(at(t, i, a) && at(t, i, b)),
{
    vstd::utf8::encode_utf8_decode_utf8(a);
    vstd::utf8::encode_utf8_decode_utf8(b);
}

proof fn lemma_marks_differ(t: Seq<Tok>, i: int)
    ensures
        !(at(t, i, "/begin"@) && at(t, i, "/end"@)),
{
    reveal_strlit("/begin");
    reveal_strlit("/end");
    assert("/begin"@.len() != "/end"@.len());
    lemma_one_word(t, i, "/begin"@, "/end"@);
}

/// A record layout without any part.
spec fn no_fields(name: Seq<char>) -> RecordLayoutValue {
    RecordLayoutValue {
        name,
        fnc_values: None,
        axis_pts_x: None,
        axis_pts_y: None,
        no_axis_pts_x: None,
        no_axis_pts_y: None,
        axis_pts_z: None,
        no_axis_pts_z: None,
        fix_no_axis_pts_x: None,
        fix_no_axis_pts_y: None,
        fix_no_axis_pts_z: None,
    }
}

/// The types of numbers by their words.
pub proof fn law_the_words_of_types(t: Seq<Tok>, i: int)
    ensures
        word(t, i) == Ok::<_, Fault>("UBYTE"@) ==> datatype(t, i) == Ok::<_, Fault>(DataType::UByte),
        word(t, i) == Ok::<_, Fault>("SBYTE"@) ==> datatype(t, i) == Ok::<_, Fault>(DataType::SByte),
        word(t, i) == Ok::<_, Fault>("UWORD"@) ==> datatype(t, i) == Ok::<_, Fault>(DataType::UWord),
        word(t, i) == Ok::<_, Fault>("SWORD"@) ==> datatype(t, i) == Ok::<_, Fault>(DataType::SWord),
        word(t, i) == Ok::<_, Fault>("ULONG"@) ==> datatype(t, i) == Ok::<_, Fault>(DataType::ULong),
        word(t, i) == Ok::<_, Fault>("SLONG"@) ==> datatype(t, i) == Ok::<_, Fault>(DataType::SLong),
        word(t, i) == Ok::<_, Fault>("A_UINT64"@) ==> datatype(t, i) == Ok::<_, Fault>(DataType::AUint64),
        word(t, i) == Ok::<_, Fault>("A_INT64"@) ==> datatype(t, i) == Ok::<_, Fault>(DataType::AInt64),
        word(t, i) == Ok::<_, Fault>("FLOAT32_IEEE"@) ==> datatype(t, i) == Ok::<_, Fault>(DataType::Float32Ieee),
        word(t, i) == Ok::<_, Fault>("FLOAT64_IEEE"@) ==> datatype(t, i) == Ok::<_, Fault>(DataType::Float64Ieee),
{
    reveal_strlit("UBYTE");
    reveal_strlit("SBYTE");
    reveal_strlit("UWORD");
    reveal_strlit("SWORD");
    reveal_strlit("ULONG");
    reveal_strlit("SLONG");
    reveal_strlit("A_UINT64");
    reveal_strlit("A_INT64");
    reveal_strlit("FLOAT32_IEEE");
    reveal_strlit("FLOAT64_IEEE");
    let words = seq![
        "UBYTE"@,
        "SBYTE"@,
        "UWORD"@,
        "SWORD"@,
        "ULONG"@,
        "SLONG"@,
        "A_UINT64"@,
        "A_INT64"@,
        "FLOAT32_IEEE"@,
        "FLOAT64_IEEE"@,
    ];
    assert(words[0][0] != words[1][0]);
    assert(words[0][1] != words[2][1]);
    assert(words[0][0] != words[3][0]);
    assert(words[0][1] != words[4][1]);
    assert(words[0][0] != words[5][0]);
    assert(words[0].len() != words[6].len());
    assert(words[0].len() != words[7].len());
    assert(words[0].len() != words[8].len());
    assert(words[0].len() != words[9].len());
    assert(words[1][0] != words[2][0]);
    assert(words[1][1] != words[3][1]);
    assert(words[1][0] != words[4][0]);
    assert(words[1][1] != words[5][1]);
    assert(words[1].len() != words[6].len());
    assert(words[1].len() != words[7].len());
    assert(words[1].len() != words[8].len());
    assert(words[1].len() != words[9].len());
    assert(words[2][0] != words[3][0]);
    assert(words[2][1] != words[4][1]);
    assert(words[2][0] != words[5][0]);
    assert(words[2].len() != words[6].len());
    assert(words[2].len() != words[7].len());
    assert(words[2].len() != words[8].len());
    assert(words[2].len() != words[9].len());
    assert(words[3][0] != words[4][0]);
    assert(words[3][1] != words[5][1]);
    assert(words[3].len() != words[6].len());
    assert(words[3].len() != words[7].len());
    assert(words[3].len() != words[8].len());
    assert(words[3].len() != words[9].len());
    assert(words[4][0] != words[5][0]);
    assert(words[4].len() != words[6].len());
    assert(words[4].len() != words[7].len());
    assert(words[4].len() != words[8].len());
    assert(words[4].len() != words[9].len());
    assert(words[5].len() != words[6].len());
    assert(words[5].len() != words[7].len());
    assert(words[5].len() != words[8].len());
    assert(words[5].len() != words[9].len());
    assert(words[6].len() != words[7].len());
    assert(words[6].len() != words[8].len());
    assert(words[6].len() != words[9].len());
    assert(words[7].len() != words[8].len());
    assert(words[7].len() != words[9].len());
    assert(words[8][5] != words[9][5]);
}

/// The shapes of characteristics by their words.
pub proof fn law_the_words_of_shapes(t: Seq<Tok>, i: int)
    ensures
        word(t, i) == Ok::<_, Fault>("VALUE"@) ==> characteristic_type(t, i) == Ok::<_, Fault>(CharacteristicType::Value),
        word(t, i) == Ok::<_, Fault>("CURVE"@) ==> characteristic_type(t, i) == Ok::<_, Fault>(CharacteristicType::Curve),
        word(t, i) == Ok::<_, Fault>("MAP"@) ==> characteristic_type(t, i) == Ok::<_, Fault>(CharacteristicType::Map2d),
        word(t, i) == Ok::<_, Fault>("CUBOID"@) ==> characteristic_type(t, i) == Ok::<_, Fault>(CharacteristicType::Cuboid),
        word(t, i) == Ok::<_, Fault>("CUBE_4"@) ==> characteristic_type(t, i) == Ok::<_, Fault>(CharacteristicType::Cube4),
        word(t, i) == Ok::<_, Fault>("CUBE_5"@) ==> characteristic_type(t, i) == Ok::<_, Fault>(CharacteristicType::Cube5),
        word(t, i) == Ok::<_, Fault>("VAL_BLK"@) ==> characteristic_type(t, i) == Ok::<_, Fault>(CharacteristicType::ValBlk),
        word(t, i) == Ok::<_, Fault>("ASCII"@) ==> characteristic_type(t, i) == Ok::<_, Fault>(CharacteristicType::Ascii),
{
    reveal_strlit("VALUE");
    reveal_strlit("CURVE");
    reveal_strlit("MAP");
    reveal_strlit("CUBOID");
    reveal_strlit("CUBE_4");
    reveal_strlit("CUBE_5");
    reveal_strlit("VAL_BLK");
    reveal_strlit("ASCII");
    let words = seq![
        "VALUE"@,
        "CURVE"@,
        "MAP"@,
        "CUBOID"@,
        "CUBE_4"@,
        "CUBE_5"@,
        "VAL_BLK"@,
        "ASCII"@,
    ];
    assert(words[0][0] != words[1][0]);
    assert(words[0].len() != words[2].len());
    assert(words[0].len() != words[3].len());
    assert(words[0].len() != words[4].len());
    assert(words[0].len() != words[5].len());
    assert(words[0].len() != words[6].len());
    assert(words[0][0] != words[7][0]);
    assert(words[1].len() != words[2].len());
    assert(words[1].len() != words[3].len());
    assert(words[1].len() != words[4].len());
    assert(words[1].len() != words[5].len());
    assert(words[1].len() != words[6].len());
    assert(words[1][0] != words[7][0]);
    assert(words[2].len() != words[3].len());
    assert(words[2].len() != words[4].len());
    assert(words[2].len() != words[5].len());
    assert(words[2].len() != words[6].len());
    assert(words[2].len() != words[7].len());
    assert(words[3][3] != words[4][3]);
    assert(words[3][3] != words[5][3]);
    assert(words[3].len() != words[6].len());
    assert(words[3].len() != words[7].len());
    assert(words[4][5] != words[5][5]);
    assert(words[4].len() != words[6].len());
    assert(words[4].len() != words[7].len());
    assert(words[5].len() != words[6].len());
    assert(words[5].len() != words[7].len());
    assert(words[6].len() != words[7].len());
}

/// The kinds of axes by their words.
pub proof fn law_the_words_of_axes(t: Seq<Tok>, i: int)
    ensures
        word(t, i) == Ok::<_, Fault>("STD_AXIS"@) ==> axis_attribute(t, i) == Ok::<_, Fault>(AxisAttribute::StdAxis),
        word(t, i) == Ok::<_, Fault>("COM_AXIS"@) ==> axis_attribute(t, i) == Ok::<_, Fault>(AxisAttribute::ComAxis),
        word(t, i) == Ok::<_, Fault>("FIX_AXIS"@) ==> axis_attribute(t, i) == Ok::<_, Fault>(AxisAttribute::FixAxis),
        word(t, i) == Ok::<_, Fault>("CURVE_AXIS"@) ==> axis_attribute(t, i) == Ok::<_, Fault>(AxisAttribute::CurveAxis),
        word(t, i) == Ok::<_, Fault>("RES_AXIS"@) ==> axis_attribute(t, i) == Ok::<_, Fault>(AxisAttribute::ResAxis),
{
    reveal_strlit("STD_AXIS");
    reveal_strlit("COM_AXIS");
    reveal_strlit("FIX_AXIS");
    reveal_strlit("CURVE_AXIS");
    reveal_strlit("RES_AXIS");
    let words = seq![
        "STD_AXIS"@,
        "COM_AXIS"@,
        "FIX_AXIS"@,
        "CURVE_AXIS"@,
        "RES_AXIS"@,
    ];
    assert(words[0][0] != words[1][0]);
    assert(words[0][0] != words[2][0]);
    assert(words[0].len() != words[3].len());
    assert(words[0][0] != words[4][0]);
    assert(words[1][0] != words[2][0]);
    assert(words[1].len() != words[3].len());
    assert(words[1][0] != words[4][0]);
    assert(words[2].len() != words[3].len());
    assert(words[2][0] != words[4][0]);
    assert(words[3].len() != words[4].len());
}

proof fn lemma_measurement_keeps(t: Seq<Tok>, i: int, acc: MeasurementValue, reals: Seq<RealRow>)
    ensures
        measurement_rest(t, i, acc, reals) matches Ok((v, n)) ==> {
            &&& v.name == acc.name
            &&& v.description == acc.description
            &&& v.datatype == acc.datatype
            &&& v.compu_method_ref == acc.compu_method_ref
        },
    decreases left(t, i),
{
    if 0 <= i < t.len() && !at(t, i, "/end"@) {
        if let Ok((more, n)) = measurement_attribute(t, i, acc, reals) {
            lemma_measurement_keeps(t, i + 1 + n, more, reals);
        }
    }
}

/// The head of a measurement: which token is what.
pub proof fn law_the_head_of_measurement(t: Seq<Tok>, i: int, reals: Seq<RealRow>)
    ensures
        measurement(t, i, reals) matches Ok((v, n)) ==> {
            &&& word(t, i) == Ok::<_, Fault>(v.name)
            &&& text(t, i + 1) == Ok::<_, Fault>(v.description)
            &&& datatype(t, i + 2) == Ok::<_, Fault>(v.datatype)
            &&& word(t, i + 3) == Ok::<_, Fault>(v.compu_method_ref)
        },
{
    if measurement(t, i, reals) is Ok {
        let start = MeasurementValue {
            name: word(t, i)->Ok_0,
            description: text(t, i + 1)->Ok_0,
            datatype: datatype(t, i + 2)->Ok_0,
            compu_method_ref: word(t, i + 3)->Ok_0,
            ecu_address: None,
            bit_mask: None,
        };
        lemma_measurement_keeps(t, i + 8, start, reals);
    }
}

proof fn lemma_characteristic_keeps(t: Seq<Tok>, i: int, acc: CharacteristicValue, reals: Seq<RealRow>)
    ensures
        characteristic_rest(t, i, acc, reals) matches Ok((v, n)) ==> {
            &&& v.name == acc.name
            &&& v.description == acc.description
            &&& v.char_type == acc.char_type
            &&& v.address == acc.address
            &&& v.deposit == acc.deposit
            &&& v.max_diff == acc.max_diff
            &&& v.compu_method_ref == acc.compu_method_ref
            &&& v.lower_limit == acc.lower_limit
            &&& v.upper_limit == acc.upper_limit
        },
    decreases left(t, i),
{
    if 0 <= i < t.len() && !at(t, i, "/end"@) {
        if let Ok((more, n)) = characteristic_attribute(t, i, acc, reals) {
            lemma_characteristic_keeps(t, i + 1 + n, more, reals);
        }
    }
}

/// The head of a characteristic: which token is what.
pub proof fn law_the_head_of_characteristic(t: Seq<Tok>, i: int, reals: Seq<RealRow>)
    ensures
        characteristic(t, i, reals) matches Ok((v, n)) ==> {
            &&& word(t, i) == Ok::<_, Fault>(v.name)
            &&& text(t, i + 1) == Ok::<_, Fault>(v.description)
            &&& characteristic_type(t, i + 2) == Ok::<_, Fault>(v.char_type)
            &&& address(t, i + 3) == Ok::<_, Fault>(v.address)
            &&& word(t, i + 4) == Ok::<_, Fault>(v.deposit)
            &&& number(t, i + 5) == Ok::<_, Fault>(v.max_diff)
            &&& word(t, i + 6) == Ok::<_, Fault>(v.compu_method_ref)
            &&& number(t, i + 7) == Ok::<_, Fault>(v.lower_limit)
            &&& number(t, i + 8) == Ok::<_, Fault>(v.upper_limit)
        },
{
    if characteristic(t, i, reals) is Ok {
        let start = CharacteristicValue {
            name: word(t, i)->Ok_0,
            description: text(t, i + 1)->Ok_0,
            char_type: characteristic_type(t, i + 2)->Ok_0,
            address: address(t, i + 3)->Ok_0,
            deposit: word(t, i + 4)->Ok_0,
            max_diff: number(t, i + 5)->Ok_0,
            compu_method_ref: word(t, i + 6)->Ok_0,
            lower_limit: number(t, i + 7)->Ok_0,
            upper_limit: number(t, i + 8)->Ok_0,
            axes: Seq::empty(),
            format: None,
            display_identifier: None,
        };
        lemma_characteristic_keeps(t, i + 9, start, reals);
    }
}

proof fn lemma_axis_descr_keeps(t: Seq<Tok>, i: int, acc: AxisDescrValue, reals: Seq<RealRow>)
    ensures
        axis_descr_rest(t, i, acc, reals) matches Ok((v, n)) ==> {
            &&& v.attribute == acc.attribute
            &&& v.input_quantity == acc.input_quantity
            &&& v.compu_method_ref == acc.compu_method_ref
            &&& v.max_axis_points == acc.max_axis_points
            &&& v.lower_limit == acc.lower_limit
            &&& v.upper_limit == acc.upper_limit
        },
    decreases left(t, i),
{
    if 0 <= i < t.len() && !at(t, i, "/end"@) {
        if let Ok((more, n)) = axis_descr_attribute(t, i, acc, reals) {
            lemma_axis_descr_keeps(t, i + 1 + n, more, reals);
        }
    }
}

/// The head of an axis of a characteristic: which token is what.
pub proof fn law_the_head_of_axis_descr(t: Seq<Tok>, i: int, reals: Seq<RealRow>)
    ensures
        axis_descr(t, i, reals) matches Ok((v, n)) ==> {
            &&& axis_attribute(t, i) == Ok::<_, Fault>(v.attribute)
            &&& word(t, i + 1) == Ok::<_, Fault>(v.input_quantity)
            &&& word(t, i + 2) == Ok::<_, Fault>(v.compu_method_ref)
            &&& count(t, i + 3, reals) == Ok::<_, Fault>(v.max_axis_points)
            &&& number(t, i + 4) == Ok::<_, Fault>(v.lower_limit)
            &&& number(t, i + 5) == Ok::<_, Fault>(v.upper_limit)
        },
{
    if axis_descr(t, i, reals) is Ok {
        let start = AxisDescrValue {
            attribute: axis_attribute(t, i)->Ok_0,
            input_quantity: word(t, i + 1)->Ok_0,
            compu_method_ref: word(t, i + 2)->Ok_0,
            max_axis_points: count(t, i + 3, reals)->Ok_0,
            lower_limit: number(t, i + 4)->Ok_0,
            upper_limit: number(t, i + 5)->Ok_0,
            axis_pts_ref: None,
            fix_axis_par_dist: None,
            fix_axis_par_list: None,
            format: None,
        };
        lemma_axis_descr_keeps(t, i + 6, start, reals);
    }
}

proof fn lemma_axis_pts_keeps(t: Seq<Tok>, i: int, acc: AxisPtsValue, reals: Seq<RealRow>)
    ensures
        axis_pts_rest(t, i, acc, reals) matches Ok((v, n)) ==> {
            &&& v.name == acc.name
            &&& v.description == acc.description
            &&& v.address == acc.address
            &&& v.input_quantity == acc.input_quantity
            &&& v.deposit == acc.deposit
            &&& v.max_diff == acc.max_diff
            &&& v.compu_method_ref == acc.compu_method_ref
            &&& v.max_axis_points == acc.max_axis_points
            &&& v.lower_limit == acc.lower_limit
            &&& v.upper_limit == acc.upper_limit
        },
    decreases left(t, i),
{
    if 0 <= i < t.len() && !at(t, i, "/end"@) {
        if let Ok((more, n)) = axis_pts_attribute(t, i, acc, reals) {
            lemma_axis_pts_keeps(t, i + 1 + n, more, reals);
        }
    }
}

/// The head of a shared axis: which token is what.
pub proof fn law_the_head_of_axis_pts(t: Seq<Tok>, i: int, reals: Seq<RealRow>)
    ensures
        axis_pts(t, i, reals) matches Ok((v, n)) ==> {
            &&& word(t, i) == Ok::<_, Fault>(v.name)
            &&& text(t, i + 1) == Ok::<_, Fault>(v.description)
            &&& address(t, i + 2) == Ok::<_, Fault>(v.address)
            &&& word(t, i + 3) == Ok::<_, Fault>(v.input_quantity)
            &&& word(t, i + 4) == Ok::<_, Fault>(v.deposit)
            &&& number(t, i + 5) == Ok::<_, Fault>(v.max_diff)
            &&& word(t, i + 6) == Ok::<_, Fault>(v.compu_method_ref)
            &&& count(t, i + 7, reals) == Ok::<_, Fault>(v.max_axis_points)
            &&& number(t, i + 8) == Ok::<_, Fault>(v.lower_limit)
            &&& number(t, i + 9) == Ok::<_, Fault>(v.upper_limit)
        },
{
    if axis_pts(t, i, reals) is Ok {
        let start = AxisPtsValue {
            name: word(t, i)->Ok_0,
            description: text(t, i + 1)->Ok_0,
            address: address(t, i + 2)->Ok_0,
            input_quantity: word(t, i + 3)->Ok_0,
            deposit: word(t, i + 4)->Ok_0,
            max_diff: number(t, i + 5)->Ok_0,
            compu_method_ref: word(t, i + 6)->Ok_0,
            max_axis_points: count(t, i + 7, reals)->Ok_0,
            lower_limit: number(t, i + 8)->Ok_0,
            upper_limit: number(t, i + 9)->Ok_0,
            format: None,
        };
        lemma_axis_pts_keeps(t, i + 10, start, reals);
    }
}

proof fn lemma_compu_method_keeps(t: Seq<Tok>, i: int, acc: CompuMethodValue, reals: Seq<RealRow>)
    ensures
        compu_method_rest(t, i, acc, reals) matches Ok((v, n)) ==> {
            &&& v.name == acc.name
            &&& v.description == acc.description
            &&& v.format == acc.format
            &&& v.unit == acc.unit
        },
    decreases left(t, i),
{
    if 0 <= i < t.len() && !at(t, i, "/end"@) {
        if let Ok((more, n)) = compu_method_attribute(t, i, acc, reals) {
            lemma_compu_method_keeps(t, i + 1 + n, more, reals);
        }
    }
}

/// The head of a conversion: which token is what.
pub proof fn law_the_head_of_compu_method(t: Seq<Tok>, i: int, reals: Seq<RealRow>)
    ensures
        compu_method(t, i, reals) matches Ok((v, n)) ==> {
            &&& word(t, i) == Ok::<_, Fault>(v.name)
            &&& text(t, i + 1) == Ok::<_, Fault>(v.description)
            &&& text(t, i + 3) == Ok::<_, Fault>(v.format)
            &&& text(t, i + 4) == Ok::<_, Fault>(v.unit)
        },
{
    if compu_method(t, i, reals) is Ok {
        let start = CompuMethodValue {
            name: word(t, i)->Ok_0,
            description: text(t, i + 1)->Ok_0,
            format: text(t, i + 3)->Ok_0,
            unit: text(t, i + 4)->Ok_0,
            conversion: plain_conversion(word(t, i + 2)->Ok_0),
        };
        lemma_compu_method_keeps(t, i + 5, start, reals);
    }
}

proof fn lemma_compu_vtab_keeps(t: Seq<Tok>, i: int, acc: CompuVtabValue, reals: Seq<RealRow>)
    ensures
        compu_vtab_rest(t, i, acc, reals) matches Ok((v, n)) ==> {
            &&& v.name == acc.name
        },
    decreases left(t, i),
{
    if 0 <= i < t.len() && !at(t, i, "/end"@) {
        if let Ok((more, n)) = compu_vtab_attribute(t, i, acc, reals) {
            lemma_compu_vtab_keeps(t, i + 1 + n, more, reals);
        }
    }
}

/// The head of a verbal table: which token is what.
pub proof fn law_the_head_of_compu_vtab(t: Seq<Tok>, i: int, reals: Seq<RealRow>)
    ensures
        compu_vtab(t, i, reals) matches Ok((v, n)) ==> {
            &&& word(t, i) == Ok::<_, Fault>(v.name)
        },
{
    if compu_vtab(t, i, reals) is Ok {
        let start = CompuVtabValue { name: word(t, i)->Ok_0, entries: Seq::empty() };
        lemma_compu_vtab_keeps(t, i + 4, start, reals);
    }
}

proof fn lemma_compu_vtab_range_keeps(t: Seq<Tok>, i: int, acc: CompuVtabRangeValue, reals: Seq<RealRow>)
    ensures
        compu_vtab_range_rest(t, i, acc, reals) matches Ok((v, n)) ==> {
            &&& v.name == acc.name
        },
    decreases left(t, i),
{
    if 0 <= i < t.len() && !at(t, i, "/end"@) {
        if let Ok((more, n)) = compu_vtab_range_attribute(t, i, acc, reals) {
            lemma_compu_vtab_range_keeps(t, i + 1 + n, more, reals);
        }
    }
}

/// The head of a verbal table of ranges: which token is what.
pub proof fn law_the_head_of_compu_vtab_range(t: Seq<Tok>, i: int, reals: Seq<RealRow>)
    ensures
        compu_vtab_range(t, i, reals) matches Ok((v, n)) ==> {
            &&& word(t, i) == Ok::<_, Fault>(v.name)
        },
{
    if compu_vtab_range(t, i, reals) is Ok {
        let start = CompuVtabRangeValue {
            name: word(t, i)->Ok_0,
            entries: Seq::empty(),
            default_label: None,
        };
        lemma_compu_vtab_range_keeps(t, i + 3, start, reals);
    }
}

proof fn lemma_record_layout_keeps(t: Seq<Tok>, i: int, acc: RecordLayoutValue, reals: Seq<RealRow>)
    ensures
        record_layout_rest(t, i, acc, reals) matches Ok((v, n)) ==> {
            &&& v.name == acc.name
        },
    decreases left(t, i),
{
    if 0 <= i < t.len() && !at(t, i, "/end"@) {
        if let Ok((more, n)) = record_layout_attribute(t, i, acc, reals) {
            lemma_record_layout_keeps(t, i + 1 + n, more, reals);
        }
    }
}

/// The head of a record layout: which token is what.
pub proof fn law_the_head_of_record_layout(t: Seq<Tok>, i: int, reals: Seq<RealRow>)
    ensures
        record_layout(t, i, reals) matches Ok((v, n)) ==> {
            &&& word(t, i) == Ok::<_, Fault>(v.name)
        },
{
    if record_layout(t, i, reals) is Ok {
        let start = no_fields(word(t, i)->Ok_0);
        lemma_record_layout_keeps(t, i + 1, start, reals);
    }
}

proof fn lemma_function_keeps(t: Seq<Tok>, i: int, acc: FunctionValue, reals: Seq<RealRow>)
    ensures
        function_rest(t, i, acc, reals) matches Ok((v, n)) ==> {
            &&& v.name == acc.name
            &&& v.description == acc.description
        },
    decreases left(t, i),
{
    if 0 <= i < t.len() && !at(t, i, "/end"@) {
        if let Ok((more, n)) = function_attribute(t, i, acc, reals) {
            lemma_function_keeps(t, i + 1 + n, more, reals);
        }
    }
}

/// The head of a function: which token is what.
pub proof fn law_the_head_of_function(t: Seq<Tok>, i: int, reals: Seq<RealRow>)
    ensures
        function(t, i, reals) matches Ok((v, n)) ==> {
            &&& word(t, i) == Ok::<_, Fault>(v.name)
            &&& text(t, i + 1) == Ok::<_, Fault>(v.description)
        },
{
    if function(t, i, reals) is Ok {
        let start = FunctionValue {
            name: word(t, i)->Ok_0,
            description: text(t, i + 1)->Ok_0,
            def_characteristics: Seq::empty(),
            ref_characteristics: Seq::empty(),
            sub_functions: Seq::empty(),
        };
        lemma_function_keeps(t, i + 2, start, reals);
    }
}

/// The names of the parts of a record layout are told apart.
proof fn lemma_layout_words(t: Seq<Tok>, i: int)
    ensures
        forall|a: int, b: int|
            0 <= a < b < 12 ==> !(at(t, i, #[trigger] layout_words()[a]) && at(
                t,
                i,
                #[trigger] layout_words()[b],
            )),
{
    reveal_strlit("/begin");
    reveal_strlit("/end");
    reveal_strlit("FNC_VALUES");
    reveal_strlit("NO_AXIS_PTS_X");
    reveal_strlit("AXIS_PTS_X");
    reveal_strlit("FIX_NO_AXIS_PTS_X");
    reveal_strlit("NO_AXIS_PTS_Y");
    reveal_strlit("AXIS_PTS_Y");
    reveal_strlit("FIX_NO_AXIS_PTS_Y");
    reveal_strlit("NO_AXIS_PTS_Z");
    reveal_strlit("AXIS_PTS_Z");
    reveal_strlit("FIX_NO_AXIS_PTS_Z");
    let w = layout_words();
    assert(w[0][0] == '/' && w[0][1] == 'b');
    assert(w[1][0] == '/' && w[1][1] == 'e');
    assert(w[2][0] == 'F' && w[2][1] == 'N');
    assert(w[3][0] == 'N' && w[3].len() == 13 && w[3][12] == 'X');
    assert(w[4][0] == 'A' && w[4].len() == 10 && w[4][9] == 'X');
    assert(w[5][0] == 'F' && w[5][1] == 'I' && w[5].len() == 17 && w[5][16] == 'X');
    assert(w[6][0] == 'N' && w[6].len() == 13 && w[6][12] == 'Y');
    assert(w[7][0] == 'A' && w[7].len() == 10 && w[7][9] == 'Y');
    assert(w[8][0] == 'F' && w[8][1] == 'I' && w[8].len() == 17 && w[8][16] == 'Y');
    assert(w[9][0] == 'N' && w[9].len() == 13 && w[9][12] == 'Z');
    assert(w[10][0] == 'A' && w[10].len() == 10 && w[10][9] == 'Z');
    assert(w[11][0] == 'F' && w[11][1] == 'I' && w[11].len() == 17 && w[11][16] == 'Z');
    assert forall|a: int, b: int| 0 <= a < b < 12 implies !(at(
        t,
        i,
        #[trigger] layout_words()[a],
    ) && at(t, i, #[trigger] layout_words()[b])) by {
        assert(w[a] != w[b]);
        lemma_one_word(t, i, w[a], w[b]);
    }
}

/// The words that a record layout is made of.
pub open spec fn layout_words() -> Seq<Seq<char>> {
    seq![
        "/begin"@,
        "/end"@,
        "FNC_VALUES"@,
        "NO_AXIS_PTS_X"@,
        "AXIS_PTS_X"@,
        "FIX_NO_AXIS_PTS_X"@,
        "NO_AXIS_PTS_Y"@,
        "AXIS_PTS_Y"@,
        "FIX_NO_AXIS_PTS_Y"@,
        "NO_AXIS_PTS_Z"@,
        "AXIS_PTS_Z"@,
        "FIX_NO_AXIS_PTS_Z"@,
    ]
}

/// Each part of a record layout is kept under its own axis: positions with their types,
/// fixed numbers of points as they are, and the values with their direction, which is by
/// columns unless it is said to be by rows.
pub proof fn law_the_parts_of_a_record_layout(
    t: Seq<Tok>,
    i: int,
    acc: RecordLayoutValue,
    position: u16,
    kind: DataType,
    mode: Seq<char>,
    amount: u16,
    reals: Seq<RealRow>,
)
    requires
        0 <= i < t.len(),
    ensures
        ({
            let two = count(t, i + 1, reals) == Ok::<_, Fault>(position) && datatype(t, i + 2)
                == Ok::<_, Fault>(kind);
            let more = word(t, i + 3) == Ok::<_, Fault>(mode) && word(t, i + 4) is Ok;
            let counted = count(t, i + 1, reals) == Ok::<_, Fault>(amount);
            let laid = LayoutField { position, datatype: kind };
            let goes_on = |with: RecordLayoutValue, n: nat|
                record_layout_rest(t, i, acc, reals) == later(
                    record_layout_rest(t, i + 1 + n, with, reals),
                    1 + n,
                );
            &&& at(t, i, "FNC_VALUES"@) && two && more ==> goes_on(
                (RecordLayoutValue {
                    fnc_values: Some(
                        FncValuesField { position, datatype: kind, column_dir: mode != "ROW_DIR"@ },
                    ),
                    ..acc
                }),
                4,
            )
            &&& at(t, i, "NO_AXIS_PTS_X"@) && two ==> goes_on(
                (RecordLayoutValue { no_axis_pts_x: Some(laid), ..acc }),
                2,
            )
            &&& at(t, i, "AXIS_PTS_X"@) && two && more ==> goes_on(
                (RecordLayoutValue { axis_pts_x: Some(laid), ..acc }),
                4,
            )
            &&& at(t, i, "FIX_NO_AXIS_PTS_X"@) && counted ==> goes_on(
                (RecordLayoutValue { fix_no_axis_pts_x: Some(amount), ..acc }),
                1,
            )
            &&& at(t, i, "NO_AXIS_PTS_Y"@) && two ==> goes_on(
                (RecordLayoutValue { no_axis_pts_y: Some(laid), ..acc }),
                2,
            )
            &&& at(t, i, "AXIS_PTS_Y"@) && two && more ==> goes_on(
                (RecordLayoutValue { axis_pts_y: Some(laid), ..acc }),
                4,
            )
            &&& at(t, i, "FIX_NO_AXIS_PTS_Y"@) && counted ==> goes_on(
                (RecordLayoutValue { fix_no_axis_pts_y: Some(amount), ..acc }),
                1,
            )
            &&& at(t, i, "NO_AXIS_PTS_Z"@) && two ==> goes_on(
                (RecordLayoutValue { no_axis_pts_z: Some(laid), ..acc }),
                2,
            )
            &&& at(t, i, "AXIS_PTS_Z"@) && two && more ==> goes_on(
                (RecordLayoutValue { axis_pts_z: Some(laid), ..acc }),
                4,
            )
            &&& at(t, i, "FIX_NO_AXIS_PTS_Z"@) && counted ==> goes_on(
                (RecordLayoutValue { fix_no_axis_pts_z: Some(amount), ..acc }),
                1,
            )
            &&& at(t, i, "/end"@) && at(t, i + 1, "RECORD_LAYOUT"@) && i + 1 < t.len()
                ==> record_layout_rest(t, i, acc, reals) == Ok::<_, Fault>((acc, 2nat))
            &&& (forall|a: int| 0 <= a < 12 ==> !at(t, i, #[trigger] layout_words()[a]))
                ==> goes_on(acc, 0)
        }),
{
    lemma_layout_words(t, i);
    let w = layout_words();
    assert(w[0] == "/begin"@ && w[1] == "/end"@ && w[2] == "FNC_VALUES"@);
    assert(w[3] == "NO_AXIS_PTS_X"@ && w[4] == "AXIS_PTS_X"@ && w[5] == "FIX_NO_AXIS_PTS_X"@);
    assert(w[6] == "NO_AXIS_PTS_Y"@ && w[7] == "AXIS_PTS_Y"@ && w[8] == "FIX_NO_AXIS_PTS_Y"@);
    assert(w[9] == "NO_AXIS_PTS_Z"@ && w[10] == "AXIS_PTS_Z"@ && w[11] == "FIX_NO_AXIS_PTS_Z"@);
}

/// Every object of a file is kept where it belongs: those that may share a name in their
/// order, the others under their names. An object that does not read fails the file.
pub proof fn law_every_object_is_kept(
    t: Seq<Tok>,
    i: int,
    kw: Seq<char>,
    file: A2lFileValue,
    open: Seq<Seq<char>>,
    reals: Seq<RealRow>,
)
    requires
        0 <= i < t.len(),
        at(t, i, "/begin"@),
        word(t, i + 1) == Ok::<_, Fault>(kw),
    ensures
        ({
            &&& kw == "MEASUREMENT"@ ==> contents(t, i, file, open, reals) == (match measurement(
                t,
                i + 2,
                reals,
            ) {
                Ok((x, n)) => contents(
                    t,
                    i + 2 + n,
                    A2lFileValue { measurements: file.measurements.push(x), ..file },
                    open,
                    reals,
                ),
                Err(e) => Err(e),
            })
            &&& kw == "CHARACTERISTIC"@ ==> contents(t, i, file, open, reals) == (match characteristic(
                t,
                i + 2,
                reals,
            ) {
                Ok((x, n)) => contents(
                    t,
                    i + 2 + n,
                    A2lFileValue { characteristics: file.characteristics.push(x), ..file },
                    open,
                    reals,
                ),
                Err(e) => Err(e),
            })
            &&& kw == "FUNCTION"@ ==> contents(t, i, file, open, reals) == (match function(
                t,
                i + 2,
                reals,
            ) {
                Ok((x, n)) => contents(
                    t,
                    i + 2 + n,
                    A2lFileValue { functions: file.functions.push(x), ..file },
                    open,
                    reals,
                ),
                Err(e) => Err(e),
            })
            &&& kw == "COMPU_METHOD"@ ==> contents(t, i, file, open, reals) == (match compu_method(
                t,
                i + 2,
                reals,
            ) {
                Ok((x, n)) => contents(
                    t,
                    i + 2 + n,
                    A2lFileValue { compu_methods: with_row(file.compu_methods, x.name, x), ..file },
                    open,
                    reals,
                ),
                Err(e) => Err(e),
            })
            &&& kw == "COMPU_VTAB"@ ==> contents(t, i, file, open, reals) == (match compu_vtab(
                t,
                i + 2,
                reals,
            ) {
                Ok((x, n)) => contents(
                    t,
                    i + 2 + n,
                    A2lFileValue { compu_vtabs: with_row(file.compu_vtabs, x.name, x), ..file },
                    open,
                    reals,
                ),
                Err(e) => Err(e),
            })
            &&& kw == "COMPU_VTAB_RANGE"@ ==> contents(t, i, file, open, reals) == (match compu_vtab_range(
                t,
                i + 2,
                reals,
            ) {
                Ok((x, n)) => contents(
                    t,
                    i + 2 + n,
                    A2lFileValue { compu_vtab_ranges: with_row(file.compu_vtab_ranges, x.name, x), ..file },
                    open,
                    reals,
                ),
                Err(e) => Err(e),
            })
            &&& kw == "AXIS_PTS"@ ==> contents(t, i, file, open, reals) == (match axis_pts(
                t,
                i + 2,
                reals,
            ) {
                Ok((x, n)) => contents(
                    t,
                    i + 2 + n,
                    A2lFileValue { axis_pts: with_row(file.axis_pts, x.name, x), ..file },
                    open,
                    reals,
                ),
                Err(e) => Err(e),
            })
            &&& kw == "RECORD_LAYOUT"@ ==> contents(t, i, file, open, reals) == (match record_layout(
                t,
                i + 2,
                reals,
            ) {
                Ok((x, n)) => contents(
                    t,
                    i + 2 + n,
                    A2lFileValue { record_layouts: with_row(file.record_layouts, x.name, x), ..file },
                    open,
                    reals,
                ),
                Err(e) => Err(e),
            })
        }),
{
    lemma_marks_differ(t, i);
    reveal_strlit("MEASUREMENT");
    reveal_strlit("CHARACTERISTIC");
    reveal_strlit("FUNCTION");
    reveal_strlit("COMPU_METHOD");
    reveal_strlit("COMPU_VTAB");
    reveal_strlit("COMPU_VTAB_RANGE");
    reveal_strlit("AXIS_PTS");
    reveal_strlit("RECORD_LAYOUT");
    assert("MEASUREMENT"@[0] == 'M' && "CHARACTERISTIC"@[0] == 'C' && "FUNCTION"@[0] == 'F');
    assert("COMPU_METHOD"@[6] == 'M' && "COMPU_VTAB"@[6] == 'V' && "COMPU_VTAB_RANGE"@[6] == 'V');
    assert("COMPU_VTAB"@.len() == 10 && "COMPU_VTAB_RANGE"@.len() == 16);
    assert("CHARACTERISTIC"@[1] == 'H' && "COMPU_METHOD"@[1] == 'O' && "COMPU_VTAB"@[1] == 'O'
        && "COMPU_VTAB_RANGE"@[1] == 'O');
    assert("AXIS_PTS"@[0] == 'A' && "RECORD_LAYOUT"@[0] == 'R' && "COMPU_METHOD"@[0] == 'C'
        && "COMPU_VTAB"@[0] == 'C' && "COMPU_VTAB_RANGE"@[0] == 'C');
}

/// The optional parts of a characteristic: its axes in their order, its format and its
/// name for display.
pub proof fn law_the_parts_of_a_characteristic(
    t: Seq<Tok>,
    i: int,
    acc: CharacteristicValue,
    reals: Seq<RealRow>,
)
    requires
        0 <= i < t.len(),
    ensures
        ({
            let r = characteristic_rest(t, i, acc, reals);
            &&& at(t, i, "/begin"@) && word(t, i + 1) == Ok::<_, Fault>("AXIS_DESCR"@) ==> r == (
            match axis_descr(t, i + 2, reals) {
                Ok((axis, n)) => later(
                    characteristic_rest(
                        t,
                        i + 2 + n,
                        CharacteristicValue { axes: acc.axes.push(axis), ..acc },
                        reals,
                    ),
                    2 + n,
                ),
                Err(e) => Err(e),
            })
            &&& at(t, i, "FORMAT"@) ==> (text(t, i + 1) matches Ok(x) ==> r == later(
                characteristic_rest(t, i + 2, CharacteristicValue { format: Some(x), ..acc }, reals),
                2,
            ))
            &&& at(t, i, "DISPLAY_IDENTIFIER"@) ==> (word(t, i + 1) matches Ok(x) ==> r == later(
                characteristic_rest(
                    t,
                    i + 2,
                    CharacteristicValue { display_identifier: Some(x), ..acc },
                    reals,
                ),
                2,
            ))
        }),
{
    lemma_marks_differ(t, i);
    reveal_strlit("/begin");
    reveal_strlit("/end");
    reveal_strlit("FORMAT");
    reveal_strlit("DISPLAY_IDENTIFIER");
    assert("/begin"@[0] == '/' && "/end"@[0] == '/' && "FORMAT"@[0] == 'F'
        && "DISPLAY_IDENTIFIER"@[0] == 'D');
    lemma_one_word(t, i, "/begin"@, "FORMAT"@);
    lemma_one_word(t, i, "/end"@, "FORMAT"@);
    lemma_one_word(t, i, "/begin"@, "DISPLAY_IDENTIFIER"@);
    lemma_one_word(t, i, "/end"@, "DISPLAY_IDENTIFIER"@);
    lemma_one_word(t, i, "FORMAT"@, "DISPLAY_IDENTIFIER"@);
}

/// The optional parts of an axis: the axis that it shares, the even spacing, as offset,
/// distance and number, and its format.
pub proof fn law_the_parts_of_an_axis(
    t: Seq<Tok>,
    i: int,
    acc: AxisDescrValue,
    offset: RealValue,
    distance: RealValue,
    points: u16,
    reals: Seq<RealRow>,
)
    requires
        0 <= i < t.len(),
    ensures
        ({
            let r = axis_descr_rest(t, i, acc, reals);
            &&& at(t, i, "AXIS_PTS_REF"@) ==> (word(t, i + 1) matches Ok(x) ==> r == later(
                axis_descr_rest(t, i + 2, AxisDescrValue { axis_pts_ref: Some(x), ..acc }, reals),
                2,
            ))
            &&& at(t, i, "FIX_AXIS_PAR_DIST"@) && number(t, i + 1) == Ok::<_, Fault>(offset)
                && number(t, i + 2) == Ok::<_, Fault>(distance) && count(t, i + 3, reals) == Ok::<
                _,
                Fault,
            >(points) ==> r == later(
                axis_descr_rest(
                    t,
                    i + 4,
                    AxisDescrValue {
                        fix_axis_par_dist: Some(
                            FixAxisParDistValue { offset, distance, count: points },
                        ),
                        ..acc
                    },
                    reals,
                ),
                4,
            )
            &&& at(t, i, "FORMAT"@) ==> (text(t, i + 1) matches Ok(x) ==> r == later(
                axis_descr_rest(t, i + 2, AxisDescrValue { format: Some(x), ..acc }, reals),
                2,
            ))
        }),
{
    reveal_strlit("/begin");
    reveal_strlit("/end");
    reveal_strlit("FORMAT");
    reveal_strlit("AXIS_PTS_REF");
    reveal_strlit("FIX_AXIS_PAR_DIST");
    assert("/begin"@[0] == '/' && "/end"@[0] == '/' && "FORMAT"@[0] == 'F' && "AXIS_PTS_REF"@[0]
        == 'A' && "FIX_AXIS_PAR_DIST"@[0] == 'F' && "FIX_AXIS_PAR_DIST"@[1] == 'I' && "FORMAT"@[1]
        == 'O');
    lemma_one_word(t, i, "/begin"@, "FORMAT"@);
    lemma_one_word(t, i, "/end"@, "FORMAT"@);
    lemma_one_word(t, i, "/begin"@, "AXIS_PTS_REF"@);
    lemma_one_word(t, i, "/end"@, "AXIS_PTS_REF"@);
    lemma_one_word(t, i, "/begin"@, "FIX_AXIS_PAR_DIST"@);
    lemma_one_word(t, i, "/end"@, "FIX_AXIS_PAR_DIST"@);
    lemma_one_word(t, i, "AXIS_PTS_REF"@, "FIX_AXIS_PAR_DIST"@);
    lemma_one_word(t, i, "AXIS_PTS_REF"@, "FORMAT"@);
    lemma_one_word(t, i, "FIX_AXIS_PAR_DIST"@, "FORMAT"@);
}

/// The coefficients of a conversion, in their order, and the table or the formula that it
/// goes by.
pub proof fn law_the_parts_of_a_conversion(
    t: Seq<Tok>,
    i: int,
    acc: CompuMethodValue,
    k: Seq<RealValue>,
    reals: Seq<RealRow>,
)
    requires
        0 <= i < t.len(),
        k.len() == 6,
    ensures
        ({
            let r = compu_method_rest(t, i, acc, reals);
            &&& at(t, i, "COEFFS"@) && (forall|j: int|
                0 <= j < 6 ==> number(t, i + 1 + j) == Ok::<_, Fault>(#[trigger] k[j])) ==> r
                == later(
                compu_method_rest(
                    t,
                    i + 7,
                    CompuMethodValue {
                        conversion: ConversionValue::RatFunc {
                            a: k[0],
                            b: k[1],
                            c: k[2],
                            d: k[3],
                            e: k[4],
                            f: k[5],
                        },
                        ..acc
                    },
                    reals,
                ),
                7,
            )
            &&& at(t, i, "COEFFS_LINEAR"@) && number(t, i + 1) == Ok::<_, Fault>(k[0]) && number(
                t,
                i + 2,
            ) == Ok::<_, Fault>(k[1]) ==> r == later(
                compu_method_rest(
                    t,
                    i + 3,
                    CompuMethodValue {
                        conversion: ConversionValue::Linear { a: k[0], b: k[1] },
                        ..acc
                    },
                    reals,
                ),
                3,
            )
            &&& at(t, i, "COMPU_TAB_REF"@) ==> (word(t, i + 1) matches Ok(x) ==> r == later(
                compu_method_rest(
                    t,
                    i + 2,
                    CompuMethodValue {
                        conversion: ConversionValue::TabVerb { tab_ref: x },
                        ..acc
                    },
                    reals,
                ),
                2,
            ))
            &&& at(t, i, "FORMULA"@) ==> (text(t, i + 1) matches Ok(x) ==> r == later(
                compu_method_rest(
                    t,
                    i + 2,
                    CompuMethodValue { conversion: ConversionValue::Form { formula: x }, ..acc },
                    reals,
                ),
                2,
            ))
        }),
{
    reveal_strlit("/begin");
    reveal_strlit("/end");
    reveal_strlit("COEFFS");
    reveal_strlit("COEFFS_LINEAR");
    reveal_strlit("COMPU_TAB_REF");
    reveal_strlit("FORMULA");
    assert("/begin"@[0] == '/' && "/end"@[0] == '/' && "FORMULA"@[0] == 'F' && "COEFFS"@[0] == 'C'
        && "COEFFS_LINEAR"@[0] == 'C' && "COMPU_TAB_REF"@[0] == 'C');
    assert("COEFFS"@[2] == 'E' && "COEFFS_LINEAR"@[2] == 'E' && "COMPU_TAB_REF"@[2] == 'M'
        && "COEFFS"@.len() == 6 && "COEFFS_LINEAR"@.len() == 13);
    lemma_one_word(t, i, "/begin"@, "COEFFS"@);
    lemma_one_word(t, i, "/end"@, "COEFFS"@);
    lemma_one_word(t, i, "/begin"@, "COEFFS_LINEAR"@);
    lemma_one_word(t, i, "/end"@, "COEFFS_LINEAR"@);
    lemma_one_word(t, i, "COEFFS"@, "COEFFS_LINEAR"@);
    lemma_one_word(t, i, "/begin"@, "COMPU_TAB_REF"@);
    lemma_one_word(t, i, "/end"@, "COMPU_TAB_REF"@);
    lemma_one_word(t, i, "COEFFS"@, "COMPU_TAB_REF"@);
    lemma_one_word(t, i, "COEFFS_LINEAR"@, "COMPU_TAB_REF"@);
    lemma_one_word(t, i, "/begin"@, "FORMULA"@);
    lemma_one_word(t, i, "/end"@, "FORMULA"@);
    lemma_one_word(t, i, "COEFFS"@, "FORMULA"@);
    lemma_one_word(t, i, "COEFFS_LINEAR"@, "FORMULA"@);
    lemma_one_word(t, i, "COMPU_TAB_REF"@, "FORMULA"@);
    if at(t, i, "COEFFS"@) && (forall|j: int|
        0 <= j < 6 ==> number(t, i + 1 + j) == Ok::<_, Fault>(#[trigger] k[j])) {
        assert(number(t, i + 1 + 0) == Ok::<_, Fault>(k[0]));
        assert(number(t, i + 1 + 1) == Ok::<_, Fault>(k[1]));
        assert(number(t, i + 1 + 2) == Ok::<_, Fault>(k[2]));
        assert(number(t, i + 1 + 3) == Ok::<_, Fault>(k[3]));
        assert(number(t, i + 1 + 4) == Ok::<_, Fault>(k[4]));
        assert(number(t, i + 1 + 5) == Ok::<_, Fault>(k[5]));
    }
}

/// The optional parts of a measurement: its address and its bits.
pub proof fn law_the_parts_of_a_measurement(
    t: Seq<Tok>,
    i: int,
    acc: MeasurementValue,
    reals: Seq<RealRow>,
)
    requires
        0 <= i < t.len(),
    ensures
        ({
            let r = measurement_rest(t, i, acc, reals);
            &&& at(t, i, "ECU_ADDRESS"@) ==> (address(t, i + 1) matches Ok(x) ==> r == later(
                measurement_rest(t, i + 2, MeasurementValue { ecu_address: Some(x), ..acc }, reals),
                2,
            ))
            &&& at(t, i, "BIT_MASK"@) ==> (mask(t, i + 1) matches Ok(x) ==> r == later(
                measurement_rest(t, i + 2, MeasurementValue { bit_mask: Some(x), ..acc }, reals),
                2,
            ))
        }),
{
    reveal_strlit("/begin");
    reveal_strlit("/end");
    reveal_strlit("ECU_ADDRESS");
    reveal_strlit("BIT_MASK");
    assert("/begin"@[0] == '/' && "/end"@[0] == '/' && "ECU_ADDRESS"@[0] == 'E' && "BIT_MASK"@[0]
        == 'B');
    lemma_one_word(t, i, "/begin"@, "ECU_ADDRESS"@);
    lemma_one_word(t, i, "/end"@, "ECU_ADDRESS"@);
    lemma_one_word(t, i, "/begin"@, "BIT_MASK"@);
    lemma_one_word(t, i, "/end"@, "BIT_MASK"@);
    lemma_one_word(t, i, "ECU_ADDRESS"@, "BIT_MASK"@);
}

/// The entries of a verbal table: a number and its label, or the two ends of a range and
/// their label, in their order.
pub proof fn law_the_entries_of_verbal_tables(
    t: Seq<Tok>,
    i: int,
    table: CompuVtabValue,
    ranges: CompuVtabRangeValue,
    low: i64,
    high: i64,
    label: Seq<char>,
    reals: Seq<RealRow>,
)
    requires
        0 <= i < t.len(),
        !at(t, i, "/begin"@),
        !at(t, i, "/end"@),
        !at(t, i, "DEFAULT_VALUE"@),
        whole_value(latin_text(t[i].bytes()), reals) == Some(low as int),
    ensures
        text(t, i + 1) == Ok::<_, Fault>(label) ==> compu_vtab_rest(t, i, table, reals) == later(
            compu_vtab_rest(
                t,
                i + 2,
                CompuVtabValue { entries: table.entries.push((low, label)), ..table },
                reals,
            ),
            2,
        ),
        whole(t, i + 1, reals) == Ok::<_, Fault>(high) && text(t, i + 2) == Ok::<_, Fault>(label)
            ==> compu_vtab_range_rest(t, i, ranges, reals) == later(
            compu_vtab_range_rest(
                t,
                i + 3,
                CompuVtabRangeValue { entries: ranges.entries.push((low, high, label)), ..ranges },
                reals,
            ),
            3,
        ),
{
}

/// A value has the label of the first entry that holds it, and no label where none does.
pub proof fn law_the_label_of_a_value(entries: Seq<(i64, i64, Seq<char>)>, value: i64, i: int)
    ensures
        0 <= i < entries.len() && entries[i].0 <= value <= entries[i].1 && (forall|j: int|
            0 <= j < i ==> !((#[trigger] entries[j]).0 <= value <= entries[j].1))
            ==> range_label_of(entries, value) == Some(entries[i].2),
        (forall|j: int|
            0 <= j < entries.len() ==> !((#[trigger] entries[j]).0 <= value <= entries[j].1))
            ==> range_label_of(entries, value) is None,
    decreases entries.len(),
{
    if entries.len() > 0 {
        let rest = entries.skip(1);
        law_the_label_of_a_value(rest, value, i - 1);
        if 0 < i < entries.len() && entries[i].0 <= value <= entries[i].1 && (forall|j: int|
            0 <= j < i ==> !((#[trigger] entries[j]).0 <= value <= entries[j].1)) {
            assert(!(entries[0].0 <= value <= entries[0].1));
            assert(rest[i - 1] == entries[i]);
            assert forall|j: int| 0 <= j < i - 1 implies !((#[trigger] rest[j]).0 <= value
                <= rest[j].1) by {
                assert(rest[j] == entries[j + 1]);
            }
        }
        if forall|j: int|
            0 <= j < entries.len() ==> !((#[trigger] entries[j]).0 <= value <= entries[j].1) {
            assert(!(entries[0].0 <= value <= entries[0].1));
            assert forall|j: int| 0 <= j < rest.len() implies !((#[trigger] rest[j]).0 <= value
                <= rest[j].1) by {
                assert(rest[j] == entries[j + 1]);
            }
        }
    }
}

/// A value of a plain verbal table has the label of the first entry with that value.
pub proof fn law_the_label_of_a_number(entries: Seq<(i64, Seq<char>)>, value: i64, i: int)
    ensures
        0 <= i < entries.len() && entries[i].0 == value && (forall|j: int|
            0 <= j < i ==> (#[trigger] entries[j]).0 != value) ==> label_of(entries, value) == Some(
            entries[i].1,
        ),
        (forall|j: int| 0 <= j < entries.len() ==> (#[trigger] entries[j]).0 != value) ==> label_of(
            entries,
            value,
        ) is None,
    decreases entries.len(),
{
    if entries.len() > 0 {
        let rest = entries.skip(1);
        law_the_label_of_a_number(rest, value, i - 1);
        if 0 < i < entries.len() && entries[i].0 == value && (forall|j: int|
            0 <= j < i ==> (#[trigger] entries[j]).0 != value) {
            assert(entries[0].0 != value);
            assert(rest[i - 1] == entries[i]);
            assert forall|j: int| 0 <= j < i - 1 implies (#[trigger] rest[j]).0 != value by {
                assert(rest[j] == entries[j + 1]);
            }
        }
        if forall|j: int| 0 <= j < entries.len() ==> (#[trigger] entries[j]).0 != value {
            assert(entries[0].0 != value);
            assert forall|j: int| 0 <= j < rest.len() implies (#[trigger] rest[j]).0 != value by {
                assert(rest[j] == entries[j + 1]);
            }
        }
    }
}

/// The names that a function lists are kept in their order.
pub proof fn law_lists_keep_their_order(
    t: Seq<Tok>,
    i: int,
    acc: Seq<Seq<char>>,
    names: Seq<Seq<u8>>,
    expected: Seq<char>,
)
    requires
        0 <= i,
        i + names.len() + 1 < t.len(),
        forall|j: int| 0 <= j < names.len() ==> t[i + j] == Tok::Word(#[trigger] names[j]),
        forall|j: int|
            0 <= j < names.len() ==> !Tok::Word(#[trigger] names[j]).is_word("/begin"@)
                && !Tok::Word(names[j]).is_word("/end"@),
        at(t, i + names.len(), "/end"@),
        word(t, i + names.len() + 1) == Ok::<_, Fault>(expected),
    ensures
        name_list(t, i, acc, expected) == Ok::<_, Fault>(
            (acc + names.map_values(|b: Seq<u8>| latin_text(b)), (names.len() + 2) as nat),
        ),
    decreases names.len(),
{
    let read = |b: Seq<u8>| latin_text(b);
    if names.len() == 0 {
        assert(acc + names.map_values(read) =~= acc);
    } else {
        let rest = names.skip(1);
        assert(t[i + 0] == Tok::Word(names[0]));
        assert(!Tok::Word(names[0]).is_word("/begin"@));
        let more = acc.push(latin_text(names[0]));
        assert forall|j: int| 0 <= j < rest.len() implies t[i + 1 + j] == Tok::Word(
            #[trigger] rest[j],
        ) && !Tok::Word(rest[j]).is_word("/begin"@) && !Tok::Word(rest[j]).is_word("/end"@) by {
            assert(rest[j] == names[j + 1]);
            assert(t[i + (j + 1)] == Tok::Word(names[j + 1]));
        }
        law_lists_keep_their_order(t, i + 1, more, rest, expected);
        assert(more + rest.map_values(read) =~= acc + names.map_values(read));
    }
}

/// A block that is not known is passed over to its own end, with whatever stands in it.
pub proof fn law_a_plain_block_is_passed_over(t: Seq<Tok>, i: int, k: nat)
    requires
        0 <= i,
        i + k + 1 < t.len(),
        forall|j: int|
            i <= j < i + k ==> !(#[trigger] t[j]).is_word("/begin"@) && !t[j].is_word("/end"@),
        at(t, i + k, "/end"@),
    ensures
        skipped(t, i, 1) == Ok::<_, Fault>(((), k + 2)),
    decreases k,
{
    lemma_marks_differ(t, i);
    if k == 0 {
        assert(skipped(t, i + 2, 0) == Ok::<_, Fault>(((), 0nat)));
    } else {
        assert(!t[i].is_word("/begin"@));
        law_a_plain_block_is_passed_over(t, i + 1, (k - 1) as nat);
    }
}

/// A block in a block has an end of its own.
pub proof fn law_blocks_nest(t: Seq<Tok>, i: int, depth: nat)
    requires
        0 <= i,
        i + 1 < t.len(),
        depth > 0,
    ensures
        at(t, i, "/begin"@) ==> skipped(t, i, depth) == later(skipped(t, i + 2, depth + 1), 2),
        at(t, i, "/end"@) ==> skipped(t, i, depth) == later(
            skipped(t, i + 2, (depth - 1) as nat),
            2,
        ),
        skipped(t, i, 0) == Ok::<_, Fault>(((), 0nat)),
{
    lemma_marks_differ(t, i);
}

/// An end has to be that of the block that was opened last, and every block has to end.
pub proof fn law_blocks_end_in_order(
    t: Seq<Tok>,
    i: int,
    kw: Seq<char>,
    file: A2lFileValue,
    open: Seq<Seq<char>>,
    reals: Seq<RealRow>,
)
    ensures
        i == t.len() && open.len() == 0 ==> contents(t, i, file, open, reals) == Ok::<_, Fault>(
            file,
        ),
        i == t.len() && open.len() > 0 ==> contents(t, i, file, open, reals) is Err,
        0 <= i < t.len() && at(t, i, "/end"@) && word(t, i + 1) == Ok::<_, Fault>(kw) && open.len()
            > 0 && open[open.len() - 1] == kw ==> contents(t, i, file, open, reals) == contents(
            t,
            i + 2,
            file,
            open.take(open.len() - 1),
            reals,
        ),
        0 <= i < t.len() && at(t, i, "/end"@) && word(t, i + 1) == Ok::<_, Fault>(kw) && open.len()
            > 0 && open[open.len() - 1] != kw ==> contents(t, i, file, open, reals) is Err,
{
    if open.len() > 0 {
        assert(open.drop_last() =~= open.take(open.len() - 1));
    }
}

/// White space and comments stand between tokens and count for nothing.
pub proof fn law_gaps_count_for_nothing(s: Seq<u8>, p: int, e: int)
    requires
        0 <= p < s.len(),
    ensures
        s[p] == 0x20 || s[p] == 0x09 || s[p] == 0x0A || s[p] == 0x0C || s[p] == 0x0D ==> token_at(
            s,
            p,
        ) == token_at(s, p + 1),
        p + 1 < s.len() && s[p] == '/' as u8 && s[p + 1] == '*' as u8 && p + 2 <= e && e + 1
            < s.len() && s[e] == '*' as u8 && s[e + 1] == '/' as u8 && (forall|k: int|
            p + 2 <= k < e ==> !(#[trigger] s[k] == '*' as u8 && s[k + 1] == '/' as u8))
            ==> token_at(s, p) == token_at(s, e + 2),
{
    assert('/' as u8 == 0x2F && '*' as u8 == 0x2A);
    if p + 1 < s.len() && s[p] == '/' as u8 && s[p + 1] == '*' as u8 && p + 2 <= e && e + 1
        < s.len() && s[e] == '*' as u8 && s[e + 1] == '/' as u8 && (forall|k: int|
        p + 2 <= k < e ==> !(#[trigger] s[k] == '*' as u8 && s[k + 1] == '/' as u8)) {
        lemma_comment(s, p + 2, e);
    }
}

proof fn lemma_comment(s: Seq<u8>, p: int, e: int)
    requires
        0 <= p <= e,
        e + 1 < s.len(),
        s[e] == 0x2A && s[e + 1] == 0x2F,
        forall|k: int| p <= k < e ==> !(#[trigger] s[k] == 0x2A && s[k + 1] == 0x2F),
    ensures
        comment_end(s, p) == e + 2,
    decreases e - p,
{
    if p < e {
        assert(!(s[p] == 0x2A && s[p + 1] == 0x2F));
        lemma_comment(s, p + 1, e);
    }
}

/// A word runs to the next white space, quote or comment, or to the end.
pub proof fn law_where_a_word_ends(s: Seq<u8>, p: int, e: int)
    requires
        0 <= p < e <= s.len(),
        forall|k: int| p <= k < e ==> #[trigger] in_a_word(s, k),
        e == s.len() || !in_a_word(s, e),
    ensures
        token_at(s, p) == Some((Tok::Word(s.subrange(p, e)), e)),
{
    assert(in_a_word(s, p));
    lemma_word_runs(s, p, e);
}

/// A byte that a word goes on with.
pub open spec fn in_a_word(s: Seq<u8>, k: int) -> bool {
    &&& s[k] != 0x20 && s[k] != 0x09 && s[k] != 0x0A && s[k] != 0x0C && s[k] != 0x0D
    &&& s[k] != '"' as u8
    &&& !(k + 1 < s.len() && s[k] == '/' as u8 && s[k + 1] == '*' as u8)
}

proof fn lemma_word_runs(s: Seq<u8>, p: int, e: int)
    requires
        0 <= p <= e <= s.len(),
        forall|k: int| p <= k < e ==> #[trigger] in_a_word(s, k),
        e == s.len() || !in_a_word(s, e),
    ensures
        word_end(s, p) == e,
    decreases e - p,
{
    assert('/' as u8 == 0x2F && '*' as u8 == 0x2A && '"' as u8 == 0x22);
    if p < e {
        assert(in_a_word(s, p));
        lemma_word_runs(s, p + 1, e);
    }
}

/// A text runs to the next quote; a backslash takes the byte behind it along.
pub proof fn law_where_a_text_ends(s: Seq<u8>, p: int, e: int)
    requires
        0 <= p < e < s.len(),
        s[p] == '"' as u8,
        s[e] == '"' as u8,
        forall|k: int|
            p < k < e ==> (#[trigger] s[k]) != '"' as u8 && s[k] != '\\' as u8,
    ensures
        token_at(s, p) == Some((Tok::Str(s.subrange(p + 1, e)), e + 1)),
{
    assert('/' as u8 == 0x2F && '*' as u8 == 0x2A && '"' as u8 == 0x22 && '\\' as u8 == 0x5C);
    lemma_text_runs(s, p + 1, e);
}

proof fn lemma_text_runs(s: Seq<u8>, p: int, e: int)
    requires
        0 <= p <= e < s.len(),
        s[e] == 0x22,
        forall|k: int| p <= k < e ==> (#[trigger] s[k]) != 0x22 && s[k] != 0x5C,
    ensures
        string_end(s, p) == e,
    decreases e - p,
{
    if p < e {
        assert(s[p] != 0x22 && s[p] != 0x5C);
        lemma_text_runs(s, p + 1, e);
    }
}

/// A quote behind a backslash does not end a text.
pub proof fn law_an_escaped_quote_ends_nothing(s: Seq<u8>, p: int)
    requires
        0 <= p,
        p + 1 < s.len(),
        s[p] == '\\' as u8,
    ensures
        string_end(s, p) == string_end(s, p + 2),
{
    assert('\\' as u8 == 0x5C);
}

/// Hexadecimal numbers are read sixteen by sixteen, capitals or not.
pub proof fn law_hexadecimal_digits(front: Seq<char>, c: char, d: nat)
    requires
        d < 16,
        d < 10 ==> c as nat == 0x30 + d,
        d >= 10 ==> c as nat == 0x61 + d - 10 || c as nat == 0x41 + d - 10,
    ensures
        hexits_value(seq![c]) == Some(d),
        hexits_value(front) matches Some(n) ==> hexits_value(front.push(c)) == Some(
            (16 * n + d) as nat,
        ),
{
    assert(front.push(c).drop_last() =~= front);
    assert(seq![c].last() == c);
    assert(front.push(c).last() == c);
}

/// A number with 0x in front is hexadecimal, one without is decimal, and one that is too
/// large is none.
pub proof fn law_unsigned_numbers(h: Seq<char>, n: nat, max: nat)
    ensures
        hexits_value(h) == Some(n) && n <= max ==> unsigned(seq!['0', 'x'] + h, max) == Some(n)
            && unsigned(seq!['0', 'X'] + h, max) == Some(n),
        hexits_value(h) == Some(n) && n > max ==> unsigned(seq!['0', 'x'] + h, max) is None,
        digits_value(h) == Some(n) && n <= max && !(h.len() > 1 && (h[1] == 'x' || h[1] == 'X'))
            ==> unsigned(h, max) == Some(n),
{
    reveal_strlit("0x");
    reveal_strlit("0X");
    let a = seq!['0', 'x'] + h;
    let b = seq!['0', 'X'] + h;
    assert(a.skip(2) =~= h);
    assert(b.skip(2) =~= h);
    assert(a.take(2) =~= "0x"@);
    assert(b.take(2) =~= "0X"@);
    if starts_with(h, "0x"@) {
        assert(h.take(2)[1] == 'x');
    }
    if starts_with(h, "0X"@) {
        assert(h.take(2)[1] == 'X');
    }
    if h.len() > 0 && h[0] == '+' {
        lemma_no_plus(h);
    }
}

proof fn lemma_no_plus(h: Seq<char>)
    requires
        h.len() > 0,
        h[0] == '+',
    ensures
        hexits_value(h) is None,
        digits_value(h) is None,
    decreases h.len(),
{
    if h.len() > 1 {
        let shorter = h.drop_last();
        assert(shorter[0] == h[0]);
        lemma_no_plus(shorter);
    } else {
        assert(h.last() == '+');
    }
}

/// A minus sign makes a number negative; hexadecimal digits beyond the largest positive
/// number stand for the negative one with the same bits.
pub proof fn law_signed_numbers(h: Seq<char>, n: nat)
    ensures
        digits_value(h) == Some(n) && n <= 0x8000_0000_0000_0000 ==> signed_value(seq!['-'] + h)
            == Some(0 - n),
        digits_value(h) == Some(n) && n < 0x8000_0000_0000_0000 ==> signed_value(h) == Some(
            n as int,
        ),
        hexits_value(h) == Some(n) && n < 0x8000_0000_0000_0000 ==> signed_hex_value(h) == Some(
            n as int,
        ),
        hexits_value(h) == Some(n) && 0x8000_0000_0000_0000 <= n < 0x1_0000_0000_0000_0000
            ==> signed_hex_value(h) == Some(n - 0x1_0000_0000_0000_0000),
{
    let m = seq!['-'] + h;
    assert(m.skip(1) =~= h);
    assert(m[0] == '-');
    if h.len() > 0 && h[0] == '+' {
        lemma_no_plus(h);
    }
    if h.len() > 0 && h[0] == '-' {
        lemma_no_minus(h);
    }
}

proof fn lemma_no_minus(h: Seq<char>)
    requires
        h.len() > 0,
        h[0] == '-',
    ensures
        hexits_value(h) is None,
        digits_value(h) is None,
    decreases h.len(),
{
    if h.len() > 1 {
        let shorter = h.drop_last();
        assert(shorter[0] == h[0]);
        lemma_no_minus(shorter);
    } else {
        assert(h.last() == '-');
    }
}

proof fn lemma_first_place(s: Seq<char>, a: char, b: char)
    requires
        forall|i: int| 0 <= i < s.len() ==> (#[trigger] s[i]) != a && s[i] != b,
    ensures
        first_place(s, a, b) == s.len(),
    decreases s.len(),
{
    if s.len() > 0 {
        assert(s[0] != a && s[0] != b);
        let rest = s.skip(1);
        assert forall|i: int| 0 <= i < rest.len() implies (#[trigger] rest[i]) != a && rest[i]
            != b by {
            assert(rest[i] == s[i + 1]);
        }
        lemma_first_place(rest, a, b);
    }
}

proof fn lemma_place_behind(front: Seq<char>, c: char, back: Seq<char>, a: char, b: char)
    requires
        forall|i: int| 0 <= i < front.len() ==> (#[trigger] front[i]) != a && front[i] != b,
        c == a || c == b,
    ensures
        first_place(front + seq![c] + back, a, b) == front.len(),
    decreases front.len(),
{
    let s = front + seq![c] + back;
    if front.len() > 0 {
        assert(front[0] != a && front[0] != b);
        let rest = front.skip(1);
        assert forall|i: int| 0 <= i < rest.len() implies (#[trigger] rest[i]) != a && rest[i]
            != b by {
            assert(rest[i] == front[i + 1]);
        }
        lemma_place_behind(rest, c, back, a, b);
        assert(s.skip(1) =~= rest + seq![c] + back);
        assert(s[0] == front[0]);
    } else {
        assert(s[0] == c);
    }
}

/// Digits alone.
pub open spec fn all_digits(s: Seq<char>) -> bool {
    forall|i: int| 0 <= i < s.len() ==> '0' <= #[trigger] s[i] <= '9'
}

/// Decimal numbers: digits, with a point among them or not, with an exponent behind them or
/// not, and a sign in front of either or not.
pub proof fn law_decimal_numbers(a: Seq<char>, b: Seq<char>, e: Seq<char>)
    requires
        all_digits(a),
        all_digits(b),
        all_digits(e),
        a.len() > 0,
        e.len() > 0,
    ensures
        is_decimal(a),
        is_decimal(a + seq!['.'] + b),
        is_decimal(a + seq!['e'] + e),
        is_decimal(a + seq!['E'] + (seq!['-'] + e)),
        is_decimal(seq!['-'] + a),
        is_decimal(seq!['+'] + a),
{
    assert forall|i: int| 0 <= i < a.len() implies (#[trigger] a[i]) != '.' && a[i] != 'e' && a[i]
        != 'E' && a[i] != '+' && a[i] != '-' by {}
    lemma_first_place(a, '.', '.');
    lemma_first_place(a, 'e', 'E');
    assert(a.take(a.len() as int) =~= a);
    assert(a[0] != '+' && a[0] != '-');
    assert(is_mantissa(a));
    let p = a + seq!['.'] + b;
    assert forall|i: int| 0 <= i < p.len() implies (#[trigger] p[i]) != 'e' && p[i] != 'E' by {
        if i < a.len() {
            assert(p[i] == a[i]);
        } else if i > a.len() {
            assert(p[i] == b[i - a.len() - 1]);
        }
    }
    lemma_first_place(p, 'e', 'E');
    lemma_place_behind(a, '.', b, '.', '.');
    assert(p.take(p.len() as int) =~= p);
    assert(p.take(a.len() as int) =~= a);
    assert(p.skip(a.len() as int + 1) =~= b);
    assert(p[0] == a[0]);
    assert(is_mantissa(p));
    let x = a + seq!['e'] + e;
    lemma_place_behind(a, 'e', e, 'e', 'E');
    assert(x.take(a.len() as int) =~= a);
    assert(x.skip(a.len() as int + 1) =~= e);
    assert(x[0] == a[0]);
    assert(e[0] != '+' && e[0] != '-');
    assert(is_exponent(e));
    let m = seq!['-'] + e;
    let y = a + seq!['E'] + m;
    lemma_place_behind(a, 'E', m, 'e', 'E');
    assert(y.take(a.len() as int) =~= a);
    assert(y.skip(a.len() as int + 1) =~= m);
    assert(y[0] == a[0]);
    assert(m.skip(1) =~= e);
    assert(m[0] == '-');
    assert(is_exponent(m));
    let n = seq!['-'] + a;
    let q = seq!['+'] + a;
    assert(n.skip(1) =~= a && q.skip(1) =~= a);
    assert(n[0] == '-' && q[0] == '+');
}

/// Where a number need not be whole, hexadecimal digits stand for the whole number and a
/// decimal number for itself; nothing else is a number.
pub proof fn law_numbers_that_need_not_be_whole(s: Seq<char>, h: Seq<char>, n: nat)
    requires
        hexits_value(h) == Some(n),
    ensures
        n <= u64::MAX ==> real_value(seq!['0', 'x'] + h) == Some(RealValue::Whole(n as u64)),
        n > u64::MAX ==> real_value(seq!['0', 'x'] + h) is None,
        !(s.len() > 1 && s[0] == '0' && (s[1] == 'x' || s[1] == 'X')) ==> {
            &&& is_decimal(s) ==> real_value(s) == Some(RealValue::Decimal(s))
            &&& !is_decimal(s) ==> real_value(s) is None
        },
{
    reveal_strlit("0x");
    reveal_strlit("0X");
    let a = seq!['0', 'x'] + h;
    assert(a.skip(2) =~= h);
    assert(a.take(2) =~= "0x"@);
    if h.len() > 0 && h[0] == '+' {
        lemma_no_plus(h);
    }
    if starts_with(s, "0x"@) {
        assert(s.take(2)[0] == '0' && s.take(2)[1] == 'x');
    }
    if starts_with(s, "0X"@) {
        assert(s.take(2)[0] == '0' && s.take(2)[1] == 'X');
    }
}

/// Digits count as they are where a count or a whole number is wanted; a decimal number
/// that is not whole counts as it was cut.
pub proof fn law_counts_and_whole_numbers(s: Seq<char>, n: nat, reals: Seq<RealRow>)
    ensures
        digits_value(s) == Some(n) && n <= 65535 ==> count_value(s, reals) == Some(n),
        digits_value(s) == Some(n) && n < 0x8000_0000_0000_0000 && !(s.len() > 1 && (s[1] == 'x'
            || s[1] == 'X')) ==> whole_value(s, reals) == Some(n as int),
        unsigned_value(s) is None && is_decimal(s) ==> count_value(s, reals) == (match real_row(
            reals,
            s,
        ) {
            Some(row) => Some(row.as_u16 as nat),
            None => None,
        }),
        unsigned_value(s) is None && !is_decimal(s) ==> count_value(s, reals) is None,
{
    reveal_strlit("0x");
    reveal_strlit("0X");
    if s.len() > 0 && s[0] == '+' {
        lemma_no_plus(s);
    }
    if s.len() > 0 && s[0] == '-' {
        lemma_no_minus(s);
    }
    if starts_with(s, "0x"@) {
        assert(s.take(2)[1] == 'x');
    }
    if starts_with(s, "0X"@) {
        assert(s.take(2)[1] == 'X');
    }
}

/// The points that are listed for a fixed axis are kept in their order.
pub proof fn law_listed_points_keep_their_order(
    t: Seq<Tok>,
    i: int,
    acc: Seq<RealValue>,
    points: Seq<RealValue>,
)
    requires
        0 <= i,
        i + points.len() + 1 < t.len(),
        forall|j: int|
            0 <= j < points.len() ==> real_value(latin_text(t[i + j].bytes())) == Some(
                #[trigger] points[j],
            ) && !t[i + j].is_word("/end"@),
        at(t, i + points.len(), "/end"@),
        at(t, i + points.len() + 1, "FIX_AXIS_PAR_LIST"@),
    ensures
        par_list(t, i, acc) == Ok::<_, Fault>((acc + points, (points.len() + 2) as nat)),
    decreases points.len(),
{
    if points.len() == 0 {
        assert(acc + points =~= acc);
    } else {
        let rest = points.skip(1);
        assert(real_value(latin_text(t[i + 0].bytes())) == Some(points[0]));
        let more = acc.push(points[0]);
        assert forall|j: int| 0 <= j < rest.len() implies real_value(
            latin_text(t[i + 1 + j].bytes()),
        ) == Some(#[trigger] rest[j]) && !t[i + 1 + j].is_word("/end"@) by {
            assert(rest[j] == points[j + 1]);
            assert(real_value(latin_text(t[i + (j + 1)].bytes())) == Some(points[j + 1]));
        }
        law_listed_points_keep_their_order(t, i + 1, more, rest);
        assert(more + rest =~= acc + points);
    }
}

} // verus!
