//! Parser for A2L files.

use vstd::prelude::*;

use super::lexer::{latin_text, tokenize, tokens, toks, Tok, Token};
use super::number::{
    count_value, parse_count, parse_number, parse_real, parse_whole, real_value, unsigned, whole_value,
    is_decimal, decimal, Real, RealRow, RealValue,
};
use super::table::{distinct, law_names_stay_distinct, with_row, Table};
use super::types::{
    entries_of, ranges_of, views, A2lFile, A2lFileValue, AxisAttribute, AxisDescr, AxisDescrValue,
    AxisPts, AxisPtsValue, Characteristic, CharacteristicType, CharacteristicValue, CompuMethod,
    CompuMethodValue, CompuVtab, CompuVtabRange, CompuVtabRangeValue, CompuVtabValue, Conversion,
    ConversionValue, DataType, Error, Fault, FixAxisParDist, FixAxisParDistValue, FncValuesField,
    Function, FunctionValue, LayoutField, Measurement, MeasurementValue, RecordLayout,
    RecordLayoutValue,
};
use crate::text::{lossy_utf8, str_eq, utf8_lossy};

verus! {

/// How many tokens are left.
pub open spec fn left(t: Seq<Tok>, i: int) -> nat {
    if 0 <= i < t.len() {
        (t.len() - i) as nat
    } else {
        0
    }
}

/// Whether a word stands at `i`.
pub open spec fn at(t: Seq<Tok>, i: int, word: Seq<char>) -> bool {
    t[i].is_word(word)
}

/// The word at `i`.
pub open spec fn word(t: Seq<Tok>, i: int) -> Result<Seq<char>, Fault> {
    if i >= t.len() {
        Err(Fault::UnexpectedEof)
    } else {
        match t[i] {
            Tok::Word(b) => Ok(utf8_lossy(b)),
            Tok::Str(_) => Err(Fault::ExpectedWord),
        }
    }
}

/// The token at `i`, whatever it is.
pub open spec fn text(t: Seq<Tok>, i: int) -> Result<Seq<char>, Fault> {
    if i >= t.len() {
        Err(Fault::UnexpectedEof)
    } else {
        Ok(latin_text(t[i].bytes()))
    }
}

/// Demand a keyword at `i`.
pub open spec fn keyword(t: Seq<Tok>, i: int, expected: Seq<char>) -> Result<(), Fault> {
    if i >= t.len() {
        Err(Fault::UnexpectedEof)
    } else if at(t, i, expected) {
        Ok(())
    } else {
        match t[i] {
            Tok::Word(b) => Err(Fault::UnexpectedKeyword { expected, got: utf8_lossy(b) }),
            Tok::Str(_) => Err(Fault::ExpectedWord),
        }
    }
}

/// The datatype at `i`.
pub open spec fn datatype(t: Seq<Tok>, i: int) -> Result<DataType, Fault> {
    match word(t, i) {
        Err(e) => Err(e),
        Ok(s) => if s == "UBYTE"@ {
            Ok(DataType::UByte)
        } else if s == "SBYTE"@ {
            Ok(DataType::SByte)
        } else if s == "UWORD"@ {
            Ok(DataType::UWord)
        } else if s == "SWORD"@ {
            Ok(DataType::SWord)
        } else if s == "ULONG"@ {
            Ok(DataType::ULong)
        } else if s == "SLONG"@ {
            Ok(DataType::SLong)
        } else if s == "A_UINT64"@ {
            Ok(DataType::AUint64)
        } else if s == "A_INT64"@ {
            Ok(DataType::AInt64)
        } else if s == "FLOAT32_IEEE"@ {
            Ok(DataType::Float32Ieee)
        } else if s == "FLOAT64_IEEE"@ {
            Ok(DataType::Float64Ieee)
        } else {
            Err(Fault::UnknownDatatype(s))
        },
    }
}

/// The shape of a characteristic at `i`.
pub open spec fn characteristic_type(t: Seq<Tok>, i: int) -> Result<CharacteristicType, Fault> {
    match word(t, i) {
        Err(e) => Err(e),
        Ok(s) => if s == "VALUE"@ {
            Ok(CharacteristicType::Value)
        } else if s == "CURVE"@ {
            Ok(CharacteristicType::Curve)
        } else if s == "MAP"@ {
            Ok(CharacteristicType::Map2d)
        } else if s == "CUBOID"@ {
            Ok(CharacteristicType::Cuboid)
        } else if s == "CUBE_4"@ {
            Ok(CharacteristicType::Cube4)
        } else if s == "CUBE_5"@ {
            Ok(CharacteristicType::Cube5)
        } else if s == "VAL_BLK"@ {
            Ok(CharacteristicType::ValBlk)
        } else if s == "ASCII"@ {
            Ok(CharacteristicType::Ascii)
        } else {
            Err(Fault::UnknownDatatype(s))
        },
    }
}

/// The kind of an axis at `i`.
pub open spec fn axis_attribute(t: Seq<Tok>, i: int) -> Result<AxisAttribute, Fault> {
    match word(t, i) {
        Err(e) => Err(e),
        Ok(s) => if s == "STD_AXIS"@ {
            Ok(AxisAttribute::StdAxis)
        } else if s == "COM_AXIS"@ {
            Ok(AxisAttribute::ComAxis)
        } else if s == "FIX_AXIS"@ {
            Ok(AxisAttribute::FixAxis)
        } else if s == "CURVE_AXIS"@ {
            Ok(AxisAttribute::CurveAxis)
        } else if s == "RES_AXIS"@ {
            Ok(AxisAttribute::ResAxis)
        } else {
            Err(Fault::UnknownDatatype(s))
        },
    }
}

/// The number at `i`, which need not be whole.
pub open spec fn number(t: Seq<Tok>, i: int) -> Result<RealValue, Fault> {
    match word(t, i) {
        Err(e) => Err(e),
        Ok(s) => match real_value(s) {
            Some(x) => Ok(x),
            None => Err(Fault::ParseFloat(s)),
        },
    }
}

/// The address at `i`.
pub open spec fn address(t: Seq<Tok>, i: int) -> Result<u32, Fault> {
    match word(t, i) {
        Err(e) => Err(e),
        Ok(s) => match unsigned(s, u32::MAX as nat) {
            Some(n) => Ok(n as u32),
            None => Err(Fault::ParseInt(s)),
        },
    }
}

/// The bit mask at `i`.
pub open spec fn mask(t: Seq<Tok>, i: int) -> Result<u64, Fault> {
    match word(t, i) {
        Err(e) => Err(e),
        Ok(s) => match unsigned(s, u64::MAX as nat) {
            Some(n) => Ok(n as u64),
            None => Err(Fault::ParseInt(s)),
        },
    }
}

/// The whole number at `i`.
pub open spec fn whole(t: Seq<Tok>, i: int, reals: Seq<RealRow>) -> Result<i64, Fault> {
    match word(t, i) {
        Err(e) => Err(e),
        Ok(s) => match whole_value(s, reals) {
            Some(n) => Ok(n as i64),
            None => Err(Fault::ParseInt(s)),
        },
    }
}

/// The count at `i`.
pub open spec fn count(t: Seq<Tok>, i: int, reals: Seq<RealRow>) -> Result<u16, Fault> {
    match word(t, i) {
        Err(e) => Err(e),
        Ok(s) => match count_value(s, reals) {
            Some(n) => Ok(n as u16),
            None => Err(Fault::ParseInt(s)),
        },
    }
}

fn read_word<'a>(v: &Vec<Token<'a>>, pos: usize) -> (r: Result<String, Error>)
    requires
        pos <= v@.len(),
    ensures
        match r {
            Ok(s) => word(toks(v@), pos as int) == Ok::<Seq<char>, Fault>(s@) && pos < v@.len() <= usize::MAX,
            Err(e) => word(toks(v@), pos as int) == Err::<Seq<char>, Fault>(e@),
        },
{
    if pos >= v.len() {
        return Err(Error::UnexpectedEof);
    }
    match v[pos] {
        Token::Word(b) => Ok(lossy_utf8(b)),
        Token::Str(_) => Err(Error::ExpectedWord),
    }
}

fn read_text<'a>(v: &Vec<Token<'a>>, pos: usize) -> (r: Result<String, Error>)
    requires
        pos <= v@.len(),
    ensures
        match r {
            Ok(s) => text(toks(v@), pos as int) == Ok::<Seq<char>, Fault>(s@) && pos < v@.len() <= usize::MAX,
            Err(e) => text(toks(v@), pos as int) == Err::<Seq<char>, Fault>(e@),
        },
{
    if pos >= v.len() {
        return Err(Error::UnexpectedEof);
    }
    Ok(v[pos].as_str_lossy())
}

fn read_keyword<'a>(v: &Vec<Token<'a>>, pos: usize, expected: &str) -> (r: Result<(), Error>)
    requires
        pos <= v@.len(),
    ensures
        match r {
            Ok(_) => keyword(toks(v@), pos as int, expected@) == Ok::<(), Fault>(()) && pos
                < v@.len() <= usize::MAX,
            Err(e) => keyword(toks(v@), pos as int, expected@) == Err::<(), Fault>(e@),
        },
{
    if pos >= v.len() {
        return Err(Error::UnexpectedEof);
    }
    if v[pos].eq_word(expected) {
        return Ok(());
    }
    match v[pos] {
        Token::Word(b) => Err(
            Error::UnexpectedKeyword { expected: expected.to_owned(), got: lossy_utf8(b) },
        ),
        Token::Str(_) => Err(Error::ExpectedWord),
    }
}

fn read_datatype<'a>(v: &Vec<Token<'a>>, pos: usize) -> (r: Result<DataType, Error>)
    requires
        pos <= v@.len(),
    ensures
        match r {
            Ok(x) => datatype(toks(v@), pos as int) == Ok::<DataType, Fault>(x) && pos < v@.len() <= usize::MAX,
            Err(e) => datatype(toks(v@), pos as int) == Err::<DataType, Fault>(e@),
        },
{
    let s = match read_word(v, pos) {
        Ok(s) => s,
        Err(e) => {
            return Err(e);
        },
    };
    if str_eq(s.as_str(), "UBYTE") {
        Ok(DataType::UByte)
    } else if str_eq(s.as_str(), "SBYTE") {
        Ok(DataType::SByte)
    } else if str_eq(s.as_str(), "UWORD") {
        Ok(DataType::UWord)
    } else if str_eq(s.as_str(), "SWORD") {
        Ok(DataType::SWord)
    } else if str_eq(s.as_str(), "ULONG") {
        Ok(DataType::ULong)
    } else if str_eq(s.as_str(), "SLONG") {
        Ok(DataType::SLong)
    } else if str_eq(s.as_str(), "A_UINT64") {
        Ok(DataType::AUint64)
    } else if str_eq(s.as_str(), "A_INT64") {
        Ok(DataType::AInt64)
    } else if str_eq(s.as_str(), "FLOAT32_IEEE") {
        Ok(DataType::Float32Ieee)
    } else if str_eq(s.as_str(), "FLOAT64_IEEE") {
        Ok(DataType::Float64Ieee)
    } else {
        Err(Error::UnknownDatatype(s))
    }
}

fn read_characteristic_type<'a>(v: &Vec<Token<'a>>, pos: usize) -> (r: Result<CharacteristicType, Error>)
    requires
        pos <= v@.len(),
    ensures
        match r {
            Ok(x) => characteristic_type(toks(v@), pos as int) == Ok::<CharacteristicType, Fault>(x) && pos < v@.len() <= usize::MAX,
            Err(e) => characteristic_type(toks(v@), pos as int) == Err::<CharacteristicType, Fault>(e@),
        },
{
    let s = match read_word(v, pos) {
        Ok(s) => s,
        Err(e) => {
            return Err(e);
        },
    };
    if str_eq(s.as_str(), "VALUE") {
        Ok(CharacteristicType::Value)
    } else if str_eq(s.as_str(), "CURVE") {
        Ok(CharacteristicType::Curve)
    } else if str_eq(s.as_str(), "MAP") {
        Ok(CharacteristicType::Map2d)
    } else if str_eq(s.as_str(), "CUBOID") {
        Ok(CharacteristicType::Cuboid)
    } else if str_eq(s.as_str(), "CUBE_4") {
        Ok(CharacteristicType::Cube4)
    } else if str_eq(s.as_str(), "CUBE_5") {
        Ok(CharacteristicType::Cube5)
    } else if str_eq(s.as_str(), "VAL_BLK") {
        Ok(CharacteristicType::ValBlk)
    } else if str_eq(s.as_str(), "ASCII") {
        Ok(CharacteristicType::Ascii)
    } else {
        Err(Error::UnknownDatatype(s))
    }
}

fn read_axis_attribute<'a>(v: &Vec<Token<'a>>, pos: usize) -> (r: Result<AxisAttribute, Error>)
    requires
        pos <= v@.len(),
    ensures
        match r {
            Ok(x) => axis_attribute(toks(v@), pos as int) == Ok::<AxisAttribute, Fault>(x) && pos < v@.len() <= usize::MAX,
            Err(e) => axis_attribute(toks(v@), pos as int) == Err::<AxisAttribute, Fault>(e@),
        },
{
    let s = match read_word(v, pos) {
        Ok(s) => s,
        Err(e) => {
            return Err(e);
        },
    };
    if str_eq(s.as_str(), "STD_AXIS") {
        Ok(AxisAttribute::StdAxis)
    } else if str_eq(s.as_str(), "COM_AXIS") {
        Ok(AxisAttribute::ComAxis)
    } else if str_eq(s.as_str(), "FIX_AXIS") {
        Ok(AxisAttribute::FixAxis)
    } else if str_eq(s.as_str(), "CURVE_AXIS") {
        Ok(AxisAttribute::CurveAxis)
    } else if str_eq(s.as_str(), "RES_AXIS") {
        Ok(AxisAttribute::ResAxis)
    } else {
        Err(Error::UnknownDatatype(s))
    }
}

fn read_number<'a>(v: &Vec<Token<'a>>, pos: usize) -> (r: Result<Real, Error>)
    requires
        pos <= v@.len(),
    ensures
        match r {
            Ok(x) => number(toks(v@), pos as int) == Ok::<RealValue, Fault>(x@) && pos < v@.len() <= usize::MAX,
            Err(e) => number(toks(v@), pos as int) == Err::<RealValue, Fault>(e@),
        },
{
    let s = match read_word(v, pos) {
        Ok(s) => s,
        Err(e) => {
            return Err(e);
        },
    };
    match parse_real(s.as_str()) {
        Some(x) => Ok(x),
        None => Err(Error::ParseFloat(s)),
    }
}

fn read_address<'a>(v: &Vec<Token<'a>>, pos: usize) -> (r: Result<u32, Error>)
    requires
        pos <= v@.len(),
    ensures
        match r {
            Ok(x) => address(toks(v@), pos as int) == Ok::<u32, Fault>(x) && pos < v@.len() <= usize::MAX,
            Err(e) => address(toks(v@), pos as int) == Err::<u32, Fault>(e@),
        },
{
    let s = match read_word(v, pos) {
        Ok(s) => s,
        Err(e) => {
            return Err(e);
        },
    };
    match parse_number(s.as_str(), u32::MAX as u64) {
        Some(x) => Ok(x as u32),
        None => Err(Error::ParseInt(s)),
    }
}

fn read_mask<'a>(v: &Vec<Token<'a>>, pos: usize) -> (r: Result<u64, Error>)
    requires
        pos <= v@.len(),
    ensures
        match r {
            Ok(x) => mask(toks(v@), pos as int) == Ok::<u64, Fault>(x) && pos < v@.len() <= usize::MAX,
            Err(e) => mask(toks(v@), pos as int) == Err::<u64, Fault>(e@),
        },
{
    let s = match read_word(v, pos) {
        Ok(s) => s,
        Err(e) => {
            return Err(e);
        },
    };
    match parse_number(s.as_str(), u64::MAX) {
        Some(x) => Ok(x),
        None => Err(Error::ParseInt(s)),
    }
}

fn read_whole<'a>(v: &Vec<Token<'a>>, pos: usize, reals: &Vec<RealRow>) -> (r: Result<i64, Error>)
    requires
        pos <= v@.len(),
    ensures
        match r {
            Ok(x) => whole(toks(v@), pos as int, reals@) == Ok::<i64, Fault>(x) && pos < v@.len() <= usize::MAX,
            Err(e) => whole(toks(v@), pos as int, reals@) == Err::<i64, Fault>(e@),
        },
{
    let s = match read_word(v, pos) {
        Ok(s) => s,
        Err(e) => {
            return Err(e);
        },
    };
    match parse_whole(s.as_str(), reals) {
        Some(x) => Ok(x),
        None => Err(Error::ParseInt(s)),
    }
}

fn read_count<'a>(v: &Vec<Token<'a>>, pos: usize, reals: &Vec<RealRow>) -> (r: Result<u16, Error>)
    requires
        pos <= v@.len(),
    ensures
        match r {
            Ok(x) => count(toks(v@), pos as int, reals@) == Ok::<u16, Fault>(x) && pos < v@.len() <= usize::MAX,
            Err(e) => count(toks(v@), pos as int, reals@) == Err::<u16, Fault>(e@),
        },
{
    let s = match read_word(v, pos) {
        Ok(s) => s,
        Err(e) => {
            return Err(e);
        },
    };
    match parse_count(s.as_str(), reals) {
        Some(x) => Ok(x),
        None => Err(Error::ParseInt(s)),
    }
}

/// A result that took `n` more tokens.
pub open spec fn later<V>(r: Result<(V, nat), Fault>, n: nat) -> Result<(V, nat), Fault> {
    match r {
        Ok((x, m)) => Ok((x, m + n)),
        Err(e) => Err(e),
    }
}

/// How many tokens there are up to and with the `/end` and the keyword of the
/// block that is open at `i`, `depth` blocks deep.
pub open spec fn skipped(t: Seq<Tok>, i: int, depth: nat) -> Result<((), nat), Fault>
    decreases left(t, i),
{
    if depth == 0 {
        Ok(((), 0))
    } else if i < 0 || i >= t.len() {
        Err(Fault::UnexpectedEof)
    } else if at(t, i, "/begin"@) {
        match text(t, i + 1) {
            Err(e) => Err(e),
            Ok(_) => later(skipped(t, i + 2, depth + 1), 2),
        }
    } else if at(t, i, "/end"@) {
        match text(t, i + 1) {
            Err(e) => Err(e),
            Ok(_) => later(skipped(t, i + 2, (depth - 1) as nat), 2),
        }
    } else {
        later(skipped(t, i + 1, depth), 1)
    }
}

fn skip_block<'a>(v: &Vec<Token<'a>>, pos: usize) -> (r: Result<usize, Error>)
    requires
        pos <= v@.len(),
    ensures
        match r {
            Ok(p) => skipped(toks(v@), pos as int, 1) == Ok::<((), nat), Fault>(
                ((), (p - pos) as nat),
            ) && pos <= p <= v@.len(),
            Err(e) => skipped(toks(v@), pos as int, 1) == Err::<((), nat), Fault>(e@),
        },
{
    let ghost t = toks(v@);
    let mut depth: usize = 1;
    let mut p: usize = pos;
    while depth > 0
        invariant
            pos <= p <= v@.len(),
            depth <= 1 + p - pos,
            t == toks(v@),
            skipped(t, pos as int, 1) == later(skipped(t, p as int, depth as nat), (p - pos) as nat),
        decreases v@.len() - p, depth,
    {
        if p >= v.len() {
            return Err(Error::UnexpectedEof);
        }
        assert(t[p as int] == v@[p as int]@);
        if v[p].eq_word("/begin") {
            if let Err(e) = read_text(v, p + 1) {
                return Err(e);
            }
            p = p + 2;
            depth = depth + 1;
        } else if v[p].eq_word("/end") {
            if let Err(e) = read_text(v, p + 1) {
                return Err(e);
            }
            p = p + 2;
            depth = depth - 1;
        } else {
            p = p + 1;
        }
    }
    Ok(p)
}

/// What the token at `i`, with the tokens that belong to it, adds to a MEASUREMENT block; and
/// how many belong to it.
pub open spec fn measurement_attribute(
    t: Seq<Tok>,
    i: int,
    acc: MeasurementValue,
    reals: Seq<RealRow>,
) -> Result<(MeasurementValue, nat), Fault> {
    if at(t, i, "/begin"@) {
        match skipped(t, i + 1, 1) {
            Ok((_, n)) => Ok((acc, n)),
            Err(e) => Err(e),
        }
    } else if at(t, i, "ECU_ADDRESS"@) {
        match address(t, i + 1) {
            Ok(x) => Ok(((MeasurementValue { ecu_address: Some(x), ..acc }), 1)),
            Err(e) => Err(e),
        }
    } else if at(t, i, "BIT_MASK"@) {
        match mask(t, i + 1) {
            Ok(x) => Ok(((MeasurementValue { bit_mask: Some(x), ..acc }), 1)),
            Err(e) => Err(e),
        }
    } else {
        Ok((acc, 0))
    }
}

/// The rest of a MEASUREMENT block from `i` on.
pub open spec fn measurement_rest(t: Seq<Tok>, i: int, acc: MeasurementValue, reals: Seq<RealRow>) -> Result<
    (MeasurementValue, nat),
    Fault,
>
    decreases left(t, i),
{
    if i < 0 || i >= t.len() {
        Err(Fault::UnexpectedEof)
    } else if at(t, i, "/end"@) {
        match keyword(t, i + 1, "MEASUREMENT"@) {
            Ok(_) => Ok((acc, 2)),
            Err(e) => Err(e),
        }
    } else {
        match measurement_attribute(t, i, acc, reals) {
            Ok((more, n)) => later(measurement_rest(t, i + 1 + n, more, reals), 1 + n),
            Err(e) => Err(e),
        }
    }
}

/// A MEASUREMENT block, and how many tokens it takes.
pub open spec fn measurement(t: Seq<Tok>, i: int, reals: Seq<RealRow>) -> Result<(MeasurementValue, nat), Fault> {
    let name = word(t, i);
    let description = text(t, i + 1);
    let kind = datatype(t, i + 2);
    let method = word(t, i + 3);
    let resolution = text(t, i + 4);
    let accuracy = text(t, i + 5);
    let lowest = text(t, i + 6);
    let highest = text(t, i + 7);
    if name is Err {
        Err(name->Err_0)
    } else if description is Err {
        Err(description->Err_0)
    } else if kind is Err {
        Err(kind->Err_0)
    } else if method is Err {
        Err(method->Err_0)
    } else if resolution is Err {
        Err(resolution->Err_0)
    } else if accuracy is Err {
        Err(accuracy->Err_0)
    } else if lowest is Err {
        Err(lowest->Err_0)
    } else if highest is Err {
        Err(highest->Err_0)
    } else {
        later(
            measurement_rest(
                t,
                i + 8,
                MeasurementValue {
                    name: name->Ok_0,
                    description: description->Ok_0,
                    datatype: kind->Ok_0,
                    compu_method_ref: method->Ok_0,
                    ecu_address: None,
                    bit_mask: None,
                },
                reals,
            ),
            8,
        )
    }
}

fn read_measurement_attribute<'a>(v: &Vec<Token<'a>>, pos: usize, acc: &mut Measurement, reals: &Vec<RealRow>) -> (r:
    Result<usize, Error>)
    requires
        pos < v@.len() <= usize::MAX,
        !at(toks(v@), pos as int, "/end"@),
    ensures
        match r {
            Ok(n) => measurement_attribute(toks(v@), pos as int, old(acc)@, reals@) == Ok::<
                (MeasurementValue, nat),
                Fault,
            >((final(acc)@, n as nat)) && pos + 1 + n <= v@.len(),
            Err(e) => measurement_attribute(toks(v@), pos as int, old(acc)@, reals@) == Err::<
                (MeasurementValue, nat),
                Fault,
            >(e@),
        },
{
    let ghost t = toks(v@);
    assert(t[pos as int] == v@[pos as int]@);
    if v[pos].eq_word("/begin") {
        return match skip_block(v, pos + 1) {
            Ok(p) => Ok(p - (pos + 1)),
            Err(e) => Err(e),
        };
    }
    if v[pos].eq_word("ECU_ADDRESS") {
        return match read_address(v, pos + 1) {
            Ok(x) => {
                acc.ecu_address = Some(x);
                Ok(1)
            },
            Err(e) => Err(e),
        };
    }
    if v[pos].eq_word("BIT_MASK") {
        return match read_mask(v, pos + 1) {
            Ok(x) => {
                acc.bit_mask = Some(x);
                Ok(1)
            },
            Err(e) => Err(e),
        };
    }
    Ok(0)
}

fn parse_measurement<'a>(v: &Vec<Token<'a>>, start: usize, reals: &Vec<RealRow>) -> (r: Result<
    (Measurement, usize),
    Error,
>)
    requires
        start <= v@.len(),
    ensures
        match r {
            Ok((x, p)) => measurement(toks(v@), start as int, reals@) == Ok::<(MeasurementValue, nat), Fault>(
                (x@, (p - start) as nat),
            ) && start <= p <= v@.len(),
            Err(e) => measurement(toks(v@), start as int, reals@) == Err::<(MeasurementValue, nat), Fault>(e@),
        },
{
    let name = match read_word(v, start) {
        Ok(x) => x,
        Err(e) => {
            return Err(e);
        },
    };
    let description = match read_text(v, start + 1) {
        Ok(x) => x,
        Err(e) => {
            return Err(e);
        },
    };
    let kind = match read_datatype(v, start + 2) {
        Ok(x) => x,
        Err(e) => {
            return Err(e);
        },
    };
    let method = match read_word(v, start + 3) {
        Ok(x) => x,
        Err(e) => {
            return Err(e);
        },
    };
    let resolution = match read_text(v, start + 4) {
        Ok(x) => x,
        Err(e) => {
            return Err(e);
        },
    };
    let accuracy = match read_text(v, start + 5) {
        Ok(x) => x,
        Err(e) => {
            return Err(e);
        },
    };
    let lowest = match read_text(v, start + 6) {
        Ok(x) => x,
        Err(e) => {
            return Err(e);
        },
    };
    let highest = match read_text(v, start + 7) {
        Ok(x) => x,
        Err(e) => {
            return Err(e);
        },
    };
    let mut acc = Measurement {
        name,
        description,
        datatype: kind,
        compu_method_ref: method,
        ecu_address: None,
        bit_mask: None,
    };
    let ghost t = toks(v@);
    let ghost first = acc@;
    let from: usize = start + 8;
    let mut pos: usize = from;
    assert(measurement(t, start as int, reals@) == later(measurement_rest(t, from as int, first, reals@), 8));
    loop
        invariant
            from <= pos <= v@.len(),
            from == start + 8,
            t == toks(v@),
            measurement(t, start as int, reals@) == later(measurement_rest(t, from as int, first, reals@), 8),
            measurement_rest(t, from as int, first, reals@) == later(
                measurement_rest(t, pos as int, acc@, reals@),
                (pos - from) as nat,
            ),
        decreases v@.len() - pos,
    {
        if pos >= v.len() {
            return Err(Error::UnexpectedEof);
        }
        assert(t[pos as int] == v@[pos as int]@);
        if v[pos].eq_word("/end") {
            return match read_keyword(v, pos + 1, "MEASUREMENT") {
                Ok(_) => Ok((acc, pos + 2)),
                Err(e) => Err(e),
            };
        }
        match read_measurement_attribute(v, pos, &mut acc, reals) {
            Ok(n) => {
                pos = pos + 1 + n;
            },
            Err(e) => {
                return Err(e);
            },
        }
    }
}

/// The conversion a COMPU_METHOD starts out with.
pub open spec fn plain_conversion(kind: Seq<char>) -> ConversionValue {
    if kind == "IDENTICAL"@ {
        ConversionValue::Identical
    } else if kind == "RAT_FUNC"@ {
        ConversionValue::RatFunc {
            a: RealValue::Whole(0),
            b: RealValue::Whole(1),
            c: RealValue::Whole(0),
            d: RealValue::Whole(0),
            e: RealValue::Whole(0),
            f: RealValue::Whole(1),
        }
    } else if kind == "LINEAR"@ {
        ConversionValue::Linear { a: RealValue::Whole(1), b: RealValue::Whole(0) }
    } else if kind == "TAB_VERB"@ || kind == "VERB_SEQ"@ {
        ConversionValue::TabVerb { tab_ref: Seq::empty() }
    } else if kind == "FORM"@ {
        ConversionValue::Form { formula: Seq::empty() }
    } else {
        ConversionValue::Other(kind)
    }
}

fn start_conversion(kind: String) -> (r: Conversion)
    ensures
        r@ == plain_conversion(kind@),
{
    let none = String::new();
    assert(none@ == Seq::<char>::empty());
    if str_eq(kind.as_str(), "IDENTICAL") {
        Conversion::Identical
    } else if str_eq(kind.as_str(), "RAT_FUNC") {
        Conversion::RatFunc {
            a: Real::Whole(0),
            b: Real::Whole(1),
            c: Real::Whole(0),
            d: Real::Whole(0),
            e: Real::Whole(0),
            f: Real::Whole(1),
        }
    } else if str_eq(kind.as_str(), "LINEAR") {
        Conversion::Linear { a: Real::Whole(1), b: Real::Whole(0) }
    } else if str_eq(kind.as_str(), "TAB_VERB") || str_eq(kind.as_str(), "VERB_SEQ") {
        Conversion::TabVerb { tab_ref: none }
    } else if str_eq(kind.as_str(), "FORM") {
        Conversion::Form { formula: none }
    } else {
        Conversion::Other(kind)
    }
}

/// What the token at `i`, with the tokens that belong to it, adds to a COMPU_METHOD block; and
/// how many belong to it.
pub open spec fn compu_method_attribute(
    t: Seq<Tok>,
    i: int,
    acc: CompuMethodValue,
    reals: Seq<RealRow>,
) -> Result<(CompuMethodValue, nat), Fault> {
    if at(t, i, "/begin"@) {
        match skipped(t, i + 1, 1) {
            Ok((_, n)) => Ok((acc, n)),
            Err(e) => Err(e),
        }
    } else if at(t, i, "COEFFS"@) {
        let a = number(t, i + 1);
        let b = number(t, i + 2);
        let c = number(t, i + 3);
        let d = number(t, i + 4);
        let e = number(t, i + 5);
        let f = number(t, i + 6);
        if a is Err {
            Err(a->Err_0)
        } else if b is Err {
            Err(b->Err_0)
        } else if c is Err {
            Err(c->Err_0)
        } else if d is Err {
            Err(d->Err_0)
        } else if e is Err {
            Err(e->Err_0)
        } else if f is Err {
            Err(f->Err_0)
        } else {
            Ok(
                (
                    (CompuMethodValue {
                        conversion: ConversionValue::RatFunc {
                            a: a->Ok_0,
                            b: b->Ok_0,
                            c: c->Ok_0,
                            d: d->Ok_0,
                            e: e->Ok_0,
                            f: f->Ok_0,
                        },
                        ..acc
                    }),
                    6,
                ),
            )
        }
    } else if at(t, i, "COEFFS_LINEAR"@) {
        let a = number(t, i + 1);
        let b = number(t, i + 2);
        if a is Err {
            Err(a->Err_0)
        } else if b is Err {
            Err(b->Err_0)
        } else {
            Ok(
                (
                    (CompuMethodValue {
                        conversion: ConversionValue::Linear { a: a->Ok_0, b: b->Ok_0 },
                        ..acc
                    }),
                    2,
                ),
            )
        }
    } else if at(t, i, "COMPU_TAB_REF"@) {
        match word(t, i + 1) {
            Ok(x) => Ok(
                (
                    (CompuMethodValue {
                        conversion: ConversionValue::TabVerb { tab_ref: x },
                        ..acc
                    }),
                    1,
                ),
            ),
            Err(e) => Err(e),
        }
    } else if at(t, i, "FORMULA"@) {
        match text(t, i + 1) {
            Ok(x) => Ok(
                (
                    (CompuMethodValue { conversion: ConversionValue::Form { formula: x }, ..acc }),
                    1,
                ),
            ),
            Err(e) => Err(e),
        }
    } else {
        Ok((acc, 0))
    }
}

/// The rest of a COMPU_METHOD block from `i` on.
pub open spec fn compu_method_rest(t: Seq<Tok>, i: int, acc: CompuMethodValue, reals: Seq<RealRow>) -> Result<
    (CompuMethodValue, nat),
    Fault,
>
    decreases left(t, i),
{
    if i < 0 || i >= t.len() {
        Err(Fault::UnexpectedEof)
    } else if at(t, i, "/end"@) {
        match keyword(t, i + 1, "COMPU_METHOD"@) {
            Ok(_) => Ok((acc, 2)),
            Err(e) => Err(e),
        }
    } else {
        match compu_method_attribute(t, i, acc, reals) {
            Ok((more, n)) => later(compu_method_rest(t, i + 1 + n, more, reals), 1 + n),
            Err(e) => Err(e),
        }
    }
}

/// A COMPU_METHOD block, and how many tokens it takes.
pub open spec fn compu_method(t: Seq<Tok>, i: int, reals: Seq<RealRow>) -> Result<(CompuMethodValue, nat), Fault> {
    let name = word(t, i);
    let description = text(t, i + 1);
    let kind = word(t, i + 2);
    let format = text(t, i + 3);
    let unit = text(t, i + 4);
    if name is Err {
        Err(name->Err_0)
    } else if description is Err {
        Err(description->Err_0)
    } else if kind is Err {
        Err(kind->Err_0)
    } else if format is Err {
        Err(format->Err_0)
    } else if unit is Err {
        Err(unit->Err_0)
    } else {
        later(
            compu_method_rest(
                t,
                i + 5,
                CompuMethodValue {
                    name: name->Ok_0,
                    description: description->Ok_0,
                    format: format->Ok_0,
                    unit: unit->Ok_0,
                    conversion: plain_conversion(kind->Ok_0),
                },
                reals,
            ),
            5,
        )
    }
}

fn read_compu_method_attribute<'a>(v: &Vec<Token<'a>>, pos: usize, acc: &mut CompuMethod, reals: &Vec<RealRow>) -> (r:
    Result<usize, Error>)
    requires
        pos < v@.len() <= usize::MAX,
        !at(toks(v@), pos as int, "/end"@),
    ensures
        match r {
            Ok(n) => compu_method_attribute(toks(v@), pos as int, old(acc)@, reals@) == Ok::<
                (CompuMethodValue, nat),
                Fault,
            >((final(acc)@, n as nat)) && pos + 1 + n <= v@.len(),
            Err(e) => compu_method_attribute(toks(v@), pos as int, old(acc)@, reals@) == Err::<
                (CompuMethodValue, nat),
                Fault,
            >(e@),
        },
{
    let ghost t = toks(v@);
    assert(t[pos as int] == v@[pos as int]@);
    if v[pos].eq_word("/begin") {
        return match skip_block(v, pos + 1) {
            Ok(p) => Ok(p - (pos + 1)),
            Err(e) => Err(e),
        };
    }
    if v[pos].eq_word("COEFFS") {
        let a = match read_number(v, pos + 1) {
            Ok(x) => x,
            Err(e) => {
                return Err(e);
            },
        };
        let b = match read_number(v, pos + 2) {
            Ok(x) => x,
            Err(e) => {
                return Err(e);
            },
        };
        let c = match read_number(v, pos + 3) {
            Ok(x) => x,
            Err(e) => {
                return Err(e);
            },
        };
        let d = match read_number(v, pos + 4) {
            Ok(x) => x,
            Err(e) => {
                return Err(e);
            },
        };
        let e_ = match read_number(v, pos + 5) {
            Ok(x) => x,
            Err(e) => {
                return Err(e);
            },
        };
        let f = match read_number(v, pos + 6) {
            Ok(x) => x,
            Err(e) => {
                return Err(e);
            },
        };
        acc.conversion = Conversion::RatFunc { a, b, c, d, e: e_, f };
        return Ok(6);
    }
    if v[pos].eq_word("COEFFS_LINEAR") {
        let a = match read_number(v, pos + 1) {
            Ok(x) => x,
            Err(e) => {
                return Err(e);
            },
        };
        let b = match read_number(v, pos + 2) {
            Ok(x) => x,
            Err(e) => {
                return Err(e);
            },
        };
        acc.conversion = Conversion::Linear { a, b };
        return Ok(2);
    }
    if v[pos].eq_word("COMPU_TAB_REF") {
        return match read_word(v, pos + 1) {
            Ok(tab_ref) => {
                acc.conversion = Conversion::TabVerb { tab_ref };
                Ok(1)
            },
            Err(e) => Err(e),
        };
    }
    if v[pos].eq_word("FORMULA") {
        return match read_text(v, pos + 1) {
            Ok(formula) => {
                acc.conversion = Conversion::Form { formula };
                Ok(1)
            },
            Err(e) => Err(e),
        };
    }
    Ok(0)
}

fn parse_compu_method<'a>(v: &Vec<Token<'a>>, start: usize, reals: &Vec<RealRow>) -> (r: Result<
    (CompuMethod, usize),
    Error,
>)
    requires
        start <= v@.len(),
    ensures
        match r {
            Ok((x, p)) => compu_method(toks(v@), start as int, reals@) == Ok::<(CompuMethodValue, nat), Fault>(
                (x@, (p - start) as nat),
            ) && start <= p <= v@.len(),
            Err(e) => compu_method(toks(v@), start as int, reals@) == Err::<(CompuMethodValue, nat), Fault>(e@),
        },
{
    let name = match read_word(v, start) {
        Ok(x) => x,
        Err(e) => {
            return Err(e);
        },
    };
    let description = match read_text(v, start + 1) {
        Ok(x) => x,
        Err(e) => {
            return Err(e);
        },
    };
    let kind = match read_word(v, start + 2) {
        Ok(x) => x,
        Err(e) => {
            return Err(e);
        },
    };
    let format = match read_text(v, start + 3) {
        Ok(x) => x,
        Err(e) => {
            return Err(e);
        },
    };
    let unit = match read_text(v, start + 4) {
        Ok(x) => x,
        Err(e) => {
            return Err(e);
        },
    };
    let mut acc = CompuMethod { name, description, format, unit, conversion: start_conversion(kind) };
    let ghost t = toks(v@);
    let ghost first = acc@;
    let from: usize = start + 5;
    let mut pos: usize = from;
    assert(compu_method(t, start as int, reals@) == later(compu_method_rest(t, from as int, first, reals@), 5));
    loop
        invariant
            from <= pos <= v@.len(),
            from == start + 5,
            t == toks(v@),
            compu_method(t, start as int, reals@) == later(compu_method_rest(t, from as int, first, reals@), 5),
            compu_method_rest(t, from as int, first, reals@) == later(
                compu_method_rest(t, pos as int, acc@, reals@),
                (pos - from) as nat,
            ),
        decreases v@.len() - pos,
    {
        if pos >= v.len() {
            return Err(Error::UnexpectedEof);
        }
        assert(t[pos as int] == v@[pos as int]@);
        if v[pos].eq_word("/end") {
            return match read_keyword(v, pos + 1, "COMPU_METHOD") {
                Ok(_) => Ok((acc, pos + 2)),
                Err(e) => Err(e),
            };
        }
        match read_compu_method_attribute(v, pos, &mut acc, reals) {
            Ok(n) => {
                pos = pos + 1 + n;
            },
            Err(e) => {
                return Err(e);
            },
        }
    }
}

/// What the token at `i`, with the tokens that belong to it, adds to a COMPU_VTAB block; and
/// how many belong to it.
pub open spec fn compu_vtab_attribute(
    t: Seq<Tok>,
    i: int,
    acc: CompuVtabValue,
    reals: Seq<RealRow>,
) -> Result<(CompuVtabValue, nat), Fault> {
    if at(t, i, "/begin"@) {
        match skipped(t, i + 1, 1) {
            Ok((_, n)) => Ok((acc, n)),
            Err(e) => Err(e),
        }
    } else if at(t, i, "DEFAULT_VALUE"@) {
        match text(t, i + 1) {
            Ok(_) => Ok((acc, 1)),
            Err(e) => Err(e),
        }
    } else {
        match whole_value(latin_text(t[i].bytes()), reals) {
            Some(k) => match text(t, i + 1) {
                Ok(label) => Ok(
                    (
                        (CompuVtabValue { entries: acc.entries.push((k as i64, label)), ..acc }),
                        1,
                    ),
                ),
                Err(e) => Err(e),
            },
            None => Ok((acc, 0)),
        }
    }
}

/// The rest of a COMPU_VTAB block from `i` on.
pub open spec fn compu_vtab_rest(t: Seq<Tok>, i: int, acc: CompuVtabValue, reals: Seq<RealRow>) -> Result<
    (CompuVtabValue, nat),
    Fault,
>
    decreases left(t, i),
{
    if i < 0 || i >= t.len() {
        Err(Fault::UnexpectedEof)
    } else if at(t, i, "/end"@) {
        match keyword(t, i + 1, "COMPU_VTAB"@) {
            Ok(_) => Ok((acc, 2)),
            Err(e) => Err(e),
        }
    } else {
        match compu_vtab_attribute(t, i, acc, reals) {
            Ok((more, n)) => later(compu_vtab_rest(t, i + 1 + n, more, reals), 1 + n),
            Err(e) => Err(e),
        }
    }
}

/// A COMPU_VTAB block, and how many tokens it takes.
pub open spec fn compu_vtab(t: Seq<Tok>, i: int, reals: Seq<RealRow>) -> Result<(CompuVtabValue, nat), Fault> {
    let name = word(t, i);
    let description = text(t, i + 1);
    let kind = word(t, i + 2);
    let size = word(t, i + 3);
    if name is Err {
        Err(name->Err_0)
    } else if description is Err {
        Err(description->Err_0)
    } else if kind is Err {
        Err(kind->Err_0)
    } else if size is Err {
        Err(size->Err_0)
    } else {
        later(
            compu_vtab_rest(
                t,
                i + 4,
                CompuVtabValue { name: name->Ok_0, entries: Seq::empty() },
                reals,
            ),
            4,
        )
    }
}

fn read_compu_vtab_attribute<'a>(v: &Vec<Token<'a>>, pos: usize, acc: &mut CompuVtab, reals: &Vec<RealRow>) -> (r:
    Result<usize, Error>)
    requires
        pos < v@.len() <= usize::MAX,
        !at(toks(v@), pos as int, "/end"@),
    ensures
        match r {
            Ok(n) => compu_vtab_attribute(toks(v@), pos as int, old(acc)@, reals@) == Ok::<
                (CompuVtabValue, nat),
                Fault,
            >((final(acc)@, n as nat)) && pos + 1 + n <= v@.len(),
            Err(e) => compu_vtab_attribute(toks(v@), pos as int, old(acc)@, reals@) == Err::<
                (CompuVtabValue, nat),
                Fault,
            >(e@),
        },
{
    let ghost t = toks(v@);
    assert(t[pos as int] == v@[pos as int]@);
    if v[pos].eq_word("/begin") {
        return match skip_block(v, pos + 1) {
            Ok(p) => Ok(p - (pos + 1)),
            Err(e) => Err(e),
        };
    }
    if v[pos].eq_word("DEFAULT_VALUE") {
        return match read_text(v, pos + 1) {
            Ok(_) => Ok(1),
            Err(e) => Err(e),
        };
    }
    let key = v[pos].as_str_lossy();
    match parse_whole(key.as_str(), reals) {
        Some(k) => match read_text(v, pos + 1) {
            Ok(label) => {
                let ghost before = acc.entries@;
                acc.entries.push((k, label));
                assert(entries_of(acc.entries@) == entries_of(before).push((k, label@)));
                Ok(1)
            },
            Err(e) => Err(e),
        },
        None => Ok(0),
    }
}

fn parse_compu_vtab<'a>(v: &Vec<Token<'a>>, start: usize, reals: &Vec<RealRow>) -> (r: Result<
    (CompuVtab, usize),
    Error,
>)
    requires
        start <= v@.len(),
    ensures
        match r {
            Ok((x, p)) => compu_vtab(toks(v@), start as int, reals@) == Ok::<(CompuVtabValue, nat), Fault>(
                (x@, (p - start) as nat),
            ) && start <= p <= v@.len(),
            Err(e) => compu_vtab(toks(v@), start as int, reals@) == Err::<(CompuVtabValue, nat), Fault>(e@),
        },
{
    let name = match read_word(v, start) {
        Ok(x) => x,
        Err(e) => {
            return Err(e);
        },
    };
    let description = match read_text(v, start + 1) {
        Ok(x) => x,
        Err(e) => {
            return Err(e);
        },
    };
    let kind = match read_word(v, start + 2) {
        Ok(x) => x,
        Err(e) => {
            return Err(e);
        },
    };
    let size = match read_word(v, start + 3) {
        Ok(x) => x,
        Err(e) => {
            return Err(e);
        },
    };
    let mut acc = empty_vtab(name);
    let ghost t = toks(v@);
    let ghost first = acc@;
    let from: usize = start + 4;
    let mut pos: usize = from;
    assert(compu_vtab(t, start as int, reals@) == later(compu_vtab_rest(t, from as int, first, reals@), 4));
    loop
        invariant
            from <= pos <= v@.len(),
            from == start + 4,
            t == toks(v@),
            compu_vtab(t, start as int, reals@) == later(compu_vtab_rest(t, from as int, first, reals@), 4),
            compu_vtab_rest(t, from as int, first, reals@) == later(
                compu_vtab_rest(t, pos as int, acc@, reals@),
                (pos - from) as nat,
            ),
        decreases v@.len() - pos,
    {
        if pos >= v.len() {
            return Err(Error::UnexpectedEof);
        }
        assert(t[pos as int] == v@[pos as int]@);
        if v[pos].eq_word("/end") {
            return match read_keyword(v, pos + 1, "COMPU_VTAB") {
                Ok(_) => Ok((acc, pos + 2)),
                Err(e) => Err(e),
            };
        }
        match read_compu_vtab_attribute(v, pos, &mut acc, reals) {
            Ok(n) => {
                pos = pos + 1 + n;
            },
            Err(e) => {
                return Err(e);
            },
        }
    }
}

fn empty_vtab(name: String) -> (r: CompuVtab)
    ensures
        r@ == (CompuVtabValue { name: name@, entries: Seq::empty() }),
{
    let r = CompuVtab { name, entries: Vec::new() };
    assert(r@.entries == Seq::<(i64, Seq<char>)>::empty());
    r
}

fn empty_vtab_range(name: String) -> (r: CompuVtabRange)
    ensures
        r@ == (CompuVtabRangeValue { name: name@, entries: Seq::empty(), default_label: None }),
{
    let r = CompuVtabRange { name, entries: Vec::new(), default_label: None };
    assert(r@.entries == Seq::<(i64, i64, Seq<char>)>::empty());
    r
}

/// What the token at `i`, with the tokens that belong to it, adds to a COMPU_VTAB_RANGE block; and
/// how many belong to it.
pub open spec fn compu_vtab_range_attribute(
    t: Seq<Tok>,
    i: int,
    acc: CompuVtabRangeValue,
    reals: Seq<RealRow>,
) -> Result<(CompuVtabRangeValue, nat), Fault> {
    if at(t, i, "/begin"@) {
        match skipped(t, i + 1, 1) {
            Ok((_, n)) => Ok((acc, n)),
            Err(e) => Err(e),
        }
    } else if at(t, i, "DEFAULT_VALUE"@) {
        match text(t, i + 1) {
            Ok(x) => Ok(((CompuVtabRangeValue { default_label: Some(x), ..acc }), 1)),
            Err(e) => Err(e),
        }
    } else {
        match whole_value(latin_text(t[i].bytes()), reals) {
            Some(low) => {
                let high = whole(t, i + 1, reals);
                let label = text(t, i + 2);
                if high is Err {
                    Err(high->Err_0)
                } else if label is Err {
                    Err(label->Err_0)
                } else {
                    Ok(
                        (
                            (CompuVtabRangeValue {
                                entries: acc.entries.push((low as i64, high->Ok_0, label->Ok_0)),
                                ..acc
                            }),
                            2,
                        ),
                    )
                }
            },
            None => Ok((acc, 0)),
        }
    }
}

/// The rest of a COMPU_VTAB_RANGE block from `i` on.
pub open spec fn compu_vtab_range_rest(t: Seq<Tok>, i: int, acc: CompuVtabRangeValue, reals: Seq<RealRow>) -> Result<
    (CompuVtabRangeValue, nat),
    Fault,
>
    decreases left(t, i),
{
    if i < 0 || i >= t.len() {
        Err(Fault::UnexpectedEof)
    } else if at(t, i, "/end"@) {
        match keyword(t, i + 1, "COMPU_VTAB_RANGE"@) {
            Ok(_) => Ok((acc, 2)),
            Err(e) => Err(e),
        }
    } else {
        match compu_vtab_range_attribute(t, i, acc, reals) {
            Ok((more, n)) => later(compu_vtab_range_rest(t, i + 1 + n, more, reals), 1 + n),
            Err(e) => Err(e),
        }
    }
}

/// A COMPU_VTAB_RANGE block, and how many tokens it takes.
pub open spec fn compu_vtab_range(t: Seq<Tok>, i: int, reals: Seq<RealRow>) -> Result<(CompuVtabRangeValue, nat), Fault> {
    let name = word(t, i);
    let description = text(t, i + 1);
    let size = word(t, i + 2);
    if name is Err {
        Err(name->Err_0)
    } else if description is Err {
        Err(description->Err_0)
    } else if size is Err {
        Err(size->Err_0)
    } else {
        later(
            compu_vtab_range_rest(
                t,
                i + 3,
                CompuVtabRangeValue { name: name->Ok_0, entries: Seq::empty(), default_label: None },
                reals,
            ),
            3,
        )
    }
}

fn read_compu_vtab_range_attribute<'a>(v: &Vec<Token<'a>>, pos: usize, acc: &mut CompuVtabRange, reals: &Vec<RealRow>) -> (r:
    Result<usize, Error>)
    requires
        pos < v@.len() <= usize::MAX,
        !at(toks(v@), pos as int, "/end"@),
    ensures
        match r {
            Ok(n) => compu_vtab_range_attribute(toks(v@), pos as int, old(acc)@, reals@) == Ok::<
                (CompuVtabRangeValue, nat),
                Fault,
            >((final(acc)@, n as nat)) && pos + 1 + n <= v@.len(),
            Err(e) => compu_vtab_range_attribute(toks(v@), pos as int, old(acc)@, reals@) == Err::<
                (CompuVtabRangeValue, nat),
                Fault,
            >(e@),
        },
{
    let ghost t = toks(v@);
    assert(t[pos as int] == v@[pos as int]@);
    if v[pos].eq_word("/begin") {
        return match skip_block(v, pos + 1) {
            Ok(p) => Ok(p - (pos + 1)),
            Err(e) => Err(e),
        };
    }
    if v[pos].eq_word("DEFAULT_VALUE") {
        return match read_text(v, pos + 1) {
            Ok(x) => {
                acc.default_label = Some(x);
                Ok(1)
            },
            Err(e) => Err(e),
        };
    }
    let key = v[pos].as_str_lossy();
    match parse_whole(key.as_str(), reals) {
        Some(low) => {
            let high: i64 = match read_whole(v, pos + 1, reals) {
                Ok(x) => x,
                Err(e) => {
                    return Err(e);
                },
            };
            match read_text(v, pos + 2) {
                Ok(label) => {
                    let ghost before = acc.entries@;
                    acc.entries.push((low, high, label));
                    assert(ranges_of(acc.entries@) == ranges_of(before).push((low, high, label@)));
                    Ok(2)
                },
                Err(e) => Err(e),
            }
        },
        None => Ok(0),
    }
}

fn parse_compu_vtab_range<'a>(v: &Vec<Token<'a>>, start: usize, reals: &Vec<RealRow>) -> (r: Result<
    (CompuVtabRange, usize),
    Error,
>)
    requires
        start <= v@.len(),
    ensures
        match r {
            Ok((x, p)) => compu_vtab_range(toks(v@), start as int, reals@) == Ok::<(CompuVtabRangeValue, nat), Fault>(
                (x@, (p - start) as nat),
            ) && start <= p <= v@.len(),
            Err(e) => compu_vtab_range(toks(v@), start as int, reals@) == Err::<(CompuVtabRangeValue, nat), Fault>(e@),
        },
{
    let name = match read_word(v, start) {
        Ok(x) => x,
        Err(e) => {
            return Err(e);
        },
    };
    let description = match read_text(v, start + 1) {
        Ok(x) => x,
        Err(e) => {
            return Err(e);
        },
    };
    let size = match read_word(v, start + 2) {
        Ok(x) => x,
        Err(e) => {
            return Err(e);
        },
    };
    let mut acc = empty_vtab_range(name);
    let ghost t = toks(v@);
    let ghost first = acc@;
    let from: usize = start + 3;
    let mut pos: usize = from;
    assert(compu_vtab_range(t, start as int, reals@) == later(compu_vtab_range_rest(t, from as int, first, reals@), 3));
    loop
        invariant
            from <= pos <= v@.len(),
            from == start + 3,
            t == toks(v@),
            compu_vtab_range(t, start as int, reals@) == later(compu_vtab_range_rest(t, from as int, first, reals@), 3),
            compu_vtab_range_rest(t, from as int, first, reals@) == later(
                compu_vtab_range_rest(t, pos as int, acc@, reals@),
                (pos - from) as nat,
            ),
        decreases v@.len() - pos,
    {
        if pos >= v.len() {
            return Err(Error::UnexpectedEof);
        }
        assert(t[pos as int] == v@[pos as int]@);
        if v[pos].eq_word("/end") {
            return match read_keyword(v, pos + 1, "COMPU_VTAB_RANGE") {
                Ok(_) => Ok((acc, pos + 2)),
                Err(e) => Err(e),
            };
        }
        match read_compu_vtab_range_attribute(v, pos, &mut acc, reals) {
            Ok(n) => {
                pos = pos + 1 + n;
            },
            Err(e) => {
                return Err(e);
            },
        }
    }
}

/// The numbers of a FIX_AXIS_PAR_LIST from `i` on. What is no number is passed
/// over.
pub open spec fn par_list(t: Seq<Tok>, i: int, acc: Seq<RealValue>) -> Result<
    (Seq<RealValue>, nat),
    Fault,
>
    decreases left(t, i),
{
    if i < 0 || i >= t.len() {
        Err(Fault::UnexpectedEof)
    } else if at(t, i, "/end"@) {
        match keyword(t, i + 1, "FIX_AXIS_PAR_LIST"@) {
            Ok(_) => Ok((acc, 2)),
            Err(e) => Err(e),
        }
    } else {
        match real_value(latin_text(t[i].bytes())) {
            Some(x) => later(par_list(t, i + 1, acc.push(x)), 1),
            None => later(par_list(t, i + 1, acc), 1),
        }
    }
}

fn parse_par_list<'a>(v: &Vec<Token<'a>>, start: usize) -> (r: Result<(Vec<Real>, usize), Error>)
    requires
        start <= v@.len(),
    ensures
        match r {
            Ok((x, p)) => par_list(toks(v@), start as int, Seq::empty()) == Ok::<
                (Seq<RealValue>, nat),
                Fault,
            >((views(x@), (p - start) as nat)) && start <= p <= v@.len(),
            Err(e) => par_list(toks(v@), start as int, Seq::empty()) == Err::<
                (Seq<RealValue>, nat),
                Fault,
            >(e@),
        },
{
    let ghost t = toks(v@);
    let mut acc: Vec<Real> = Vec::new();
    let mut pos: usize = start;
    assert(views(acc@) == Seq::<RealValue>::empty());
    loop
        invariant
            start <= pos <= v@.len(),
            t == toks(v@),
            par_list(t, start as int, Seq::empty()) == later(
                par_list(t, pos as int, views(acc@)),
                (pos - start) as nat,
            ),
        decreases v@.len() - pos,
    {
        if pos >= v.len() {
            return Err(Error::UnexpectedEof);
        }
        assert(t[pos as int] == v@[pos as int]@);
        if v[pos].eq_word("/end") {
            return match read_keyword(v, pos + 1, "FIX_AXIS_PAR_LIST") {
                Ok(_) => Ok((acc, pos + 2)),
                Err(e) => Err(e),
            };
        }
        let s = v[pos].as_str_lossy();
        if let Some(x) = parse_real(s.as_str()) {
            let ghost before = acc@;
            acc.push(x);
            assert(views(acc@) == views(before).push(x@));
        }
        pos = pos + 1;
    }
}

/// What the token at `i`, with the tokens that belong to it, adds to an AXIS_DESCR block; and
/// how many belong to it.
pub open spec fn axis_descr_attribute(
    t: Seq<Tok>,
    i: int,
    acc: AxisDescrValue,
    reals: Seq<RealRow>,
) -> Result<(AxisDescrValue, nat), Fault> {
    if at(t, i, "/begin"@) {
        match word(t, i + 1) {
            Err(e) => Err(e),
            Ok(kw) => if kw == "FIX_AXIS_PAR_LIST"@ {
                match par_list(t, i + 2, Seq::empty()) {
                    Ok((list, n)) => Ok(
                        ((AxisDescrValue { fix_axis_par_list: Some(list), ..acc }), 1 + n),
                    ),
                    Err(e) => Err(e),
                }
            } else {
                match skipped(t, i + 2, 1) {
                    Ok((_, n)) => Ok((acc, 1 + n)),
                    Err(e) => Err(e),
                }
            },
        }
    } else if at(t, i, "AXIS_PTS_REF"@) {
        match word(t, i + 1) {
            Ok(x) => Ok(((AxisDescrValue { axis_pts_ref: Some(x), ..acc }), 1)),
            Err(e) => Err(e),
        }
    } else if at(t, i, "FIX_AXIS_PAR_DIST"@) {
        let offset = number(t, i + 1);
        let distance = number(t, i + 2);
        let number = count(t, i + 3, reals);
        if offset is Err {
            Err(offset->Err_0)
        } else if distance is Err {
            Err(distance->Err_0)
        } else if number is Err {
            Err(number->Err_0)
        } else {
            Ok(
                (
                    (AxisDescrValue {
                        fix_axis_par_dist: Some(
                            FixAxisParDistValue {
                                offset: offset->Ok_0,
                                distance: distance->Ok_0,
                                count: number->Ok_0,
                            },
                        ),
                        ..acc
                    }),
                    3,
                ),
            )
        }
    } else if at(t, i, "FORMAT"@) {
        match text(t, i + 1) {
            Ok(x) => Ok(((AxisDescrValue { format: Some(x), ..acc }), 1)),
            Err(e) => Err(e),
        }
    } else {
        Ok((acc, 0))
    }
}

/// The rest of an AXIS_DESCR block from `i` on.
pub open spec fn axis_descr_rest(t: Seq<Tok>, i: int, acc: AxisDescrValue, reals: Seq<RealRow>) -> Result<
    (AxisDescrValue, nat),
    Fault,
>
    decreases left(t, i),
{
    if i < 0 || i >= t.len() {
        Err(Fault::UnexpectedEof)
    } else if at(t, i, "/end"@) {
        match keyword(t, i + 1, "AXIS_DESCR"@) {
            Ok(_) => Ok((acc, 2)),
            Err(e) => Err(e),
        }
    } else {
        match axis_descr_attribute(t, i, acc, reals) {
            Ok((more, n)) => later(axis_descr_rest(t, i + 1 + n, more, reals), 1 + n),
            Err(e) => Err(e),
        }
    }
}

/// An AXIS_DESCR block, and how many tokens it takes.
pub open spec fn axis_descr(t: Seq<Tok>, i: int, reals: Seq<RealRow>) -> Result<(AxisDescrValue, nat), Fault> {
    let attribute = axis_attribute(t, i);
    let input = word(t, i + 1);
    let method = word(t, i + 2);
    let points = count(t, i + 3, reals);
    let lower = number(t, i + 4);
    let upper = number(t, i + 5);
    if attribute is Err {
        Err(attribute->Err_0)
    } else if input is Err {
        Err(input->Err_0)
    } else if method is Err {
        Err(method->Err_0)
    } else if points is Err {
        Err(points->Err_0)
    } else if lower is Err {
        Err(lower->Err_0)
    } else if upper is Err {
        Err(upper->Err_0)
    } else {
        later(
            axis_descr_rest(
                t,
                i + 6,
                AxisDescrValue {
                    attribute: attribute->Ok_0,
                    input_quantity: input->Ok_0,
                    compu_method_ref: method->Ok_0,
                    max_axis_points: points->Ok_0,
                    lower_limit: lower->Ok_0,
                    upper_limit: upper->Ok_0,
                    axis_pts_ref: None,
                    fix_axis_par_dist: None,
                    fix_axis_par_list: None,
                    format: None,
                },
                reals,
            ),
            6,
        )
    }
}

fn read_axis_descr_attribute<'a>(v: &Vec<Token<'a>>, pos: usize, acc: &mut AxisDescr, reals: &Vec<RealRow>) -> (r:
    Result<usize, Error>)
    requires
        pos < v@.len() <= usize::MAX,
        !at(toks(v@), pos as int, "/end"@),
    ensures
        match r {
            Ok(n) => axis_descr_attribute(toks(v@), pos as int, old(acc)@, reals@) == Ok::<
                (AxisDescrValue, nat),
                Fault,
            >((final(acc)@, n as nat)) && pos + 1 + n <= v@.len(),
            Err(e) => axis_descr_attribute(toks(v@), pos as int, old(acc)@, reals@) == Err::<
                (AxisDescrValue, nat),
                Fault,
            >(e@),
        },
{
    let ghost t = toks(v@);
    assert(t[pos as int] == v@[pos as int]@);
    if v[pos].eq_word("/begin") {
        let kw = match read_word(v, pos + 1) {
            Ok(x) => x,
            Err(e) => {
                return Err(e);
            },
        };
        if str_eq(kw.as_str(), "FIX_AXIS_PAR_LIST") {
            return match parse_par_list(v, pos + 2) {
                Ok((list, p)) => {
                    acc.fix_axis_par_list = Some(list);
                    Ok(p - (pos + 1))
                },
                Err(e) => Err(e),
            };
        }
        return match skip_block(v, pos + 2) {
            Ok(p) => Ok(p - (pos + 1)),
            Err(e) => Err(e),
        };
    }
    if v[pos].eq_word("AXIS_PTS_REF") {
        return match read_word(v, pos + 1) {
            Ok(x) => {
                acc.axis_pts_ref = Some(x);
                Ok(1)
            },
            Err(e) => Err(e),
        };
    }
    if v[pos].eq_word("FIX_AXIS_PAR_DIST") {
        let offset = match read_number(v, pos + 1) {
            Ok(x) => x,
            Err(e) => {
                return Err(e);
            },
        };
        let distance = match read_number(v, pos + 2) {
            Ok(x) => x,
            Err(e) => {
                return Err(e);
            },
        };
        return match read_count(v, pos + 3, reals) {
            Ok(n) => {
                acc.fix_axis_par_dist = Some(FixAxisParDist { offset, distance, count: n });
                Ok(3)
            },
            Err(e) => Err(e),
        };
    }
    if v[pos].eq_word("FORMAT") {
        return match read_text(v, pos + 1) {
            Ok(x) => {
                acc.format = Some(x);
                Ok(1)
            },
            Err(e) => Err(e),
        };
    }
    Ok(0)
}

fn parse_axis_descr<'a>(v: &Vec<Token<'a>>, start: usize, reals: &Vec<RealRow>) -> (r: Result<
    (AxisDescr, usize),
    Error,
>)
    requires
        start <= v@.len(),
    ensures
        match r {
            Ok((x, p)) => axis_descr(toks(v@), start as int, reals@) == Ok::<(AxisDescrValue, nat), Fault>(
                (x@, (p - start) as nat),
            ) && start <= p <= v@.len(),
            Err(e) => axis_descr(toks(v@), start as int, reals@) == Err::<(AxisDescrValue, nat), Fault>(e@),
        },
{
    let attribute = match read_axis_attribute(v, start) {
        Ok(x) => x,
        Err(e) => {
            return Err(e);
        },
    };
    let input = match read_word(v, start + 1) {
        Ok(x) => x,
        Err(e) => {
            return Err(e);
        },
    };
    let method = match read_word(v, start + 2) {
        Ok(x) => x,
        Err(e) => {
            return Err(e);
        },
    };
    let points = match read_count(v, start + 3, reals) {
        Ok(x) => x,
        Err(e) => {
            return Err(e);
        },
    };
    let lower = match read_number(v, start + 4) {
        Ok(x) => x,
        Err(e) => {
            return Err(e);
        },
    };
    let upper = match read_number(v, start + 5) {
        Ok(x) => x,
        Err(e) => {
            return Err(e);
        },
    };
    let mut acc = AxisDescr {
        attribute,
        input_quantity: input,
        compu_method_ref: method,
        max_axis_points: points,
        lower_limit: lower,
        upper_limit: upper,
        axis_pts_ref: None,
        fix_axis_par_dist: None,
        fix_axis_par_list: None,
        format: None,
    };
    let ghost t = toks(v@);
    let ghost first = acc@;
    let from: usize = start + 6;
    let mut pos: usize = from;
    assert(axis_descr(t, start as int, reals@) == later(axis_descr_rest(t, from as int, first, reals@), 6));
    loop
        invariant
            from <= pos <= v@.len(),
            from == start + 6,
            t == toks(v@),
            axis_descr(t, start as int, reals@) == later(axis_descr_rest(t, from as int, first, reals@), 6),
            axis_descr_rest(t, from as int, first, reals@) == later(
                axis_descr_rest(t, pos as int, acc@, reals@),
                (pos - from) as nat,
            ),
        decreases v@.len() - pos,
    {
        if pos >= v.len() {
            return Err(Error::UnexpectedEof);
        }
        assert(t[pos as int] == v@[pos as int]@);
        if v[pos].eq_word("/end") {
            return match read_keyword(v, pos + 1, "AXIS_DESCR") {
                Ok(_) => Ok((acc, pos + 2)),
                Err(e) => Err(e),
            };
        }
        match read_axis_descr_attribute(v, pos, &mut acc, reals) {
            Ok(n) => {
                pos = pos + 1 + n;
            },
            Err(e) => {
                return Err(e);
            },
        }
    }
}

fn no_axes() -> (r: Vec<AxisDescr>)
    ensures
        views(r@) == Seq::<AxisDescrValue>::empty(),
{
    let r: Vec<AxisDescr> = Vec::new();
    assert(views(r@) == Seq::<AxisDescrValue>::empty());
    r
}

/// What the token at `i`, with the tokens that belong to it, adds to a CHARACTERISTIC block; and
/// how many belong to it.
pub open spec fn characteristic_attribute(
    t: Seq<Tok>,
    i: int,
    acc: CharacteristicValue,
    reals: Seq<RealRow>,
) -> Result<(CharacteristicValue, nat), Fault> {
    if at(t, i, "/begin"@) {
        match word(t, i + 1) {
            Err(e) => Err(e),
            Ok(kw) => if kw == "AXIS_DESCR"@ {
                match axis_descr(t, i + 2, reals) {
                    Ok((axis, n)) => Ok(
                        ((CharacteristicValue { axes: acc.axes.push(axis), ..acc }), 1 + n),
                    ),
                    Err(e) => Err(e),
                }
            } else {
                match skipped(t, i + 2, 1) {
                    Ok((_, n)) => Ok((acc, 1 + n)),
                    Err(e) => Err(e),
                }
            },
        }
    } else if at(t, i, "FORMAT"@) {
        match text(t, i + 1) {
            Ok(x) => Ok(((CharacteristicValue { format: Some(x), ..acc }), 1)),
            Err(e) => Err(e),
        }
    } else if at(t, i, "DISPLAY_IDENTIFIER"@) {
        match word(t, i + 1) {
            Ok(x) => Ok(((CharacteristicValue { display_identifier: Some(x), ..acc }), 1)),
            Err(e) => Err(e),
        }
    } else {
        Ok((acc, 0))
    }
}

/// The rest of a CHARACTERISTIC block from `i` on.
pub open spec fn characteristic_rest(t: Seq<Tok>, i: int, acc: CharacteristicValue, reals: Seq<RealRow>) -> Result<
    (CharacteristicValue, nat),
    Fault,
>
    decreases left(t, i),
{
    if i < 0 || i >= t.len() {
        Err(Fault::UnexpectedEof)
    } else if at(t, i, "/end"@) {
        match keyword(t, i + 1, "CHARACTERISTIC"@) {
            Ok(_) => Ok((acc, 2)),
            Err(e) => Err(e),
        }
    } else {
        match characteristic_attribute(t, i, acc, reals) {
            Ok((more, n)) => later(characteristic_rest(t, i + 1 + n, more, reals), 1 + n),
            Err(e) => Err(e),
        }
    }
}

/// A CHARACTERISTIC block, and how many tokens it takes.
pub open spec fn characteristic(t: Seq<Tok>, i: int, reals: Seq<RealRow>) -> Result<(CharacteristicValue, nat), Fault> {
    let name = word(t, i);
    let description = text(t, i + 1);
    let shape = characteristic_type(t, i + 2);
    let place = address(t, i + 3);
    let deposit = word(t, i + 4);
    let diff = number(t, i + 5);
    let method = word(t, i + 6);
    let lower = number(t, i + 7);
    let upper = number(t, i + 8);
    if name is Err {
        Err(name->Err_0)
    } else if description is Err {
        Err(description->Err_0)
    } else if shape is Err {
        Err(shape->Err_0)
    } else if place is Err {
        Err(place->Err_0)
    } else if deposit is Err {
        Err(deposit->Err_0)
    } else if diff is Err {
        Err(diff->Err_0)
    } else if method is Err {
        Err(method->Err_0)
    } else if lower is Err {
        Err(lower->Err_0)
    } else if upper is Err {
        Err(upper->Err_0)
    } else {
        later(
            characteristic_rest(
                t,
                i + 9,
                CharacteristicValue {
                    name: name->Ok_0,
                    description: description->Ok_0,
                    char_type: shape->Ok_0,
                    address: place->Ok_0,
                    deposit: deposit->Ok_0,
                    max_diff: diff->Ok_0,
                    compu_method_ref: method->Ok_0,
                    lower_limit: lower->Ok_0,
                    upper_limit: upper->Ok_0,
                    axes: Seq::empty(),
                    format: None,
                    display_identifier: None,
                },
                reals,
            ),
            9,
        )
    }
}

fn read_characteristic_attribute<'a>(v: &Vec<Token<'a>>, pos: usize, acc: &mut Characteristic, reals: &Vec<RealRow>) -> (r:
    Result<usize, Error>)
    requires
        pos < v@.len() <= usize::MAX,
        !at(toks(v@), pos as int, "/end"@),
    ensures
        match r {
            Ok(n) => characteristic_attribute(toks(v@), pos as int, old(acc)@, reals@) == Ok::<
                (CharacteristicValue, nat),
                Fault,
            >((final(acc)@, n as nat)) && pos + 1 + n <= v@.len(),
            Err(e) => characteristic_attribute(toks(v@), pos as int, old(acc)@, reals@) == Err::<
                (CharacteristicValue, nat),
                Fault,
            >(e@),
        },
{
    let ghost t = toks(v@);
    assert(t[pos as int] == v@[pos as int]@);
    if v[pos].eq_word("/begin") {
        let kw = match read_word(v, pos + 1) {
            Ok(x) => x,
            Err(e) => {
                return Err(e);
            },
        };
        if str_eq(kw.as_str(), "AXIS_DESCR") {
            return match parse_axis_descr(v, pos + 2, reals) {
                Ok((axis, p)) => {
                    let ghost before = acc.axes@;
                    acc.axes.push(axis);
                    assert(views(acc.axes@) == views(before).push(axis@));
                    Ok(p - (pos + 1))
                },
                Err(e) => Err(e),
            };
        }
        return match skip_block(v, pos + 2) {
            Ok(p) => Ok(p - (pos + 1)),
            Err(e) => Err(e),
        };
    }
    if v[pos].eq_word("FORMAT") {
        return match read_text(v, pos + 1) {
            Ok(x) => {
                acc.format = Some(x);
                Ok(1)
            },
            Err(e) => Err(e),
        };
    }
    if v[pos].eq_word("DISPLAY_IDENTIFIER") {
        return match read_word(v, pos + 1) {
            Ok(x) => {
                acc.display_identifier = Some(x);
                Ok(1)
            },
            Err(e) => Err(e),
        };
    }
    Ok(0)
}

fn parse_characteristic<'a>(v: &Vec<Token<'a>>, start: usize, reals: &Vec<RealRow>) -> (r: Result<
    (Characteristic, usize),
    Error,
>)
    requires
        start <= v@.len(),
    ensures
        match r {
            Ok((x, p)) => characteristic(toks(v@), start as int, reals@) == Ok::<(CharacteristicValue, nat), Fault>(
                (x@, (p - start) as nat),
            ) && start <= p <= v@.len(),
            Err(e) => characteristic(toks(v@), start as int, reals@) == Err::<(CharacteristicValue, nat), Fault>(e@),
        },
{
    let name = match read_word(v, start) {
        Ok(x) => x,
        Err(e) => {
            return Err(e);
        },
    };
    let description = match read_text(v, start + 1) {
        Ok(x) => x,
        Err(e) => {
            return Err(e);
        },
    };
    let shape = match read_characteristic_type(v, start + 2) {
        Ok(x) => x,
        Err(e) => {
            return Err(e);
        },
    };
    let place = match read_address(v, start + 3) {
        Ok(x) => x,
        Err(e) => {
            return Err(e);
        },
    };
    let deposit = match read_word(v, start + 4) {
        Ok(x) => x,
        Err(e) => {
            return Err(e);
        },
    };
    let diff = match read_number(v, start + 5) {
        Ok(x) => x,
        Err(e) => {
            return Err(e);
        },
    };
    let method = match read_word(v, start + 6) {
        Ok(x) => x,
        Err(e) => {
            return Err(e);
        },
    };
    let lower = match read_number(v, start + 7) {
        Ok(x) => x,
        Err(e) => {
            return Err(e);
        },
    };
    let upper = match read_number(v, start + 8) {
        Ok(x) => x,
        Err(e) => {
            return Err(e);
        },
    };
    let mut acc = Characteristic {
        name,
        description,
        char_type: shape,
        address: place,
        deposit,
        max_diff: diff,
        compu_method_ref: method,
        lower_limit: lower,
        upper_limit: upper,
        axes: no_axes(),
        format: None,
        display_identifier: None,
    };
    let ghost t = toks(v@);
    let ghost first = acc@;
    let from: usize = start + 9;
    let mut pos: usize = from;
    assert(characteristic(t, start as int, reals@) == later(characteristic_rest(t, from as int, first, reals@), 9));
    loop
        invariant
            from <= pos <= v@.len(),
            from == start + 9,
            t == toks(v@),
            characteristic(t, start as int, reals@) == later(characteristic_rest(t, from as int, first, reals@), 9),
            characteristic_rest(t, from as int, first, reals@) == later(
                characteristic_rest(t, pos as int, acc@, reals@),
                (pos - from) as nat,
            ),
        decreases v@.len() - pos,
    {
        if pos >= v.len() {
            return Err(Error::UnexpectedEof);
        }
        assert(t[pos as int] == v@[pos as int]@);
        if v[pos].eq_word("/end") {
            return match read_keyword(v, pos + 1, "CHARACTERISTIC") {
                Ok(_) => Ok((acc, pos + 2)),
                Err(e) => Err(e),
            };
        }
        match read_characteristic_attribute(v, pos, &mut acc, reals) {
            Ok(n) => {
                pos = pos + 1 + n;
            },
            Err(e) => {
                return Err(e);
            },
        }
    }
}

/// What the token at `i`, with the tokens that belong to it, adds to an AXIS_PTS block; and
/// how many belong to it.
pub open spec fn axis_pts_attribute(
    t: Seq<Tok>,
    i: int,
    acc: AxisPtsValue,
    reals: Seq<RealRow>,
) -> Result<(AxisPtsValue, nat), Fault> {
    if at(t, i, "/begin"@) {
        match skipped(t, i + 1, 1) {
            Ok((_, n)) => Ok((acc, n)),
            Err(e) => Err(e),
        }
    } else if at(t, i, "FORMAT"@) {
        match text(t, i + 1) {
            Ok(x) => Ok(((AxisPtsValue { format: Some(x), ..acc }), 1)),
            Err(e) => Err(e),
        }
    } else {
        Ok((acc, 0))
    }
}

/// The rest of an AXIS_PTS block from `i` on.
pub open spec fn axis_pts_rest(t: Seq<Tok>, i: int, acc: AxisPtsValue, reals: Seq<RealRow>) -> Result<
    (AxisPtsValue, nat),
    Fault,
>
    decreases left(t, i),
{
    if i < 0 || i >= t.len() {
        Err(Fault::UnexpectedEof)
    } else if at(t, i, "/end"@) {
        match keyword(t, i + 1, "AXIS_PTS"@) {
            Ok(_) => Ok((acc, 2)),
            Err(e) => Err(e),
        }
    } else {
        match axis_pts_attribute(t, i, acc, reals) {
            Ok((more, n)) => later(axis_pts_rest(t, i + 1 + n, more, reals), 1 + n),
            Err(e) => Err(e),
        }
    }
}

/// An AXIS_PTS block, and how many tokens it takes.
pub open spec fn axis_pts(t: Seq<Tok>, i: int, reals: Seq<RealRow>) -> Result<(AxisPtsValue, nat), Fault> {
    let name = word(t, i);
    let description = text(t, i + 1);
    let place = address(t, i + 2);
    let input = word(t, i + 3);
    let deposit = word(t, i + 4);
    let diff = number(t, i + 5);
    let method = word(t, i + 6);
    let points = count(t, i + 7, reals);
    let lower = number(t, i + 8);
    let upper = number(t, i + 9);
    if name is Err {
        Err(name->Err_0)
    } else if description is Err {
        Err(description->Err_0)
    } else if place is Err {
        Err(place->Err_0)
    } else if input is Err {
        Err(input->Err_0)
    } else if deposit is Err {
        Err(deposit->Err_0)
    } else if diff is Err {
        Err(diff->Err_0)
    } else if method is Err {
        Err(method->Err_0)
    } else if points is Err {
        Err(points->Err_0)
    } else if lower is Err {
        Err(lower->Err_0)
    } else if upper is Err {
        Err(upper->Err_0)
    } else {
        later(
            axis_pts_rest(
                t,
                i + 10,
                AxisPtsValue {
                    name: name->Ok_0,
                    description: description->Ok_0,
                    address: place->Ok_0,
                    input_quantity: input->Ok_0,
                    deposit: deposit->Ok_0,
                    max_diff: diff->Ok_0,
                    compu_method_ref: method->Ok_0,
                    max_axis_points: points->Ok_0,
                    lower_limit: lower->Ok_0,
                    upper_limit: upper->Ok_0,
                    format: None,
                },
                reals,
            ),
            10,
        )
    }
}

fn read_axis_pts_attribute<'a>(v: &Vec<Token<'a>>, pos: usize, acc: &mut AxisPts, reals: &Vec<RealRow>) -> (r:
    Result<usize, Error>)
    requires
        pos < v@.len() <= usize::MAX,
        !at(toks(v@), pos as int, "/end"@),
    ensures
        match r {
            Ok(n) => axis_pts_attribute(toks(v@), pos as int, old(acc)@, reals@) == Ok::<
                (AxisPtsValue, nat),
                Fault,
            >((final(acc)@, n as nat)) && pos + 1 + n <= v@.len(),
            Err(e) => axis_pts_attribute(toks(v@), pos as int, old(acc)@, reals@) == Err::<
                (AxisPtsValue, nat),
                Fault,
            >(e@),
        },
{
    let ghost t = toks(v@);
    assert(t[pos as int] == v@[pos as int]@);
    if v[pos].eq_word("/begin") {
        return match skip_block(v, pos + 1) {
            Ok(p) => Ok(p - (pos + 1)),
            Err(e) => Err(e),
        };
    }
    if v[pos].eq_word("FORMAT") {
        return match read_text(v, pos + 1) {
            Ok(x) => {
                acc.format = Some(x);
                Ok(1)
            },
            Err(e) => Err(e),
        };
    }
    Ok(0)
}

fn parse_axis_pts<'a>(v: &Vec<Token<'a>>, start: usize, reals: &Vec<RealRow>) -> (r: Result<
    (AxisPts, usize),
    Error,
>)
    requires
        start <= v@.len(),
    ensures
        match r {
            Ok((x, p)) => axis_pts(toks(v@), start as int, reals@) == Ok::<(AxisPtsValue, nat), Fault>(
                (x@, (p - start) as nat),
            ) && start <= p <= v@.len(),
            Err(e) => axis_pts(toks(v@), start as int, reals@) == Err::<(AxisPtsValue, nat), Fault>(e@),
        },
{
    let name = match read_word(v, start) {
        Ok(x) => x,
        Err(e) => {
            return Err(e);
        },
    };
    let description = match read_text(v, start + 1) {
        Ok(x) => x,
        Err(e) => {
            return Err(e);
        },
    };
    let place = match read_address(v, start + 2) {
        Ok(x) => x,
        Err(e) => {
            return Err(e);
        },
    };
    let input = match read_word(v, start + 3) {
        Ok(x) => x,
        Err(e) => {
            return Err(e);
        },
    };
    let deposit = match read_word(v, start + 4) {
        Ok(x) => x,
        Err(e) => {
            return Err(e);
        },
    };
    let diff = match read_number(v, start + 5) {
        Ok(x) => x,
        Err(e) => {
            return Err(e);
        },
    };
    let method = match read_word(v, start + 6) {
        Ok(x) => x,
        Err(e) => {
            return Err(e);
        },
    };
    let points = match read_count(v, start + 7, reals) {
        Ok(x) => x,
        Err(e) => {
            return Err(e);
        },
    };
    let lower = match read_number(v, start + 8) {
        Ok(x) => x,
        Err(e) => {
            return Err(e);
        },
    };
    let upper = match read_number(v, start + 9) {
        Ok(x) => x,
        Err(e) => {
            return Err(e);
        },
    };
    let mut acc = AxisPts {
        name,
        description,
        address: place,
        input_quantity: input,
        deposit,
        max_diff: diff,
        compu_method_ref: method,
        max_axis_points: points,
        lower_limit: lower,
        upper_limit: upper,
        format: None,
    };
    let ghost t = toks(v@);
    let ghost first = acc@;
    let from: usize = start + 10;
    let mut pos: usize = from;
    assert(axis_pts(t, start as int, reals@) == later(axis_pts_rest(t, from as int, first, reals@), 10));
    loop
        invariant
            from <= pos <= v@.len(),
            from == start + 10,
            t == toks(v@),
            axis_pts(t, start as int, reals@) == later(axis_pts_rest(t, from as int, first, reals@), 10),
            axis_pts_rest(t, from as int, first, reals@) == later(
                axis_pts_rest(t, pos as int, acc@, reals@),
                (pos - from) as nat,
            ),
        decreases v@.len() - pos,
    {
        if pos >= v.len() {
            return Err(Error::UnexpectedEof);
        }
        assert(t[pos as int] == v@[pos as int]@);
        if v[pos].eq_word("/end") {
            return match read_keyword(v, pos + 1, "AXIS_PTS") {
                Ok(_) => Ok((acc, pos + 2)),
                Err(e) => Err(e),
            };
        }
        match read_axis_pts_attribute(v, pos, &mut acc, reals) {
            Ok(n) => {
                pos = pos + 1 + n;
            },
            Err(e) => {
                return Err(e);
            },
        }
    }
}

/// A field of a record at `i`: its position and datatype.
pub open spec fn field(t: Seq<Tok>, i: int, reals: Seq<RealRow>) -> Result<LayoutField, Fault> {
    let position = count(t, i, reals);
    let kind = datatype(t, i + 1);
    if position is Err {
        Err(position->Err_0)
    } else if kind is Err {
        Err(kind->Err_0)
    } else {
        Ok(LayoutField { position: position->Ok_0, datatype: kind->Ok_0 })
    }
}

/// A field of a record at `i`, with an index mode and an addressing behind it.
pub open spec fn indexed_field(t: Seq<Tok>, i: int, reals: Seq<RealRow>) -> Result<
    (LayoutField, Seq<char>),
    Fault,
> {
    let f = field(t, i, reals);
    let mode = word(t, i + 2);
    let addressing = word(t, i + 3);
    if f is Err {
        Err(f->Err_0)
    } else if mode is Err {
        Err(mode->Err_0)
    } else if addressing is Err {
        Err(addressing->Err_0)
    } else {
        Ok((f->Ok_0, mode->Ok_0))
    }
}

fn read_field<'a>(v: &Vec<Token<'a>>, pos: usize, reals: &Vec<RealRow>) -> (r: Result<
    LayoutField,
    Error,
>)
    requires
        pos <= v@.len(),
    ensures
        match r {
            Ok(f) => field(toks(v@), pos as int, reals@) == Ok::<LayoutField, Fault>(f) && pos + 2
                <= v@.len() <= usize::MAX,
            Err(e) => field(toks(v@), pos as int, reals@) == Err::<LayoutField, Fault>(e@),
        },
{
    let position: u16 = match read_count(v, pos, reals) {
        Ok(x) => x,
        Err(e) => {
            return Err(e);
        },
    };
    match read_datatype(v, pos + 1) {
        Ok(datatype) => Ok(LayoutField { position, datatype }),
        Err(e) => Err(e),
    }
}

fn read_indexed_field<'a>(v: &Vec<Token<'a>>, pos: usize, reals: &Vec<RealRow>) -> (r: Result<
    (LayoutField, String),
    Error,
>)
    requires
        pos <= v@.len(),
    ensures
        match r {
            Ok((f, mode)) => indexed_field(toks(v@), pos as int, reals@) == Ok::<
                (LayoutField, Seq<char>),
                Fault,
            >((f, mode@)) && pos + 4 <= v@.len() <= usize::MAX,
            Err(e) => indexed_field(toks(v@), pos as int, reals@) == Err::<
                (LayoutField, Seq<char>),
                Fault,
            >(e@),
        },
{
    let f = match read_field(v, pos, reals) {
        Ok(x) => x,
        Err(e) => {
            return Err(e);
        },
    };
    let mode = match read_word(v, pos + 2) {
        Ok(x) => x,
        Err(e) => {
            return Err(e);
        },
    };
    match read_word(v, pos + 3) {
        Ok(_) => Ok((f, mode)),
        Err(e) => Err(e),
    }
}

/// What the token at `i`, with the tokens that belong to it, adds to a RECORD_LAYOUT block; and
/// how many belong to it.
pub open spec fn record_layout_attribute(
    t: Seq<Tok>,
    i: int,
    acc: RecordLayoutValue,
    reals: Seq<RealRow>,
) -> Result<(RecordLayoutValue, nat), Fault> {
    if at(t, i, "/begin"@) {
        match skipped(t, i + 1, 1) {
            Ok((_, n)) => Ok((acc, n)),
            Err(e) => Err(e),
        }
    } else if at(t, i, "FNC_VALUES"@) {
        match indexed_field(t, i + 1, reals) {
            Ok((f, mode)) => Ok(
                (
                    (RecordLayoutValue {
                        fnc_values: Some(
                            FncValuesField {
                                position: f.position,
                                datatype: f.datatype,
                                column_dir: mode != "ROW_DIR"@,
                            },
                        ),
                        ..acc
                    }),
                    4,
                ),
            ),
            Err(e) => Err(e),
        }
    } else if at(t, i, "NO_AXIS_PTS_X"@) {
        match field(t, i + 1, reals) {
            Ok(f) => Ok(((RecordLayoutValue { no_axis_pts_x: Some(f), ..acc }), 2)),
            Err(e) => Err(e),
        }
    } else if at(t, i, "AXIS_PTS_X"@) {
        match indexed_field(t, i + 1, reals) {
            Ok((f, _)) => Ok(((RecordLayoutValue { axis_pts_x: Some(f), ..acc }), 4)),
            Err(e) => Err(e),
        }
    } else if at(t, i, "FIX_NO_AXIS_PTS_X"@) {
        match count(t, i + 1, reals) {
            Ok(n) => Ok(((RecordLayoutValue { fix_no_axis_pts_x: Some(n), ..acc }), 1)),
            Err(e) => Err(e),
        }
    } else if at(t, i, "NO_AXIS_PTS_Y"@) {
        match field(t, i + 1, reals) {
            Ok(f) => Ok(((RecordLayoutValue { no_axis_pts_y: Some(f), ..acc }), 2)),
            Err(e) => Err(e),
        }
    } else if at(t, i, "AXIS_PTS_Y"@) {
        match indexed_field(t, i + 1, reals) {
            Ok((f, _)) => Ok(((RecordLayoutValue { axis_pts_y: Some(f), ..acc }), 4)),
            Err(e) => Err(e),
        }
    } else if at(t, i, "FIX_NO_AXIS_PTS_Y"@) {
        match count(t, i + 1, reals) {
            Ok(n) => Ok(((RecordLayoutValue { fix_no_axis_pts_y: Some(n), ..acc }), 1)),
            Err(e) => Err(e),
        }
    } else if at(t, i, "NO_AXIS_PTS_Z"@) {
        match field(t, i + 1, reals) {
            Ok(f) => Ok(((RecordLayoutValue { no_axis_pts_z: Some(f), ..acc }), 2)),
            Err(e) => Err(e),
        }
    } else if at(t, i, "AXIS_PTS_Z"@) {
        match indexed_field(t, i + 1, reals) {
            Ok((f, _)) => Ok(((RecordLayoutValue { axis_pts_z: Some(f), ..acc }), 4)),
            Err(e) => Err(e),
        }
    } else if at(t, i, "FIX_NO_AXIS_PTS_Z"@) {
        match count(t, i + 1, reals) {
            Ok(n) => Ok(((RecordLayoutValue { fix_no_axis_pts_z: Some(n), ..acc }), 1)),
            Err(e) => Err(e),
        }
    } else {
        Ok((acc, 0))
    }
}

/// The rest of a RECORD_LAYOUT block from `i` on.
pub open spec fn record_layout_rest(t: Seq<Tok>, i: int, acc: RecordLayoutValue, reals: Seq<RealRow>) -> Result<
    (RecordLayoutValue, nat),
    Fault,
>
    decreases left(t, i),
{
    if i < 0 || i >= t.len() {
        Err(Fault::UnexpectedEof)
    } else if at(t, i, "/end"@) {
        match keyword(t, i + 1, "RECORD_LAYOUT"@) {
            Ok(_) => Ok((acc, 2)),
            Err(e) => Err(e),
        }
    } else {
        match record_layout_attribute(t, i, acc, reals) {
            Ok((more, n)) => later(record_layout_rest(t, i + 1 + n, more, reals), 1 + n),
            Err(e) => Err(e),
        }
    }
}

/// A RECORD_LAYOUT block, and how many tokens it takes.
pub open spec fn record_layout(t: Seq<Tok>, i: int, reals: Seq<RealRow>) -> Result<(RecordLayoutValue, nat), Fault> {
    let name = word(t, i);
    if name is Err {
        Err(name->Err_0)
    } else {
        later(
            record_layout_rest(
                t,
                i + 1,
                RecordLayoutValue {
                    name: name->Ok_0,
                    fnc_values: None,
                    axis_pts_x: None,
                    axis_pts_y: None,
                    no_axis_pts_x: None,
                    no_axis_pts_y: None,
                    axis_pts_z: None,
                    no_axis_pts_z: None,
                    fix_no_axis_pts_x: None,
                    fix_no_axis_pts_y: None,
                    fix_no_axis_pts_z: None,
                },
                reals,
            ),
            1,
        )
    }
}

fn read_record_layout_attribute<'a>(v: &Vec<Token<'a>>, pos: usize, acc: &mut RecordLayout, reals: &Vec<RealRow>) -> (r:
    Result<usize, Error>)
    requires
        pos < v@.len() <= usize::MAX,
        !at(toks(v@), pos as int, "/end"@),
    ensures
        match r {
            Ok(n) => record_layout_attribute(toks(v@), pos as int, old(acc)@, reals@) == Ok::<
                (RecordLayoutValue, nat),
                Fault,
            >((final(acc)@, n as nat)) && pos + 1 + n <= v@.len(),
            Err(e) => record_layout_attribute(toks(v@), pos as int, old(acc)@, reals@) == Err::<
                (RecordLayoutValue, nat),
                Fault,
            >(e@),
        },
{
    let ghost t = toks(v@);
    assert(t[pos as int] == v@[pos as int]@);
    if v[pos].eq_word("/begin") {
        return match skip_block(v, pos + 1) {
            Ok(p) => Ok(p - (pos + 1)),
            Err(e) => Err(e),
        };
    }
    if v[pos].eq_word("FNC_VALUES") {
        return match read_indexed_field(v, pos + 1, reals) {
            Ok((f, mode)) => {
                acc.fnc_values = Some(
                    FncValuesField {
                        position: f.position,
                        datatype: f.datatype,
                        column_dir: !str_eq(mode.as_str(), "ROW_DIR"),
                    },
                );
                Ok(4)
            },
            Err(e) => Err(e),
        };
    }
    if v[pos].eq_word("NO_AXIS_PTS_X") {
        return match read_field(v, pos + 1, reals) {
            Ok(f) => {
                acc.no_axis_pts_x = Some(f);
                Ok(2)
            },
            Err(e) => Err(e),
        };
    }
    if v[pos].eq_word("AXIS_PTS_X") {
        return match read_indexed_field(v, pos + 1, reals) {
            Ok((f, _)) => {
                acc.axis_pts_x = Some(f);
                Ok(4)
            },
            Err(e) => Err(e),
        };
    }
    if v[pos].eq_word("FIX_NO_AXIS_PTS_X") {
        return match read_count(v, pos + 1, reals) {
            Ok(n) => {
                acc.fix_no_axis_pts_x = Some(n);
                Ok(1)
            },
            Err(e) => Err(e),
        };
    }
    if v[pos].eq_word("NO_AXIS_PTS_Y") {
        return match read_field(v, pos + 1, reals) {
            Ok(f) => {
                acc.no_axis_pts_y = Some(f);
                Ok(2)
            },
            Err(e) => Err(e),
        };
    }
    if v[pos].eq_word("AXIS_PTS_Y") {
        return match read_indexed_field(v, pos + 1, reals) {
            Ok((f, _)) => {
                acc.axis_pts_y = Some(f);
                Ok(4)
            },
            Err(e) => Err(e),
        };
    }
    if v[pos].eq_word("FIX_NO_AXIS_PTS_Y") {
        return match read_count(v, pos + 1, reals) {
            Ok(n) => {
                acc.fix_no_axis_pts_y = Some(n);
                Ok(1)
            },
            Err(e) => Err(e),
        };
    }
    if v[pos].eq_word("NO_AXIS_PTS_Z") {
        return match read_field(v, pos + 1, reals) {
            Ok(f) => {
                acc.no_axis_pts_z = Some(f);
                Ok(2)
            },
            Err(e) => Err(e),
        };
    }
    if v[pos].eq_word("AXIS_PTS_Z") {
        return match read_indexed_field(v, pos + 1, reals) {
            Ok((f, _)) => {
                acc.axis_pts_z = Some(f);
                Ok(4)
            },
            Err(e) => Err(e),
        };
    }
    if v[pos].eq_word("FIX_NO_AXIS_PTS_Z") {
        return match read_count(v, pos + 1, reals) {
            Ok(n) => {
                acc.fix_no_axis_pts_z = Some(n);
                Ok(1)
            },
            Err(e) => Err(e),
        };
    }
    Ok(0)
}

fn parse_record_layout<'a>(v: &Vec<Token<'a>>, start: usize, reals: &Vec<RealRow>) -> (r: Result<
    (RecordLayout, usize),
    Error,
>)
    requires
        start <= v@.len(),
    ensures
        match r {
            Ok((x, p)) => record_layout(toks(v@), start as int, reals@) == Ok::<(RecordLayoutValue, nat), Fault>(
                (x@, (p - start) as nat),
            ) && start <= p <= v@.len(),
            Err(e) => record_layout(toks(v@), start as int, reals@) == Err::<(RecordLayoutValue, nat), Fault>(e@),
        },
{
    let name = match read_word(v, start) {
        Ok(x) => x,
        Err(e) => {
            return Err(e);
        },
    };
    let mut acc = RecordLayout {
        name,
        fnc_values: None,
        axis_pts_x: None,
        axis_pts_y: None,
        no_axis_pts_x: None,
        no_axis_pts_y: None,
        axis_pts_z: None,
        no_axis_pts_z: None,
        fix_no_axis_pts_x: None,
        fix_no_axis_pts_y: None,
        fix_no_axis_pts_z: None,
    };
    let ghost t = toks(v@);
    let ghost first = acc@;
    let from: usize = start + 1;
    let mut pos: usize = from;
    assert(record_layout(t, start as int, reals@) == later(record_layout_rest(t, from as int, first, reals@), 1));
    loop
        invariant
            from <= pos <= v@.len(),
            from == start + 1,
            t == toks(v@),
            record_layout(t, start as int, reals@) == later(record_layout_rest(t, from as int, first, reals@), 1),
            record_layout_rest(t, from as int, first, reals@) == later(
                record_layout_rest(t, pos as int, acc@, reals@),
                (pos - from) as nat,
            ),
        decreases v@.len() - pos,
    {
        if pos >= v.len() {
            return Err(Error::UnexpectedEof);
        }
        assert(t[pos as int] == v@[pos as int]@);
        if v[pos].eq_word("/end") {
            return match read_keyword(v, pos + 1, "RECORD_LAYOUT") {
                Ok(_) => Ok((acc, pos + 2)),
                Err(e) => Err(e),
            };
        }
        match read_record_layout_attribute(v, pos, &mut acc, reals) {
            Ok(n) => {
                pos = pos + 1 + n;
            },
            Err(e) => {
                return Err(e);
            },
        }
    }
}

/// The names of a list from `i` on, up to and with the `/end` of the list.
pub open spec fn name_list(t: Seq<Tok>, i: int, acc: Seq<Seq<char>>, expected: Seq<char>) -> Result<
    (Seq<Seq<char>>, nat),
    Fault,
>
    decreases left(t, i),
{
    if i < 0 || i >= t.len() {
        Err(Fault::UnexpectedEof)
    } else if at(t, i, "/end"@) {
        match word(t, i + 1) {
            Ok(got) => if got == expected {
                Ok((acc, 2))
            } else {
                Err(Fault::UnexpectedKeyword { expected, got })
            },
            Err(e) => Err(e),
        }
    } else if at(t, i, "/begin"@) {
        match skipped(t, i + 1, 1) {
            Ok((_, n)) => later(name_list(t, i + 1 + n, acc, expected), 1 + n),
            Err(e) => Err(e),
        }
    } else {
        later(name_list(t, i + 1, acc.push(latin_text(t[i].bytes())), expected), 1)
    }
}

fn parse_name_list<'a>(
    v: &Vec<Token<'a>>,
    start: usize,
    out: &mut Vec<String>,
    expected: &str,
) -> (r: Result<usize, Error>)
    requires
        start <= v@.len(),
    ensures
        match r {
            Ok(p) => name_list(toks(v@), start as int, views(old(out)@), expected@) == Ok::<
                (Seq<Seq<char>>, nat),
                Fault,
            >((views(final(out)@), (p - start) as nat)) && start <= p <= v@.len(),
            Err(e) => name_list(toks(v@), start as int, views(old(out)@), expected@) == Err::<
                (Seq<Seq<char>>, nat),
                Fault,
            >(e@),
        },
{
    let ghost t = toks(v@);
    let ghost all = name_list(t, start as int, views(out@), expected@);
    let mut pos: usize = start;
    loop
        invariant
            start <= pos <= v@.len(),
            t == toks(v@),
            all == name_list(t, start as int, views(old(out)@), expected@),
            all == later(
                name_list(t, pos as int, views(out@), expected@),
                (pos - start) as nat,
            ),
        decreases v@.len() - pos,
    {
        if pos >= v.len() {
            return Err(Error::UnexpectedEof);
        }
        assert(t[pos as int] == v@[pos as int]@);
        if v[pos].eq_word("/end") {
            return match read_word(v, pos + 1) {
                Ok(got) => if str_eq(got.as_str(), expected) {
                    Ok(pos + 2)
                } else {
                    Err(Error::UnexpectedKeyword { expected: expected.to_owned(), got })
                },
                Err(e) => Err(e),
            };
        }
        if v[pos].eq_word("/begin") {
            match skip_block(v, pos + 1) {
                Ok(p) => {
                    pos = p;
                },
                Err(e) => {
                    return Err(e);
                },
            }
        } else {
            let ghost before = out@;
            let name = v[pos].as_str_lossy();
            out.push(name);
            assert(views(out@) == views(before).push(name@));
            pos = pos + 1;
        }
    }
}

fn empty_function(name: String, description: String) -> (r: Function)
    ensures
        r@ == (FunctionValue {
            name: name@,
            description: description@,
            def_characteristics: Seq::empty(),
            ref_characteristics: Seq::empty(),
            sub_functions: Seq::empty(),
        }),
{
    let r = Function {
        name,
        description,
        def_characteristics: Vec::new(),
        ref_characteristics: Vec::new(),
        sub_functions: Vec::new(),
    };
    assert(r@.def_characteristics == Seq::<Seq<char>>::empty());
    assert(r@.ref_characteristics == Seq::<Seq<char>>::empty());
    assert(r@.sub_functions == Seq::<Seq<char>>::empty());
    r
}

/// What the token at `i`, with the tokens that belong to it, adds to a FUNCTION block; and
/// how many belong to it.
pub open spec fn function_attribute(
    t: Seq<Tok>,
    i: int,
    acc: FunctionValue,
    reals: Seq<RealRow>,
) -> Result<(FunctionValue, nat), Fault> {
    if at(t, i, "/begin"@) {
        match word(t, i + 1) {
            Err(e) => Err(e),
            Ok(kw) => if kw == "DEF_CHARACTERISTIC"@ {
                match name_list(t, i + 2, acc.def_characteristics, "DEF_CHARACTERISTIC"@) {
                    Ok((names, n)) => Ok(
                        ((FunctionValue { def_characteristics: names, ..acc }), 1 + n),
                    ),
                    Err(e) => Err(e),
                }
            } else if kw == "REF_CHARACTERISTIC"@ {
                match name_list(t, i + 2, acc.ref_characteristics, "REF_CHARACTERISTIC"@) {
                    Ok((names, n)) => Ok(
                        ((FunctionValue { ref_characteristics: names, ..acc }), 1 + n),
                    ),
                    Err(e) => Err(e),
                }
            } else if kw == "SUB_FUNCTION"@ {
                match name_list(t, i + 2, acc.sub_functions, "SUB_FUNCTION"@) {
                    Ok((names, n)) => Ok(
                        ((FunctionValue { sub_functions: names, ..acc }), 1 + n),
                    ),
                    Err(e) => Err(e),
                }
            } else {
                match skipped(t, i + 2, 1) {
                    Ok((_, n)) => Ok((acc, 1 + n)),
                    Err(e) => Err(e),
                }
            },
        }
    } else {
        Ok((acc, 0))
    }
}

/// The rest of a FUNCTION block from `i` on.
pub open spec fn function_rest(t: Seq<Tok>, i: int, acc: FunctionValue, reals: Seq<RealRow>) -> Result<
    (FunctionValue, nat),
    Fault,
>
    decreases left(t, i),
{
    if i < 0 || i >= t.len() {
        Err(Fault::UnexpectedEof)
    } else if at(t, i, "/end"@) {
        match keyword(t, i + 1, "FUNCTION"@) {
            Ok(_) => Ok((acc, 2)),
            Err(e) => Err(e),
        }
    } else {
        match function_attribute(t, i, acc, reals) {
            Ok((more, n)) => later(function_rest(t, i + 1 + n, more, reals), 1 + n),
            Err(e) => Err(e),
        }
    }
}

/// A FUNCTION block, and how many tokens it takes.
pub open spec fn function(t: Seq<Tok>, i: int, reals: Seq<RealRow>) -> Result<(FunctionValue, nat), Fault> {
    let name = word(t, i);
    let description = text(t, i + 1);
    if name is Err {
        Err(name->Err_0)
    } else if description is Err {
        Err(description->Err_0)
    } else {
        later(
            function_rest(
                t,
                i + 2,
                FunctionValue {
                    name: name->Ok_0,
                    description: description->Ok_0,
                    def_characteristics: Seq::empty(),
                    ref_characteristics: Seq::empty(),
                    sub_functions: Seq::empty(),
                },
                reals,
            ),
            2,
        )
    }
}

fn read_function_attribute<'a>(v: &Vec<Token<'a>>, pos: usize, acc: &mut Function, reals: &Vec<RealRow>) -> (r:
    Result<usize, Error>)
    requires
        pos < v@.len() <= usize::MAX,
        !at(toks(v@), pos as int, "/end"@),
    ensures
        match r {
            Ok(n) => function_attribute(toks(v@), pos as int, old(acc)@, reals@) == Ok::<
                (FunctionValue, nat),
                Fault,
            >((final(acc)@, n as nat)) && pos + 1 + n <= v@.len(),
            Err(e) => function_attribute(toks(v@), pos as int, old(acc)@, reals@) == Err::<
                (FunctionValue, nat),
                Fault,
            >(e@),
        },
{
    let ghost t = toks(v@);
    assert(t[pos as int] == v@[pos as int]@);
    if v[pos].eq_word("/begin") {
        let kw = match read_word(v, pos + 1) {
            Ok(x) => x,
            Err(e) => {
                return Err(e);
            },
        };
        if str_eq(kw.as_str(), "DEF_CHARACTERISTIC") {
            return match parse_name_list(v, pos + 2, &mut acc.def_characteristics, "DEF_CHARACTERISTIC") {
                Ok(p) => Ok(p - (pos + 1)),
                Err(e) => Err(e),
            };
        }
        if str_eq(kw.as_str(), "REF_CHARACTERISTIC") {
            return match parse_name_list(v, pos + 2, &mut acc.ref_characteristics, "REF_CHARACTERISTIC") {
                Ok(p) => Ok(p - (pos + 1)),
                Err(e) => Err(e),
            };
        }
        if str_eq(kw.as_str(), "SUB_FUNCTION") {
            return match parse_name_list(v, pos + 2, &mut acc.sub_functions, "SUB_FUNCTION") {
                Ok(p) => Ok(p - (pos + 1)),
                Err(e) => Err(e),
            };
        }
        return match skip_block(v, pos + 2) {
            Ok(p) => Ok(p - (pos + 1)),
            Err(e) => Err(e),
        };
    }
    Ok(0)
}

fn parse_function<'a>(v: &Vec<Token<'a>>, start: usize, reals: &Vec<RealRow>) -> (r: Result<
    (Function, usize),
    Error,
>)
    requires
        start <= v@.len(),
    ensures
        match r {
            Ok((x, p)) => function(toks(v@), start as int, reals@) == Ok::<(FunctionValue, nat), Fault>(
                (x@, (p - start) as nat),
            ) && start <= p <= v@.len(),
            Err(e) => function(toks(v@), start as int, reals@) == Err::<(FunctionValue, nat), Fault>(e@),
        },
{
    let name = match read_word(v, start) {
        Ok(x) => x,
        Err(e) => {
            return Err(e);
        },
    };
    let description = match read_text(v, start + 1) {
        Ok(x) => x,
        Err(e) => {
            return Err(e);
        },
    };
    let mut acc = empty_function(name, description);
    let ghost t = toks(v@);
    let ghost first = acc@;
    let from: usize = start + 2;
    let mut pos: usize = from;
    assert(function(t, start as int, reals@) == later(function_rest(t, from as int, first, reals@), 2));
    loop
        invariant
            from <= pos <= v@.len(),
            from == start + 2,
            t == toks(v@),
            function(t, start as int, reals@) == later(function_rest(t, from as int, first, reals@), 2),
            function_rest(t, from as int, first, reals@) == later(
                function_rest(t, pos as int, acc@, reals@),
                (pos - from) as nat,
            ),
        decreases v@.len() - pos,
    {
        if pos >= v.len() {
            return Err(Error::UnexpectedEof);
        }
        assert(t[pos as int] == v@[pos as int]@);
        if v[pos].eq_word("/end") {
            return match read_keyword(v, pos + 1, "FUNCTION") {
                Ok(_) => Ok((acc, pos + 2)),
                Err(e) => Err(e),
            };
        }
        match read_function_attribute(v, pos, &mut acc, reals) {
            Ok(n) => {
                pos = pos + 1 + n;
            },
            Err(e) => {
                return Err(e);
            },
        }
    }
}

/// Whether a keyword opens a block that is kept.
pub open spec fn is_item(kw: Seq<char>) -> bool {
    ||| kw == "MEASUREMENT"@
    ||| kw == "COMPU_METHOD"@
    ||| kw == "COMPU_VTAB"@
    ||| kw == "COMPU_VTAB_RANGE"@
    ||| kw == "CHARACTERISTIC"@
    ||| kw == "AXIS_PTS"@
    ||| kw == "RECORD_LAYOUT"@
    ||| kw == "FUNCTION"@
}

/// A file with the block of keyword `kw` at `i`, and how many tokens it takes.
pub open spec fn item(
    t: Seq<Tok>,
    i: int,
    kw: Seq<char>,
    file: A2lFileValue,
    reals: Seq<RealRow>,
) -> Result<(A2lFileValue, nat), Fault> {
    if kw == "MEASUREMENT"@ {
        match measurement(t, i, reals) {
            Ok((x, n)) => Ok(((A2lFileValue { measurements: file.measurements.push(x), ..file }), n)),
            Err(e) => Err(e),
        }
    } else if kw == "COMPU_METHOD"@ {
        match compu_method(t, i, reals) {
            Ok((x, n)) => Ok(((A2lFileValue { compu_methods: with_row(file.compu_methods, x.name, x), ..file }), n)),
            Err(e) => Err(e),
        }
    } else if kw == "COMPU_VTAB"@ {
        match compu_vtab(t, i, reals) {
            Ok((x, n)) => Ok(((A2lFileValue { compu_vtabs: with_row(file.compu_vtabs, x.name, x), ..file }), n)),
            Err(e) => Err(e),
        }
    } else if kw == "COMPU_VTAB_RANGE"@ {
        match compu_vtab_range(t, i, reals) {
            Ok((x, n)) => Ok(((A2lFileValue { compu_vtab_ranges: with_row(file.compu_vtab_ranges, x.name, x), ..file }), n)),
            Err(e) => Err(e),
        }
    } else if kw == "CHARACTERISTIC"@ {
        match characteristic(t, i, reals) {
            Ok((x, n)) => Ok(((A2lFileValue { characteristics: file.characteristics.push(x), ..file }), n)),
            Err(e) => Err(e),
        }
    } else if kw == "AXIS_PTS"@ {
        match axis_pts(t, i, reals) {
            Ok((x, n)) => Ok(((A2lFileValue { axis_pts: with_row(file.axis_pts, x.name, x), ..file }), n)),
            Err(e) => Err(e),
        }
    } else if kw == "RECORD_LAYOUT"@ {
        match record_layout(t, i, reals) {
            Ok((x, n)) => Ok(((A2lFileValue { record_layouts: with_row(file.record_layouts, x.name, x), ..file }), n)),
            Err(e) => Err(e),
        }
    } else {
        match function(t, i, reals) {
            Ok((x, n)) => Ok(((A2lFileValue { functions: file.functions.push(x), ..file }), n)),
            Err(e) => Err(e),
        }
    }
}

/// What is in a file from `i` on, inside the blocks that are `open`. Blocks that
/// are not kept may hold ones that are, at any depth.
pub open spec fn contents(
    t: Seq<Tok>,
    i: int,
    file: A2lFileValue,
    open: Seq<Seq<char>>,
    reals: Seq<RealRow>,
) -> Result<A2lFileValue, Fault>
    decreases left(t, i),
{
    if i < 0 || i >= t.len() {
        if open.len() > 0 {
            Err(Fault::UnexpectedEof)
        } else {
            Ok(file)
        }
    } else if at(t, i, "/end"@) {
        match word(t, i + 1) {
            Err(e) => Err(e),
            Ok(kw) => if open.len() == 0 {
                contents(t, i + 2, file, open, reals)
            } else if kw != open.last() {
                Err(Fault::UnexpectedKeyword { expected: open.last(), got: kw })
            } else {
                contents(t, i + 2, file, open.drop_last(), reals)
            },
        }
    } else if at(t, i, "/begin"@) {
        match word(t, i + 1) {
            Err(e) => Err(e),
            Ok(kw) => if is_item(kw) {
                match item(t, i + 2, kw, file, reals) {
                    Ok((more, n)) => contents(t, i + 2 + n, more, open, reals),
                    Err(e) => Err(e),
                }
            } else {
                contents(t, i + 2, file, open.push(kw), reals)
            },
        }
    } else {
        contents(t, i + 1, file, open, reals)
    }
}

/// A file that describes nothing.
pub open spec fn empty_file() -> A2lFileValue {
    A2lFileValue {
        measurements: Seq::empty(),
        characteristics: Seq::empty(),
        axis_pts: Seq::empty(),
        record_layouts: Seq::empty(),
        compu_methods: Seq::empty(),
        compu_vtabs: Seq::empty(),
        compu_vtab_ranges: Seq::empty(),
        functions: Seq::empty(),
    }
}

fn new_file() -> (r: A2lFile)
    ensures
        r@ == empty_file(),
{
    let r = A2lFile {
        measurements: Vec::new(),
        characteristics: Vec::new(),
        axis_pts: Table::new(),
        record_layouts: Table::new(),
        compu_methods: Table::new(),
        compu_vtabs: Table::new(),
        compu_vtab_ranges: Table::new(),
        functions: Vec::new(),
    };
    assert(r@.measurements == Seq::<MeasurementValue>::empty());
    assert(r@.characteristics == Seq::<CharacteristicValue>::empty());
    assert(r@.functions == Seq::<FunctionValue>::empty());
    r
}

fn item_keyword(kw: &String) -> (r: bool)
    ensures
        r == is_item(kw@),
{
    str_eq(kw.as_str(), "MEASUREMENT") || str_eq(kw.as_str(), "COMPU_METHOD") || str_eq(kw.as_str(), "COMPU_VTAB") || str_eq(kw.as_str(), "COMPU_VTAB_RANGE") || str_eq(kw.as_str(), "CHARACTERISTIC") || str_eq(kw.as_str(), "AXIS_PTS") || str_eq(kw.as_str(), "RECORD_LAYOUT") || str_eq(kw.as_str(), "FUNCTION")
}

fn parse_item<'a>(
    v: &Vec<Token<'a>>,
    pos: usize,
    kw: &String,
    file: &mut A2lFile,
    reals: &Vec<RealRow>,
) -> (r: Result<usize, Error>)
    requires
        pos <= v@.len(),
        is_item(kw@),
    ensures
        match r {
            Ok(p) => item(toks(v@), pos as int, kw@, old(file)@, reals@) == Ok::<
                (A2lFileValue, nat),
                Fault,
            >((final(file)@, (p - pos) as nat)) && pos <= p <= v@.len(),
            Err(e) => item(toks(v@), pos as int, kw@, old(file)@, reals@) == Err::<
                (A2lFileValue, nat),
                Fault,
            >(e@),
        },
{
    if str_eq(kw.as_str(), "MEASUREMENT") {
        return match parse_measurement(v, pos, reals) {
            Ok((x, p)) => {
                let ghost before = file.measurements@;
                file.measurements.push(x);
                assert(views(file.measurements@) == views(before).push(x@));
                Ok(p)
            },
            Err(e) => Err(e),
        };
    }
    if str_eq(kw.as_str(), "COMPU_METHOD") {
        return match parse_compu_method(v, pos, reals) {
            Ok((x, p)) => {
                let name = x.name.clone();
                file.compu_methods.put(name, x);
                Ok(p)
            },
            Err(e) => Err(e),
        };
    }
    if str_eq(kw.as_str(), "COMPU_VTAB") {
        return match parse_compu_vtab(v, pos, reals) {
            Ok((x, p)) => {
                let name = x.name.clone();
                file.compu_vtabs.put(name, x);
                Ok(p)
            },
            Err(e) => Err(e),
        };
    }
    if str_eq(kw.as_str(), "COMPU_VTAB_RANGE") {
        return match parse_compu_vtab_range(v, pos, reals) {
            Ok((x, p)) => {
                let name = x.name.clone();
                file.compu_vtab_ranges.put(name, x);
                Ok(p)
            },
            Err(e) => Err(e),
        };
    }
    if str_eq(kw.as_str(), "CHARACTERISTIC") {
        return match parse_characteristic(v, pos, reals) {
            Ok((x, p)) => {
                let ghost before = file.characteristics@;
                file.characteristics.push(x);
                assert(views(file.characteristics@) == views(before).push(x@));
                Ok(p)
            },
            Err(e) => Err(e),
        };
    }
    if str_eq(kw.as_str(), "AXIS_PTS") {
        return match parse_axis_pts(v, pos, reals) {
            Ok((x, p)) => {
                let name = x.name.clone();
                file.axis_pts.put(name, x);
                Ok(p)
            },
            Err(e) => Err(e),
        };
    }
    if str_eq(kw.as_str(), "RECORD_LAYOUT") {
        return match parse_record_layout(v, pos, reals) {
            Ok((x, p)) => {
                let name = x.name.clone();
                file.record_layouts.put(name, x);
                Ok(p)
            },
            Err(e) => Err(e),
        };
    }
    match parse_function(v, pos, reals) {
            Ok((x, p)) => {
                let ghost before = file.functions@;
                file.functions.push(x);
                assert(views(file.functions@) == views(before).push(x@));
                Ok(p)
            },
            Err(e) => Err(e),
        }
}

/// Parse an A2L file. `reals` tells what the decimal numbers among
/// [`real_words`] come to where a whole number is wanted.
pub fn parse(src: &[u8], reals: &Vec<RealRow>) -> (r: Result<A2lFile, Error>)
    ensures
        match r {
            Ok(file) => contents(tokens(src@, 0), 0, empty_file(), Seq::empty(), reals@) == Ok::<
                A2lFileValue,
                Fault,
            >(file@),
            Err(e) => contents(tokens(src@, 0), 0, empty_file(), Seq::empty(), reals@) == Err::<
                A2lFileValue,
                Fault,
            >(e@),
        },
{
    let v = tokenize(src);
    let ghost t = toks(v@);
    let ghost all = contents(t, 0, empty_file(), Seq::empty(), reals@);
    let mut file = new_file();
    let mut open: Vec<String> = Vec::new();
    let mut pos: usize = 0;
    assert(views(open@) == Seq::<Seq<char>>::empty());
    while pos < v.len()
        invariant
            pos <= v@.len(),
            t == toks(v@),
            t == tokens(src@, 0),
            all == contents(t, 0, empty_file(), Seq::empty(), reals@),
            all == contents(t, pos as int, file@, views(open@), reals@),
        decreases v@.len() - pos,
    {
        assert(t[pos as int] == v@[pos as int]@);
        if v[pos].eq_word("/end") {
            let kw = match read_word(&v, pos + 1) {
                Ok(x) => x,
                Err(e) => {
                    return Err(e);
                },
            };
            if open.len() > 0 {
                let ghost before = open@;
                assert(views(before).last() == before.last()@);
                assert(views(before).drop_last() == views(before.drop_last()));
                let n: usize = open.len();
                if !str_eq(kw.as_str(), open[n - 1].as_str()) {
                    let expected = open[n - 1].clone();
                    return Err(Error::UnexpectedKeyword { expected, got: kw });
                }
                open.pop();
            }
            pos = pos + 2;
        } else if v[pos].eq_word("/begin") {
            let kw = match read_word(&v, pos + 1) {
                Ok(x) => x,
                Err(e) => {
                    return Err(e);
                },
            };
            if item_keyword(&kw) {
                match parse_item(&v, pos + 2, &kw, &mut file, reals) {
                    Ok(p) => {
                        pos = p;
                    },
                    Err(e) => {
                        return Err(e);
                    },
                }
            } else {
                let ghost before = open@;
                open.push(kw);
                assert(views(open@) == views(before).push(kw@));
                pos = pos + 2;
            }
        } else {
            pos = pos + 1;
        }
    }
    if open.len() > 0 {
        return Err(Error::UnexpectedEof);
    }
    Ok(file)
}

/// The texts among the tokens that are decimal numbers.
pub open spec fn decimals(t: Seq<Tok>) -> Seq<Seq<char>>
    decreases t.len(),
{
    if t.len() == 0 {
        Seq::empty()
    } else {
        let before = decimals(t.drop_last());
        let s = latin_text(t.last().bytes());
        if is_decimal(s) {
            before.push(s)
        } else {
            before
        }
    }
}

/// The decimal numbers of a file, as they are written.
pub fn real_words(src: &[u8]) -> (r: Vec<String>)
    ensures
        views(r@) == decimals(tokens(src@, 0)),
{
    let v = tokenize(src);
    let ghost t = toks(v@);
    let mut r: Vec<String> = Vec::new();
    let mut i: usize = 0;
    assert(views(r@) == Seq::<Seq<char>>::empty());
    assert(t.take(0) == Seq::<Tok>::empty());
    while i < v.len()
        invariant
            i <= v@.len(),
            t == toks(v@),
            views(r@) == decimals(t.take(i as int)),
        decreases v@.len() - i,
    {
        let ghost next = t.take(i + 1);
        assert(next.drop_last() == t.take(i as int));
        assert(next.last() == v@[i as int]@);
        let s = v[i].as_str_lossy();
        if decimal(s.as_str()) {
            let ghost before = r@;
            r.push(s);
            assert(views(r@) == views(before).push(s@));
        }
        i = i + 1;
    }
    assert(t.take(i as int) == t);
    r
}

/// Whether no name occurs twice in a table of a file.
pub open spec fn named_once(file: A2lFileValue) -> bool {
    &&& distinct(file.axis_pts)
    &&& distinct(file.record_layouts)
    &&& distinct(file.compu_methods)
    &&& distinct(file.compu_vtabs)
    &&& distinct(file.compu_vtab_ranges)
}

proof fn lemma_item_keeps_names(
    t: Seq<Tok>,
    i: int,
    kw: Seq<char>,
    file: A2lFileValue,
    reals: Seq<RealRow>,
)
    requires
        named_once(file),
    ensures
        item(t, i, kw, file, reals) matches Ok((more, _)) ==> named_once(more),
{
    if kw == "COMPU_METHOD"@ {
        if let Ok((x, _)) = compu_method(t, i, reals) {
            law_names_stay_distinct(file.compu_methods, x.name, x);
        }
    }
    if kw == "COMPU_VTAB"@ {
        if let Ok((x, _)) = compu_vtab(t, i, reals) {
            law_names_stay_distinct(file.compu_vtabs, x.name, x);
        }
    }
    if kw == "COMPU_VTAB_RANGE"@ {
        if let Ok((x, _)) = compu_vtab_range(t, i, reals) {
            law_names_stay_distinct(file.compu_vtab_ranges, x.name, x);
        }
    }
    if kw == "AXIS_PTS"@ {
        if let Ok((x, _)) = axis_pts(t, i, reals) {
            law_names_stay_distinct(file.axis_pts, x.name, x);
        }
    }
    if kw == "RECORD_LAYOUT"@ {
        if let Ok((x, _)) = record_layout(t, i, reals) {
            law_names_stay_distinct(file.record_layouts, x.name, x);
        }
    }
}

/// In whatever is parsed, no name occurs twice in a table.
pub proof fn law_parsed_names_occur_once(
    t: Seq<Tok>,
    i: int,
    file: A2lFileValue,
    open: Seq<Seq<char>>,
    reals: Seq<RealRow>,
)
    requires
        named_once(file),
    ensures
        contents(t, i, file, open, reals) matches Ok(more) ==> named_once(more),
    decreases left(t, i),
{
    if 0 <= i < t.len() {
        if at(t, i, "/end"@) {
            if let Ok(kw) = word(t, i + 1) {
                if open.len() == 0 {
                    law_parsed_names_occur_once(t, i + 2, file, open, reals);
                } else if kw == open.last() {
                    law_parsed_names_occur_once(t, i + 2, file, open.drop_last(), reals);
                }
            }
        } else if at(t, i, "/begin"@) {
            if let Ok(kw) = word(t, i + 1) {
                if is_item(kw) {
                    lemma_item_keeps_names(t, i + 2, kw, file, reals);
                    if let Ok((more, n)) = item(t, i + 2, kw, file, reals) {
                        law_parsed_names_occur_once(t, i + 2 + n, more, open, reals);
                    }
                } else {
                    law_parsed_names_occur_once(t, i + 2, file, open.push(kw), reals);
                }
            }
        } else {
            law_parsed_names_occur_once(t, i + 1, file, open, reals);
        }
    }
}

} // verus!
