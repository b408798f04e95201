//! Nesting: a block that is not kept itself leaves what it holds as it was.

use vstd::prelude::*;

use super::lexer::{
    closed, comment_closes, comment_end, gap_closed, gap_end, is_space, latin_text,
    lemma_comment_end, lemma_gap_end, lemma_string_end, lemma_token_moves_on, lemma_word_end,
    opens_comment, string_end, token_at, tokens, word_end, Tok,
};
use super::number::{real_value, RealRow, RealValue};
use super::parser::{
    address, at, axis_attribute, axis_descr, axis_descr_attribute, axis_descr_rest, axis_pts,
    axis_pts_attribute, axis_pts_rest, characteristic, characteristic_attribute,
    characteristic_rest, characteristic_type, compu_method, compu_method_attribute,
    compu_method_rest, compu_vtab, compu_vtab_attribute, compu_vtab_range,
    compu_vtab_range_attribute, compu_vtab_range_rest, compu_vtab_rest, contents, count, datatype,
    empty_file, function, function_attribute, function_rest, is_item, item,
    keyword, left, mask, measurement, measurement_attribute, measurement_rest, name_list, number,
    par_list, record_layout, record_layout_attribute, record_layout_rest, skipped, text, whole,
    word,
};
use super::types::{
    A2lFileValue, AxisDescrValue, AxisPtsValue, CharacteristicValue, CompuMethodValue,
    CompuVtabRangeValue, CompuVtabValue, Fault, FunctionValue, MeasurementValue, RecordLayoutValue,
};
use crate::text::utf8_lossy;

verus! {

/// Whether the tokens `t` stand among the tokens `u`, from `d` on.
pub open spec fn stands_in(t: Seq<Tok>, u: Seq<Tok>, d: int) -> bool {
    &&& 0 <= d
    &&& d + t.len() <= u.len()
    &&& forall|k: int| 0 <= k < t.len() ==> #[trigger] t[k] == u[k + d]
}

/// Single tokens are read in the same way wherever they stand.
proof fn lemma_token(t: Seq<Tok>, u: Seq<Tok>, d: int, i: int, reals: Seq<RealRow>)
    requires
        stands_in(t, u, d),
        0 <= i,
    ensures
        i < t.len() ==> {
            &&& u[i + d] == t[i]
            &&& word(u, i + d) == word(t, i)
            &&& text(u, i + d) == text(t, i)
            &&& datatype(u, i + d) == datatype(t, i)
            &&& characteristic_type(u, i + d) == characteristic_type(t, i)
            &&& axis_attribute(u, i + d) == axis_attribute(t, i)
            &&& number(u, i + d) == number(t, i)
            &&& address(u, i + d) == address(t, i)
            &&& mask(u, i + d) == mask(t, i)
            &&& whole(u, i + d, reals) == whole(t, i, reals)
            &&& count(u, i + d, reals) == count(t, i, reals)
            &&& forall|kw: Seq<char>| #[trigger] keyword(u, i + d, kw) == keyword(t, i, kw)
            &&& forall|kw: Seq<char>| #[trigger] at(u, i + d, kw) == at(t, i, kw)
        },
        i >= t.len() ==> {
            &&& word(t, i) is Err
            &&& text(t, i) is Err
            &&& datatype(t, i) is Err
            &&& characteristic_type(t, i) is Err
            &&& axis_attribute(t, i) is Err
            &&& number(t, i) is Err
            &&& address(t, i) is Err
            &&& mask(t, i) is Err
            &&& whole(t, i, reals) is Err
            &&& count(t, i, reals) is Err
            &&& forall|kw: Seq<char>| (#[trigger] keyword(t, i, kw)) is Err
        },
{
}

proof fn lemma_mark(t: Seq<Tok>, u: Seq<Tok>, d: int, i: int)
    requires
        stands_in(t, u, d),
        0 <= i < t.len(),
    ensures
        u[i + d] == t[i],
        i + 1 < t.len() ==> u[i + 1 + d] == t[i + 1] && word(u, i + 1 + d) == word(t, i + 1),
{
}

proof fn lemma_skipped(t: Seq<Tok>, u: Seq<Tok>, d: int, i: int, depth: nat, reals: Seq<RealRow>)
    requires
        stands_in(t, u, d),
        0 <= i <= t.len(),
    ensures
        skipped(t, i, depth) matches Ok((x, n)) ==> skipped(u, i + d, depth) == skipped(t, i, depth)
            && i + n <= t.len(),
    decreases left(t, i),
{
    if depth > 0 && i < t.len() {
        lemma_token(t, u, d, i, reals);
        lemma_token(t, u, d, i + 1, reals);
        if at(t, i, "/begin"@) {
            if text(t, i + 1) is Ok {
                lemma_skipped(t, u, d, i + 2, depth + 1, reals);
            }
        } else if at(t, i, "/end"@) {
            if text(t, i + 1) is Ok {
                lemma_skipped(t, u, d, i + 2, (depth - 1) as nat, reals);
            }
        } else {
            lemma_skipped(t, u, d, i + 1, depth, reals);
        }
    }
}

proof fn lemma_par_list(
    t: Seq<Tok>,
    u: Seq<Tok>,
    d: int,
    i: int,
    acc: Seq<RealValue>,
    reals: Seq<RealRow>,
)
    requires
        stands_in(t, u, d),
        0 <= i <= t.len(),
    ensures
        par_list(t, i, acc) matches Ok((x, n)) ==> par_list(u, i + d, acc) == par_list(t, i, acc)
            && i + n <= t.len(),
    decreases left(t, i),
{
    if i < t.len() {
        lemma_token(t, u, d, i, reals);
        lemma_token(t, u, d, i + 1, reals);
        if !at(t, i, "/end"@) {
            match real_value(latin_text(t[i].bytes())) {
                Some(x) => lemma_par_list(t, u, d, i + 1, acc.push(x), reals),
                None => lemma_par_list(t, u, d, i + 1, acc, reals),
            }
        }
    }
}

proof fn lemma_name_list(
    t: Seq<Tok>,
    u: Seq<Tok>,
    d: int,
    i: int,
    acc: Seq<Seq<char>>,
    expected: Seq<char>,
    reals: Seq<RealRow>,
)
    requires
        stands_in(t, u, d),
        0 <= i <= t.len(),
    ensures
        name_list(t, i, acc, expected) matches Ok((x, n)) ==> name_list(u, i + d, acc, expected)
            == name_list(t, i, acc, expected) && i + n <= t.len(),
    decreases left(t, i),
{
    if i < t.len() {
        lemma_token(t, u, d, i, reals);
        lemma_token(t, u, d, i + 1, reals);
        if at(t, i, "/end"@) {
        } else if at(t, i, "/begin"@) {
            lemma_skipped(t, u, d, i + 1, 1, reals);
            if let Ok((_, n)) = skipped(t, i + 1, 1) {
                lemma_name_list(t, u, d, i + 1 + n, acc, expected, reals);
            }
        } else {
            lemma_name_list(
                t,
                u,
                d,
                i + 1,
                acc.push(latin_text(t[i].bytes())),
                expected,
                reals,
            );
        }
    }
}

proof fn lemma_measurement_attribute(
    t: Seq<Tok>,
    u: Seq<Tok>,
    d: int,
    i: int,
    acc: MeasurementValue,
    reals: Seq<RealRow>,
)
    requires
        stands_in(t, u, d),
        0 <= i < t.len(),
    ensures
        measurement_attribute(t, i, acc, reals) matches Ok((x, n)) ==> measurement_attribute(
            u,
            i + d,
            acc,
            reals,
        ) == measurement_attribute(t, i, acc, reals) && i + 1 + n <= t.len(),
{
    lemma_token(t, u, d, i, reals);
    lemma_token(t, u, d, i + 1, reals);
    lemma_skipped(t, u, d, i + 1, 1, reals);
}

#[verifier::spinoff_prover]
#[verifier::rlimit(40)]
proof fn lemma_measurement_rest(
    t: Seq<Tok>,
    u: Seq<Tok>,
    d: int,
    i: int,
    acc: MeasurementValue,
    reals: Seq<RealRow>,
)
    requires
        stands_in(t, u, d),
        0 <= i <= t.len(),
    ensures
        measurement_rest(t, i, acc, reals) matches Ok((x, n)) ==> measurement_rest(u, i + d, acc, reals)
            == measurement_rest(t, i, acc, reals) && i + n <= t.len(),
    decreases left(t, i),
{
    if i < t.len() {
        lemma_mark(t, u, d, i);
        if !at(t, i, "/end"@) {
            lemma_measurement_attribute(t, u, d, i, acc, reals);
            if let Ok((more, n)) = measurement_attribute(t, i, acc, reals) {
                lemma_measurement_rest(t, u, d, i + 1 + n, more, reals);
            }
        }
    }
}

proof fn lemma_measurement(t: Seq<Tok>, u: Seq<Tok>, d: int, i: int, reals: Seq<RealRow>)
    requires
        stands_in(t, u, d),
        0 <= i <= t.len(),
    ensures
        measurement(t, i, reals) matches Ok((x, n)) ==> measurement(u, i + d, reals) == measurement(t, i, reals) && i + n
            <= t.len(),
{
    lemma_token(t, u, d, i, reals);
    lemma_token(t, u, d, i + 1, reals);
    lemma_token(t, u, d, i + 2, reals);
    lemma_token(t, u, d, i + 3, reals);
    lemma_token(t, u, d, i + 4, reals);
    lemma_token(t, u, d, i + 5, reals);
    lemma_token(t, u, d, i + 6, reals);
    lemma_token(t, u, d, i + 7, reals);
    if i + 8 <= t.len() {
        assert forall|acc: MeasurementValue|
            (#[trigger] measurement_rest(t, i + 8, acc, reals)) is Ok implies measurement_rest(
            u,
            i + d + 8,
            acc,
            reals,
        ) == measurement_rest(t, i + 8, acc, reals) && i + 8 + measurement_rest(
            t,
            i + 8,
            acc,
            reals,
        )->Ok_0.1 <= t.len() by {
            lemma_measurement_rest(t, u, d, i + 8, acc, reals);
        }
    }
}

proof fn lemma_compu_method_attribute(
    t: Seq<Tok>,
    u: Seq<Tok>,
    d: int,
    i: int,
    acc: CompuMethodValue,
    reals: Seq<RealRow>,
)
    requires
        stands_in(t, u, d),
        0 <= i < t.len(),
    ensures
        compu_method_attribute(t, i, acc, reals) matches Ok((x, n)) ==> compu_method_attribute(
            u,
            i + d,
            acc,
            reals,
        ) == compu_method_attribute(t, i, acc, reals) && i + 1 + n <= t.len(),
{
    lemma_token(t, u, d, i, reals);
    lemma_token(t, u, d, i + 1, reals);
    lemma_token(t, u, d, i + 2, reals);
    lemma_token(t, u, d, i + 3, reals);
    lemma_token(t, u, d, i + 4, reals);
    lemma_token(t, u, d, i + 5, reals);
    lemma_token(t, u, d, i + 6, reals);
    lemma_skipped(t, u, d, i + 1, 1, reals);
}

#[verifier::spinoff_prover]
#[verifier::rlimit(40)]
proof fn lemma_compu_method_rest(
    t: Seq<Tok>,
    u: Seq<Tok>,
    d: int,
    i: int,
    acc: CompuMethodValue,
    reals: Seq<RealRow>,
)
    requires
        stands_in(t, u, d),
        0 <= i <= t.len(),
    ensures
        compu_method_rest(t, i, acc, reals) matches Ok((x, n)) ==> compu_method_rest(u, i + d, acc, reals)
            == compu_method_rest(t, i, acc, reals) && i + n <= t.len(),
    decreases left(t, i),
{
    if i < t.len() {
        lemma_mark(t, u, d, i);
        if !at(t, i, "/end"@) {
            lemma_compu_method_attribute(t, u, d, i, acc, reals);
            if let Ok((more, n)) = compu_method_attribute(t, i, acc, reals) {
                lemma_compu_method_rest(t, u, d, i + 1 + n, more, reals);
            }
        }
    }
}

proof fn lemma_compu_method(t: Seq<Tok>, u: Seq<Tok>, d: int, i: int, reals: Seq<RealRow>)
    requires
        stands_in(t, u, d),
        0 <= i <= t.len(),
    ensures
        compu_method(t, i, reals) matches Ok((x, n)) ==> compu_method(u, i + d, reals) == compu_method(t, i, reals) && i + n
            <= t.len(),
{
    lemma_token(t, u, d, i, reals);
    lemma_token(t, u, d, i + 1, reals);
    lemma_token(t, u, d, i + 2, reals);
    lemma_token(t, u, d, i + 3, reals);
    lemma_token(t, u, d, i + 4, reals);
    if i + 5 <= t.len() {
        assert forall|acc: CompuMethodValue|
            (#[trigger] compu_method_rest(t, i + 5, acc, reals)) is Ok implies compu_method_rest(
            u,
            i + d + 5,
            acc,
            reals,
        ) == compu_method_rest(t, i + 5, acc, reals) && i + 5 + compu_method_rest(
            t,
            i + 5,
            acc,
            reals,
        )->Ok_0.1 <= t.len() by {
            lemma_compu_method_rest(t, u, d, i + 5, acc, reals);
        }
    }
}

proof fn lemma_compu_vtab_attribute(
    t: Seq<Tok>,
    u: Seq<Tok>,
    d: int,
    i: int,
    acc: CompuVtabValue,
    reals: Seq<RealRow>,
)
    requires
        stands_in(t, u, d),
        0 <= i < t.len(),
    ensures
        compu_vtab_attribute(t, i, acc, reals) matches Ok((x, n)) ==> compu_vtab_attribute(
            u,
            i + d,
            acc,
            reals,
        ) == compu_vtab_attribute(t, i, acc, reals) && i + 1 + n <= t.len(),
{
    lemma_token(t, u, d, i, reals);
    lemma_token(t, u, d, i + 1, reals);
    lemma_skipped(t, u, d, i + 1, 1, reals);
}

#[verifier::spinoff_prover]
#[verifier::rlimit(40)]
proof fn lemma_compu_vtab_rest(
    t: Seq<Tok>,
    u: Seq<Tok>,
    d: int,
    i: int,
    acc: CompuVtabValue,
    reals: Seq<RealRow>,
)
    requires
        stands_in(t, u, d),
        0 <= i <= t.len(),
    ensures
        compu_vtab_rest(t, i, acc, reals) matches Ok((x, n)) ==> compu_vtab_rest(u, i + d, acc, reals)
            == compu_vtab_rest(t, i, acc, reals) && i + n <= t.len(),
    decreases left(t, i),
{
    if i < t.len() {
        lemma_mark(t, u, d, i);
        if !at(t, i, "/end"@) {
            lemma_compu_vtab_attribute(t, u, d, i, acc, reals);
            if let Ok((more, n)) = compu_vtab_attribute(t, i, acc, reals) {
                lemma_compu_vtab_rest(t, u, d, i + 1 + n, more, reals);
            }
        }
    }
}

proof fn lemma_compu_vtab(t: Seq<Tok>, u: Seq<Tok>, d: int, i: int, reals: Seq<RealRow>)
    requires
        stands_in(t, u, d),
        0 <= i <= t.len(),
    ensures
        compu_vtab(t, i, reals) matches Ok((x, n)) ==> compu_vtab(u, i + d, reals) == compu_vtab(t, i, reals) && i + n
            <= t.len(),
{
    lemma_token(t, u, d, i, reals);
    lemma_token(t, u, d, i + 1, reals);
    lemma_token(t, u, d, i + 2, reals);
    lemma_token(t, u, d, i + 3, reals);
    if i + 4 <= t.len() {
        assert forall|acc: CompuVtabValue|
            (#[trigger] compu_vtab_rest(t, i + 4, acc, reals)) is Ok implies compu_vtab_rest(
            u,
            i + d + 4,
            acc,
            reals,
        ) == compu_vtab_rest(t, i + 4, acc, reals) && i + 4 + compu_vtab_rest(
            t,
            i + 4,
            acc,
            reals,
        )->Ok_0.1 <= t.len() by {
            lemma_compu_vtab_rest(t, u, d, i + 4, acc, reals);
        }
    }
}

proof fn lemma_compu_vtab_range_attribute(
    t: Seq<Tok>,
    u: Seq<Tok>,
    d: int,
    i: int,
    acc: CompuVtabRangeValue,
    reals: Seq<RealRow>,
)
    requires
        stands_in(t, u, d),
        0 <= i < t.len(),
    ensures
        compu_vtab_range_attribute(t, i, acc, reals) matches Ok((x, n)) ==> compu_vtab_range_attribute(
            u,
            i + d,
            acc,
            reals,
        ) == compu_vtab_range_attribute(t, i, acc, reals) && i + 1 + n <= t.len(),
{
    lemma_token(t, u, d, i, reals);
    lemma_token(t, u, d, i + 1, reals);
    lemma_token(t, u, d, i + 2, reals);
    lemma_skipped(t, u, d, i + 1, 1, reals);
}

#[verifier::spinoff_prover]
#[verifier::rlimit(40)]
proof fn lemma_compu_vtab_range_rest(
    t: Seq<Tok>,
    u: Seq<Tok>,
    d: int,
    i: int,
    acc: CompuVtabRangeValue,
    reals: Seq<RealRow>,
)
    requires
        stands_in(t, u, d),
        0 <= i <= t.len(),
    ensures
        compu_vtab_range_rest(t, i, acc, reals) matches Ok((x, n)) ==> compu_vtab_range_rest(u, i + d, acc, reals)
            == compu_vtab_range_rest(t, i, acc, reals) && i + n <= t.len(),
    decreases left(t, i),
{
    if i < t.len() {
        lemma_mark(t, u, d, i);
        if !at(t, i, "/end"@) {
            lemma_compu_vtab_range_attribute(t, u, d, i, acc, reals);
            if let Ok((more, n)) = compu_vtab_range_attribute(t, i, acc, reals) {
                lemma_compu_vtab_range_rest(t, u, d, i + 1 + n, more, reals);
            }
        }
    }
}

proof fn lemma_compu_vtab_range(t: Seq<Tok>, u: Seq<Tok>, d: int, i: int, reals: Seq<RealRow>)
    requires
        stands_in(t, u, d),
        0 <= i <= t.len(),
    ensures
        compu_vtab_range(t, i, reals) matches Ok((x, n)) ==> compu_vtab_range(u, i + d, reals) == compu_vtab_range(t, i, reals) && i + n
            <= t.len(),
{
    lemma_token(t, u, d, i, reals);
    lemma_token(t, u, d, i + 1, reals);
    lemma_token(t, u, d, i + 2, reals);
    if i + 3 <= t.len() {
        assert forall|acc: CompuVtabRangeValue|
            (#[trigger] compu_vtab_range_rest(t, i + 3, acc, reals)) is Ok implies compu_vtab_range_rest(
            u,
            i + d + 3,
            acc,
            reals,
        ) == compu_vtab_range_rest(t, i + 3, acc, reals) && i + 3 + compu_vtab_range_rest(
            t,
            i + 3,
            acc,
            reals,
        )->Ok_0.1 <= t.len() by {
            lemma_compu_vtab_range_rest(t, u, d, i + 3, acc, reals);
        }
    }
}

proof fn lemma_axis_descr_attribute(
    t: Seq<Tok>,
    u: Seq<Tok>,
    d: int,
    i: int,
    acc: AxisDescrValue,
    reals: Seq<RealRow>,
)
    requires
        stands_in(t, u, d),
        0 <= i < t.len(),
    ensures
        axis_descr_attribute(t, i, acc, reals) matches Ok((x, n)) ==> axis_descr_attribute(
            u,
            i + d,
            acc,
            reals,
        ) == axis_descr_attribute(t, i, acc, reals) && i + 1 + n <= t.len(),
{
    lemma_token(t, u, d, i, reals);
    lemma_token(t, u, d, i + 1, reals);
    lemma_token(t, u, d, i + 2, reals);
    lemma_token(t, u, d, i + 3, reals);
    if word(t, i + 1) is Ok {
        lemma_par_list(t, u, d, i + 2, Seq::empty(), reals);
        lemma_skipped(t, u, d, i + 2, 1, reals);
    }
}

#[verifier::spinoff_prover]
#[verifier::rlimit(40)]
proof fn lemma_axis_descr_rest(
    t: Seq<Tok>,
    u: Seq<Tok>,
    d: int,
    i: int,
    acc: AxisDescrValue,
    reals: Seq<RealRow>,
)
    requires
        stands_in(t, u, d),
        0 <= i <= t.len(),
    ensures
        axis_descr_rest(t, i, acc, reals) matches Ok((x, n)) ==> axis_descr_rest(u, i + d, acc, reals)
            == axis_descr_rest(t, i, acc, reals) && i + n <= t.len(),
    decreases left(t, i),
{
    if i < t.len() {
        lemma_mark(t, u, d, i);
        if !at(t, i, "/end"@) {
            lemma_axis_descr_attribute(t, u, d, i, acc, reals);
            if let Ok((more, n)) = axis_descr_attribute(t, i, acc, reals) {
                lemma_axis_descr_rest(t, u, d, i + 1 + n, more, reals);
            }
        }
    }
}

proof fn lemma_axis_descr(t: Seq<Tok>, u: Seq<Tok>, d: int, i: int, reals: Seq<RealRow>)
    requires
        stands_in(t, u, d),
        0 <= i <= t.len(),
    ensures
        axis_descr(t, i, reals) matches Ok((x, n)) ==> axis_descr(u, i + d, reals) == axis_descr(t, i, reals) && i + n
            <= t.len(),
{
    lemma_token(t, u, d, i, reals);
    lemma_token(t, u, d, i + 1, reals);
    lemma_token(t, u, d, i + 2, reals);
    lemma_token(t, u, d, i + 3, reals);
    lemma_token(t, u, d, i + 4, reals);
    lemma_token(t, u, d, i + 5, reals);
    if i + 6 <= t.len() {
        assert forall|acc: AxisDescrValue|
            (#[trigger] axis_descr_rest(t, i + 6, acc, reals)) is Ok implies axis_descr_rest(
            u,
            i + d + 6,
            acc,
            reals,
        ) == axis_descr_rest(t, i + 6, acc, reals) && i + 6 + axis_descr_rest(
            t,
            i + 6,
            acc,
            reals,
        )->Ok_0.1 <= t.len() by {
            lemma_axis_descr_rest(t, u, d, i + 6, acc, reals);
        }
    }
}

proof fn lemma_characteristic_attribute(
    t: Seq<Tok>,
    u: Seq<Tok>,
    d: int,
    i: int,
    acc: CharacteristicValue,
    reals: Seq<RealRow>,
)
    requires
        stands_in(t, u, d),
        0 <= i < t.len(),
    ensures
        characteristic_attribute(t, i, acc, reals) matches Ok((x, n)) ==> characteristic_attribute(
            u,
            i + d,
            acc,
            reals,
        ) == characteristic_attribute(t, i, acc, reals) && i + 1 + n <= t.len(),
{
    lemma_token(t, u, d, i, reals);
    lemma_token(t, u, d, i + 1, reals);
    if word(t, i + 1) is Ok {
        lemma_axis_descr(t, u, d, i + 2, reals);
        lemma_skipped(t, u, d, i + 2, 1, reals);
    }
}

#[verifier::spinoff_prover]
#[verifier::rlimit(40)]
proof fn lemma_characteristic_rest(
    t: Seq<Tok>,
    u: Seq<Tok>,
    d: int,
    i: int,
    acc: CharacteristicValue,
    reals: Seq<RealRow>,
)
    requires
        stands_in(t, u, d),
        0 <= i <= t.len(),
    ensures
        characteristic_rest(t, i, acc, reals) matches Ok((x, n)) ==> characteristic_rest(u, i + d, acc, reals)
            == characteristic_rest(t, i, acc, reals) && i + n <= t.len(),
    decreases left(t, i),
{
    if i < t.len() {
        lemma_mark(t, u, d, i);
        if !at(t, i, "/end"@) {
            lemma_characteristic_attribute(t, u, d, i, acc, reals);
            if let Ok((more, n)) = characteristic_attribute(t, i, acc, reals) {
                lemma_characteristic_rest(t, u, d, i + 1 + n, more, reals);
            }
        }
    }
}

proof fn lemma_characteristic(t: Seq<Tok>, u: Seq<Tok>, d: int, i: int, reals: Seq<RealRow>)
    requires
        stands_in(t, u, d),
        0 <= i <= t.len(),
    ensures
        characteristic(t, i, reals) matches Ok((x, n)) ==> characteristic(u, i + d, reals) == characteristic(t, i, reals) && i + n
            <= t.len(),
{
    lemma_token(t, u, d, i, reals);
    lemma_token(t, u, d, i + 1, reals);
    lemma_token(t, u, d, i + 2, reals);
    lemma_token(t, u, d, i + 3, reals);
    lemma_token(t, u, d, i + 4, reals);
    lemma_token(t, u, d, i + 5, reals);
    lemma_token(t, u, d, i + 6, reals);
    lemma_token(t, u, d, i + 7, reals);
    lemma_token(t, u, d, i + 8, reals);
    if i + 9 <= t.len() {
        assert forall|acc: CharacteristicValue|
            (#[trigger] characteristic_rest(t, i + 9, acc, reals)) is Ok implies characteristic_rest(
            u,
            i + d + 9,
            acc,
            reals,
        ) == characteristic_rest(t, i + 9, acc, reals) && i + 9 + characteristic_rest(
            t,
            i + 9,
            acc,
            reals,
        )->Ok_0.1 <= t.len() by {
            lemma_characteristic_rest(t, u, d, i + 9, acc, reals);
        }
    }
}

proof fn lemma_axis_pts_attribute(
    t: Seq<Tok>,
    u: Seq<Tok>,
    d: int,
    i: int,
    acc: AxisPtsValue,
    reals: Seq<RealRow>,
)
    requires
        stands_in(t, u, d),
        0 <= i < t.len(),
    ensures
        axis_pts_attribute(t, i, acc, reals) matches Ok((x, n)) ==> axis_pts_attribute(
            u,
            i + d,
            acc,
            reals,
        ) == axis_pts_attribute(t, i, acc, reals) && i + 1 + n <= t.len(),
{
    lemma_token(t, u, d, i, reals);
    lemma_token(t, u, d, i + 1, reals);
    lemma_skipped(t, u, d, i + 1, 1, reals);
}

#[verifier::spinoff_prover]
#[verifier::rlimit(40)]
proof fn lemma_axis_pts_rest(
    t: Seq<Tok>,
    u: Seq<Tok>,
    d: int,
    i: int,
    acc: AxisPtsValue,
    reals: Seq<RealRow>,
)
    requires
        stands_in(t, u, d),
        0 <= i <= t.len(),
    ensures
        axis_pts_rest(t, i, acc, reals) matches Ok((x, n)) ==> axis_pts_rest(u, i + d, acc, reals)
            == axis_pts_rest(t, i, acc, reals) && i + n <= t.len(),
    decreases left(t, i),
{
    if i < t.len() {
        lemma_mark(t, u, d, i);
        if !at(t, i, "/end"@) {
            lemma_axis_pts_attribute(t, u, d, i, acc, reals);
            if let Ok((more, n)) = axis_pts_attribute(t, i, acc, reals) {
                lemma_axis_pts_rest(t, u, d, i + 1 + n, more, reals);
            }
        }
    }
}

proof fn lemma_axis_pts(t: Seq<Tok>, u: Seq<Tok>, d: int, i: int, reals: Seq<RealRow>)
    requires
        stands_in(t, u, d),
        0 <= i <= t.len(),
    ensures
        axis_pts(t, i, reals) matches Ok((x, n)) ==> axis_pts(u, i + d, reals) == axis_pts(t, i, reals) && i + n
            <= t.len(),
{
    lemma_token(t, u, d, i, reals);
    lemma_token(t, u, d, i + 1, reals);
    lemma_token(t, u, d, i + 2, reals);
    lemma_token(t, u, d, i + 3, reals);
    lemma_token(t, u, d, i + 4, reals);
    lemma_token(t, u, d, i + 5, reals);
    lemma_token(t, u, d, i + 6, reals);
    lemma_token(t, u, d, i + 7, reals);
    lemma_token(t, u, d, i + 8, reals);
    lemma_token(t, u, d, i + 9, reals);
    if i + 10 <= t.len() {
        assert forall|acc: AxisPtsValue|
            (#[trigger] axis_pts_rest(t, i + 10, acc, reals)) is Ok implies axis_pts_rest(
            u,
            i + d + 10,
            acc,
            reals,
        ) == axis_pts_rest(t, i + 10, acc, reals) && i + 10 + axis_pts_rest(
            t,
            i + 10,
            acc,
            reals,
        )->Ok_0.1 <= t.len() by {
            lemma_axis_pts_rest(t, u, d, i + 10, acc, reals);
        }
    }
}

proof fn lemma_record_layout_attribute(
    t: Seq<Tok>,
    u: Seq<Tok>,
    d: int,
    i: int,
    acc: RecordLayoutValue,
    reals: Seq<RealRow>,
)
    requires
        stands_in(t, u, d),
        0 <= i < t.len(),
    ensures
        record_layout_attribute(t, i, acc, reals) matches Ok((x, n)) ==> record_layout_attribute(
            u,
            i + d,
            acc,
            reals,
        ) == record_layout_attribute(t, i, acc, reals) && i + 1 + n <= t.len(),
{
    lemma_token(t, u, d, i, reals);
    lemma_token(t, u, d, i + 1, reals);
    lemma_token(t, u, d, i + 2, reals);
    lemma_token(t, u, d, i + 3, reals);
    lemma_token(t, u, d, i + 4, reals);
    lemma_skipped(t, u, d, i + 1, 1, reals);
}

#[verifier::spinoff_prover]
#[verifier::rlimit(40)]
proof fn lemma_record_layout_rest(
    t: Seq<Tok>,
    u: Seq<Tok>,
    d: int,
    i: int,
    acc: RecordLayoutValue,
    reals: Seq<RealRow>,
)
    requires
        stands_in(t, u, d),
        0 <= i <= t.len(),
    ensures
        record_layout_rest(t, i, acc, reals) matches Ok((x, n)) ==> record_layout_rest(u, i + d, acc, reals)
            == record_layout_rest(t, i, acc, reals) && i + n <= t.len(),
    decreases left(t, i),
{
    if i < t.len() {
        lemma_mark(t, u, d, i);
        if !at(t, i, "/end"@) {
            lemma_record_layout_attribute(t, u, d, i, acc, reals);
            if let Ok((more, n)) = record_layout_attribute(t, i, acc, reals) {
                lemma_record_layout_rest(t, u, d, i + 1 + n, more, reals);
            }
        }
    }
}

proof fn lemma_record_layout(t: Seq<Tok>, u: Seq<Tok>, d: int, i: int, reals: Seq<RealRow>)
    requires
        stands_in(t, u, d),
        0 <= i <= t.len(),
    ensures
        record_layout(t, i, reals) matches Ok((x, n)) ==> record_layout(u, i + d, reals) == record_layout(t, i, reals) && i + n
            <= t.len(),
{
    lemma_token(t, u, d, i, reals);
    if i + 1 <= t.len() {
        assert forall|acc: RecordLayoutValue|
            (#[trigger] record_layout_rest(t, i + 1, acc, reals)) is Ok implies record_layout_rest(
            u,
            i + d + 1,
            acc,
            reals,
        ) == record_layout_rest(t, i + 1, acc, reals) && i + 1 + record_layout_rest(
            t,
            i + 1,
            acc,
            reals,
        )->Ok_0.1 <= t.len() by {
            lemma_record_layout_rest(t, u, d, i + 1, acc, reals);
        }
    }
}

proof fn lemma_function_attribute(
    t: Seq<Tok>,
    u: Seq<Tok>,
    d: int,
    i: int,
    acc: FunctionValue,
    reals: Seq<RealRow>,
)
    requires
        stands_in(t, u, d),
        0 <= i < t.len(),
    ensures
        function_attribute(t, i, acc, reals) matches Ok((x, n)) ==> function_attribute(
            u,
            i + d,
            acc,
            reals,
        ) == function_attribute(t, i, acc, reals) && i + 1 + n <= t.len(),
{
    lemma_token(t, u, d, i, reals);
    lemma_token(t, u, d, i + 1, reals);
    if word(t, i + 1) is Ok {
        lemma_name_list(t, u, d, i + 2, acc.def_characteristics, "DEF_CHARACTERISTIC"@, reals);
        lemma_name_list(t, u, d, i + 2, acc.ref_characteristics, "REF_CHARACTERISTIC"@, reals);
        lemma_name_list(t, u, d, i + 2, acc.sub_functions, "SUB_FUNCTION"@, reals);
        lemma_skipped(t, u, d, i + 2, 1, reals);
    }
}

#[verifier::spinoff_prover]
#[verifier::rlimit(40)]
proof fn lemma_function_rest(
    t: Seq<Tok>,
    u: Seq<Tok>,
    d: int,
    i: int,
    acc: FunctionValue,
    reals: Seq<RealRow>,
)
    requires
        stands_in(t, u, d),
        0 <= i <= t.len(),
    ensures
        function_rest(t, i, acc, reals) matches Ok((x, n)) ==> function_rest(u, i + d, acc, reals)
            == function_rest(t, i, acc, reals) && i + n <= t.len(),
    decreases left(t, i),
{
    if i < t.len() {
        lemma_mark(t, u, d, i);
        if !at(t, i, "/end"@) {
            lemma_function_attribute(t, u, d, i, acc, reals);
            if let Ok((more, n)) = function_attribute(t, i, acc, reals) {
                lemma_function_rest(t, u, d, i + 1 + n, more, reals);
            }
        }
    }
}

proof fn lemma_function(t: Seq<Tok>, u: Seq<Tok>, d: int, i: int, reals: Seq<RealRow>)
    requires
        stands_in(t, u, d),
        0 <= i <= t.len(),
    ensures
        function(t, i, reals) matches Ok((x, n)) ==> function(u, i + d, reals) == function(t, i, reals) && i + n
            <= t.len(),
{
    lemma_token(t, u, d, i, reals);
    lemma_token(t, u, d, i + 1, reals);
    if i + 2 <= t.len() {
        assert forall|acc: FunctionValue|
            (#[trigger] function_rest(t, i + 2, acc, reals)) is Ok implies function_rest(
            u,
            i + d + 2,
            acc,
            reals,
        ) == function_rest(t, i + 2, acc, reals) && i + 2 + function_rest(
            t,
            i + 2,
            acc,
            reals,
        )->Ok_0.1 <= t.len() by {
            lemma_function_rest(t, u, d, i + 2, acc, reals);
        }
    }
}

proof fn lemma_item(
    t: Seq<Tok>,
    u: Seq<Tok>,
    d: int,
    i: int,
    kw: Seq<char>,
    file: A2lFileValue,
    reals: Seq<RealRow>,
)
    requires
        stands_in(t, u, d),
        0 <= i <= t.len(),
    ensures
        item(t, i, kw, file, reals) matches Ok((x, n)) ==> item(u, i + d, kw, file, reals) == item(
            t,
            i,
            kw,
            file,
            reals,
        ) && i + n <= t.len(),
{
    lemma_measurement(t, u, d, i, reals);
    lemma_compu_method(t, u, d, i, reals);
    lemma_compu_vtab(t, u, d, i, reals);
    lemma_compu_vtab_range(t, u, d, i, reals);
    lemma_characteristic(t, u, d, i, reals);
    lemma_axis_pts(t, u, d, i, reals);
    lemma_record_layout(t, u, d, i, reals);
    lemma_function(t, u, d, i, reals);
}

/// Whether an `/end` is met from `i` on that closes nothing.
pub open spec fn strays(
    t: Seq<Tok>,
    i: int,
    file: A2lFileValue,
    open: Seq<Seq<char>>,
    reals: Seq<RealRow>,
) -> bool
    decreases left(t, i),
{
    if i < 0 || i >= t.len() {
        false
    } else if at(t, i, "/end"@) {
        match word(t, i + 1) {
            Err(_) => false,
            Ok(kw) => if open.len() == 0 {
                true
            } else {
                kw == open.last() && strays(t, i + 2, file, open.drop_last(), reals)
            },
        }
    } else if at(t, i, "/begin"@) {
        match word(t, i + 1) {
            Err(_) => false,
            Ok(kw) => if is_item(kw) {
                match item(t, i + 2, kw, file, reals) {
                    Ok((more, n)) => strays(t, i + 2 + n, more, open, reals),
                    Err(_) => false,
                }
            } else {
                strays(t, i + 2, file, open.push(kw), reals)
            },
        }
    } else {
        strays(t, i + 1, file, open, reals)
    }
}

/// What holds of tokens on their own holds of them inside a block.
#[verifier::spinoff_prover]
#[verifier::rlimit(40)]
proof fn lemma_inside(
    t: Seq<Tok>,
    u: Seq<Tok>,
    d: int,
    i: int,
    file: A2lFileValue,
    open: Seq<Seq<char>>,
    outer: Seq<char>,
    reals: Seq<RealRow>,
)
    requires
        stands_in(t, u, d),
        0 <= i <= t.len(),
        contents(t, i, file, open, reals) is Ok,
        !strays(t, i, file, open, reals),
    ensures
        contents(u, i + d, file, seq![outer] + open, reals) == contents(
            u,
            t.len() + d,
            contents(t, i, file, open, reals)->Ok_0,
            seq![outer],
            reals,
        ),
    decreases left(t, i),
{
    let all = seq![outer] + open;
    if i < t.len() {
        lemma_mark(t, u, d, i);
    }
    if i == t.len() {
        assert(all == seq![outer]);
    } else if at(t, i, "/end"@) {
        assert(open.len() > 0);
        assert(all.last() == open.last());
        assert(all.drop_last() == seq![outer] + open.drop_last());
        lemma_inside(t, u, d, i + 2, file, open.drop_last(), outer, reals);
    } else if at(t, i, "/begin"@) {
        let kw = word(t, i + 1)->Ok_0;
        if is_item(kw) {
            lemma_item(t, u, d, i + 2, kw, file, reals);
            let (more, n) = item(t, i + 2, kw, file, reals)->Ok_0;
            lemma_inside(t, u, d, i + 2 + n, more, open, outer, reals);
        } else {
            assert(all.push(kw) == seq![outer] + open.push(kw));
            lemma_inside(t, u, d, i + 2, file, open.push(kw), outer, reals);
        }
    } else {
        lemma_inside(t, u, d, i + 1, file, open, outer, reals);
    }
}

/// Whether the text `s` stands in the text `v` from `d` on, with nothing or a
/// space behind it.
spec fn placed(s: Seq<u8>, v: Seq<u8>, d: int) -> bool {
    &&& 0 <= d
    &&& d + s.len() <= v.len()
    &&& forall|k: int| 0 <= k < s.len() ==> #[trigger] s[k] == v[k + d]
    &&& d + s.len() < v.len() ==> v[d + s.len()] == 0x20
}

proof fn lemma_comment(s: Seq<u8>, v: Seq<u8>, d: int, p: int)
    requires
        placed(s, v, d),
        0 <= p <= s.len(),
        d + s.len() == v.len() || comment_closes(s, p),
    ensures
        comment_end(v, p + d) == comment_end(s, p) + d,
    decreases s.len() - p,
{
    if p + 1 < s.len() {
        assert(s[p] == v[p + d] && s[p + 1] == v[p + 1 + d]);
        if !(s[p] == 0x2A && s[p + 1] == 0x2F) {
            lemma_comment(s, v, d, p + 1);
        }
    }
}

proof fn lemma_opens(s: Seq<u8>, v: Seq<u8>, d: int, p: int)
    requires
        placed(s, v, d),
        0 <= p < s.len(),
    ensures
        opens_comment(v, p + d) == opens_comment(s, p),
{
    assert(s[p] == v[p + d]);
    if p + 1 < s.len() {
        assert(s[p + 1] == v[p + 1 + d]);
    }
}

proof fn lemma_gap(s: Seq<u8>, v: Seq<u8>, d: int, p: int)
    requires
        placed(s, v, d),
        0 <= p <= s.len(),
        d + s.len() == v.len() || gap_closed(s, p),
    ensures
        gap_end(v, p + d) == if gap_end(s, p) < s.len() {
            gap_end(s, p) + d
        } else {
            gap_end(v, d + s.len())
        },
    decreases s.len() - p,
{
    if p < s.len() {
        assert(s[p] == v[p + d]);
        lemma_opens(s, v, d, p);
        if is_space(s[p]) {
            lemma_gap(s, v, d, p + 1);
        } else if opens_comment(s, p) {
            lemma_comment_end(s, p + 2);
            lemma_comment(s, v, d, p + 2);
            lemma_gap(s, v, d, comment_end(s, p + 2));
        }
    }
}

proof fn lemma_string(s: Seq<u8>, v: Seq<u8>, d: int, p: int)
    requires
        placed(s, v, d),
        0 <= p <= s.len(),
        d + s.len() == v.len() || string_end(s, p) < s.len(),
    ensures
        string_end(v, p + d) == string_end(s, p) + d,
    decreases s.len() - p,
{
    if p < s.len() {
        assert(s[p] == v[p + d]);
        if s[p] == 0x5C {
            if p + 1 < s.len() {
                lemma_string(s, v, d, p + 2);
            }
        } else if s[p] != 0x22 {
            lemma_string(s, v, d, p + 1);
        }
    }
}

proof fn lemma_word(s: Seq<u8>, v: Seq<u8>, d: int, p: int)
    requires
        placed(s, v, d),
        0 <= p <= s.len(),
    ensures
        word_end(v, p + d) == word_end(s, p) + d,
    decreases s.len() - p,
{
    if p < s.len() {
        assert(s[p] == v[p + d]);
        lemma_opens(s, v, d, p);
        if !is_space(s[p]) && s[p] != 0x22 && !opens_comment(s, p) {
            lemma_word(s, v, d, p + 1);
        }
    }
}

/// The tokens of a text stay what they are where it stands in another one.
proof fn lemma_tokens(s: Seq<u8>, v: Seq<u8>, d: int, p: int)
    requires
        placed(s, v, d),
        0 <= p <= s.len(),
        d + s.len() == v.len() || closed(s, p),
    ensures
        tokens(v, p + d) == tokens(s, p) + tokens(v, d + s.len()),
    decreases s.len() - p,
{
    lemma_gap(s, v, d, p);
    lemma_gap_end(s, p);
    lemma_token_moves_on(s, p);
    let q = gap_end(s, p);
    let rest = tokens(v, d + s.len());
    match token_at(s, p) {
        None => {
            assert(token_at(v, p + d) == token_at(v, d + s.len()));
            assert(tokens(v, p + d) == rest);
            assert(tokens(s, p) + rest == rest);
        },
        Some((tok, e)) => {
            assert(s[q] == v[q + d]);
            if s[q] == 0x22 {
                let end = string_end(s, q + 1);
                lemma_string_end(s, q + 1);
                lemma_string(s, v, d, q + 1);
                assert(v.subrange(q + 1 + d, end + d) == s.subrange(q + 1, end));
            } else {
                lemma_word_end(s, q);
                lemma_word(s, v, d, q);
                assert(v.subrange(q + d, e + d) == s.subrange(q, e));
            }
            assert(token_at(v, p + d) == Some((tok, e + d)));
            lemma_tokens(s, v, d, e);
            assert(tokens(v, p + d) == seq![tok] + tokens(v, e + d));
            assert(seq![tok] + (tokens(s, e) + rest) == (seq![tok] + tokens(s, e)) + rest);
        },
    }
}

/// Two texts with a space between them.
pub open spec fn spaced(a: Seq<u8>, b: Seq<u8>) -> Seq<u8> {
    a + seq![0x20u8] + b
}

/// Two texts with a space between them have the tokens of the one and then those
/// of the other, if the first does not end inside of a string or a comment.
pub proof fn law_tokens_are_put_together(a: Seq<u8>, b: Seq<u8>)
    requires
        closed(a, 0),
    ensures
        tokens(spaced(a, b), 0) == tokens(a, 0) + tokens(b, 0),
{
    let v = spaced(a, b);
    let n = a.len() as int;
    assert(v[n] == 0x20);
    lemma_tokens(a, v, 0, 0);
    assert(tokens(v, n) == tokens(v, n + 1)) by {
        assert(gap_end(v, n) == gap_end(v, n + 1));
        assert(token_at(v, n) == token_at(v, n + 1));
    }
    lemma_tokens(b, v, n + 1, 0);
    assert(tokens(v, v.len() as int) == Seq::<Tok>::empty()) by {
        assert(gap_end(v, v.len() as int) == v.len());
    }
    assert(tokens(b, 0) + Seq::<Tok>::empty() == tokens(b, 0));
}

/// Whether some bytes are a single word.
pub open spec fn is_bare(x: Seq<u8>) -> bool {
    &&& x.len() > 0
    &&& forall|k: int|
        0 <= k < x.len() ==> !is_space(#[trigger] x[k]) && x[k] != 0x22 && !opens_comment(x, k)
}

proof fn lemma_bare_end(x: Seq<u8>, p: int)
    requires
        is_bare(x),
        0 <= p <= x.len(),
    ensures
        word_end(x, p) == x.len(),
    decreases x.len() - p,
{
    if p < x.len() {
        assert(!is_space(x[p]));
        lemma_bare_end(x, p + 1);
    }
}

proof fn lemma_bare(x: Seq<u8>)
    requires
        is_bare(x),
    ensures
        tokens(x, 0) == seq![Tok::Word(x)],
        closed(x, 0),
{
    let n = x.len() as int;
    assert(!is_space(x[0]));
    lemma_bare_end(x, 0);
    assert(x.subrange(0, n) == x);
    assert(token_at(x, 0) == Some((Tok::Word(x), n)));
    assert(token_at(x, n) is None) by {
        assert(gap_end(x, n) == n);
    }
    assert(tokens(x, n) == Seq::<Tok>::empty());
    assert(seq![Tok::Word(x)] + tokens(x, n) == seq![Tok::Word(x)]);
    assert(closed(x, n));
}

proof fn lemma_marks()
    ensures
        ({
            let begin = vstd::utf8::encode_utf8("/begin"@);
            let end = vstd::utf8::encode_utf8("/end"@);
            is_bare(begin) && is_bare(end) && begin != end
        }),
{
    let begin = vstd::utf8::encode_utf8("/begin"@);
    let end = vstd::utf8::encode_utf8("/end"@);
    reveal_strlit("/begin");
    reveal_strlit("/end");
    vstd::utf8::is_ascii_chars_encode_utf8("/begin"@);
    vstd::utf8::is_ascii_chars_encode_utf8("/end"@);
    assert(begin.len() == 6 && end.len() == 4);
    assert("/begin"@[1] == 'b' && "/end"@[1] == 'e');
    assert(begin[1] == 'b' as u8 && end[1] == 'e' as u8);
    assert forall|k: int| 0 <= k < begin.len() implies !is_space(#[trigger] begin[k]) && begin[k]
        != 0x22 && !opens_comment(begin, k) by {
        assert("/begin"@[k] as u8 == begin[k]);
    }
    assert forall|k: int| 0 <= k < end.len() implies !is_space(#[trigger] end[k]) && end[k] != 0x22
        && !opens_comment(end, k) by {
        assert("/end"@[k] as u8 == end[k]);
    }
}

/// A text behind the opening of a block.
pub open spec fn opened(x: Seq<u8>, src: Seq<u8>) -> Seq<u8> {
    spaced(vstd::utf8::encode_utf8("/begin"@), spaced(x, src))
}

/// A text inside of a block.
pub open spec fn enclosed(x: Seq<u8>, src: Seq<u8>) -> Seq<u8> {
    opened(x, spaced(src, spaced(vstd::utf8::encode_utf8("/end"@), x)))
}

/// What a text describes.
pub open spec fn described(src: Seq<u8>, reals: Seq<RealRow>) -> Result<A2lFileValue, Fault> {
    contents(tokens(src, 0), 0, empty_file(), Seq::empty(), reals)
}

/// Items are found at any depth: a text that is put inside of a block of a kind
/// that is not kept describes what it described on its own, and if the block is
/// never closed, that is an error. The text must not end inside of a string or a
/// comment, and must not close what it did not open.
pub proof fn law_an_outer_block_changes_nothing(x: Seq<u8>, src: Seq<u8>, reals: Seq<RealRow>)
    requires
        is_bare(x),
        !is_item(utf8_lossy(x)),
        described(src, reals) is Ok,
        !strays(tokens(src, 0), 0, empty_file(), Seq::empty(), reals),
    ensures
        closed(src, 0) ==> described(enclosed(x, src), reals) == described(src, reals),
        described(opened(x, src), reals) == Err::<A2lFileValue, Fault>(Fault::UnexpectedEof),
{
    let begin = vstd::utf8::encode_utf8("/begin"@);
    let end = vstd::utf8::encode_utf8("/end"@);
    let t = tokens(src, 0);
    let n = t.len() as int;
    let kw = utf8_lossy(x);
    let none = Seq::<Seq<char>>::empty();
    lemma_marks();
    lemma_bare(x);
    lemma_bare(begin);
    lemma_bare(end);
    assert(none.push(kw) == seq![kw]);
    assert(seq![kw] + none == seq![kw]);
    assert(seq![kw].drop_last() == none);

    let v = tokens(opened(x, src), 0);
    law_tokens_are_put_together(begin, spaced(x, src));
    law_tokens_are_put_together(x, src);
    assert(v == seq![Tok::Word(begin)] + (seq![Tok::Word(x)] + t));
    assert(stands_in(t, v, 2));
    assert(v[0] == Tok::Word(begin) && v[1] == Tok::Word(x));
    lemma_inside(t, v, 2, 0, empty_file(), none, kw, reals);
    assert(contents(v, 0, empty_file(), none, reals) == contents(
        v,
        2,
        empty_file(),
        seq![kw],
        reals,
    ));

    if closed(src, 0) {
        let tail = spaced(end, x);
        let u = tokens(enclosed(x, src), 0);
        law_tokens_are_put_together(begin, spaced(x, spaced(src, tail)));
        law_tokens_are_put_together(x, spaced(src, tail));
        law_tokens_are_put_together(src, tail);
        law_tokens_are_put_together(end, x);
        assert(u == seq![Tok::Word(begin)] + (seq![Tok::Word(x)] + (t + (seq![Tok::Word(end)]
            + seq![Tok::Word(x)]))));
        assert(stands_in(t, u, 2));
        assert(u[0] == Tok::Word(begin) && u[1] == Tok::Word(x));
        assert(u[n + 2] == Tok::Word(end) && u[n + 3] == Tok::Word(x));
        lemma_inside(t, u, 2, 0, empty_file(), none, kw, reals);
        assert(contents(u, 0, empty_file(), none, reals) == contents(
            u,
            2,
            empty_file(),
            seq![kw],
            reals,
        ));
        let file = described(src, reals)->Ok_0;
        assert(contents(u, n + 2, file, seq![kw], reals) == contents(u, n + 4, file, none, reals));
    }
}

} // verus!
