//! Looking things up in tables.

use vstd::prelude::*;

use crate::a2l::table::named;
use crate::module::{number_of, row_of};

verus! {

/// The first row of a number is the one that counts.
pub proof fn law_the_first_row_of_a_number_counts<T>(table: Seq<(u8, T)>, i: int)
    requires
        0 <= i < table.len(),
        forall|j: int| 0 <= j < i ==> (#[trigger] table[j]).0 != table[i].0,
    ensures
        row_of(table, table[i].0) == Some(table[i].1),
    decreases i,
{
    if i > 0 {
        let rest = table.skip(1);
        assert(rest[i - 1] == table[i]);
        assert(table[0].0 != table[i].0);
        assert forall|j: int| 0 <= j < i - 1 implies (#[trigger] rest[j]).0 != rest[i - 1].0 by {
            assert(rest[j] == table[j + 1]);
        }
        law_the_first_row_of_a_number_counts(rest, i - 1);
    }
}

/// What is looked up by number is a row of that number.
pub proof fn law_only_rows_of_the_number_are_found<T>(table: Seq<(u8, T)>, number: u8)
    ensures
        row_of(table, number) matches Some(v) ==> exists|i: int|
            0 <= i < table.len() && #[trigger] table[i] == (number, v),
        row_of(table, number) is None ==> forall|i: int|
            0 <= i < table.len() ==> (#[trigger] table[i]).0 != number,
    decreases table.len(),
{
    if table.len() > 0 {
        let rest = table.skip(1);
        law_only_rows_of_the_number_are_found(rest, number);
        if table[0].0 == number {
            assert(table[0] == (number, table[0].1));
        } else {
            if let Some(v) = row_of(rest, number) {
                let i = choose|i: int| 0 <= i < rest.len() && #[trigger] rest[i] == (number, v);
                assert(table[i + 1] == (number, v));
            } else {
                assert forall|i: int| 0 <= i < table.len() implies (#[trigger] table[i]).0
                    != number by {
                    if i > 0 {
                        assert(rest[i - 1] == table[i]);
                    }
                }
            }
        }
    }
}

/// The first row of a name is the one that counts.
pub proof fn law_the_first_row_of_a_name_counts(table: Seq<(u8, String)>, i: int)
    requires
        0 <= i < table.len(),
        forall|j: int| 0 <= j < i ==> (#[trigger] table[j]).1@ != table[i].1@,
    ensures
        number_of(table, table[i].1@) == Some(table[i].0),
    decreases i,
{
    if i > 0 {
        let rest = table.skip(1);
        assert(rest[i - 1] == table[i]);
        assert(table[0].1@ != table[i].1@);
        assert forall|j: int| 0 <= j < i - 1 implies (#[trigger] rest[j]).1@ != rest[i - 1].1@ by {
            assert(rest[j] == table[j + 1]);
        }
        law_the_first_row_of_a_name_counts(rest, i - 1);
    }
}

/// What is looked up by name is the number of a row of that name.
pub proof fn law_only_rows_of_the_name_are_found(table: Seq<(u8, String)>, name: Seq<char>)
    ensures
        number_of(table, name) matches Some(n) ==> exists|i: int|
            0 <= i < table.len() && (#[trigger] table[i]).0 == n && table[i].1@ == name,
        number_of(table, name) is None ==> forall|i: int|
            0 <= i < table.len() ==> (#[trigger] table[i]).1@ != name,
    decreases table.len(),
{
    if table.len() > 0 {
        let rest = table.skip(1);
        law_only_rows_of_the_name_are_found(rest, name);
        if table[0].1@ != name {
            if let Some(n) = number_of(rest, name) {
                let i = choose|i: int|
                    0 <= i < rest.len() && (#[trigger] rest[i]).0 == n && rest[i].1@ == name;
                assert(table[i + 1].0 == n && table[i + 1].1@ == name);
            } else {
                assert forall|i: int| 0 <= i < table.len() implies (#[trigger] table[i]).1@
                    != name by {
                    if i > 0 {
                        assert(rest[i - 1] == table[i]);
                    }
                }
            }
        } else {
            assert(table[0].0 == table[0].0 && table[0].1@ == name);
        }
    }
}

/// A named thing is found under its name, the first of that name, and nothing is found
/// under a name that nothing has.
pub proof fn law_named_things_are_found<V>(rows: Seq<(Seq<char>, V)>, name: Seq<char>, i: int)
    ensures
        0 <= i < rows.len() && rows[i].0 == name && (forall|j: int|
            0 <= j < i ==> (#[trigger] rows[j]).0 != name) ==> named(rows, name) == Some(rows[i].1),
        (forall|j: int| 0 <= j < rows.len() ==> (#[trigger] rows[j]).0 != name) ==> named(
            rows,
            name,
        ) is None,
    decreases rows.len(),
{
    if rows.len() > 0 {
        let rest = rows.skip(1);
        law_named_things_are_found(rest, name, i - 1);
        if 0 < i < rows.len() {
            assert(rest[i - 1] == rows[i]);
        }
        assert forall|j: int| 0 <= j < rest.len() implies (#[trigger] rest[j]) == rows[j + 1] by {}
        if rows[0].0 != name && 0 < i < rows.len() && forall|j: int|
            0 <= j < i ==> (#[trigger] rows[j]).0 != name {
            assert forall|j: int| 0 <= j < i - 1 implies (#[trigger] rest[j]).0 != name by {
                assert(rows[j + 1].0 != name);
            }
        }
        if forall|j: int| 0 <= j < rows.len() ==> (#[trigger] rows[j]).0 != name {
            assert(rows[0].0 != name);
            assert forall|j: int| 0 <= j < rest.len() implies (#[trigger] rest[j]).0 != name by {
                assert(rows[j + 1].0 != name);
            }
        }
    }
}

} // verus!
