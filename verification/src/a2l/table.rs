//! Values by name.

use vstd::prelude::*;

use crate::text::str_eq;

verus! {

/// Values by name, in the order the names first came.
#[derive(Debug)]
pub struct Table<T> {
    pub rows: Vec<(String, T)>,
}

impl<T: View> View for Table<T> {
    type V = Seq<(Seq<char>, T::V)>;

    open spec fn view(&self) -> Seq<(Seq<char>, T::V)> {
        self.rows@.map_values(|r: (String, T)| (r.0@, r.1@))
    }
}

/// A table with a row: it takes the place of one with the same name.
pub open spec fn with_row<V>(rows: Seq<(Seq<char>, V)>, name: Seq<char>, value: V) -> Seq<
    (Seq<char>, V),
>
    decreases rows.len(),
{
    if rows.len() == 0 {
        seq![(name, value)]
    } else if rows[0].0 == name {
        seq![(name, value)] + rows.skip(1)
    } else {
        seq![rows[0]] + with_row(rows.skip(1), name, value)
    }
}

/// The value of a name.
pub open spec fn named<V>(rows: Seq<(Seq<char>, V)>, name: Seq<char>) -> Option<V>
    decreases rows.len(),
{
    if rows.len() == 0 {
        None
    } else if rows[0].0 == name {
        Some(rows[0].1)
    } else {
        named(rows.skip(1), name)
    }
}

/// Whether no name occurs twice.
pub open spec fn distinct<V>(rows: Seq<(Seq<char>, V)>) -> bool {
    forall|i: int, j: int| 0 <= i < j < rows.len() ==> rows[i].0 != rows[j].0
}

impl<T: View> Table<T> {
    /// A table without rows.
    pub fn new() -> (r: Self)
        ensures
            r@ == Seq::<(Seq<char>, T::V)>::empty(),
    {
        let r = Table { rows: Vec::new() };
        assert(r@ == Seq::<(Seq<char>, T::V)>::empty());
        r
    }

    /// How many names there are.
    pub fn len(&self) -> (n: usize)
        ensures
            n == self@.len(),
    {
        self.rows.len()
    }

    /// Set the value of a name.
    pub fn put(&mut self, name: String, value: T)
        ensures
            final(self)@ == with_row(old(self)@, name@, value@),
    {
        let ghost all = self@;
        let ghost row = (name@, value@);
        let mut i: usize = 0;
        assert(all.skip(0) == all);
        assert(all.take(0) + with_row(all.skip(0), name@, value@) == with_row(all, name@, value@));
        while i < self.rows.len()
            invariant
                i <= self.rows@.len(),
                *self == *old(self),
                all == self@,
                row == (name@, value@),
                with_row(all, name@, value@) == all.take(i as int) + with_row(
                    all.skip(i as int),
                    name@,
                    value@,
                ),
            decreases self.rows@.len() - i,
        {
            let ghost rest = all.skip(i as int);
            assert(rest[0] == all[i as int]);
            assert(rest.skip(1) == all.skip(i + 1));
            if str_eq(self.rows[i].0.as_str(), name.as_str()) {
                self.rows.set(i, (name, value));
                assert(self@ == all.take(i as int) + (seq![row] + all.skip(i + 1)));
                return ;
            }
            assert(all.take(i as int) + (seq![rest[0]] + with_row(rest.skip(1), name@, value@))
                == all.take(i + 1) + with_row(all.skip(i + 1), name@, value@));
            i = i + 1;
        }
        assert(all.take(i as int) == all);
        assert(all.skip(i as int).len() == 0);
        self.rows.push((name, value));
        assert(self@ == all + seq![row]);
    }

    /// The value of a name.
    pub fn get(&self, name: &str) -> (r: Option<&T>)
        ensures
            match r {
                Some(v) => named(self@, name@) == Some(v@),
                None => named(self@, name@) is None,
            },
    {
        let ghost all = self@;
        let mut i: usize = 0;
        assert(all.skip(0) == all);
        while i < self.rows.len()
            invariant
                i <= self.rows@.len(),
                all == self@,
                named(all, name@) == named(all.skip(i as int), name@),
            decreases self.rows@.len() - i,
        {
            assert(all.skip(i as int)[0] == all[i as int]);
            assert(all.skip(i as int).skip(1) == all.skip(i + 1));
            if str_eq(self.rows[i].0.as_str(), name) {
                return Some(&self.rows[i].1);
            }
            i = i + 1;
        }
        None
    }
}

/// What was put under a name is found under it, and nothing else changes.
pub proof fn law_put_is_found<V>(
    rows: Seq<(Seq<char>, V)>,
    name: Seq<char>,
    value: V,
    other: Seq<char>,
)
    ensures
        named(with_row(rows, name, value), other) == if other == name {
            Some(value)
        } else {
            named(rows, other)
        },
    decreases rows.len(),
{
    reveal_with_fuel(named, 2);
    if rows.len() == 0 {
        assert(seq![(name, value)].skip(1) == Seq::<(Seq<char>, V)>::empty());
    } else if rows[0].0 == name {
        assert((seq![(name, value)] + rows.skip(1)).skip(1) == rows.skip(1));
    } else {
        law_put_is_found(rows.skip(1), name, value, other);
        assert((seq![rows[0]] + with_row(rows.skip(1), name, value)).skip(1) == with_row(
            rows.skip(1),
            name,
            value,
        ));
    }
}

/// No name ever occurs twice.
pub proof fn law_names_stay_distinct<V>(rows: Seq<(Seq<char>, V)>, name: Seq<char>, value: V)
    requires
        distinct(rows),
    ensures
        distinct(with_row(rows, name, value)),
    decreases rows.len(),
{
    if rows.len() > 0 {
        let rest = rows.skip(1);
        assert forall|i: int, j: int| 0 <= i < j < rest.len() implies rest[i].0 != rest[j].0 by {
            assert(rest[i] == rows[i + 1]);
            assert(rest[j] == rows[j + 1]);
        }
        if rows[0].0 == name {
            let r = seq![(name, value)] + rest;
            assert forall|i: int, j: int| 0 <= i < j < r.len() implies r[i].0 != r[j].0 by {
                assert(r[j] == rows[j]);
                if i > 0 {
                    assert(r[i] == rows[i]);
                } else {
                    assert(rows[0].0 != rows[j].0);
                }
            }
        } else {
            law_names_stay_distinct(rest, name, value);
            let t = with_row(rest, name, value);
            let r = seq![rows[0]] + t;
            assert forall|i: int, j: int| 0 <= i < j < r.len() implies r[i].0 != r[j].0 by {
                assert(r[j] == t[j - 1]);
                if i > 0 {
                    assert(r[i] == t[i - 1]);
                } else {
                    lemma_row_names(rest, name, value, j - 1);
                    if t[j - 1].0 != name {
                        let k = choose|k: int|
                            0 <= k < rest.len() && (#[trigger] rest[k]).0 == t[j - 1].0;
                        assert(rest[k] == rows[k + 1]);
                        assert(rows[0].0 != rows[k + 1].0);
                    }
                }
            }
        }
    }
}

proof fn lemma_row_names<V>(rows: Seq<(Seq<char>, V)>, name: Seq<char>, value: V, i: int)
    requires
        0 <= i < with_row(rows, name, value).len(),
    ensures
        with_row(rows, name, value)[i].0 == name || exists|k: int|
            0 <= k < rows.len() && (#[trigger] rows[k]).0 == with_row(rows, name, value)[i].0,
    decreases rows.len(),
{
    let r = with_row(rows, name, value);
    if rows.len() > 0 {
        let rest = rows.skip(1);
        if rows[0].0 == name {
            if i > 0 {
                assert(r[i] == rows[i]);
            }
        } else {
            if i == 0 {
                assert(r[0] == rows[0]);
            } else {
                assert(r[i] == with_row(rest, name, value)[i - 1]);
                lemma_row_names(rest, name, value, i - 1);
                if r[i].0 != name {
                    let k = choose|k: int| 0 <= k < rest.len() && (#[trigger] rest[k]).0 == r[i].0;
                    assert(rows[k + 1] == rest[k]);
                }
            }
        }
    }
}

} // verus!
