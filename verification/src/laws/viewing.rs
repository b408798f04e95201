//! What the map browser lists and shows.

use vstd::prelude::*;

use crate::a2l::types::{A2lFileValue, FunctionValue};
use crate::text::lowercased;
use crate::viewer::categories::{
    before, blocks_of, holds, in_category, is_child, last_characteristic, last_function, lists,
    ModulePreset,
};
use crate::viewer::panels::{changed, indices, unscaled, Comparison};
use crate::viewer::state::{
    law_the_list_is_what_passes, law_whatever_passes_is_matched, listed, matching, passes, place_of,
    updated, FileMsg, FilterValue, Msg, Order, StateValue,
};
use crate::viewer::tables::{table_of, Cell, Headers};

verus! {

/// A text stands in another at a place.
pub open spec fn stands_at(s: Seq<char>, part: Seq<char>, k: int) -> bool {
    0 <= k && k + part.len() <= s.len() && s.subrange(k, k + part.len()) == part
}

/// Without a category, a text or changes to show, everything is listed.
pub proof fn law_an_empty_filter_passes_everything(a2l: A2lFileValue, f: FilterValue, index: int)
    requires
        f.selected_category is None,
        f.text == Seq::<char>::empty(),
        !f.show_changed_only || f.changed_set == Seq::<usize>::empty(),
    ensures
        passes(a2l, f, index),
{
    reveal(passes);
    assert(vstd::utf8::is_ascii_chars(f.text));
    assert(lowercased(f.text) =~= Seq::<char>::empty());
}

/// A text is looked for in the name and in the description, whatever its case.
pub proof fn law_a_text_is_looked_for(a2l: A2lFileValue, f: FilterValue, index: int, k: int)
    requires
        f.selected_category is None,
        !f.show_changed_only,
        lowercased(f.text).len() > 0,
    ensures
        ({
            let ch = a2l.characteristics[index];
            let t = lowercased(f.text);
            &&& stands_at(lowercased(ch.name), t, k) || stands_at(lowercased(ch.description), t, k)
                ==> passes(a2l, f, index)
            &&& passes(a2l, f, index) ==> (exists|j: int|
                #[trigger] stands_at(lowercased(ch.name), t, j)) || (exists|j: int|
                #[trigger] stands_at(lowercased(ch.description), t, j))
        }),
{
    reveal(passes);
    let ch = a2l.characteristics[index];
    let t = lowercased(f.text);
    let (n, d) = (lowercased(ch.name), lowercased(ch.description));
    if passes(a2l, f, index) {
        if crate::text::has_part(n, t) {
            let j = choose|j: int|
                0 <= j <= n.len() - t.len() && #[trigger] n.subrange(j, j + t.len()) == t;
            assert(stands_at(n, t, j));
        } else {
            let j = choose|j: int|
                0 <= j <= d.len() - t.len() && #[trigger] d.subrange(j, j + t.len()) == t;
            assert(stands_at(d, t, j));
        }
    }
}

/// Where only changes are shown, and any are known, only they are listed.
pub proof fn law_only_changes_are_listed(a2l: A2lFileValue, f: FilterValue, index: int)
    requires
        f.show_changed_only,
        f.changed_set.len() > 0,
        passes(a2l, f, index),
    ensures
        f.changed_set.contains(index as usize),
{
    reveal(passes);
}

/// The list has everything that passes, in the order of the file, up to the five hundredth;
/// the number of all that pass is told beside it.
pub proof fn law_what_is_listed(a2l: A2lFileValue, f: FilterValue, index: int)
    requires
        a2l.characteristics.len() <= usize::MAX,
    ensures
        ({
            let l = listed(Some(a2l), f);
            &&& l.filtered.len() == (if l.total_matches <= 500 {
                l.total_matches
            } else {
                500
            })
            &&& forall|i: int, j: int|
                0 <= i < j < l.filtered.len() ==> (#[trigger] l.filtered[i]) < (
                #[trigger] l.filtered[j])
            &&& forall|i: int|
                0 <= i < l.filtered.len() ==> (#[trigger] l.filtered[i])
                    < a2l.characteristics.len() && passes(a2l, f, l.filtered[i] as int)
            &&& l.total_matches <= 500 && 0 <= index < a2l.characteristics.len() && passes(
                a2l,
                f,
                index,
            ) ==> l.filtered.contains(index as usize)
        }),
{
    reveal(listed);
    let n = a2l.characteristics.len() as int;
    let all = matching(a2l, f, n);
    assert forall|i: int, j: int| 0 <= i < j < all.len() implies (#[trigger] all[i]) < (
    #[trigger] all[j]) by {
        lemma_matches_rise(a2l, f, n, i, j);
    }
    assert forall|i: int| 0 <= i < all.len() implies (#[trigger] all[i]) < n && passes(
        a2l,
        f,
        all[i] as int,
    ) by {
        law_the_list_is_what_passes(a2l, f, n, i);
    }
    if 0 <= index < n && passes(a2l, f, index) {
        law_whatever_passes_is_matched(a2l, f, n, index);
    }
}

proof fn lemma_matches_rise(a2l: A2lFileValue, f: FilterValue, n: int, i: int, j: int)
    requires
        0 <= i < j < matching(a2l, f, n).len(),
        n <= usize::MAX,
    ensures
        matching(a2l, f, n)[i] < matching(a2l, f, n)[j],
    decreases j - i,
{
    law_the_list_is_what_passes(a2l, f, n, j);
    if i < j - 1 {
        lemma_matches_rise(a2l, f, n, i, j - 1);
    }
}

proof fn lemma_place_in(v: Seq<usize>, p: int)
    requires
        0 <= p < v.len(),
        forall|i: int, j: int| 0 <= i < j < v.len() ==> (#[trigger] v[i]) < (#[trigger] v[j]),
    ensures
        place_of(v, v[p]) == p,
    decreases v.len(),
{
    if p > 0 {
        let rest = v.skip(1);
        assert(v[0] < v[p]);
        assert(rest[p - 1] == v[p]);
        assert forall|i: int, j: int| 0 <= i < j < rest.len() implies (#[trigger] rest[i]) < (
        #[trigger] rest[j]) by {
            assert(v[i + 1] < v[j + 1]);
        }
        lemma_place_in(rest, p - 1);
    }
}

proof fn lemma_no_place(v: Seq<usize>, x: usize)
    requires
        !v.contains(x),
    ensures
        place_of(v, x) == -1,
    decreases v.len(),
{
    if v.len() > 0 {
        assert(v[0] != x) by {
            if v[0] == x {
                assert(v.contains(x));
            }
        }
        let rest = v.skip(1);
        assert(!rest.contains(x)) by {
            if rest.contains(x) {
                let k = choose|k: int| 0 <= k < rest.len() && rest[k] == x;
                assert(v[k + 1] == x);
            }
        }
        lemma_no_place(rest, x);
    }
}

/// The arrow keys move the selection by one along the list, and stop at its ends. Where
/// nothing in the list is selected, down begins at the top and up at the bottom.
pub proof fn law_how_the_selection_moves(s: StateValue, p: int)
    requires
        ({
            let v = s.listing.filtered;
            &&& v.len() > 0
            &&& forall|i: int, j: int| 0 <= i < j < v.len() ==> (#[trigger] v[i]) < (#[trigger] v[j])
        }),
    ensures
        ({
            let v = s.listing.filtered;
            let down = updated(s, Msg::SelectNext).0.selection.selected;
            let up = updated(s, Msg::SelectPrev).0.selection.selected;
            let on = s.selection.selected matches Some(x) && v.contains(x);
            &&& 0 <= p < v.len() && s.selection.selected == Some(v[p]) ==> {
                &&& p + 1 < v.len() ==> down == Some(v[p + 1])
                &&& p + 1 == v.len() ==> down == Some(v[p])
                &&& p > 0 ==> up == Some(v[p - 1])
                &&& p == 0 ==> up == Some(v[0])
            }
            &&& !on ==> down == Some(v[0]) && up == Some(v[v.len() - 1])
        }),
{
    let v = s.listing.filtered;
    if 0 <= p < v.len() && s.selection.selected == Some(v[p]) {
        lemma_place_in(v, p);
    }
    if let Some(x) = s.selection.selected {
        if !v.contains(x) {
            lemma_no_place(v, x);
        }
    }
}

/// Two firmwares are compared once a description and both of them are there, and only
/// then; what was known of changes is forgotten.
pub proof fn law_when_firmwares_are_compared(s: StateValue, data: Vec<u8>)
    ensures
        ({
            let (t, order) = updated(s, Msg::File(FileMsg::Bin2Loaded(Ok(data))));
            let all = s.loaded.a2l is Some && s.loaded.binary is Some;
            &&& t.loaded.binary2 == Some(data@)
            &&& t.loaded.binary == s.loaded.binary
            &&& t.display.compare_mode
            &&& all ==> order == Order::ComputeChanges && t.display.computing_changes
                && t.filter.changed_set == Seq::<usize>::empty()
            &&& !all ==> order == Order::Nothing
        }),
        ({
            let (t, order) = updated(s, Msg::File(FileMsg::BinLoaded(Ok(data), None)));
            let all = s.loaded.a2l is Some && s.loaded.binary2 is Some;
            &&& t.loaded.binary == Some(data@)
            &&& t.loaded.binary2 == s.loaded.binary2
            &&& t.loaded.address_map == s.loaded.address_map
            &&& all ==> order == Order::ComputeChanges
            &&& !all ==> order == Order::Nothing
        }),
{
}

/// Leaving the comparison shows everything again.
pub proof fn law_leaving_a_comparison(s: StateValue)
    ensures
        ({
            let t = updated(s, Msg::ToggleCompare(false)).0;
            &&& !t.display.compare_mode
            &&& !t.filter.show_changed_only
            &&& !t.filter.show_rescale_only
            &&& t.selection.selected == s.selection.selected
            &&& t.loaded == s.loaded
        }),
        updated(s, Msg::ToggleCompare(true)).0.filter == s.filter,
        updated(s, Msg::ToggleCompare(true)).0.display.compare_mode,
{
}

/// A module brings its own blocks.
pub proof fn law_a_module_brings_its_blocks(s: StateValue, m: ModulePreset)
    requires
        s.loaded.address_map == blocks_of(s.loaded.module),
    ensures
        updated(s, Msg::ModuleChanged(m)).0.loaded.module == m,
        updated(s, Msg::ModuleChanged(m)).0.loaded.address_map == blocks_of(m),
        updated(s, Msg::ModuleChanged(m)).0.loaded.binary == s.loaded.binary,
{
}

/// A full image begins with the two mebibytes of the program flash; what the control
/// module addresses from 0x80_0000 up follows. Cached and uncached addresses name the same
/// bytes.
pub open spec fn place_in_image(address: u32) -> int {
    address as int % 0x80_0000 + if (address as int / 0x80_0000) % 2 == 1 {
        0x20_0000int
    } else {
        0
    }
}

/// Every block of a module lies in its full image where its address says, inside of four
/// mebibytes, and apart from the others.
pub proof fn law_where_blocks_lie_in_an_image(m: ModulePreset, i: int, j: int)
    requires
        0 <= i < j < blocks_of(m).len(),
    ensures
        blocks_of(m)[i].1 == place_in_image(blocks_of(m)[i].0),
        blocks_of(m)[j].1 == place_in_image(blocks_of(m)[j].0),
        blocks_of(m)[i].2 > 0,
        blocks_of(m)[j].2 > 0,
        blocks_of(m)[i].1 + blocks_of(m)[i].2 <= 0x40_0000,
        blocks_of(m)[j].1 + blocks_of(m)[j].2 <= 0x40_0000,
        blocks_of(m)[i].1 + blocks_of(m)[i].2 <= blocks_of(m)[j].1 || blocks_of(m)[j].1
            + blocks_of(m)[j].2 <= blocks_of(m)[i].1,
{
}

/// What differs has changed, and so has what only one of the two firmwares has; what
/// neither has did not.
pub proof fn law_what_has_changed(c: Comparison)
    ensures
        c.first && c.second ==> changed(c) == !c.same,
        c.first && !c.second ==> changed(c),
        !c.first && c.second ==> changed(c),
        !c.first && !c.second ==> !changed(c),
        unscaled(c) <==> changed(c) && c.first && c.second && c.axis_differs && c.values_same,
{
}

/// Everything with a property is in the list of it, in rising order, and nothing else.
pub proof fn law_every_change_is_listed(
    all: Seq<Comparison>,
    p: spec_fn(Comparison) -> bool,
    n: int,
    i: int,
)
    requires
        0 <= i < n <= all.len(),
        n <= usize::MAX,
    ensures
        indices(all, p, n).contains(i as usize) == p(all[i]),
        forall|a: int|
            0 <= a < indices(all, p, n).len() ==> (#[trigger] indices(all, p, n)[a]) < n,
        forall|a: int, b: int|
            0 <= a < b < indices(all, p, n).len() ==> (#[trigger] indices(all, p, n)[a]) < (
            #[trigger] indices(all, p, n)[b]),
    decreases n,
{
    let now = indices(all, p, n);
    let fewer = indices(all, p, n - 1);
    if n > 1 {
        let k = if i < n - 1 {
            i
        } else {
            0
        };
        law_every_change_is_listed(all, p, n - 1, k);
    }
    if i < n - 1 {
        if fewer.contains(i as usize) {
            let k = choose|k: int| 0 <= k < fewer.len() && fewer[k] == i as usize;
            assert(now[k] == i as usize);
        }
        if now.contains(i as usize) {
            let k = choose|k: int| 0 <= k < now.len() && now[k] == i as usize;
            assert(fewer[k] == i as usize);
        }
    } else {
        if p(all[i]) {
            assert(now[now.len() - 1] == i as usize);
        } else if now.contains(i as usize) {
            let k = choose|k: int| 0 <= k < now.len() && now[k] == i as usize;
            assert(fewer[k] < n - 1);
        }
    }
}

/// A table has a header above and points to the left: the value of a row and a column
/// stands one below and one to the right of its place.
pub proof fn law_the_cells_of_a_table(nx: int, ny: int, lengths: Seq<usize>, row: int, col: int)
    requires
        0 <= row < ny <= usize::MAX,
        0 <= col < nx <= usize::MAX,
        lengths.len() == ny,
        lengths[row] == nx,
    ensures
        ({
            let t = table_of(Headers::Plain, nx, ny, lengths, None);
            &&& t.len() == ny + 1
            &&& t[0].len() == nx + 1
            &&& t[row + 1].len() == nx + 1
            &&& t[0][0] == Cell::Corner
            &&& t[0][col + 1] == Cell::X(col as usize)
            &&& t[row + 1][0] == Cell::Y(row as usize)
            &&& t[row + 1][col + 1] == (Cell::Value { row: row as usize, col: col as usize })
        }),
{
    let t = table_of(Headers::Plain, nx, ny, lengths, None);
    assert(t[row + 1] == crate::viewer::tables::body_row(Headers::Plain, lengths, None, row));
    assert(t[0] == crate::viewer::tables::header_row(Headers::Plain, nx));
}

/// A table against an older one says of every cell whether the older one has it.
pub proof fn law_the_cells_of_a_comparison(
    nx: int,
    ny: int,
    lengths: Seq<usize>,
    old: Seq<usize>,
    x_old: usize,
    y_old: usize,
    row: int,
    col: int,
)
    requires
        0 <= row < ny <= usize::MAX,
        0 <= col < nx <= usize::MAX,
        lengths.len() == ny,
        lengths[row] == nx,
    ensures
        ({
            let t = table_of(Headers::Against { x_old, y_old }, nx, ny, lengths, Some(old));
            &&& t[0][col + 1] == (Cell::XAgainst { index: col as usize, old: col < x_old })
            &&& t[row + 1][0] == (Cell::YAgainst { index: row as usize, old: row < y_old })
            &&& t[row + 1][col + 1] == (Cell::Against {
                row: row as usize,
                col: col as usize,
                old: row < old.len() && col < old[row],
            })
        }),
{
    let h = Headers::Against { x_old, y_old };
    let t = table_of(h, nx, ny, lengths, Some(old));
    assert(t[row + 1] == crate::viewer::tables::body_row(h, lengths, Some(old), row));
    assert(t[0] == crate::viewer::tables::header_row(h, nx));
}

proof fn lemma_last_function(v: Seq<FunctionValue>, i: int)
    requires
        0 <= i < v.len(),
        forall|j: int| i < j < v.len() ==> (#[trigger] v[j]).name != v[i].name,
    ensures
        last_function(v, v[i].name) == i,
    decreases v.len(),
{
    if i < v.len() - 1 {
        let shorter = v.drop_last();
        assert(v[v.len() - 1].name != v[i].name);
        assert(shorter[i] == v[i]);
        assert forall|j: int| i < j < shorter.len() implies (#[trigger] shorter[j]).name
            != shorter[i].name by {
            assert(shorter[j] == v[j]);
        }
        lemma_last_function(shorter, i);
    }
}

proof fn lemma_last_characteristic(v: Seq<crate::a2l::types::CharacteristicValue>, i: int)
    requires
        0 <= i < v.len(),
        forall|j: int| i < j < v.len() ==> (#[trigger] v[j]).name != v[i].name,
    ensures
        last_characteristic(v, v[i].name) == i,
    decreases v.len(),
{
    if i < v.len() - 1 {
        let shorter = v.drop_last();
        assert(v[v.len() - 1].name != v[i].name);
        assert(shorter[i] == v[i]);
        assert forall|j: int| i < j < shorter.len() implies (#[trigger] shorter[j]).name
            != shorter[i].name by {
            assert(shorter[j] == v[j]);
        }
        lemma_last_characteristic(shorter, i);
    }
}

/// A function names a characteristic, as its own or as one that it uses.
pub open spec fn names(f: FunctionValue, name: Seq<char>) -> bool {
    f.def_characteristics.contains(name) || f.ref_characteristics.contains(name)
}

proof fn lemma_holds(a2l: A2lFileValue, i: int, c: int)
    requires
        0 <= i < a2l.functions.len(),
        0 <= c < a2l.characteristics.len(),
        forall|j: int|
            i < j < a2l.functions.len() ==> (#[trigger] a2l.functions[j]).name
                != a2l.functions[i].name,
        forall|j: int|
            c < j < a2l.characteristics.len() ==> (#[trigger] a2l.characteristics[j]).name
                != a2l.characteristics[c].name,
        names(a2l.functions[i], a2l.characteristics[c].name),
    ensures
        holds(a2l, a2l.functions[i].name, c),
{
    lemma_last_function(a2l.functions, i);
    lemma_last_characteristic(a2l.characteristics, c);
    let f = a2l.functions[i];
    let name = a2l.characteristics[c].name;
    if f.def_characteristics.contains(name) {
        let k = choose|k: int|
            0 <= k < f.def_characteristics.len() && f.def_characteristics[k] == name;
        assert(f.def_characteristics[k] == name);
        assert(lists(a2l.characteristics, f.def_characteristics, c));
    } else {
        let k = choose|k: int|
            0 <= k < f.ref_characteristics.len() && f.ref_characteristics[k] == name;
        assert(f.ref_characteristics[k] == name);
        assert(lists(a2l.characteristics, f.ref_characteristics, c));
    }
}

/// What a function names is in the category of the function: of one that has functions
/// below it, together with what they name, and of one that stands alone. The last
/// definition of a name counts.
pub proof fn law_what_is_in_a_category(a2l: A2lFileValue, i: int, k: int, c: int)
    requires
        0 <= i < a2l.functions.len(),
        0 <= k < a2l.functions.len(),
        0 <= c < a2l.characteristics.len(),
        forall|j: int|
            i < j < a2l.functions.len() ==> (#[trigger] a2l.functions[j]).name
                != a2l.functions[i].name,
        forall|j: int|
            k < j < a2l.functions.len() ==> (#[trigger] a2l.functions[j]).name
                != a2l.functions[k].name,
        forall|j: int|
            c < j < a2l.characteristics.len() ==> (#[trigger] a2l.characteristics[j]).name
                != a2l.characteristics[c].name,
    ensures
        ({
            let f = a2l.functions[i];
            let g = a2l.functions[k];
            let name = a2l.characteristics[c].name;
            &&& names(f, name) && f.sub_functions.len() > 0 ==> in_category(a2l, f.name, c)
            &&& names(g, name) && f.sub_functions.contains(g.name) ==> in_category(
                a2l,
                f.name,
                c,
            )
            &&& names(f, name) && (forall|j: int|
                0 <= j < a2l.functions.len() ==> !(
                #[trigger] a2l.functions[j]).sub_functions.contains(f.name)) ==> in_category(
                a2l,
                f.name,
                c,
            )
        }),
{
    let f = a2l.functions[i];
    let g = a2l.functions[k];
    let name = a2l.characteristics[c].name;
    if names(f, name) {
        lemma_holds(a2l, i, c);
    }
    if names(g, name) && f.sub_functions.contains(g.name) {
        lemma_holds(a2l, k, c);
        let m = choose|m: int| 0 <= m < f.sub_functions.len() && f.sub_functions[m] == g.name;
        assert(holds(a2l, f.sub_functions[m], c));
    }
    assert(a2l.functions[i].name == f.name);
}

/// A function below another that has none below itself makes no category of its own.
pub proof fn law_a_child_is_no_category(a2l: A2lFileValue, i: int, k: int, c: int)
    requires
        0 <= i < a2l.functions.len(),
        0 <= k < a2l.functions.len(),
        a2l.functions[k].sub_functions.contains(a2l.functions[i].name),
        forall|j: int|
            0 <= j < a2l.functions.len() && (#[trigger] a2l.functions[j]).name
                == a2l.functions[i].name ==> a2l.functions[j].sub_functions.len() == 0,
    ensures
        !in_category(a2l, a2l.functions[i].name, c),
{
    let name = a2l.functions[i].name;
    assert(is_child(a2l, name));
    if in_category(a2l, name, c) {
        let j = choose|j: int|
            0 <= j < a2l.functions.len() && (#[trigger] a2l.functions[j]).name == name
                && crate::viewer::categories::contributes(a2l, a2l.functions[j], c);
        assert(a2l.functions[j].sub_functions.len() == 0);
    }
}

/// Categories stand in the order of their letters: the first letter that differs decides,
/// and a shorter name stands before one that it begins.
pub proof fn law_the_order_of_categories(front: Seq<char>, a: Seq<char>, b: Seq<char>)
    ensures
        a.len() > 0 && b.len() > 0 && a[0] < b[0] ==> before(front + a, front + b) && !before(
            front + b,
            front + a,
        ),
        b.len() > 0 ==> before(front, front + b) && !before(front + b, front),
    decreases front.len(),
{
    if front.len() == 0 {
        assert(front + a =~= a);
        assert(front + b =~= b);
    } else {
        let rest = front.skip(1);
        law_the_order_of_categories(rest, a, b);
        assert((front + a).skip(1) =~= rest + a);
        assert((front + b).skip(1) =~= rest + b);
    }
}

} // verus!
