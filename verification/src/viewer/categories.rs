//! Modules the browser knows, and the categories of characteristics.

use vstd::prelude::*;

use crate::a2l::reader::AddressMap;
use crate::a2l::types::{views, A2lFile, A2lFileValue, Characteristic, CharacteristicValue, Function, FunctionValue};
use crate::text::{chars_of, str_eq};

verus! {

/// A module whose address map is built in.
#[derive(Debug, Clone, Copy, PartialEq, Eq, Structural)]
pub enum ModulePreset {
    Simos18,
    Simos1810,
}

impl ModulePreset {
    /// How the module is named to the user.
    pub fn label(self) -> (s: &'static str)
        ensures
            s@ == match self {
                ModulePreset::Simos18 => "Simos18 (SC8)"@,
                ModulePreset::Simos1810 => "Simos18.10 (SCG)"@,
            },
    {
        match self {
            ModulePreset::Simos18 => "Simos18 (SC8)",
            ModulePreset::Simos1810 => "Simos18.10 (SCG)",
        }
    }
}

/// The modules to choose from.
pub fn module_presets() -> (r: [ModulePreset; 2])
    ensures
        r@ == seq![ModulePreset::Simos18, ModulePreset::Simos1810],
{
    let r = [ModulePreset::Simos18, ModulePreset::Simos1810];
    assert(r@ == seq![ModulePreset::Simos18, ModulePreset::Simos1810]);
    r
}

/// The blocks of a module: ECU base address, file offset and length.
pub open spec fn blocks_of(preset: ModulePreset) -> Seq<(u32, usize, usize)> {
    match preset {
        ModulePreset::Simos18 => seq![
            (0x8000_0000u32, 0x00_0000usize, 0x01_C000usize),
            (0x8001_C000u32, 0x01_C000usize, 0x02_3E00usize),
            (0x8004_0000u32, 0x04_0000usize, 0x0F_FC00usize),
            (0x8014_0000u32, 0x14_0000usize, 0x0B_FC00usize),
            (0x8088_0000u32, 0x28_0000usize, 0x07_FC00usize),
            (0xA080_0000u32, 0x20_0000usize, 0x07_FC00usize),
        ],
        ModulePreset::Simos1810 => seq![
            (0x8080_0000u32, 0x20_0000usize, 0x01_FE00usize),
            (0x8002_0000u32, 0x02_0000usize, 0x0D_FC00usize),
            (0x8010_0000u32, 0x10_0000usize, 0x0F_FC00usize),
            (0x808C_0000u32, 0x2C_0000usize, 0x13_FC00usize),
            (0xA082_0000u32, 0x22_0000usize, 0x09_FC00usize),
        ],
    }
}

/// The address map of a module.
pub fn address_map_for(preset: ModulePreset) -> (r: AddressMap)
    ensures
        r@ == blocks_of(preset),
        crate::a2l::reader::addressable(r@),
{
    let r: AddressMap = match preset {
        // SBOOT, CBOOT, ASW1, ASW2, ASW3, CAL
        ModulePreset::Simos18 => vec![
            (0x8000_0000, 0x00_0000, 0x01_C000),
            (0x8001_C000, 0x01_C000, 0x02_3E00),
            (0x8004_0000, 0x04_0000, 0x0F_FC00),
            (0x8014_0000, 0x14_0000, 0x0B_FC00),
            (0x8088_0000, 0x28_0000, 0x07_FC00),
            (0xA080_0000, 0x20_0000, 0x07_FC00),
        ],
        // CBOOT, ASW1, ASW2, ASW3, CAL
        ModulePreset::Simos1810 => vec![
            (0x8080_0000, 0x20_0000, 0x01_FE00),
            (0x8002_0000, 0x02_0000, 0x0D_FC00),
            (0x8010_0000, 0x10_0000, 0x0F_FC00),
            (0x808C_0000, 0x2C_0000, 0x13_FC00),
            (0xA082_0000, 0x22_0000, 0x09_FC00),
        ],
    };
    assert(r@ == blocks_of(preset));
    r
}

/// A category to choose from.
#[derive(Debug, Clone)]
pub struct Category {
    /// How it is shown: the name, with the description if there is one.
    pub label: String,
    /// The name of the function it stands for.
    pub name: String,
}

/// A category as a value.
pub struct CategoryValue {
    pub label: Seq<char>,
    pub name: Seq<char>,
}

impl View for Category {
    type V = CategoryValue;

    open spec fn view(&self) -> CategoryValue {
        CategoryValue { label: self.label@, name: self.name@ }
    }
}

/// Whether a text comes before another, code point by code point.
pub open spec fn before(a: Seq<char>, b: Seq<char>) -> bool
    decreases a.len(),
{
    if b.len() == 0 {
        false
    } else if a.len() == 0 {
        true
    } else if a[0] == b[0] {
        before(a.skip(1), b.skip(1))
    } else {
        a[0] < b[0]
    }
}

proof fn lemma_before_irreflexive(a: Seq<char>)
    ensures
        !before(a, a),
    decreases a.len(),
{
    if a.len() > 0 {
        lemma_before_irreflexive(a.skip(1));
    }
}

proof fn lemma_before_transitive(a: Seq<char>, b: Seq<char>, c: Seq<char>)
    requires
        before(a, b),
        before(b, c),
    ensures
        before(a, c),
    decreases a.len(),
{
    if a.len() > 0 && a[0] == b[0] && b[0] == c[0] {
        lemma_before_transitive(a.skip(1), b.skip(1), c.skip(1));
    }
}

proof fn lemma_before_total(a: Seq<char>, b: Seq<char>)
    ensures
        before(a, b) || before(b, a) || a == b,
    decreases a.len(),
{
    if a.len() > 0 && b.len() > 0 && a[0] == b[0] {
        lemma_before_total(a.skip(1), b.skip(1));
        if a.skip(1) == b.skip(1) {
            assert(a == seq![a[0]] + a.skip(1));
            assert(b == seq![b[0]] + b.skip(1));
        }
    } else if a.len() == 0 && b.len() == 0 {
        assert(a == b);
    }
}

fn comes_before(a: &str, b: &str) -> (r: bool)
    ensures
        r == before(a@, b@),
{
    let x = chars_of(a);
    let y = chars_of(b);
    let mut i: usize = 0;
    assert(x@.skip(0) == x@);
    assert(y@.skip(0) == y@);
    loop
        invariant
            i <= x@.len(),
            i <= y@.len(),
            x@ == a@,
            y@ == b@,
            before(a@, b@) == before(x@.skip(i as int), y@.skip(i as int)),
        decreases x@.len() - i,
    {
        if i >= y.len() {
            return false;
        }
        if i >= x.len() {
            return true;
        }
        assert(x@.skip(i as int).skip(1) == x@.skip(i + 1));
        assert(y@.skip(i as int).skip(1) == y@.skip(i + 1));
        if x[i] != y[i] {
            return x[i] < y[i];
        }
        i = i + 1;
    }
}

/// Whether texts stand in strictly rising order.
pub open spec fn rising(v: Seq<Seq<char>>) -> bool {
    forall|i: int, j: int| 0 <= i < j < v.len() ==> before(v[i], v[j])
}

/// The place of the last function of a name, or -1.
pub open spec fn last_function(functions: Seq<FunctionValue>, name: Seq<char>) -> int
    decreases functions.len(),
{
    if functions.len() == 0 {
        -1
    } else if functions.last().name == name {
        functions.len() - 1
    } else {
        last_function(functions.drop_last(), name)
    }
}

/// The place of the last characteristic of a name, or -1.
pub open spec fn last_characteristic(chars: Seq<CharacteristicValue>, name: Seq<char>) -> int
    decreases chars.len(),
{
    if chars.len() == 0 {
        -1
    } else if chars.last().name == name {
        chars.len() - 1
    } else {
        last_characteristic(chars.drop_last(), name)
    }
}

/// Whether a list names a characteristic.
pub open spec fn lists(chars: Seq<CharacteristicValue>, names: Seq<Seq<char>>, index: int) -> bool {
    exists|k: int|
        0 <= k < names.len() && last_characteristic(chars, #[trigger] names[k]) == index
}

/// Whether the function of a name defines or refers to a characteristic.
pub open spec fn holds(a2l: A2lFileValue, name: Seq<char>, index: int) -> bool {
    let at = last_function(a2l.functions, name);
    at >= 0 && (lists(a2l.characteristics, a2l.functions[at].def_characteristics, index) || lists(
        a2l.characteristics,
        a2l.functions[at].ref_characteristics,
        index,
    ))
}

/// Whether one of the named functions defines or refers to a characteristic.
pub open spec fn any_holds(a2l: A2lFileValue, names: Seq<Seq<char>>, index: int) -> bool {
    exists|k: int| 0 <= k < names.len() && holds(a2l, #[trigger] names[k], index)
}

/// Whether some function has the named one as a child.
pub open spec fn is_child(a2l: A2lFileValue, name: Seq<char>) -> bool {
    exists|i: int|
        0 <= i < a2l.functions.len() && (#[trigger] a2l.functions[i]).sub_functions.contains(name)
}

/// Whether a function puts a characteristic into the category of its name: a
/// function with children what it and they hold, a function that is nobody's
/// child, and is not empty, what it holds.
pub open spec fn contributes(a2l: A2lFileValue, f: FunctionValue, index: int) -> bool {
    if f.sub_functions.len() > 0 {
        holds(a2l, f.name, index) || any_holds(a2l, f.sub_functions, index)
    } else {
        !is_child(a2l, f.name) && (f.def_characteristics.len() > 0 || f.ref_characteristics.len()
            > 0) && holds(a2l, f.name, index)
    }
}

/// Whether a characteristic is in the category of a name.
pub open spec fn in_category(a2l: A2lFileValue, name: Seq<char>, index: int) -> bool {
    exists|i: int|
        0 <= i < a2l.functions.len() && (#[trigger] a2l.functions[i]).name == name && contributes(
            a2l,
            a2l.functions[i],
            index,
        )
}

/// Whether there is a category of a name: it has something in it.
pub open spec fn is_category(a2l: A2lFileValue, name: Seq<char>) -> bool {
    exists|index: int|
        0 <= index < a2l.characteristics.len() && #[trigger] in_category(a2l, name, index)
}

/// How a category is shown.
pub open spec fn label_of(a2l: A2lFileValue, name: Seq<char>) -> Seq<char> {
    let at = last_function(a2l.functions, name);
    if at < 0 || a2l.functions[at].description.len() == 0 {
        name
    } else {
        name + " — "@ + a2l.functions[at].description
    }
}

/// The names of categories.
pub open spec fn names_of(v: Seq<Category>) -> Seq<Seq<char>> {
    v.map_values(|c: Category| c.name@)
}

proof fn lemma_last_function(functions: Seq<FunctionValue>, name: Seq<char>)
    ensures
        -1 <= last_function(functions, name) < functions.len(),
        last_function(functions, name) >= 0 ==> functions[last_function(functions, name)].name
            == name,
    decreases functions.len(),
{
    if functions.len() > 0 && functions.last().name != name {
        lemma_last_function(functions.drop_last(), name);
    }
}

proof fn lemma_last_characteristic(chars: Seq<CharacteristicValue>, name: Seq<char>)
    ensures
        -1 <= last_characteristic(chars, name) < chars.len(),
    decreases chars.len(),
{
    if chars.len() > 0 && chars.last().name != name {
        lemma_last_characteristic(chars.drop_last(), name);
    }
}

fn find_function(functions: &Vec<Function>, name: &str) -> (r: Option<usize>)
    ensures
        match r {
            Some(i) => last_function(views(functions@), name@) == i && i < functions@.len(),
            None => last_function(views(functions@), name@) == -1,
        },
{
    let ghost all = views(functions@);
    let mut n: usize = functions.len();
    assert(all.take(n as int) == all);
    while n > 0
        invariant
            n <= functions@.len(),
            all == views(functions@),
            last_function(all, name@) == last_function(all.take(n as int), name@),
        decreases n,
    {
        assert(all.take(n as int).drop_last() == all.take(n - 1));
        assert(all.take(n as int).last() == functions@[n - 1]@);
        if str_eq(functions[n - 1].name.as_str(), name) {
            return Some(n - 1);
        }
        n = n - 1;
    }
    None
}

fn find_characteristic(chars: &Vec<Characteristic>, name: &str) -> (r: Option<usize>)
    ensures
        match r {
            Some(i) => last_characteristic(views(chars@), name@) == i && i < chars@.len(),
            None => last_characteristic(views(chars@), name@) == -1,
        },
{
    let ghost all = views(chars@);
    let mut n: usize = chars.len();
    assert(all.take(n as int) == all);
    while n > 0
        invariant
            n <= chars@.len(),
            all == views(chars@),
            last_characteristic(all, name@) == last_characteristic(all.take(n as int), name@),
        decreases n,
    {
        assert(all.take(n as int).drop_last() == all.take(n - 1));
        assert(all.take(n as int).last() == chars@[n - 1]@);
        if str_eq(chars[n - 1].name.as_str(), name) {
            return Some(n - 1);
        }
        n = n - 1;
    }
    None
}

fn mark_listed(chars: &Vec<Characteristic>, names: &Vec<String>, marks: &mut Vec<bool>)
    requires
        old(marks)@.len() == chars@.len(),
    ensures
        final(marks)@.len() == chars@.len(),
        forall|i: int|
            0 <= i < chars@.len() ==> (#[trigger] final(marks)@[i]) == (old(marks)@[i] || lists(
                views(chars@),
                views(names@),
                i,
            )),
{
    let ghost all = views(chars@);
    let ghost list = views(names@);
    let mut k: usize = 0;
    while k < names.len()
        invariant
            k <= names@.len(),
            all == views(chars@),
            list == views(names@),
            marks@.len() == chars@.len(),
            forall|i: int|
                0 <= i < chars@.len() ==> (#[trigger] marks@[i]) == (old(marks)@[i] || lists(
                    all,
                    list.take(k as int),
                    i,
                )),
        decreases names@.len() - k,
    {
        let ghost was = marks@;
        let ghost done = list.take(k as int);
        let ghost next = list.take(k + 1);
        assert(list[k as int] == names@[k as int]@);
        if let Some(at) = find_characteristic(chars, names[k].as_str()) {
            marks.set(at, true);
        }
        assert forall|i: int| 0 <= i < chars@.len() implies (#[trigger] marks@[i]) == (
        old(marks)@[i] || lists(all, next, i)) by {
            let here = last_characteristic(all, list[k as int]) == i;
            assert(was[i] == (old(marks)@[i] || lists(all, done, i)));
            assert(lists(all, next, i) == (lists(all, done, i) || here)) by {
                if lists(all, next, i) {
                    let m = choose|m: int|
                        0 <= m < next.len() && last_characteristic(all, #[trigger] next[m]) == i;
                    if m < k {
                        assert(done[m] == next[m]);
                    }
                }
                if lists(all, done, i) {
                    let m = choose|m: int|
                        0 <= m < done.len() && last_characteristic(all, #[trigger] done[m]) == i;
                    assert(next[m] == done[m]);
                }
                if here {
                    assert(next[k as int] == list[k as int]);
                }
            }
        }
        k = k + 1;
    }
    assert(list.take(names@.len() as int) == list);
}

fn mark_function(a2l: &A2lFile, name: &str, marks: &mut Vec<bool>)
    requires
        old(marks)@.len() == a2l.characteristics@.len(),
    ensures
        final(marks)@.len() == a2l.characteristics@.len(),
        forall|i: int|
            0 <= i < a2l.characteristics@.len() ==> (#[trigger] final(marks)@[i]) == (
            old(marks)@[i] || holds(a2l@, name@, i)),
{
    if let Some(at) = find_function(&a2l.functions, name) {
        let f = &a2l.functions[at];
        assert(a2l@.functions[at as int] == f@);
        mark_listed(&a2l.characteristics, &f.def_characteristics, marks);
        let ghost half = marks@;
        assert forall|i: int| 0 <= i < a2l.characteristics@.len() implies half[i] == (
        old(marks)@[i] || lists(a2l@.characteristics, f@.def_characteristics, i)) by {}
        mark_listed(&a2l.characteristics, &f.ref_characteristics, marks);
        assert forall|i: int| 0 <= i < a2l.characteristics@.len() implies (#[trigger] marks@[i]) == (
        old(marks)@[i] || holds(a2l@, name@, i)) by {
            assert(marks@[i] == (half[i] || lists(
                a2l@.characteristics,
                f@.ref_characteristics,
                i,
            )));
        }
    }
}

fn mark_functions(a2l: &A2lFile, names: &Vec<String>, marks: &mut Vec<bool>)
    requires
        old(marks)@.len() == a2l.characteristics@.len(),
    ensures
        final(marks)@.len() == a2l.characteristics@.len(),
        forall|i: int|
            0 <= i < a2l.characteristics@.len() ==> (#[trigger] final(marks)@[i]) == (
            old(marks)@[i] || any_holds(a2l@, views(names@), i)),
{
    let ghost list = views(names@);
    let mut k: usize = 0;
    while k < names.len()
        invariant
            k <= names@.len(),
            list == views(names@),
            marks@.len() == a2l.characteristics@.len(),
            forall|i: int|
                0 <= i < a2l.characteristics@.len() ==> (#[trigger] marks@[i]) == (old(marks)@[i]
                    || any_holds(a2l@, list.take(k as int), i)),
        decreases names@.len() - k,
    {
        let ghost was = marks@;
        let ghost done = list.take(k as int);
        let ghost next = list.take(k + 1);
        assert(list[k as int] == names@[k as int]@);
        mark_function(a2l, names[k].as_str(), marks);
        assert forall|i: int| 0 <= i < a2l.characteristics@.len() implies (#[trigger] marks@[i]) == (
        old(marks)@[i] || any_holds(a2l@, next, i)) by {
            let here = holds(a2l@, list[k as int], i);
            assert(was[i] == (old(marks)@[i] || any_holds(a2l@, done, i)));
            assert(any_holds(a2l@, next, i) == (any_holds(a2l@, done, i) || here)) by {
                if any_holds(a2l@, next, i) {
                    let m = choose|m: int|
                        0 <= m < next.len() && holds(a2l@, #[trigger] next[m], i);
                    if m < k {
                        assert(done[m] == next[m]);
                    }
                }
                if any_holds(a2l@, done, i) {
                    let m = choose|m: int|
                        0 <= m < done.len() && holds(a2l@, #[trigger] done[m], i);
                    assert(next[m] == done[m]);
                }
                if here {
                    assert(next[k as int] == list[k as int]);
                }
            }
        }
        k = k + 1;
    }
    assert(list.take(names@.len() as int) == list);
}

fn contains_name(names: &Vec<String>, name: &str) -> (r: bool)
    ensures
        r == views(names@).contains(name@),
{
    let mut i: usize = 0;
    while i < names.len()
        invariant
            i <= names@.len(),
            forall|j: int| 0 <= j < i ==> (#[trigger] views(names@)[j]) != name@,
        decreases names@.len() - i,
    {
        assert(views(names@)[i as int] == names@[i as int]@);
        if str_eq(names[i].as_str(), name) {
            return true;
        }
        i = i + 1;
    }
    false
}

fn child_of_any(a2l: &A2lFile, name: &str) -> (r: bool)
    ensures
        r == is_child(a2l@, name@),
{
    let mut i: usize = 0;
    while i < a2l.functions.len()
        invariant
            i <= a2l.functions@.len(),
            forall|j: int|
                0 <= j < i ==> !(#[trigger] a2l@.functions[j]).sub_functions.contains(name@),
        decreases a2l.functions@.len() - i,
    {
        assert(a2l@.functions[i as int] == a2l.functions@[i as int]@);
        if contains_name(&a2l.functions[i].sub_functions, name) {
            return true;
        }
        i = i + 1;
    }
    false
}

fn no_marks(n: usize) -> (v: Vec<bool>)
    ensures
        v@.len() == n,
        forall|i: int| 0 <= i < n ==> !(#[trigger] v@[i]),
{
    let mut v: Vec<bool> = Vec::new();
    while v.len() < n
        invariant
            v@.len() <= n,
            forall|i: int| 0 <= i < v@.len() ==> !(#[trigger] v@[i]),
        decreases n - v@.len(),
    {
        v.push(false);
    }
    v
}

fn mark_contribution(a2l: &A2lFile, at: usize, marks: &mut Vec<bool>)
    requires
        at < a2l.functions@.len(),
        old(marks)@.len() == a2l.characteristics@.len(),
    ensures
        final(marks)@.len() == a2l.characteristics@.len(),
        forall|i: int|
            0 <= i < a2l.characteristics@.len() ==> (#[trigger] final(marks)@[i]) == (
            old(marks)@[i] || contributes(a2l@, a2l@.functions[at as int], i)),
{
    let f = &a2l.functions[at];
    assert(a2l@.functions[at as int] == f@);
    if f.sub_functions.len() > 0 {
        mark_function(a2l, f.name.as_str(), marks);
        let ghost half = marks@;
        mark_functions(a2l, &f.sub_functions, marks);
        assert forall|i: int| 0 <= i < a2l.characteristics@.len() implies (#[trigger] marks@[i]) == (
        old(marks)@[i] || contributes(a2l@, f@, i)) by {
            assert(half[i] == (old(marks)@[i] || holds(a2l@, f@.name, i)));
        }
    } else if (f.def_characteristics.len() > 0 || f.ref_characteristics.len() > 0)
        && !child_of_any(a2l, f.name.as_str()) {
        mark_function(a2l, f.name.as_str(), marks);
    }
}

/// The characteristics in the category of a name, one mark each.
pub fn category_marks(a2l: &A2lFile, name: &str) -> (marks: Vec<bool>)
    ensures
        marks@.len() == a2l@.characteristics.len(),
        forall|i: int| 0 <= i < marks@.len() ==> (#[trigger] marks@[i]) == in_category(a2l@, name@, i),
{
    let mut marks = no_marks(a2l.characteristics.len());
    let mut k: usize = 0;
    while k < a2l.functions.len()
        invariant
            k <= a2l.functions@.len(),
            marks@.len() == a2l.characteristics@.len(),
            forall|i: int|
                0 <= i < marks@.len() ==> (#[trigger] marks@[i]) == in_category_below(
                    a2l@,
                    name@,
                    i,
                    k as int,
                ),
        decreases a2l.functions@.len() - k,
    {
        let ghost was = marks@;
        assert(a2l@.functions[k as int] == a2l.functions@[k as int]@);
        if str_eq(a2l.functions[k].name.as_str(), name) {
            mark_contribution(a2l, k, &mut marks);
        }
        assert forall|i: int| 0 <= i < marks@.len() implies (#[trigger] marks@[i])
            == in_category_below(a2l@, name@, i, k + 1) by {
            assert(was[i] == in_category_below(a2l@, name@, i, k as int));
            if in_category_below(a2l@, name@, i, k + 1) && !in_category_below(
                a2l@,
                name@,
                i,
                k as int,
            ) {
                let m = choose|m: int|
                    0 <= m < k + 1 && (#[trigger] a2l@.functions[m]).name == name@ && contributes(
                        a2l@,
                        a2l@.functions[m],
                        i,
                    );
                assert(m == k);
            }
        }
        k = k + 1;
    }
    marks
}

spec fn in_category_below(a2l: A2lFileValue, name: Seq<char>, index: int, n: int) -> bool {
    exists|i: int|
        0 <= i < n && (#[trigger] a2l.functions[i]).name == name && contributes(
            a2l,
            a2l.functions[i],
            index,
        )
}

fn any_mark(marks: &Vec<bool>) -> (r: bool)
    ensures
        r == exists|i: int| 0 <= i < marks@.len() && #[trigger] marks@[i],
{
    let mut i: usize = 0;
    while i < marks.len()
        invariant
            i <= marks@.len(),
            forall|j: int| 0 <= j < i ==> !(#[trigger] marks@[j]),
        decreases marks@.len() - i,
    {
        if marks[i] {
            return true;
        }
        i = i + 1;
    }
    false
}

fn make_label(a2l: &A2lFile, name: &str) -> (s: String)
    ensures
        s@ == label_of(a2l@, name@),
{
    let mut s = name.to_owned();
    if let Some(at) = find_function(&a2l.functions, name) {
        assert(a2l@.functions[at as int] == a2l.functions@[at as int]@);
        let description = a2l.functions[at].description.as_str();
        if chars_of(description).len() > 0 {
            s.push_str(" — ");
            s.push_str(description);
        }
    }
    s
}

/// Whether categories are shown as they should be.
pub open spec fn labelled(a2l: A2lFileValue, v: Seq<Category>) -> bool {
    forall|i: int| 0 <= i < v.len() ==> (#[trigger] v[i]).label@ == label_of(a2l, v[i].name@)
}

fn position_for(v: &Vec<Category>, name: &str) -> (r: Option<usize>)
    requires
        rising(names_of(v@)),
    ensures
        match r {
            None => names_of(v@).contains(name@),
            Some(p) => p <= v@.len() && (forall|i: int|
                0 <= i < p ==> before(#[trigger] names_of(v@)[i], name@)) && (forall|i: int|
                p <= i < v@.len() ==> before(name@, #[trigger] names_of(v@)[i])),
        },
{
    let mut p: usize = 0;
    while p < v.len()
        invariant
            p <= v@.len(),
            rising(names_of(v@)),
            forall|i: int| 0 <= i < p ==> before(#[trigger] names_of(v@)[i], name@),
        decreases v@.len() - p,
    {
        assert(names_of(v@)[p as int] == v@[p as int].name@);
        if !comes_before(v[p].name.as_str(), name) {
            if str_eq(v[p].name.as_str(), name) {
                return None;
            }
            proof {
                lemma_before_total(names_of(v@)[p as int], name@);
                assert forall|i: int| p <= i < v@.len() implies before(
                    name@,
                    #[trigger] names_of(v@)[i],
                ) by {
                    if i > p {
                        lemma_before_transitive(
                            name@,
                            names_of(v@)[p as int],
                            names_of(v@)[i],
                        );
                    }
                }
            }
            return Some(p);
        }
        p = p + 1;
    }
    Some(p)
}

fn insert_category(a2l: &A2lFile, v: &mut Vec<Category>, name: &String)
    requires
        rising(names_of(old(v)@)),
        labelled(a2l@, old(v)@),
    ensures
        rising(names_of(final(v)@)),
        labelled(a2l@, final(v)@),
        forall|n: Seq<char>|
            names_of(final(v)@).contains(n) <==> names_of(old(v)@).contains(n) || n == name@,
{
    let ghost was = names_of(v@);
    if let Some(p) = position_for(v, name.as_str()) {
        let category = Category { label: make_label(a2l, name.as_str()), name: name.clone() };
        v.insert(p, category);
        let ghost now = names_of(v@);
        assert(now == was.insert(p as int, name@));
        proof {
            assert forall|i: int, j: int| 0 <= i < j < now.len() implies before(now[i], now[j]) by {
                let a = if i < p {
                    i
                } else {
                    i - 1
                };
                let b = if j < p {
                    j
                } else {
                    j - 1
                };
                if i != p && j != p {
                    assert(before(was[a], was[b]));
                }
            }
            assert forall|n: Seq<char>| now.contains(n) <==> was.contains(n) || n == name@ by {
                if was.contains(n) {
                    let k = choose|k: int| 0 <= k < was.len() && was[k] == n;
                    if k < p {
                        assert(now[k] == n);
                    } else {
                        assert(now[k + 1] == n);
                    }
                }
                if n == name@ {
                    assert(now[p as int] == n);
                }
                if now.contains(n) {
                    let k = choose|k: int| 0 <= k < now.len() && now[k] == n;
                    if k < p {
                        assert(was[k] == n);
                    } else if k > p {
                        assert(was[k - 1] == n);
                    }
                }
            }
        }
    } else {
        assert(was.contains(name@));
    }
}

/// The names of the categories a characteristic is in, in rising order.
pub open spec fn sections(a2l: A2lFileValue, index: int, names: Seq<Seq<char>>) -> bool {
    rising(names) && forall|n: Seq<char>| names.contains(n) <==> in_category(a2l, n, index)
}

/// The characteristics' categories.
pub open spec fn all_sections(a2l: A2lFileValue, v: Seq<Vec<String>>) -> bool {
    &&& v.len() == a2l.characteristics.len()
    &&& forall|i: int| 0 <= i < v.len() ==> sections(a2l, i, views((#[trigger] v[i])@))
}

fn add_section(v: &mut Vec<Vec<String>>, marks: &Vec<bool>, name: &String)
    requires
        old(v)@.len() == marks@.len(),
    ensures
        final(v)@.len() == old(v)@.len(),
        forall|i: int|
            0 <= i < old(v)@.len() ==> views((#[trigger] final(v)@[i])@) == if marks@[i] {
                views(old(v)@[i]@).push(name@)
            } else {
                views(old(v)@[i]@)
            },
{
    let mut next: Vec<Vec<String>> = Vec::new();
    let mut i: usize = 0;
    let len: usize = v.len();
    while i < len
        invariant
            i <= len,
            len == v@.len(),
            len == marks@.len(),
            v@ == old(v)@,
            next@.len() == i,
            forall|j: int|
                0 <= j < i ==> views((#[trigger] next@[j])@) == if marks@[j] {
                    views(old(v)@[j]@).push(name@)
                } else {
                    views(old(v)@[j]@)
                },
        decreases len - i,
    {
        let mut row = copy_names(&v[i]);
        if marks[i] {
            let ghost was = row@;
            row.push(name.clone());
            assert(views(row@) == views(was).push(name@));
        }
        next.push(row);
        i = i + 1;
    }
    *v = next;
}

fn copy_names(v: &Vec<String>) -> (r: Vec<String>)
    ensures
        views(r@) == views(v@),
{
    let mut r: Vec<String> = Vec::new();
    let mut i: usize = 0;
    assert(views(r@) == views(v@).take(0));
    while i < v.len()
        invariant
            i <= v@.len(),
            views(r@) == views(v@).take(i as int),
        decreases v@.len() - i,
    {
        let ghost was = r@;
        let s = v[i].clone();
        r.push(s);
        assert(views(r@) == views(was).push(s@));
        assert(views(v@).take(i + 1) == views(v@).take(i as int).push(s@));
        i = i + 1;
    }
    assert(views(v@).take(i as int) == views(v@));
    r
}

fn list_categories(a2l: &A2lFile) -> (v: Vec<Category>)
    ensures
        rising(names_of(v@)),
        labelled(a2l@, v@),
        forall|n: Seq<char>| names_of(v@).contains(n) <==> is_category(a2l@, n),
{
    let mut v: Vec<Category> = Vec::new();
    let mut k: usize = 0;
    while k < a2l.functions.len()
        invariant
            k <= a2l.functions@.len(),
            rising(names_of(v@)),
            labelled(a2l@, v@),
            forall|n: Seq<char>|
                #[trigger] names_of(v@).contains(n) <==> is_category(a2l@, n) && named_below(
                    a2l@,
                    n,
                    k as int,
                ),
        decreases a2l.functions@.len() - k,
    {
        let ghost was = names_of(v@);
        let name = &a2l.functions[k].name;
        assert(a2l@.functions[k as int] == a2l.functions@[k as int]@);
        let marks = category_marks(a2l, name.as_str());
        let some = any_mark(&marks);
        assert(some == is_category(a2l@, name@)) by {
            if some {
                let i = choose|i: int| 0 <= i < marks@.len() && #[trigger] marks@[i];
                assert(in_category(a2l@, name@, i));
            }
            if is_category(a2l@, name@) {
                let i = choose|index: int|
                    0 <= index < a2l@.characteristics.len() && #[trigger] in_category(
                        a2l@,
                        name@,
                        index,
                    );
                assert(marks@[i]);
            }
        }
        if some {
            insert_category(a2l, &mut v, name);
        }
        assert forall|n: Seq<char>|
            #[trigger] names_of(v@).contains(n) <==> is_category(a2l@, n) && named_below(
                a2l@,
                n,
                k + 1,
            ) by {
            lemma_named_below(a2l@, n, k as int);
        }
        k = k + 1;
    }
    assert forall|n: Seq<char>| names_of(v@).contains(n) <==> is_category(a2l@, n) by {
        if is_category(a2l@, n) {
            let index = choose|index: int|
                0 <= index < a2l@.characteristics.len() && #[trigger] in_category(a2l@, n, index);
            let i = choose|i: int|
                0 <= i < a2l@.functions.len() && (#[trigger] a2l@.functions[i]).name == n
                    && contributes(a2l@, a2l@.functions[i], index);
            assert(a2l@.functions[i].name == n);
            assert(named_below(a2l@, n, a2l@.functions.len() as int));
        }
    }
    v
}

spec fn named_below(a2l: A2lFileValue, name: Seq<char>, n: int) -> bool {
    exists|i: int| 0 <= i < n && (#[trigger] a2l.functions[i]).name == name
}

proof fn lemma_named_below(a2l: A2lFileValue, name: Seq<char>, n: int)
    requires
        0 <= n < a2l.functions.len(),
    ensures
        named_below(a2l, name, n + 1) <==> named_below(a2l, name, n) || a2l.functions[n].name
            == name,
{
    if named_below(a2l, name, n + 1) {
        let i = choose|i: int| 0 <= i < n + 1 && (#[trigger] a2l.functions[i]).name == name;
        if i < n {
            assert(a2l.functions[i].name == name);
        }
    }
    if named_below(a2l, name, n) {
        let i = choose|i: int| 0 <= i < n && (#[trigger] a2l.functions[i]).name == name;
        assert(a2l.functions[i].name == name);
    }
}

fn empty_rows(n: usize) -> (v: Vec<Vec<String>>)
    ensures
        v@.len() == n,
        forall|i: int| 0 <= i < n ==> (#[trigger] v@[i])@.len() == 0,
{
    let mut v: Vec<Vec<String>> = Vec::new();
    while v.len() < n
        invariant
            v@.len() <= n,
            forall|i: int| 0 <= i < v@.len() ==> (#[trigger] v@[i])@.len() == 0,
        decreases n - v@.len(),
    {
        v.push(Vec::new());
    }
    v
}

spec fn sections_below(
    a2l: A2lFileValue,
    index: int,
    names: Seq<Seq<char>>,
    all: Seq<Seq<char>>,
    n: int,
) -> bool {
    rising(names) && forall|s: Seq<char>|
        names.contains(s) <==> in_category(a2l, s, index) && exists|k: int|
            0 <= k < n && #[trigger] all[k] == s
}

/// Build the categories from the functions of a file: the categories in the order
/// of their names, and for every characteristic the names of those it is in.
pub fn build_categories(a2l: &A2lFile) -> (r: (Vec<Category>, Vec<Vec<String>>))
    ensures
        rising(names_of(r.0@)),
        labelled(a2l@, r.0@),
        forall|n: Seq<char>| names_of(r.0@).contains(n) <==> is_category(a2l@, n),
        all_sections(a2l@, r.1@),
{
    let categories = list_categories(a2l);
    let ghost all = names_of(categories@);
    let mut rows = empty_rows(a2l.characteristics.len());
    let mut k: usize = 0;
    assert forall|i: int| 0 <= i < rows@.len() implies sections_below(
        a2l@,
        i,
        views((#[trigger] rows@[i])@),
        all,
        0,
    ) by {
        assert(views(rows@[i]@).len() == 0);
    }
    while k < categories.len()
        invariant
            k <= categories@.len(),
            all == names_of(categories@),
            rising(all),
            rows@.len() == a2l@.characteristics.len(),
            forall|i: int|
                0 <= i < rows@.len() ==> sections_below(
                    a2l@,
                    i,
                    views((#[trigger] rows@[i])@),
                    all,
                    k as int,
                ),
        decreases categories@.len() - k,
    {
        let ghost was = rows@;
        let name = &categories[k].name;
        assert(all[k as int] == name@);
        let marks = category_marks(a2l, name.as_str());
        add_section(&mut rows, &marks, name);
        assert forall|i: int| 0 <= i < rows@.len() implies sections_below(
            a2l@,
            i,
            views((#[trigger] rows@[i])@),
            all,
            k + 1,
        ) by {
            assert(sections_below(a2l@, i, views(was[i]@), all, k as int));
            lemma_next_section(a2l@, i, views(was[i]@), views(rows@[i]@), all, k as int);
        }
        k = k + 1;
    }
    assert forall|i: int| 0 <= i < rows@.len() implies sections(
        a2l@,
        i,
        views((#[trigger] rows@[i])@),
    ) by {
        let names = views(rows@[i]@);
        assert(sections_below(a2l@, i, names, all, all.len() as int));
        assert forall|n: Seq<char>| names.contains(n) <==> in_category(a2l@, n, i) by {
            if in_category(a2l@, n, i) {
                assert(is_category(a2l@, n));
                assert(all.contains(n));
            }
        }
    }
    (categories, rows)
}

proof fn lemma_next_section(
    a2l: A2lFileValue,
    index: int,
    was: Seq<Seq<char>>,
    now: Seq<Seq<char>>,
    all: Seq<Seq<char>>,
    k: int,
)
    requires
        0 <= k < all.len(),
        rising(all),
        sections_below(a2l, index, was, all, k),
        now == if in_category(a2l, all[k], index) {
            was.push(all[k])
        } else {
            was
        },
    ensures
        sections_below(a2l, index, now, all, k + 1),
{
    assert forall|s: Seq<char>| #[trigger] was.contains(s) implies before(s, all[k]) by {
        let m = choose|m: int| 0 <= m < k && #[trigger] all[m] == s;
        assert(before(all[m], all[k]));
    }
    if in_category(a2l, all[k], index) {
        assert forall|i: int, j: int| 0 <= i < j < now.len() implies before(now[i], now[j]) by {
            if j == was.len() {
                assert(was.contains(was[i]));
            } else {
                assert(before(was[i], was[j]));
            }
        }
    }
    assert forall|s: Seq<char>|
        now.contains(s) <==> in_category(a2l, s, index) && exists|m: int|
            0 <= m < k + 1 && #[trigger] all[m] == s by {
        if now.contains(s) {
            let m = choose|m: int| 0 <= m < now.len() && now[m] == s;
            if m < was.len() {
                assert(was[m] == s);
                assert(was.contains(s));
                let j = choose|j: int| 0 <= j < k && #[trigger] all[j] == s;
                assert(all[j] == s);
            } else {
                assert(all[k] == s);
            }
        }
        if in_category(a2l, s, index) && exists|m: int| 0 <= m < k + 1 && #[trigger] all[m] == s {
            let m = choose|m: int| 0 <= m < k + 1 && #[trigger] all[m] == s;
            if m < k {
                assert(was.contains(s));
                let j = choose|j: int| 0 <= j < was.len() && was[j] == s;
                assert(now[j] == s);
            } else {
                assert(now[was.len() as int] == s);
            }
        }
    }
}

/// A characteristic is listed under a category exactly if the category is there
/// to be chosen and holds it.
pub proof fn law_sections_are_categories(
    a2l: A2lFileValue,
    categories: Seq<Seq<char>>,
    index: int,
    names: Seq<Seq<char>>,
    name: Seq<char>,
)
    requires
        0 <= index < a2l.characteristics.len(),
        forall|n: Seq<char>| categories.contains(n) <==> is_category(a2l, n),
        sections(a2l, index, names),
    ensures
        names.contains(name) <==> categories.contains(name) && in_category(a2l, name, index),
{
}

} // verus!
