//! The state of the browser, and how it reacts to messages.

use vstd::prelude::*;

use super::categories::{
    address_map_for, all_sections, blocks_of, build_categories, in_category, is_category, labelled,
    names_of, rising, Category, CategoryValue, ModulePreset,
};
use crate::a2l::reader::{
    addressable, read_characteristic, values_of, AddressMap, CharacteristicValues, Cut, Miss, Raw,
    Values,
};
use crate::a2l::types::{said, views, A2lFile, A2lFileValue};
use crate::text::{chars_of, contains_part, has_part, lowercase, lowercased, str_eq};

verus! {

/// How many characteristics are listed at most.
pub const MAX_DISPLAY: usize = 500;

/// A value that may be missing.
pub open spec fn seen<T: View>(o: Option<T>) -> Option<T::V> {
    match o {
        Some(x) => Some(x@),
        None => None,
    }
}

/// What is known of a file that is loaded.
#[derive(Debug, Clone)]
pub struct FileState {
    /// Its name, without the directory.
    pub name: Option<String>,
    pub loading: bool,
    pub error: Option<String>,
}

/// What is known of a file, as a value.
pub struct FileValue {
    pub name: Option<Seq<char>>,
    pub loading: bool,
    pub error: Option<Seq<char>>,
}

impl View for FileState {
    type V = FileValue;

    open spec fn view(&self) -> FileValue {
        FileValue { name: said(self.name), loading: self.loading, error: said(self.error) }
    }
}

/// What is loaded.
#[derive(Debug)]
pub struct Loaded {
    pub a2l: Option<A2lFile>,
    /// The base firmware.
    pub binary: Option<Vec<u8>>,
    /// The firmware to compare with.
    pub binary2: Option<Vec<u8>>,
    pub module: ModulePreset,
    pub address_map: AddressMap,
    pub categories: Vec<Category>,
    /// For every characteristic the names of the categories it is in.
    pub sections: Vec<Vec<String>>,
}

/// What is loaded, as a value.
pub struct LoadedValue {
    pub a2l: Option<A2lFileValue>,
    pub binary: Option<Seq<u8>>,
    pub binary2: Option<Seq<u8>>,
    pub module: ModulePreset,
    pub address_map: Seq<(u32, usize, usize)>,
}

impl View for Loaded {
    type V = LoadedValue;

    open spec fn view(&self) -> LoadedValue {
        LoadedValue {
            a2l: seen(self.a2l),
            binary: seen(self.binary),
            binary2: seen(self.binary2),
            module: self.module,
            address_map: self.address_map@,
        }
    }
}

/// What the list is made from.
#[derive(Debug, Clone)]
pub struct Filter {
    pub selected_category: Option<Category>,
    pub text: String,
    pub show_changed_only: bool,
    pub changed_set: Vec<usize>,
    pub axis_changed_values_same: Vec<usize>,
    pub rescale_uniform: Vec<usize>,
    pub show_rescale_only: bool,
    pub hide_rescale_uniform: bool,
    pub axis_filter: Option<String>,
}

/// What the list is made from, as a value.
pub struct FilterValue {
    pub selected_category: Option<CategoryValue>,
    pub text: Seq<char>,
    pub show_changed_only: bool,
    pub changed_set: Seq<usize>,
    pub axis_changed_values_same: Seq<usize>,
    pub rescale_uniform: Seq<usize>,
    pub show_rescale_only: bool,
    pub hide_rescale_uniform: bool,
    pub axis_filter: Option<Seq<char>>,
}

impl View for Filter {
    type V = FilterValue;

    open spec fn view(&self) -> FilterValue {
        FilterValue {
            selected_category: seen(self.selected_category),
            text: self.text@,
            show_changed_only: self.show_changed_only,
            changed_set: self.changed_set@,
            axis_changed_values_same: self.axis_changed_values_same@,
            rescale_uniform: self.rescale_uniform@,
            show_rescale_only: self.show_rescale_only,
            hide_rescale_uniform: self.hide_rescale_uniform,
            axis_filter: said(self.axis_filter),
        }
    }
}

/// The characteristics that are listed.
#[derive(Debug, Clone)]
pub struct Listing {
    pub filtered: Vec<usize>,
    pub total_matches: usize,
}

/// The characteristics that are listed, as a value.
pub struct ListingValue {
    pub filtered: Seq<usize>,
    pub total_matches: int,
}

impl View for Listing {
    type V = ListingValue;

    open spec fn view(&self) -> ListingValue {
        ListingValue { filtered: self.filtered@, total_matches: self.total_matches as int }
    }
}

/// The characteristic that is shown.
#[derive(Debug)]
pub struct Selection {
    pub selected: Option<usize>,
    pub cached_values: Option<CharacteristicValues>,
    pub cached_values2: Option<CharacteristicValues>,
    /// What stored counts come to that are no small whole numbers.
    pub cuts: Vec<Cut>,
    /// A stored count that kept the selection from being read.
    pub uncounted: Option<Raw>,
}

/// The characteristic that is shown, as a value.
pub struct SelectionValue {
    pub selected: Option<usize>,
    pub cached_values: Option<Values>,
    pub cached_values2: Option<Values>,
    pub cuts: Seq<Cut>,
    pub uncounted: Option<Raw>,
}

impl View for Selection {
    type V = SelectionValue;

    open spec fn view(&self) -> SelectionValue {
        SelectionValue {
            selected: self.selected,
            cached_values: seen(self.cached_values),
            cached_values2: seen(self.cached_values2),
            cuts: self.cuts@,
            uncounted: self.uncounted,
        }
    }
}

/// How things are shown.
#[derive(Debug, Clone, Copy, PartialEq, Eq, Structural)]
pub struct Display {
    pub compare_mode: bool,
    pub computing_changes: bool,
    pub show_percent: bool,
    pub dragging_split: bool,
}

/// The state of the browser.
#[derive(Debug)]
pub struct State {
    pub a2l_file: FileState,
    pub bin_file: FileState,
    pub bin2_file: FileState,
    pub loaded: Loaded,
    pub filter: Filter,
    pub listing: Listing,
    pub selection: Selection,
    pub display: Display,
}

/// The state as a value.
pub struct StateValue {
    pub a2l_file: FileValue,
    pub bin_file: FileValue,
    pub bin2_file: FileValue,
    pub loaded: LoadedValue,
    pub filter: FilterValue,
    pub listing: ListingValue,
    pub selection: SelectionValue,
    pub display: Display,
}

impl View for State {
    type V = StateValue;

    open spec fn view(&self) -> StateValue {
        StateValue {
            a2l_file: self.a2l_file@,
            bin_file: self.bin_file@,
            bin2_file: self.bin2_file@,
            loaded: self.loaded@,
            filter: self.filter@,
            listing: self.listing@,
            selection: self.selection@,
            display: self.display,
        }
    }
}

/// Whether a characteristic passes the text filter, where the texts are in
/// lowercase.
pub open spec fn text_passes(filter: Seq<char>, name: Seq<char>, description: Seq<char>) -> bool {
    filter.len() == 0 || has_part(name, filter) || has_part(description, filter)
}

/// Whether a characteristic passes the filters.
#[verifier::opaque]
pub open spec fn passes(a2l: A2lFileValue, f: FilterValue, index: int) -> bool {
    let ch = a2l.characteristics[index];
    &&& f.selected_category matches Some(c) ==> in_category(a2l, c.name, index)
    &&& f.show_changed_only && f.changed_set.len() > 0 ==> f.changed_set.contains(index as usize)
    &&& text_passes(lowercased(f.text), lowercased(ch.name), lowercased(ch.description))
}

/// The characteristics below `n` that pass the filters.
pub open spec fn matching(a2l: A2lFileValue, f: FilterValue, n: int) -> Seq<usize>
    decreases n,
{
    if n <= 0 {
        Seq::empty()
    } else {
        let fewer = matching(a2l, f, n - 1);
        if passes(a2l, f, n - 1) {
            fewer.push((n - 1) as usize)
        } else {
            fewer
        }
    }
}

/// What is listed: the first of those that pass.
#[verifier::opaque]
pub open spec fn listed(a2l: Option<A2lFileValue>, f: FilterValue) -> ListingValue {
    match a2l {
        None => ListingValue { filtered: Seq::empty(), total_matches: 0 },
        Some(a2l) => {
            let all = matching(a2l, f, a2l.characteristics.len() as int);
            ListingValue {
                filtered: if all.len() <= MAX_DISPLAY {
                    all
                } else {
                    all.take(MAX_DISPLAY as int)
                },
                total_matches: all.len() as int,
            }
        },
    }
}

/// The state with the list made anew.
pub open spec fn refiltered(s: StateValue) -> StateValue {
    StateValue { listing: listed(s.loaded.a2l, s.filter), ..s }
}

/// What is read of a characteristic from one firmware.
#[verifier::opaque]
pub open spec fn reading(
    loaded: LoadedValue,
    selected: Option<usize>,
    cuts: Seq<Cut>,
    binary: Option<Seq<u8>>,
) -> Result<Values, Miss> {
    match (loaded.a2l, selected, binary) {
        (Some(a2l), Some(i), Some(data)) => values_of(
            a2l.characteristics[i as int],
            a2l,
            data,
            loaded.address_map,
            cuts,
        ),
        _ => Err(Miss::Unreadable),
    }
}

/// What could be read.
pub open spec fn read_values(r: Result<Values, Miss>) -> Option<Values> {
    match r {
        Ok(v) => Some(v),
        Err(_) => None,
    }
}

/// The count that kept one of two from being read.
pub open spec fn first_uncounted(a: Result<Values, Miss>, b: Result<Values, Miss>) -> Option<Raw> {
    match a {
        Err(Miss::Uncounted(raw)) => Some(raw),
        _ => match b {
            Err(Miss::Uncounted(raw)) => Some(raw),
            _ => None,
        },
    }
}

/// A selection read anew.
pub open spec fn reread(loaded: LoadedValue, s: SelectionValue) -> SelectionValue {
    let first = reading(loaded, s.selected, s.cuts, loaded.binary);
    let second = reading(loaded, s.selected, s.cuts, loaded.binary2);
    SelectionValue {
        cached_values: read_values(first),
        cached_values2: read_values(second),
        uncounted: first_uncounted(first, second),
        ..s
    }
}

/// The state with another selection.
pub open spec fn reselected(s: StateValue, selected: Option<usize>) -> StateValue {
    StateValue {
        selection: reread(s.loaded, SelectionValue { selected, ..s.selection }),
        ..s
    }
}

/// The first place of a value in a list, or -1.
pub open spec fn place_of(v: Seq<usize>, x: usize) -> int
    decreases v.len(),
{
    if v.len() == 0 {
        -1
    } else if v[0] == x {
        0
    } else {
        let p = place_of(v.skip(1), x);
        if p < 0 {
            -1
        } else {
            p + 1
        }
    }
}

/// The place of the selection in the list, or -1.
pub open spec fn current_place(filtered: Seq<usize>, selected: Option<usize>) -> int {
    match selected {
        Some(i) => place_of(filtered, i),
        None => -1,
    }
}

/// The place in the list the selection moves to.
pub open spec fn moved_to(filtered: Seq<usize>, selected: Option<usize>, delta: int) -> int {
    let last = filtered.len() - 1;
    let p = current_place(filtered, selected);
    if p >= 0 {
        if p + delta < 0 {
            0
        } else if p + delta > last {
            last
        } else {
            p + delta
        }
    } else if delta > 0 {
        0
    } else {
        last
    }
}

/// The state with the selection moved along the list.
pub open spec fn moved(s: StateValue, delta: int) -> StateValue {
    let filtered = s.listing.filtered;
    if filtered.len() == 0 {
        s
    } else {
        reselected(s, Some(filtered[moved_to(filtered, s.selection.selected, delta)]))
    }
}

/// Whether the categories are those of the file.
#[verifier::opaque]
pub open spec fn categorized(a2l: A2lFileValue, c: Seq<Category>, sections: Seq<Vec<String>>) -> bool {
    &&& rising(names_of(c))
    &&& labelled(a2l, c)
    &&& forall|n: Seq<char>| names_of(c).contains(n) <==> is_category(a2l, n)
    &&& all_sections(a2l, sections)
}

/// Whether a list holds only characteristics of the file.
#[verifier::opaque]
pub open spec fn inside(a2l: Option<A2lFileValue>, v: Seq<usize>) -> bool {
    forall|i: int|
        0 <= i < v.len() ==> a2l is Some && (#[trigger] v[i]) < a2l->0.characteristics.len()
}

/// Whether there is a characteristic to select.
pub open spec fn selectable(a2l: Option<A2lFileValue>, selected: Option<usize>) -> bool {
    match (a2l, selected) {
        (Some(a2l), Some(i)) => i < a2l.characteristics.len(),
        _ => true,
    }
}

impl Loaded {
    /// What always holds of what is loaded.
    pub open spec fn wf(self) -> bool {
        &&& addressable(self.address_map@)
        &&& self.a2l matches Some(a2l) ==> categorized(a2l@, self.categories@, self.sections@)
    }
}

impl State {
    /// What always holds of the state.
    pub open spec fn wf(self) -> bool {
        &&& self.loaded.wf()
        &&& selectable(self.loaded@.a2l, self.selection.selected)
        &&& inside(self.loaded@.a2l, self.listing.filtered@)
    }
}

fn contains_index(v: &Vec<usize>, x: usize) -> (r: bool)
    ensures
        r == v@.contains(x),
{
    let mut i: usize = 0;
    while i < v.len()
        invariant
            i <= v@.len(),
            forall|j: int| 0 <= j < i ==> v@[j] != x,
        decreases v@.len() - i,
    {
        if v[i] == x {
            return true;
        }
        i = i + 1;
    }
    false
}

fn contains_text(v: &Vec<String>, x: &str) -> (r: bool)
    ensures
        r == views(v@).contains(x@),
{
    let mut i: usize = 0;
    while i < v.len()
        invariant
            i <= v@.len(),
            forall|j: int| 0 <= j < i ==> (#[trigger] views(v@)[j]) != x@,
        decreases v@.len() - i,
    {
        assert(views(v@)[i as int] == v@[i as int]@);
        if str_eq(v[i].as_str(), x) {
            return true;
        }
        i = i + 1;
    }
    false
}

/// Whether a characteristic passes the text filter, given the texts in lowercase.
pub fn passes_text(filter: &str, name: &str, description: &str) -> (r: bool)
    ensures
        r == text_passes(filter@, name@, description@),
{
    chars_of(filter).len() == 0 || contains_part(name, filter) || contains_part(
        description,
        filter,
    )
}

fn place(v: &Vec<usize>, x: usize) -> (r: Option<usize>)
    ensures
        match r {
            Some(p) => place_of(v@, x) == p && p < v@.len(),
            None => place_of(v@, x) < 0,
        },
{
    let mut i: usize = 0;
    assert(v@.skip(0) == v@);
    while i < v.len()
        invariant
            i <= v@.len(),
            place_of(v@, x) == (if place_of(v@.skip(i as int), x) < 0 {
                -1
            } else {
                i + place_of(v@.skip(i as int), x)
            }),
        decreases v@.len() - i,
    {
        assert(v@.skip(i as int).skip(1) == v@.skip(i + 1));
        assert(v@.skip(i as int)[0] == v@[i as int]);
        if v[i] == x {
            return Some(i);
        }
        i = i + 1;
    }
    None
}

fn keeps(
    a2l: &A2lFile,
    sections: &Vec<Vec<String>>,
    f: &Filter,
    index: usize,
    filter: &str,
) -> (r: bool)
    requires
        all_sections(a2l@, sections@),
        index < a2l.characteristics@.len(),
        filter@ == lowercased(f.text@),
    ensures
        r == passes(a2l@, f@, index as int),
{
    reveal(passes);
    assert(a2l@.characteristics[index as int] == a2l.characteristics@[index as int]@);
    if let Some(c) = &f.selected_category {
        assert(crate::viewer::categories::sections(
            a2l@,
            index as int,
            views(sections@[index as int]@),
        ));
        if !contains_text(&sections[index], c.name.as_str()) {
            return false;
        }
    }
    if f.show_changed_only && f.changed_set.len() > 0 && !contains_index(&f.changed_set, index) {
        return false;
    }
    let ch = &a2l.characteristics[index];
    let name = lowercase(ch.name.as_str());
    let description = lowercase(ch.description.as_str());
    passes_text(filter, name.as_str(), description.as_str())
}

fn list_matching(a2l: &A2lFile, sections: &Vec<Vec<String>>, f: &Filter) -> (r: Listing)
    requires
        all_sections(a2l@, sections@),
    ensures
        r@ == listed(Some(a2l@), f@),
        inside(Some(a2l@), r.filtered@),
{
    reveal(listed);
    reveal(inside);
    let filter = lowercase(f.text.as_str());
    let n: usize = a2l.characteristics.len();
    let ghost all = matching(a2l@, f@, 0);
    let mut filtered: Vec<usize> = Vec::new();
    let mut total: usize = 0;
    let mut i: usize = 0;
    while i < n
        invariant
            i <= n,
            n == a2l.characteristics@.len(),
            all_sections(a2l@, sections@),
            filter@ == lowercased(f.text@),
            all == matching(a2l@, f@, i as int),
            total == all.len(),
            total <= i,
            total <= MAX_DISPLAY ==> filtered@ == all,
            total > MAX_DISPLAY ==> filtered@ == all.take(MAX_DISPLAY as int),
            forall|k: int|
                0 <= k < filtered@.len() ==> (#[trigger] filtered@[k])
                    < a2l@.characteristics.len(),
        decreases n - i,
    {
        let kept = keeps(a2l, sections, f, i, filter.as_str());
        let ghost was = all;
        proof {
            all = matching(a2l@, f@, i + 1);
        }
        if kept {
            if total < MAX_DISPLAY {
                filtered.push(i);
            }
            total = total + 1;
            assert(all == was.push(i));
            if total > MAX_DISPLAY {
                assert(all.take(MAX_DISPLAY as int) == was.take(MAX_DISPLAY as int));
                if total == MAX_DISPLAY + 1 {
                    assert(was.take(MAX_DISPLAY as int) == was);
                }
            }
        }
        i = i + 1;
    }
    Listing { filtered, total_matches: total }
}

impl State {
    /// The state at the start.
    pub fn new() -> (r: State)
        ensures
            r.wf(),
            r@.a2l_file == (FileValue { name: None, loading: false, error: None }),
            r@.bin_file == (FileValue { name: None, loading: false, error: None }),
            r@.bin2_file == (FileValue { name: None, loading: false, error: None }),
            r@.loaded == (LoadedValue {
                a2l: None,
                binary: None,
                binary2: None,
                module: ModulePreset::Simos18,
                address_map: blocks_of(ModulePreset::Simos18),
            }),
            r@.filter == (FilterValue {
                selected_category: None,
                text: Seq::empty(),
                show_changed_only: false,
                changed_set: Seq::empty(),
                axis_changed_values_same: Seq::empty(),
                rescale_uniform: Seq::empty(),
                show_rescale_only: false,
                hide_rescale_uniform: false,
                axis_filter: None,
            }),
            r@.listing == (ListingValue { filtered: Seq::empty(), total_matches: 0 }),
            r@.selection == (SelectionValue {
                selected: None,
                cached_values: None,
                cached_values2: None,
                cuts: Seq::empty(),
                uncounted: None,
            }),
            r@.display == (Display {
                compare_mode: false,
                computing_changes: false,
                show_percent: false,
                dragging_split: false,
            }),
            r.loaded.categories@.len() == 0,
            r.loaded.sections@.len() == 0,
    {
        reveal(inside);
        State {
            a2l_file: FileState { name: None, loading: false, error: None },
            bin_file: FileState { name: None, loading: false, error: None },
            bin2_file: FileState { name: None, loading: false, error: None },
            loaded: Loaded {
                a2l: None,
                binary: None,
                binary2: None,
                module: ModulePreset::Simos18,
                address_map: address_map_for(ModulePreset::Simos18),
                categories: Vec::new(),
                sections: Vec::new(),
            },
            filter: Filter {
                selected_category: None,
                text: String::new(),
                show_changed_only: false,
                changed_set: Vec::new(),
                axis_changed_values_same: Vec::new(),
                rescale_uniform: Vec::new(),
                show_rescale_only: false,
                hide_rescale_uniform: false,
                axis_filter: None,
            },
            listing: Listing { filtered: Vec::new(), total_matches: 0 },
            selection: Selection {
                selected: None,
                cached_values: None,
                cached_values2: None,
                cuts: Vec::new(),
                uncounted: None,
            },
            display: Display {
                compare_mode: false,
                computing_changes: false,
                show_percent: false,
                dragging_split: false,
            },
        }
    }

    /// Make the list anew.
    pub fn rebuild_filter(&mut self)
        requires
            old(self).loaded.wf(),
            selectable(old(self).loaded@.a2l, old(self).selection.selected),
        ensures
            final(self).wf(),
            final(self)@ == refiltered(old(self)@),
            final(self).loaded == old(self).loaded,
    {
        let listing = list_loaded(&self.loaded, &self.filter);
        self.listing = listing;
    }

    /// Read the selection anew.
    pub fn read_selected(&mut self)
        requires
            old(self).wf(),
        ensures
            final(self).wf(),
            final(self)@ == reselected(old(self)@, old(self).selection.selected),
            final(self).loaded == old(self).loaded,
    {
        read_selection(&self.loaded, &mut self.selection);
    }

    /// Move the selection along the list.
    pub fn move_selection(&mut self, delta: isize)
        requires
            old(self).wf(),
        ensures
            final(self).wf(),
            final(self)@ == moved(old(self)@, delta as int),
            final(self).loaded == old(self).loaded,
    {
        if self.listing.filtered.len() == 0 {
            return;
        }
        let target: usize = target_place(&self.listing.filtered, self.selection.selected, delta);
        let chosen: usize = self.listing.filtered[target];
        proof {
            reveal(inside);
        }
        self.selection.selected = Some(chosen);
        self.read_selected();
    }
}

fn list_loaded(loaded: &Loaded, filter: &Filter) -> (r: Listing)
    requires
        loaded.wf(),
    ensures
        r@ == listed(loaded@.a2l, filter@),
        inside(loaded@.a2l, r.filtered@),
{
    match &loaded.a2l {
        Some(a2l) => {
            reveal(categorized);
            list_matching(a2l, &loaded.sections, filter)
        },
        None => {
            reveal(listed);
            reveal(inside);
            Listing { filtered: Vec::new(), total_matches: 0 }
        },
    }
}

fn read_one(
    loaded: &Loaded,
    selected: Option<usize>,
    cuts: &Vec<Cut>,
    binary: &Option<Vec<u8>>,
) -> (r: Result<CharacteristicValues, Miss>)
    requires
        loaded.wf(),
        selectable(loaded@.a2l, selected),
    ensures
        match r {
            Ok(v) => reading(loaded@, selected, cuts@, seen(*binary)) == Ok::<Values, Miss>(v@),
            Err(m) => reading(loaded@, selected, cuts@, seen(*binary)) == Err::<Values, Miss>(m),
        },
{
    reveal(reading);
    let index: usize = match selected {
        Some(i) => i,
        None => {
            return Err(Miss::Unreadable);
        },
    };
    let a2l = match &loaded.a2l {
        Some(a) => a,
        None => {
            return Err(Miss::Unreadable);
        },
    };
    let data = match binary {
        Some(d) => d,
        None => {
            return Err(Miss::Unreadable);
        },
    };
    assert(a2l@.characteristics[index as int] == a2l.characteristics@[index as int]@);
    read_characteristic(
        &a2l.characteristics[index],
        a2l,
        data.as_slice(),
        &loaded.address_map,
        cuts,
    )
}

fn read_selection(loaded: &Loaded, selection: &mut Selection)
    requires
        loaded.wf(),
        selectable(loaded@.a2l, old(selection).selected),
    ensures
        final(selection)@ == reread(loaded@, old(selection)@),
        final(selection).selected == old(selection).selected,
{
    let first = read_one(loaded, selection.selected, &selection.cuts, &loaded.binary);
    let second = read_one(loaded, selection.selected, &selection.cuts, &loaded.binary2);
    selection.uncounted = match &first {
        Err(Miss::Uncounted(raw)) => Some(*raw),
        _ => match &second {
            Err(Miss::Uncounted(raw)) => Some(*raw),
            _ => None,
        },
    };
    selection.cached_values = match first {
        Ok(v) => Some(v),
        Err(_) => None,
    };
    selection.cached_values2 = match second {
        Ok(v) => Some(v),
        Err(_) => None,
    };
}

fn target_place(filtered: &Vec<usize>, selected: Option<usize>, delta: isize) -> (r: usize)
    requires
        filtered@.len() > 0,
    ensures
        r == moved_to(filtered@, selected, delta as int),
        r < filtered@.len(),
{
    let last: usize = filtered.len() - 1;
    let current = match selected {
        Some(i) => place(filtered, i),
        None => None,
    };
    match current {
        Some(p) => {
            let wanted: i128 = p as i128 + delta as i128;
            if wanted < 0 {
                0
            } else if wanted > last as i128 {
                last
            } else {
                wanted as usize
            }
        },
        None => if delta > 0 {
            0
        } else {
            last
        },
    }
}

/// A file that was picked.
#[derive(Debug, Clone)]
pub struct Picked {
    /// Where it lies.
    pub path: String,
    /// Its name alone.
    pub name: String,
}

/// What happens to the files.
#[derive(Debug)]
pub enum FileMsg {
    LoadA2l,
    A2lPicked(Option<Picked>),
    A2lLoaded(Result<A2lFile, String>),
    LoadBin,
    BinPicked(Option<Picked>),
    /// The firmware, and the module its header names.
    BinLoaded(Result<Vec<u8>, String>, Option<ModulePreset>),
    LoadBin2,
    Bin2Picked(Option<Picked>),
    Bin2Loaded(Result<Vec<u8>, String>),
}

/// What happens to the filter.
#[derive(Debug)]
pub enum FilterMsg {
    CategoryChanged(Category),
    ClearCategory,
    FilterChanged(String),
    ToggleChangedOnly(bool),
    ToggleRescaleOnly(bool),
    ToggleHideUniform(bool),
    FilterByAxis(String),
    ClearAxisFilter,
}

/// What happens to the browser.
#[derive(Debug)]
pub enum Msg {
    File(FileMsg),
    Filter(FilterMsg),
    /// Another module was chosen.
    ModuleChanged(ModulePreset),
    SelectChar(usize),
    SelectNext,
    SelectPrev,
    ToggleCompare(bool),
    ChangedSetComputed {
        changed: Vec<usize>,
        axis_changed_values_same: Vec<usize>,
        rescale_uniform: Vec<usize>,
    },
    TogglePercent,
    SplitDragStart,
    SplitDragEnd,
}

/// What is to be done after a message.
#[derive(Debug)]
pub enum Command {
    Nothing,
    PickA2l,
    ReadA2l(String),
    PickBin,
    ReadBin(String),
    PickBin2,
    ReadBin2(String),
    /// Scroll the list to an item, the `position`-th of `count`.
    ScrollTo { position: usize, count: usize },
    /// Compare all characteristics of the two firmwares.
    ComputeChanges,
}

/// What is to be done, as a value.
pub enum Order {
    Nothing,
    PickA2l,
    ReadA2l(Seq<char>),
    PickBin,
    ReadBin(Seq<char>),
    PickBin2,
    ReadBin2(Seq<char>),
    ScrollTo { position: int, count: int },
    ComputeChanges,
}

impl View for Command {
    type V = Order;

    open spec fn view(&self) -> Order {
        match self {
            Command::Nothing => Order::Nothing,
            Command::PickA2l => Order::PickA2l,
            Command::ReadA2l(p) => Order::ReadA2l(p@),
            Command::PickBin => Order::PickBin,
            Command::ReadBin(p) => Order::ReadBin(p@),
            Command::PickBin2 => Order::PickBin2,
            Command::ReadBin2(p) => Order::ReadBin2(p@),
            Command::ScrollTo { position, count } => Order::ScrollTo {
                position: *position as int,
                count: *count as int,
            },
            Command::ComputeChanges => Order::ComputeChanges,
        }
    }
}

/// Scroll to the selection, if it is in the list.
pub open spec fn scrolled(s: StateValue) -> Order {
    let p = current_place(s.listing.filtered, s.selection.selected);
    if p >= 0 {
        Order::ScrollTo { position: p, count: s.listing.filtered.len() as int }
    } else {
        Order::Nothing
    }
}

/// A filter without known changes.
pub open spec fn unchanged(f: FilterValue) -> FilterValue {
    FilterValue {
        changed_set: Seq::empty(),
        axis_changed_values_same: Seq::empty(),
        rescale_uniform: Seq::empty(),
        ..f
    }
}

/// Compare the firmwares if there is everything to compare.
pub open spec fn compared(s: StateValue) -> (StateValue, Order) {
    if s.loaded.a2l is Some && s.loaded.binary is Some && s.loaded.binary2 is Some {
        (
            StateValue {
                filter: unchanged(s.filter),
                display: Display { computing_changes: true, ..s.display },
                ..s
            },
            Order::ComputeChanges,
        )
    } else {
        (s, Order::Nothing)
    }
}

/// What is loaded with another module, where one is named.
pub open spec fn detected(l: LoadedValue, module: Option<ModulePreset>) -> LoadedValue {
    match module {
        Some(m) => if m != l.module {
            LoadedValue { module: m, address_map: blocks_of(m), ..l }
        } else {
            l
        },
        None => l,
    }
}

/// A file that is being picked.
pub open spec fn asked(f: FileValue) -> FileValue {
    FileValue { loading: true, error: None, ..f }
}

/// A file that was picked, or not.
pub open spec fn picked(f: FileValue, p: Option<Picked>) -> FileValue {
    match p {
        Some(p) => FileValue { name: Some(p.name@), ..f },
        None => FileValue { loading: false, ..f },
    }
}

/// A file that is loaded.
pub open spec fn arrived(f: FileValue) -> FileValue {
    FileValue { loading: false, ..f }
}

/// A file that could not be loaded.
pub open spec fn missed(f: FileValue, e: Seq<char>) -> FileValue {
    FileValue { loading: false, error: Some(e), ..f }
}

/// The state with an A2L file.
pub open spec fn with_a2l(s: StateValue, a2l: A2lFileValue) -> StateValue {
    refiltered(
        StateValue {
            a2l_file: arrived(s.a2l_file),
            loaded: LoadedValue { a2l: Some(a2l), ..s.loaded },
            filter: FilterValue { selected_category: None, changed_set: Seq::empty(), ..s.filter },
            selection: SelectionValue {
                selected: None,
                cached_values: None,
                cached_values2: None,
                ..s.selection
            },
            ..s
        },
    )
}

/// The state with a base firmware.
pub open spec fn with_bin(s: StateValue, data: Seq<u8>, module: Option<ModulePreset>) -> StateValue {
    reselected(
        StateValue {
            bin_file: arrived(s.bin_file),
            loaded: LoadedValue { binary: Some(data), ..detected(s.loaded, module) },
            ..s
        },
        s.selection.selected,
    )
}

/// The state with another module: what is selected is read by its blocks.
pub open spec fn with_module(s: StateValue, module: ModulePreset) -> StateValue {
    reselected(
        StateValue { loaded: detected(s.loaded, Some(module)), ..s },
        s.selection.selected,
    )
}

/// The state with a firmware to compare with.
pub open spec fn with_bin2(s: StateValue, data: Seq<u8>) -> StateValue {
    reselected(
        StateValue {
            bin2_file: arrived(s.bin2_file),
            loaded: LoadedValue { binary2: Some(data), ..s.loaded },
            display: Display { compare_mode: true, ..s.display },
            ..s
        },
        s.selection.selected,
    )
}

/// The state after something happened to the files, and what is to be done.
pub open spec fn updated_file(s: StateValue, msg: FileMsg) -> (StateValue, Order) {
    match msg {
        FileMsg::LoadA2l => (
            StateValue { a2l_file: asked(s.a2l_file), ..s },
            Order::PickA2l,
        ),
        FileMsg::A2lPicked(p) => (
            StateValue { a2l_file: picked(s.a2l_file, p), ..s },
            match p {
                Some(p) => Order::ReadA2l(p.path@),
                None => Order::Nothing,
            },
        ),
        FileMsg::A2lLoaded(Ok(a2l)) => (with_a2l(s, a2l@), Order::Nothing),
        FileMsg::A2lLoaded(Err(e)) => (
            StateValue { a2l_file: missed(s.a2l_file, e@), ..s },
            Order::Nothing,
        ),
        FileMsg::LoadBin => (
            StateValue { bin_file: asked(s.bin_file), ..s },
            Order::PickBin,
        ),
        FileMsg::BinPicked(p) => (
            StateValue { bin_file: picked(s.bin_file, p), ..s },
            match p {
                Some(p) => Order::ReadBin(p.path@),
                None => Order::Nothing,
            },
        ),
        FileMsg::BinLoaded(Ok(data), module) => compared(with_bin(s, data@, module)),
        FileMsg::BinLoaded(Err(e), _) => (
            StateValue { bin_file: missed(s.bin_file, e@), ..s },
            Order::Nothing,
        ),
        FileMsg::LoadBin2 => (
            StateValue { bin2_file: asked(s.bin2_file), ..s },
            Order::PickBin2,
        ),
        FileMsg::Bin2Picked(p) => (
            StateValue { bin2_file: picked(s.bin2_file, p), ..s },
            match p {
                Some(p) => Order::ReadBin2(p.path@),
                None => Order::Nothing,
            },
        ),
        FileMsg::Bin2Loaded(Ok(data)) => compared(with_bin2(s, data@)),
        FileMsg::Bin2Loaded(Err(e)) => (
            StateValue { bin2_file: missed(s.bin2_file, e@), ..s },
            Order::Nothing,
        ),
    }
}

/// The filter after something happened to it.
pub open spec fn updated_filter(f: FilterValue, msg: FilterMsg) -> FilterValue {
    match msg {
        FilterMsg::CategoryChanged(c) => FilterValue { selected_category: Some(c@), ..f },
        FilterMsg::ClearCategory => FilterValue { selected_category: None, ..f },
        FilterMsg::FilterChanged(text) => FilterValue { text: text@, ..f },
        FilterMsg::ToggleChangedOnly(on) => FilterValue { show_changed_only: on, ..f },
        FilterMsg::ToggleRescaleOnly(on) => FilterValue { show_rescale_only: on, ..f },
        FilterMsg::ToggleHideUniform(on) => FilterValue { hide_rescale_uniform: on, ..f },
        FilterMsg::FilterByAxis(name) => FilterValue { axis_filter: Some(name@), ..f },
        FilterMsg::ClearAxisFilter => FilterValue { axis_filter: None, ..f },
    }
}

/// The state with compare mode on or off.
pub open spec fn with_compare(s: StateValue, on: bool) -> StateValue {
    refiltered(
        reselected(
            StateValue {
                filter: if on {
                    s.filter
                } else {
                    FilterValue { show_changed_only: false, show_rescale_only: false, ..s.filter }
                },
                display: Display { compare_mode: on, ..s.display },
                ..s
            },
            s.selection.selected,
        ),
    )
}

/// The state after a message, and what is to be done.
pub open spec fn updated(s: StateValue, msg: Msg) -> (StateValue, Order) {
    match msg {
        Msg::File(m) => updated_file(s, m),
        Msg::Filter(m) => (
            refiltered(StateValue { filter: updated_filter(s.filter, m), ..s }),
            Order::Nothing,
        ),
        Msg::ModuleChanged(m) => compared(with_module(s, m)),
        Msg::SelectChar(i) => (reselected(s, Some(i)), Order::Nothing),
        Msg::SelectNext => (moved(s, 1), scrolled(moved(s, 1))),
        Msg::SelectPrev => (moved(s, -1), scrolled(moved(s, -1))),
        Msg::ToggleCompare(on) => (with_compare(s, on), Order::Nothing),
        Msg::ChangedSetComputed { changed, axis_changed_values_same, rescale_uniform } => (
            refiltered(
                StateValue {
                    filter: FilterValue {
                        changed_set: changed@,
                        axis_changed_values_same: axis_changed_values_same@,
                        rescale_uniform: rescale_uniform@,
                        ..s.filter
                    },
                    display: Display { computing_changes: false, ..s.display },
                    ..s
                },
            ),
            Order::Nothing,
        ),
        Msg::TogglePercent => (
            StateValue {
                display: Display { show_percent: !s.display.show_percent, ..s.display },
                ..s
            },
            Order::Nothing,
        ),
        Msg::SplitDragStart => (
            StateValue { display: Display { dragging_split: true, ..s.display }, ..s },
            Order::Nothing,
        ),
        Msg::SplitDragEnd => (
            StateValue { display: Display { dragging_split: false, ..s.display }, ..s },
            Order::Nothing,
        ),
    }
}

fn scroll_to_selected(state: &State) -> (r: Command)
    ensures
        r@ == scrolled(state@),
{
    if let Some(i) = state.selection.selected {
        if let Some(position) = place(&state.listing.filtered, i) {
            return Command::ScrollTo { position, count: state.listing.filtered.len() };
        }
    }
    Command::Nothing
}

fn maybe_compute_changes(state: &mut State) -> (r: Command)
    requires
        old(state).wf(),
    ensures
        final(state).wf(),
        (final(state)@, r@) == compared(old(state)@),
{
    if state.loaded.a2l.is_none() || state.loaded.binary.is_none()
        || state.loaded.binary2.is_none() {
        return Command::Nothing;
    }
    state.display.computing_changes = true;
    state.filter.changed_set = Vec::new();
    state.filter.axis_changed_values_same = Vec::new();
    state.filter.rescale_uniform = Vec::new();
    Command::ComputeChanges
}

fn load_a2l(state: &mut State, a2l: A2lFile)
    requires
        old(state).wf(),
    ensures
        final(state).wf(),
        final(state)@ == with_a2l(old(state)@, a2l@),
{
    let (categories, sections) = build_categories(&a2l);
    reveal(categorized);
    state.loaded.categories = categories;
    state.loaded.sections = sections;
    state.loaded.a2l = Some(a2l);
    state.a2l_file.loading = false;
    state.selection.selected = None;
    state.selection.cached_values = None;
    state.selection.cached_values2 = None;
    state.filter.selected_category = None;
    state.filter.changed_set = Vec::new();
    state.rebuild_filter();
}

fn change_module(state: &mut State, module: ModulePreset)
    requires
        old(state).wf(),
    ensures
        final(state).wf(),
        final(state)@ == with_module(old(state)@, module),
{
    if module != state.loaded.module {
        state.loaded.module = module;
        state.loaded.address_map = address_map_for(module);
    }
    state.read_selected();
}

fn load_bin(state: &mut State, data: Vec<u8>, module: Option<ModulePreset>)
    requires
        old(state).wf(),
    ensures
        final(state).wf(),
        final(state)@ == with_bin(old(state)@, data@, module),
{
    if let Some(m) = module {
        if m != state.loaded.module {
            state.loaded.module = m;
            state.loaded.address_map = address_map_for(m);
        }
    }
    state.loaded.binary = Some(data);
    state.bin_file.loading = false;
    state.read_selected();
}

fn load_bin2(state: &mut State, data: Vec<u8>)
    requires
        old(state).wf(),
    ensures
        final(state).wf(),
        final(state)@ == with_bin2(old(state)@, data@),
{
    state.loaded.binary2 = Some(data);
    state.bin2_file.loading = false;
    state.display.compare_mode = true;
    state.read_selected();
}

impl FileState {
    fn ask(&mut self)
        ensures
            final(self)@ == asked(old(self)@),
    {
        self.loading = true;
        self.error = None;
    }

    fn pick(&mut self, p: Option<Picked>) -> (path: Option<String>)
        ensures
            final(self)@ == picked(old(self)@, p),
            match p {
                Some(p) => path matches Some(s) && s@ == p.path@,
                None => path is None,
            },
    {
        match p {
            Some(p) => {
                self.name = Some(p.name);
                Some(p.path)
            },
            None => {
                self.loading = false;
                None
            },
        }
    }

    fn miss(&mut self, e: String)
        ensures
            final(self)@ == missed(old(self)@, e@),
    {
        self.error = Some(e);
        self.loading = false;
    }
}

/// React to something that happened to the files.
pub fn update_file(state: &mut State, msg: FileMsg) -> (r: Command)
    requires
        old(state).wf(),
    ensures
        final(state).wf(),
        (final(state)@, r@) == updated_file(old(state)@, msg),
{
    match msg {
        FileMsg::LoadA2l => {
            state.a2l_file.ask();
            Command::PickA2l
        },
        FileMsg::A2lPicked(p) => match state.a2l_file.pick(p) {
            Some(path) => Command::ReadA2l(path),
            None => Command::Nothing,
        },
        FileMsg::A2lLoaded(Ok(a2l)) => {
            load_a2l(state, a2l);
            Command::Nothing
        },
        FileMsg::A2lLoaded(Err(e)) => {
            state.a2l_file.miss(e);
            Command::Nothing
        },
        FileMsg::LoadBin => {
            state.bin_file.ask();
            Command::PickBin
        },
        FileMsg::BinPicked(p) => match state.bin_file.pick(p) {
            Some(path) => Command::ReadBin(path),
            None => Command::Nothing,
        },
        FileMsg::BinLoaded(Ok(data), module) => {
            load_bin(state, data, module);
            maybe_compute_changes(state)
        },
        FileMsg::BinLoaded(Err(e), _) => {
            state.bin_file.miss(e);
            Command::Nothing
        },
        FileMsg::LoadBin2 => {
            state.bin2_file.ask();
            Command::PickBin2
        },
        FileMsg::Bin2Picked(p) => match state.bin2_file.pick(p) {
            Some(path) => Command::ReadBin2(path),
            None => Command::Nothing,
        },
        FileMsg::Bin2Loaded(Ok(data)) => {
            load_bin2(state, data);
            maybe_compute_changes(state)
        },
        FileMsg::Bin2Loaded(Err(e)) => {
            state.bin2_file.miss(e);
            Command::Nothing
        },
    }
}

fn update_filter(filter: &mut Filter, msg: FilterMsg)
    ensures
        final(filter)@ == updated_filter(old(filter)@, msg),
{
    match msg {
        FilterMsg::CategoryChanged(c) => {
            filter.selected_category = Some(c);
        },
        FilterMsg::ClearCategory => {
            filter.selected_category = None;
        },
        FilterMsg::FilterChanged(text) => {
            filter.text = text;
        },
        FilterMsg::ToggleChangedOnly(on) => {
            filter.show_changed_only = on;
        },
        FilterMsg::ToggleRescaleOnly(on) => {
            filter.show_rescale_only = on;
        },
        FilterMsg::ToggleHideUniform(on) => {
            filter.hide_rescale_uniform = on;
        },
        FilterMsg::FilterByAxis(name) => {
            filter.axis_filter = Some(name);
        },
        FilterMsg::ClearAxisFilter => {
            filter.axis_filter = None;
        },
    }
}

fn toggle_compare(state: &mut State, on: bool)
    requires
        old(state).wf(),
    ensures
        final(state).wf(),
        final(state)@ == with_compare(old(state)@, on),
{
    state.display.compare_mode = on;
    if !on {
        state.filter.show_changed_only = false;
        state.filter.show_rescale_only = false;
    }
    state.read_selected();
    state.rebuild_filter();
}

/// React to a message.
pub fn update(state: &mut State, msg: Msg) -> (r: Command)
    requires
        old(state).wf(),
        msg matches Msg::SelectChar(i) ==> selectable(old(state)@.loaded.a2l, Some(i)),
    ensures
        final(state).wf(),
        (final(state)@, r@) == updated(old(state)@, msg),
{
    match msg {
        Msg::File(m) => update_file(state, m),
        Msg::Filter(m) => {
            update_filter(&mut state.filter, m);
            state.rebuild_filter();
            Command::Nothing
        },
        Msg::ModuleChanged(m) => {
            change_module(state, m);
            maybe_compute_changes(state)
        },
        Msg::SelectChar(i) => {
            state.selection.selected = Some(i);
            state.read_selected();
            Command::Nothing
        },
        Msg::SelectNext => {
            state.move_selection(1);
            scroll_to_selected(state)
        },
        Msg::SelectPrev => {
            state.move_selection(-1);
            scroll_to_selected(state)
        },
        Msg::ToggleCompare(on) => {
            toggle_compare(state, on);
            Command::Nothing
        },
        Msg::ChangedSetComputed { changed, axis_changed_values_same, rescale_uniform } => {
            state.filter.changed_set = changed;
            state.filter.axis_changed_values_same = axis_changed_values_same;
            state.filter.rescale_uniform = rescale_uniform;
            state.display.computing_changes = false;
            state.rebuild_filter();
            Command::Nothing
        },
        Msg::TogglePercent => {
            state.display.show_percent = !state.display.show_percent;
            Command::Nothing
        },
        Msg::SplitDragStart => {
            state.display.dragging_split = true;
            Command::Nothing
        },
        Msg::SplitDragEnd => {
            state.display.dragging_split = false;
            Command::Nothing
        },
    }
}

/// Give the count that kept the selection from being read, and read it again.
pub fn supply_count(state: &mut State, raw: Raw, count: usize)
    requires
        old(state).wf(),
    ensures
        final(state).wf(),
        final(state)@ == (StateValue {
            selection: reread(
                old(state)@.loaded,
                SelectionValue {
                    cuts: old(state)@.selection.cuts.push(Cut { raw, count }),
                    ..old(state)@.selection
                },
            ),
            ..old(state)@
        }),
{
    state.selection.cuts.push(Cut { raw, count });
    state.read_selected();
}

/// A characteristic is listed only if it passes the filters, and the list keeps
/// the order of the file.
pub proof fn law_the_list_is_what_passes(a2l: A2lFileValue, f: FilterValue, n: int, k: int)
    requires
        0 <= k < matching(a2l, f, n).len(),
        n <= usize::MAX,
    ensures
        matching(a2l, f, n)[k] < n,
        passes(a2l, f, matching(a2l, f, n)[k] as int),
        k > 0 ==> matching(a2l, f, n)[k - 1] < matching(a2l, f, n)[k],
    decreases n,
{
    let fewer = matching(a2l, f, n - 1);
    if k < fewer.len() {
        law_the_list_is_what_passes(a2l, f, n - 1, k);
    } else if k > 0 {
        law_the_list_is_what_passes(a2l, f, n - 1, k - 1);
    }
}

/// Whatever passes the filters is among the matches.
pub proof fn law_whatever_passes_is_matched(a2l: A2lFileValue, f: FilterValue, n: int, index: int)
    requires
        0 <= index < n <= usize::MAX,
        passes(a2l, f, index),
    ensures
        matching(a2l, f, n).contains(index as usize),
    decreases n,
{
    if index == n - 1 {
        assert(matching(a2l, f, n).last() == index as usize);
    } else {
        law_whatever_passes_is_matched(a2l, f, n - 1, index);
        let fewer = matching(a2l, f, n - 1);
        let k = choose|k: int| 0 <= k < fewer.len() && fewer[k] == index as usize;
        assert(matching(a2l, f, n)[k] == index as usize);
    }
}

/// Moving the selection stays inside the list.
pub proof fn law_the_selection_stays_in_the_list(s: StateValue, delta: int)
    requires
        s.listing.filtered.len() > 0,
    ensures
        ({
            let p = moved_to(s.listing.filtered, s.selection.selected, delta);
            &&& 0 <= p < s.listing.filtered.len()
            &&& moved(s, delta).selection.selected == Some(s.listing.filtered[p])
        }),
{
    if let Some(i) = s.selection.selected {
        lemma_place(s.listing.filtered, i);
    }
}

proof fn lemma_place(v: Seq<usize>, x: usize)
    ensures
        -1 <= place_of(v, x) < v.len(),
    decreases v.len(),
{
    if v.len() > 0 && v[0] != x {
        lemma_place(v.skip(1), x);
    }
}

} // verus!
