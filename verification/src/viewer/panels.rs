//! What the browser shows: the panels as plain values, ready to be drawn.

use vstd::prelude::*;

use super::state::{FileState, FileValue, State, StateValue};
use crate::a2l::table::named;
use crate::a2l::types::{said, views, A2lFile, A2lFileValue, Characteristic, CharacteristicType, CharacteristicValue};
use crate::text::{chars_of, dec, hex_upper, join, joined, push_dec, push_hex, strings};

verus! {

/// The label of a button that loads a file.
pub open spec fn button_label(
    loading: bool,
    loaded: bool,
    when_loaded: Seq<char>,
    otherwise: Seq<char>,
) -> Seq<char> {
    if loading {
        "Loading..."@
    } else if loaded {
        when_loaded
    } else {
        otherwise
    }
}

fn label(loading: bool, loaded: bool, when_loaded: &'static str, otherwise: &'static str) -> (s:
    &'static str)
    ensures
        s@ == button_label(loading, loaded, when_loaded@, otherwise@),
{
    if loading {
        "Loading..."
    } else if loaded {
        when_loaded
    } else {
        otherwise
    }
}

/// How a characteristic of the list is marked.
#[derive(Debug, Clone, Copy, PartialEq, Eq, Structural)]
pub enum Mark {
    Plain,
    /// It differs between the firmwares.
    Changed,
    /// Its axis differs and its values do not.
    Suspect,
}

/// The letter of a shape.
pub open spec fn tag_of(t: CharacteristicType) -> Seq<char> {
    match t {
        CharacteristicType::Value => "V"@,
        CharacteristicType::Curve => "C"@,
        CharacteristicType::Map2d => "M"@,
        CharacteristicType::ValBlk => "B"@,
        CharacteristicType::Ascii => "A"@,
        CharacteristicType::Cuboid => "3"@,
        _ => "?"@,
    }
}

/// The letter of a shape.
pub fn type_tag(t: CharacteristicType) -> (s: &'static str)
    ensures
        s@ == tag_of(t),
{
    match t {
        CharacteristicType::Value => "V",
        CharacteristicType::Curve => "C",
        CharacteristicType::Map2d => "M",
        CharacteristicType::ValBlk => "B",
        CharacteristicType::Ascii => "A",
        CharacteristicType::Cuboid => "3",
        _ => "?",
    }
}

/// The name of a shape.
pub open spec fn shape_of(t: CharacteristicType) -> Seq<char> {
    match t {
        CharacteristicType::Value => "Value"@,
        CharacteristicType::Curve => "Curve"@,
        CharacteristicType::Map2d => "Map"@,
        CharacteristicType::Cuboid => "Cuboid"@,
        CharacteristicType::Cube4 => "Cube4"@,
        CharacteristicType::Cube5 => "Cube5"@,
        CharacteristicType::ValBlk => "ValBlk"@,
        CharacteristicType::Ascii => "Ascii"@,
    }
}

/// The name of a shape.
pub fn shape_name(t: CharacteristicType) -> (s: &'static str)
    ensures
        s@ == shape_of(t),
{
    match t {
        CharacteristicType::Value => "Value",
        CharacteristicType::Curve => "Curve",
        CharacteristicType::Map2d => "Map",
        CharacteristicType::Cuboid => "Cuboid",
        CharacteristicType::Cube4 => "Cube4",
        CharacteristicType::Cube5 => "Cube5",
        CharacteristicType::ValBlk => "ValBlk",
        CharacteristicType::Ascii => "Ascii",
    }
}

/// A line of the list.
#[derive(Debug, Clone)]
pub struct Row {
    /// The characteristic.
    pub index: usize,
    pub tag: &'static str,
    pub name: String,
    /// Shown under the name, if there is one.
    pub description: Option<String>,
    pub selected: bool,
    pub mark: Mark,
}

/// A line of the list as a value.
pub struct RowValue {
    pub index: usize,
    pub tag: Seq<char>,
    pub name: Seq<char>,
    pub description: Option<Seq<char>>,
    pub selected: bool,
    pub mark: Mark,
}

impl View for Row {
    type V = RowValue;

    open spec fn view(&self) -> RowValue {
        RowValue {
            index: self.index,
            tag: self.tag@,
            name: self.name@,
            description: said(self.description),
            selected: self.selected,
            mark: self.mark,
        }
    }
}

/// How a characteristic is marked.
pub open spec fn mark_of(s: StateValue, index: usize) -> Mark {
    let f = s.filter;
    if !s.display.compare_mode || f.changed_set.len() == 0 {
        Mark::Plain
    } else if f.axis_changed_values_same.contains(index) {
        Mark::Suspect
    } else if f.changed_set.contains(index) {
        Mark::Changed
    } else {
        Mark::Plain
    }
}

/// A text unless it is empty.
pub open spec fn unless_empty(s: Seq<char>) -> Option<Seq<char>> {
    if s.len() == 0 {
        None
    } else {
        Some(s)
    }
}

/// The line of a characteristic.
pub open spec fn row_of(s: StateValue, ch: CharacteristicValue, index: usize) -> RowValue {
    RowValue {
        index,
        tag: tag_of(ch.char_type),
        name: ch.name,
        description: unless_empty(ch.description),
        selected: s.selection.selected == Some(index),
        mark: mark_of(s, index),
    }
}

/// The lines of the list.
pub open spec fn rows_of(s: StateValue) -> Option<Seq<RowValue>> {
    match s.loaded.a2l {
        None => None,
        Some(a2l) => Some(
            s.listing.filtered.map_values(
                |i: usize| row_of(s, a2l.characteristics[i as int], i),
            ),
        ),
    }
}

/// What counts the list.
pub open spec fn count_label(s: StateValue) -> Option<Seq<char>> {
    let shown = s.listing.filtered.len();
    if s.loaded.a2l is None {
        None
    } else if s.listing.total_matches == shown {
        Some(dec(s.listing.total_matches as nat) + " characteristics"@)
    } else {
        Some(
            dec(shown as nat) + " shown / "@ + dec(s.listing.total_matches as nat) + " matching"@,
        )
    }
}

/// The controls of the comparison.
#[derive(Debug, Clone)]
pub struct CompareControls {
    /// Whether compare mode is on.
    pub on: bool,
    /// Label of the switch that shows only what changed.
    pub changed_label: Option<String>,
    /// What warns of values that were not rescaled.
    pub rescale_label: Option<String>,
}

/// The controls of the comparison as a value.
pub struct CompareValue {
    pub on: bool,
    pub changed_label: Option<Seq<char>>,
    pub rescale_label: Option<Seq<char>>,
}

impl View for CompareControls {
    type V = CompareValue;

    open spec fn view(&self) -> CompareValue {
        CompareValue {
            on: self.on,
            changed_label: said(self.changed_label),
            rescale_label: said(self.rescale_label),
        }
    }
}

/// The controls of the comparison, once there is something to compare with.
pub open spec fn controls_of(s: StateValue) -> Option<CompareValue> {
    if s.loaded.binary2 is None {
        None
    } else {
        let on = s.display.compare_mode;
        let suspects = s.filter.axis_changed_values_same.len();
        Some(
            CompareValue {
                on,
                changed_label: if !on {
                    None
                } else if s.display.computing_changes {
                    Some("Changed only (computing...)"@)
                } else {
                    Some("Changed only ("@ + dec(s.filter.changed_set.len()) + ")"@)
                },
                rescale_label: if on && suspects > 0 {
                    Some("  !! "@ + dec(suspects) + " possible rescale issues"@)
                } else {
                    None
                },
            },
        )
    }
}

/// The line that names a file.
pub open spec fn file_line(prefix: Seq<char>, f: FileValue) -> Option<Seq<char>> {
    match f.name {
        Some(n) => Some(prefix + n),
        None => None,
    }
}

/// The left panel, from top to bottom.
#[derive(Debug, Clone)]
pub struct LeftPanel {
    pub a2l_button: &'static str,
    pub bin_button: &'static str,
    /// There once a base firmware is loaded.
    pub bin2_button: Option<&'static str>,
    pub a2l_line: Option<String>,
    pub bin_line: Option<String>,
    pub bin2_line: Option<String>,
    pub a2l_error: Option<String>,
    pub bin_error: Option<String>,
    pub bin2_error: Option<String>,
    pub compare: Option<CompareControls>,
    /// Whether there are categories to choose from.
    pub category_list: bool,
    /// Whether there is a chosen category to clear.
    pub clear_category: bool,
    pub count: Option<String>,
    pub rows: Option<Vec<Row>>,
}

/// The left panel as a value.
pub struct LeftValue {
    pub a2l_button: Seq<char>,
    pub bin_button: Seq<char>,
    pub bin2_button: Option<Seq<char>>,
    pub a2l_line: Option<Seq<char>>,
    pub bin_line: Option<Seq<char>>,
    pub bin2_line: Option<Seq<char>>,
    pub a2l_error: Option<Seq<char>>,
    pub bin_error: Option<Seq<char>>,
    pub bin2_error: Option<Seq<char>>,
    pub compare: Option<CompareValue>,
    pub category_list: bool,
    pub clear_category: bool,
    pub count: Option<Seq<char>>,
    pub rows: Option<Seq<RowValue>>,
}

impl View for LeftPanel {
    type V = LeftValue;

    open spec fn view(&self) -> LeftValue {
        LeftValue {
            a2l_button: self.a2l_button@,
            bin_button: self.bin_button@,
            bin2_button: match self.bin2_button {
                Some(s) => Some(s@),
                None => None,
            },
            a2l_line: said(self.a2l_line),
            bin_line: said(self.bin_line),
            bin2_line: said(self.bin2_line),
            a2l_error: said(self.a2l_error),
            bin_error: said(self.bin_error),
            bin2_error: said(self.bin2_error),
            compare: match self.compare {
                Some(c) => Some(c@),
                None => None,
            },
            category_list: self.category_list,
            clear_category: self.clear_category,
            count: said(self.count),
            rows: match self.rows {
                Some(v) => Some(views(v@)),
                None => None,
            },
        }
    }
}

/// What the left panel shows of a state with the given number of categories.
pub open spec fn left_of(s: StateValue, categories: nat) -> LeftValue {
    LeftValue {
        a2l_button: button_label(
            s.a2l_file.loading,
            s.loaded.a2l is Some,
            "A2L loaded"@,
            "Load A2L"@,
        ),
        bin_button: button_label(
            s.bin_file.loading,
            s.loaded.binary is Some,
            "BIN 1 loaded"@,
            "Load BIN 1"@,
        ),
        bin2_button: if s.loaded.binary is Some {
            Some(
                button_label(
                    s.bin2_file.loading,
                    s.loaded.binary2 is Some,
                    "BIN 2 loaded"@,
                    "Load BIN 2"@,
                ),
            )
        } else {
            None
        },
        a2l_line: file_line("A2L: "@, s.a2l_file),
        bin_line: file_line("BIN 1: "@, s.bin_file),
        bin2_line: file_line("BIN 2: "@, s.bin2_file),
        a2l_error: s.a2l_file.error,
        bin_error: s.bin_file.error,
        bin2_error: s.bin2_file.error,
        compare: controls_of(s),
        category_list: categories > 0,
        clear_category: categories > 0 && s.filter.selected_category is Some,
        count: count_label(s),
        rows: rows_of(s),
    }
}

fn copy_option(o: &Option<String>) -> (r: Option<String>)
    ensures
        said(r) == said(*o),
{
    match o {
        Some(s) => Some(s.clone()),
        None => None,
    }
}

fn name_line(prefix: &str, f: &FileState) -> (r: Option<String>)
    ensures
        said(r) == file_line(prefix@, f@),
{
    match &f.name {
        Some(n) => {
            let mut s = prefix.to_owned();
            s.push_str(n.as_str());
            Some(s)
        },
        None => None,
    }
}

fn contains(v: &Vec<usize>, x: usize) -> (r: bool)
    ensures
        r == v@.contains(x),
{
    let mut i: usize = 0;
    while i < v.len()
        invariant
            i <= v@.len(),
            forall|j: int| 0 <= j < i ==> v@[j] != x,
        decreases v@.len() - i,
    {
        if v[i] == x {
            return true;
        }
        i = i + 1;
    }
    false
}

fn mark(state: &State, index: usize) -> (r: Mark)
    ensures
        r == mark_of(state@, index),
{
    if !state.display.compare_mode || state.filter.changed_set.len() == 0 {
        Mark::Plain
    } else if contains(&state.filter.axis_changed_values_same, index) {
        Mark::Suspect
    } else if contains(&state.filter.changed_set, index) {
        Mark::Changed
    } else {
        Mark::Plain
    }
}

fn nonempty(s: &String) -> (r: Option<String>)
    ensures
        said(r) == unless_empty(s@),
{
    if chars_of(s.as_str()).len() == 0 {
        None
    } else {
        Some(s.clone())
    }
}

fn make_row(state: &State, ch: &Characteristic, index: usize) -> (r: Row)
    ensures
        r@ == row_of(state@, ch@, index),
{
    let selected = match state.selection.selected {
        Some(i) => i == index,
        None => false,
    };
    Row {
        index,
        tag: type_tag(ch.char_type),
        name: ch.name.clone(),
        description: nonempty(&ch.description),
        selected,
        mark: mark(state, index),
    }
}

fn make_rows(state: &State, a2l: &A2lFile) -> (r: Vec<Row>)
    requires
        state.wf(),
        state.loaded.a2l == Some(*a2l),
    ensures
        rows_of(state@) == Some(views(r@)),
{
    reveal(super::state::inside);
    let ghost all = rows_of(state@)->0;
    let list = &state.listing.filtered;
    let mut rows: Vec<Row> = Vec::new();
    let mut k: usize = 0;
    assert(views(rows@) == all.take(0));
    while k < list.len()
        invariant
            k <= list@.len(),
            list == state.listing.filtered,
            state.loaded.a2l == Some(*a2l),
            super::state::inside(state@.loaded.a2l, list@),
            all == rows_of(state@)->0,
            all.len() == list@.len(),
            views(rows@) == all.take(k as int),
        decreases list@.len() - k,
    {
        reveal(super::state::inside);
        let index: usize = list[k];
        assert(a2l@.characteristics[index as int] == a2l.characteristics@[index as int]@);
        let row = make_row(state, &a2l.characteristics[index], index);
        assert(all[k as int] == row@);
        let ghost was = rows@;
        rows.push(row);
        assert(views(rows@) == views(was).push(row@));
        assert(all.take(k + 1) == all.take(k as int).push(row@));
        k = k + 1;
    }
    assert(all.take(k as int) == all);
    rows
}

fn make_controls(state: &State) -> (r: Option<CompareControls>)
    ensures
        match r {
            Some(c) => controls_of(state@) == Some(c@),
            None => controls_of(state@) is None,
        },
{
    if state.loaded.binary2.is_none() {
        return None;
    }
    let on = state.display.compare_mode;
    let suspects: usize = state.filter.axis_changed_values_same.len();
    let changed_label = if !on {
        None
    } else if state.display.computing_changes {
        Some("Changed only (computing...)".to_owned())
    } else {
        let mut s = "Changed only (".to_owned();
        push_dec(&mut s, state.filter.changed_set.len() as u64);
        s.push_str(")");
        Some(s)
    };
    let rescale_label = if on && suspects > 0 {
        let mut s = "  !! ".to_owned();
        push_dec(&mut s, suspects as u64);
        s.push_str(" possible rescale issues");
        Some(s)
    } else {
        None
    };
    Some(CompareControls { on, changed_label, rescale_label })
}

fn make_count(state: &State) -> (r: Option<String>)
    ensures
        said(r) == count_label(state@),
{
    if state.loaded.a2l.is_none() {
        return None;
    }
    let shown: usize = state.listing.filtered.len();
    let total: usize = state.listing.total_matches;
    let mut s = String::new();
    if total == shown {
        push_dec(&mut s, total as u64);
        s.push_str(" characteristics");
        assert(s@ == dec(total as nat) + " characteristics"@);
    } else {
        push_dec(&mut s, shown as u64);
        s.push_str(" shown / ");
        push_dec(&mut s, total as u64);
        s.push_str(" matching");
        assert(s@ == dec(shown as nat) + " shown / "@ + dec(total as nat) + " matching"@);
    }
    Some(s)
}

/// What the left panel shows.
pub fn view_left_panel(state: &State) -> (r: LeftPanel)
    requires
        state.wf(),
    ensures
        r@ == left_of(state@, state.loaded.categories@.len()),
{
    let some_categories = state.loaded.categories.len() > 0;
    LeftPanel {
        a2l_button: label(
            state.a2l_file.loading,
            state.loaded.a2l.is_some(),
            "A2L loaded",
            "Load A2L",
        ),
        bin_button: label(
            state.bin_file.loading,
            state.loaded.binary.is_some(),
            "BIN 1 loaded",
            "Load BIN 1",
        ),
        bin2_button: if state.loaded.binary.is_some() {
            Some(
                label(
                    state.bin2_file.loading,
                    state.loaded.binary2.is_some(),
                    "BIN 2 loaded",
                    "Load BIN 2",
                ),
            )
        } else {
            None
        },
        a2l_line: name_line("A2L: ", &state.a2l_file),
        bin_line: name_line("BIN 1: ", &state.bin_file),
        bin2_line: name_line("BIN 2: ", &state.bin2_file),
        a2l_error: copy_option(&state.a2l_file.error),
        bin_error: copy_option(&state.bin_file.error),
        bin2_error: copy_option(&state.bin2_file.error),
        compare: make_controls(state),
        category_list: some_categories,
        clear_category: some_categories && state.filter.selected_category.is_some(),
        count: make_count(state),
        rows: match &state.loaded.a2l {
            Some(a2l) => Some(make_rows(state, a2l)),
            None => None,
        },
    }
}

/// What stands below the header of the right panel.
#[derive(Debug, Clone, Copy, PartialEq, Eq, Structural)]
pub enum Body {
    /// A warning that the base firmware is missing, in compare mode.
    LoadFirst,
    /// A warning that a firmware is missing.
    Load,
    /// Both firmwares side by side.
    Compare {
        /// Whether the values may need rescaling.
        suspect: bool,
    },
    /// The values.
    Values,
    /// That they cannot be read.
    Unreadable,
}

/// The right panel.
#[derive(Debug, Clone)]
pub enum RightPanel {
    /// There is no A2L file.
    LoadA2l,
    /// Nothing is selected.
    Select,
    Details {
        name: String,
        description: Option<String>,
        /// The categories of the characteristic.
        section: Option<String>,
        shape: &'static str,
        address: String,
        unit: String,
        format: String,
        body: Body,
    },
}

/// The right panel as a value.
pub enum RightValue {
    LoadA2l,
    Select,
    Details {
        name: Seq<char>,
        description: Option<Seq<char>>,
        section: Option<Seq<char>>,
        shape: Seq<char>,
        address: Seq<char>,
        unit: Seq<char>,
        format: Seq<char>,
        body: Body,
    },
}

impl View for RightPanel {
    type V = RightValue;

    open spec fn view(&self) -> RightValue {
        match self {
            RightPanel::LoadA2l => RightValue::LoadA2l,
            RightPanel::Select => RightValue::Select,
            RightPanel::Details {
                name,
                description,
                section,
                shape,
                address,
                unit,
                format,
                body,
            } => RightValue::Details {
                name: name@,
                description: said(*description),
                section: said(*section),
                shape: shape@,
                address: address@,
                unit: unit@,
                format: format@,
                body: *body,
            },
        }
    }
}

/// The unit of numbers under a conversion.
pub open spec fn unit_of(a2l: A2lFileValue, method: Seq<char>) -> Seq<char> {
    match named(a2l.compu_methods, method) {
        Some(m) => m.unit,
        None => Seq::empty(),
    }
}

/// The unit of numbers under a conversion.
pub fn unit_for(a2l: &A2lFile, method: &str) -> (s: String)
    ensures
        s@ == unit_of(a2l@, method@),
{
    match a2l.compu_methods.get(method) {
        Some(m) => m.unit.clone(),
        None => {
            let s = String::new();
            assert(s@ == Seq::<char>::empty());
            s
        },
    }
}

/// What stands below the header.
pub open spec fn body_of(s: StateValue, index: usize) -> Body {
    if s.display.compare_mode && s.loaded.binary2 is Some {
        if s.loaded.binary is None {
            Body::LoadFirst
        } else {
            Body::Compare { suspect: s.filter.axis_changed_values_same.contains(index) }
        }
    } else if s.loaded.binary is None {
        Body::Load
    } else if s.selection.cached_values is Some {
        Body::Values
    } else {
        Body::Unreadable
    }
}

/// The line that names the categories of a characteristic.
pub open spec fn section_line(names: Seq<Seq<char>>) -> Option<Seq<char>> {
    if names.len() == 0 {
        None
    } else {
        Some("Section: "@ + joined(names, ", "@))
    }
}

/// What the right panel shows of a characteristic in the given categories.
pub open spec fn details_of(
    s: StateValue,
    a2l: A2lFileValue,
    index: usize,
    names: Seq<Seq<char>>,
) -> RightValue {
    let ch = a2l.characteristics[index as int];
    RightValue::Details {
        name: ch.name,
        description: unless_empty(ch.description),
        section: section_line(names),
        shape: shape_of(ch.char_type),
        address: "0x"@ + hex_upper(ch.address as nat, 8),
        unit: "unit="@ + unit_of(a2l, ch.compu_method_ref),
        format: "fmt="@ + match ch.format {
            Some(f) => f,
            None => Seq::empty(),
        },
        body: body_of(s, index),
    }
}

fn make_body(state: &State, index: usize) -> (r: Body)
    ensures
        r == body_of(state@, index),
{
    if state.display.compare_mode && state.loaded.binary2.is_some() {
        if state.loaded.binary.is_none() {
            Body::LoadFirst
        } else {
            Body::Compare { suspect: contains(&state.filter.axis_changed_values_same, index) }
        }
    } else if state.loaded.binary.is_none() {
        Body::Load
    } else if state.selection.cached_values.is_some() {
        Body::Values
    } else {
        Body::Unreadable
    }
}

/// What the right panel shows.
pub fn view_right_panel(state: &State) -> (r: RightPanel)
    requires
        state.wf(),
    ensures
        match (state@.loaded.a2l, state@.selection.selected) {
            (None, _) => r@ == RightValue::LoadA2l,
            (Some(_), None) => r@ == RightValue::Select,
            (Some(a2l), Some(i)) => i < state.loaded.sections@.len() && r@ == details_of(
                state@,
                a2l,
                i,
                views(state.loaded.sections@[i as int]@),
            ),
        },
{
    let a2l = match &state.loaded.a2l {
        Some(a) => a,
        None => {
            return RightPanel::LoadA2l;
        },
    };
    let index: usize = match state.selection.selected {
        Some(i) => i,
        None => {
            return RightPanel::Select;
        },
    };
    reveal(super::state::categorized);
    assert(a2l@.characteristics[index as int] == a2l.characteristics@[index as int]@);
    let ch = &a2l.characteristics[index];
    let names = &state.loaded.sections[index];
    let section = if names.len() == 0 {
        None
    } else {
        let mut s = "Section: ".to_owned();
        s.push_str(join_with(names, ", ").as_str());
        Some(s)
    };
    let mut address = "0x".to_owned();
    push_hex(&mut address, ch.address as u64, 8);
    let mut unit = "unit=".to_owned();
    unit.push_str(unit_for(a2l, ch.compu_method_ref.as_str()).as_str());
    let mut format = "fmt=".to_owned();
    match &ch.format {
        Some(f) => {
            format.push_str(f.as_str());
        },
        None => {
            assert("fmt="@ + Seq::<char>::empty() == "fmt="@);
        },
    }
    RightPanel::Details {
        name: ch.name.clone(),
        description: nonempty(&ch.description),
        section,
        shape: shape_name(ch.char_type),
        address,
        unit,
        format,
        body: make_body(state, index),
    }
}

/// How two curves are set side by side.
#[derive(Debug, Clone)]
pub enum CurveLayout {
    /// Two tables, under a note that the axes differ in size.
    Apart { note: String },
    /// One table with a shared axis.
    Aligned { rows: usize },
    /// One table with both axes, under a note that they differ.
    Shifted { note: String, rows: usize },
}

/// How two curves are set side by side, as a value.
#[allow(inconsistent_fields)]
pub enum CurveValue {
    Apart { note: Seq<char> },
    Aligned { rows: int },
    Shifted { note: Seq<char>, rows: int },
}

impl View for CurveLayout {
    type V = CurveValue;

    open spec fn view(&self) -> CurveValue {
        match self {
            CurveLayout::Apart { note } => CurveValue::Apart { note: note@ },
            CurveLayout::Aligned { rows } => CurveValue::Aligned { rows: *rows as int },
            CurveLayout::Shifted { note, rows } => CurveValue::Shifted {
                note: note@,
                rows: *rows as int,
            },
        }
    }
}

/// The smaller of two numbers.
pub open spec fn smaller(a: int, b: int) -> int {
    if a <= b {
        a
    } else {
        b
    }
}

fn least(a: usize, b: usize) -> (r: usize)
    ensures
        r == smaller(a as int, b as int),
{
    if a <= b {
        a
    } else {
        b
    }
}

/// How curves with `x1` and `x2` axis points and `y1` and `y2` values are set
/// side by side, given whether the axes are the same.
pub open spec fn curves_beside(
    x1: int,
    y1: int,
    x2: int,
    y2: int,
    axes_same: bool,
    axis: Option<Seq<char>>,
) -> CurveValue {
    if x1 != x2 {
        let sizes = "Axis sizes differ: "@ + dec(x1 as nat) + " vs "@ + dec(x2 as nat) + " points"@;
        CurveValue::Apart {
            note: match axis {
                Some(name) => sizes + " ("@ + name + ")"@,
                None => sizes,
            },
        }
    } else if axes_same {
        CurveValue::Aligned { rows: smaller(smaller(x1, y1), y2) }
    } else {
        CurveValue::Shifted {
            note: match axis {
                Some(name) => "Axis breakpoints differ ("@ + name + ")"@,
                None => "Axis breakpoints differ between BINs"@,
            },
            rows: smaller(smaller(smaller(x1, y1), x2), y2),
        }
    }
}

/// How two curves are set side by side.
pub fn view_compare_curve(
    x1: usize,
    y1: usize,
    x2: usize,
    y2: usize,
    axes_same: bool,
    axis: Option<&str>,
) -> (r: CurveLayout)
    ensures
        r@ == curves_beside(
            x1 as int,
            y1 as int,
            x2 as int,
            y2 as int,
            axes_same,
            match axis {
                Some(s) => Some(s@),
                None => None,
            },
        ),
{
    if x1 != x2 {
        let mut note = "Axis sizes differ: ".to_owned();
        push_dec(&mut note, x1 as u64);
        note.push_str(" vs ");
        push_dec(&mut note, x2 as u64);
        note.push_str(" points");
        if let Some(name) = axis {
            note.push_str(" (");
            note.push_str(name);
            note.push_str(")");
        }
        return CurveLayout::Apart { note };
    }
    if axes_same {
        return CurveLayout::Aligned { rows: least(least(x1, y1), y2) };
    }
    let note = match axis {
        Some(name) => {
            let mut s = "Axis breakpoints differ (".to_owned();
            s.push_str(name);
            s.push_str(")");
            s
        },
        None => "Axis breakpoints differ between BINs".to_owned(),
    };
    CurveLayout::Shifted { note, rows: least(least(least(x1, y1), x2), y2) }
}

/// The size of a grid.
pub open spec fn grid(x: int, y: int) -> Seq<char> {
    dec(x as nat) + "x"@ + dec(y as nat)
}

/// What is said of an axis that differs.
pub open spec fn axis_note(letter: Seq<char>, axis: Option<Seq<char>>) -> Seq<char> {
    match axis {
        Some(name) => letter + "-axis changed ("@ + name + ")"@,
        None => letter + "-axis breakpoints changed"@,
    }
}

/// What is said of two maps whose axes differ.
pub open spec fn map_notes(
    x1: int,
    y1: int,
    x2: int,
    y2: int,
    x_same: bool,
    y_same: bool,
    x_axis: Option<Seq<char>>,
    y_axis: Option<Seq<char>>,
) -> Seq<Seq<char>> {
    let size = if x1 == x2 && y1 == y2 {
        Seq::empty()
    } else {
        seq!["Grid size: "@ + grid(x1, y1) + " → "@ + grid(x2, y2)]
    };
    let x = if x_same {
        Seq::empty()
    } else {
        seq![axis_note("X"@, x_axis)]
    };
    let y = if y_same {
        Seq::empty()
    } else {
        seq![axis_note("Y"@, y_axis)]
    };
    size + x + y
}

fn push_grid(s: &mut String, x: usize, y: usize)
    ensures
        final(s)@ == old(s)@ + grid(x as int, y as int),
{
    push_dec(s, x as u64);
    s.push_str("x");
    push_dec(s, y as u64);
    assert(s@ == old(s)@ + grid(x as int, y as int));
}

fn name_axis(letter: &str, axis: Option<&str>) -> (s: String)
    ensures
        s@ == axis_note(
            letter@,
            match axis {
                Some(a) => Some(a@),
                None => None,
            },
        ),
{
    let mut s = letter.to_owned();
    match axis {
        Some(name) => {
            s.push_str("-axis changed (");
            s.push_str(name);
            s.push_str(")");
        },
        None => {
            s.push_str("-axis breakpoints changed");
        },
    }
    s
}

/// How two maps are set side by side.
#[derive(Debug, Clone)]
pub enum MapLayout {
    /// One map, and the differences on its axes.
    Aligned,
    /// Both maps on their own axes, under a note; and the differences where they
    /// have the same size.
    Apart { note: String, differences: bool },
}

/// How two maps are set side by side.
pub fn view_compare_map(
    x1: usize,
    y1: usize,
    x2: usize,
    y2: usize,
    x_same: bool,
    y_same: bool,
    x_axis: Option<&str>,
    y_axis: Option<&str>,
) -> (r: MapLayout)
    ensures
        match r {
            MapLayout::Aligned => x_same && y_same,
            MapLayout::Apart { note, differences } => !(x_same && y_same) && differences == (x1 == x2
                && y1 == y2) && note@ == joined(
                map_notes(
                    x1 as int,
                    y1 as int,
                    x2 as int,
                    y2 as int,
                    x_same,
                    y_same,
                    match x_axis {
                        Some(s) => Some(s@),
                        None => None,
                    },
                    match y_axis {
                        Some(s) => Some(s@),
                        None => None,
                    },
                ),
                " · "@,
            ),
        },
{
    if x_same && y_same {
        return MapLayout::Aligned;
    }
    let same_size = x1 == x2 && y1 == y2;
    let mut notes: Vec<String> = Vec::new();
    let ghost size = if same_size {
        Seq::empty()
    } else {
        seq!["Grid size: "@ + grid(x1 as int, y1 as int) + " → "@ + grid(x2 as int, y2 as int)]
    };
    if !same_size {
        let mut s = "Grid size: ".to_owned();
        push_grid(&mut s, x1, y1);
        s.push_str(" → ");
        push_grid(&mut s, x2, y2);
        notes.push(s);
    }
    assert(views(notes@) == size);
    let ghost x = if x_same {
        Seq::empty()
    } else {
        seq![
            axis_note(
                "X"@,
                match x_axis {
                    Some(s) => Some(s@),
                    None => None,
                },
            ),
        ]
    };
    if !x_same {
        notes.push(name_axis("X", x_axis));
    }
    assert(views(notes@) == size + x);
    let ghost y = if y_same {
        Seq::empty()
    } else {
        seq![
            axis_note(
                "Y"@,
                match y_axis {
                    Some(s) => Some(s@),
                    None => None,
                },
            ),
        ]
    };
    if !y_same {
        notes.push(name_axis("Y", y_axis));
    }
    assert(views(notes@) == size + x + y);
    let note = join_with(&notes, " · ");
    MapLayout::Apart { note, differences: same_size }
}

fn join_with(parts: &Vec<String>, sep: &str) -> (s: String)
    ensures
        s@ == joined(views(parts@), sep@),
{
    assert(views(parts@) == strings(parts@));
    join(parts, sep)
}

/// How one characteristic compares between two firmwares.
#[derive(Debug, Clone, Copy, PartialEq, Eq, Structural)]
pub struct Comparison {
    /// Whether the first could be read.
    pub first: bool,
    /// Whether the second could be read.
    pub second: bool,
    /// Whether they are the same.
    pub same: bool,
    /// Whether both have axes of one shape, and an axis differs.
    pub axis_differs: bool,
    /// Whether the values behind the axes are the same.
    pub values_same: bool,
    /// Whether all values of the first are the same.
    pub uniform: bool,
}

/// Whether a characteristic changed.
pub open spec fn changed(c: Comparison) -> bool {
    if c.first && c.second {
        !c.same
    } else {
        c.first != c.second
    }
}

/// Whether an axis changed and the values behind it did not.
pub open spec fn unscaled(c: Comparison) -> bool {
    c.first && c.second && !c.same && c.axis_differs && c.values_same
}

/// What changed between two firmwares.
#[derive(Debug, Clone)]
pub struct Changes {
    pub changed: Vec<usize>,
    pub axis_changed_values_same: Vec<usize>,
    pub rescale_uniform: Vec<usize>,
}

/// The numbers below `n` with a property.
pub open spec fn indices(all: Seq<Comparison>, p: spec_fn(Comparison) -> bool, n: int) -> Seq<usize>
    decreases n,
{
    if n <= 0 {
        Seq::empty()
    } else if p(all[n - 1]) {
        indices(all, p, n - 1).push((n - 1) as usize)
    } else {
        indices(all, p, n - 1)
    }
}

/// What changed between two firmwares, given how every characteristic compares.
pub fn compute_changed_set(all: &Vec<Comparison>) -> (r: Changes)
    ensures
        r.changed@ == indices(all@, |c: Comparison| changed(c), all@.len() as int),
        r.axis_changed_values_same@ == indices(
            all@,
            |c: Comparison| unscaled(c),
            all@.len() as int,
        ),
        r.rescale_uniform@ == indices(
            all@,
            |c: Comparison| unscaled(c) && c.uniform,
            all@.len() as int,
        ),
{
    let ghost p = |c: Comparison| changed(c);
    let ghost q = |c: Comparison| unscaled(c);
    let ghost u = |c: Comparison| unscaled(c) && c.uniform;
    let mut a: Vec<usize> = Vec::new();
    let mut b: Vec<usize> = Vec::new();
    let mut d: Vec<usize> = Vec::new();
    let mut i: usize = 0;
    while i < all.len()
        invariant
            i <= all@.len(),
            p == (|c: Comparison| changed(c)),
            q == (|c: Comparison| unscaled(c)),
            u == (|c: Comparison| unscaled(c) && c.uniform),
            a@ == indices(all@, p, i as int),
            b@ == indices(all@, q, i as int),
            d@ == indices(all@, u, i as int),
        decreases all@.len() - i,
    {
        let c = all[i];
        if (c.first && c.second && !c.same) || c.first != c.second {
            a.push(i);
        }
        if c.first && c.second && !c.same && c.axis_differs && c.values_same {
            b.push(i);
            if c.uniform {
                d.push(i);
            }
        }
        i = i + 1;
    }
    Changes { changed: a, axis_changed_values_same: b, rescale_uniform: d }
}

/// What is suspected of not having been rescaled has changed.
pub proof fn law_suspects_have_changed(c: Comparison)
    ensures
        unscaled(c) ==> changed(c),
        !c.first && !c.second ==> !changed(c),
{
}

} // verus!
