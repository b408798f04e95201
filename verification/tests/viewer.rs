//! The calibration browser.

use mqb_flash::a2l::parser::parse;
use mqb_flash::a2l::reader::{CharacteristicValues, Raw};
use mqb_flash::a2l::types::{A2lFile, CharacteristicType};
use mqb_flash::viewer::categories::{
    address_map_for, build_categories, category_marks, module_presets, Category, ModulePreset,
};
use mqb_flash::viewer::panels::{
    compute_changed_set, shape_name, type_tag, unit_for, view_compare_curve, view_compare_map,
    view_left_panel, view_right_panel, Body, Comparison, CurveLayout, MapLayout, Mark, RightPanel,
};
use mqb_flash::viewer::state::{
    passes_text, supply_count, update, Command, FileMsg, FilterMsg, Msg, Picked, State,
};
use mqb_flash::viewer::tables::{
    compare_curve_titles, delta_text, diff_map_table_with_axis_diff, map_table,
    map_table_with_axis_diff, slice_captions, view_ascii, view_compare, view_compare_ascii,
    view_compare_scalar, view_compare_val_blk, view_cuboid, view_curve, view_map, view_scalar,
    view_val_blk, view_val_blk_item, Cell, CompareLayout, Shape,
};

const TEXT: &[u8] = br#"
/begin PROJECT SC8
  /begin MODULE ENGINE

/begin COMPU_METHOD PRESSURE "" RAT_FUNC "%6.3" "kPa"
  COEFFS 0 128. 0. 0 0 1
/end COMPU_METHOD

/begin RECORD_LAYOUT VAL_U2
  FNC_VALUES 1 UWORD COLUMN_DIR DIRECT
/end RECORD_LAYOUT

/begin RECORD_LAYOUT CUR_F4
  NO_AXIS_PTS_X 1 FLOAT32_IEEE
  AXIS_PTS_X 2 UBYTE INDEX_INCR DIRECT
  FNC_VALUES 3 UBYTE COLUMN_DIR DIRECT
/end RECORD_LAYOUT

/begin CHARACTERISTIC alpha "First value" VALUE 0xA0800010 VAL_U2 1.0 PRESSURE 0. 1000.
  FORMAT "%6.3"
/end CHARACTERISTIC

/begin CHARACTERISTIC beta "" VALUE 0xA0800020 VAL_U2 1.0 PRESSURE 0. 1000.
/end CHARACTERISTIC

/begin CHARACTERISTIC gamma "Third" CURVE 0xA0800030 CUR_F4 1.0 PRESSURE 0. 1000.
  /begin AXIS_DESCR STD_AXIS NO_INPUT_QUANTITY PRESSURE 4 0. 255. /end AXIS_DESCR
/end CHARACTERISTIC

/begin FUNCTION PARENT "Parent function"
  /begin DEF_CHARACTERISTIC alpha /end DEF_CHARACTERISTIC
  /begin SUB_FUNCTION CHILD /end SUB_FUNCTION
/end FUNCTION

/begin FUNCTION CHILD ""
  /begin REF_CHARACTERISTIC beta /end REF_CHARACTERISTIC
/end FUNCTION

/begin FUNCTION LONE ""
  /begin DEF_CHARACTERISTIC gamma /end DEF_CHARACTERISTIC
/end FUNCTION

  /end MODULE
/end PROJECT
"#;

fn sample() -> A2lFile {
    parse(TEXT, &Vec::new()).unwrap()
}

fn firmware() -> Vec<u8> {
    let mut data = vec![0u8; 0x28_0000];
    data[0x20_0010..0x20_0012].copy_from_slice(&[0x00, 0x01]);
    data[0x20_0020] = 7;
    data[0x20_0030..0x20_0034].copy_from_slice(&2f32.to_le_bytes());
    data[0x20_0034..0x20_0038].copy_from_slice(&[10, 20, 30, 40]);
    data
}

fn loaded() -> State {
    let mut state = State::new();
    update(&mut state, Msg::File(FileMsg::A2lLoaded(Ok(sample()))));
    state
}

#[test]
fn functions_become_categories() {
    let a2l = sample();
    let (categories, sections) = build_categories(&a2l);
    let shown: Vec<(&str, &str)> =
        categories.iter().map(|c| (c.name.as_str(), c.label.as_str())).collect();
    assert_eq!(
        shown,
        vec![("LONE", "LONE"), ("PARENT", "PARENT \u{2014} Parent function")]
    );
    assert_eq!(sections, vec![vec!["PARENT"], vec!["PARENT"], vec!["LONE"]]);
    assert_eq!(category_marks(&a2l, "PARENT"), vec![true, true, false]);
    assert_eq!(category_marks(&a2l, "CHILD"), vec![false; 3]);
    assert_eq!(module_presets()[1].label(), "Simos18.10 (SCG)");
    assert_eq!(address_map_for(ModulePreset::Simos18)[5], (0xA080_0000, 0x20_0000, 0x07_FC00));
}

#[test]
fn the_list_follows_the_filters() {
    let mut state = loaded();
    assert_eq!(state.listing.filtered, vec![0, 1, 2]);
    update(&mut state, Msg::Filter(FilterMsg::FilterChanged("ALPH".to_owned())));
    assert_eq!((state.listing.filtered.clone(), state.listing.total_matches), (vec![0], 1));
    update(&mut state, Msg::Filter(FilterMsg::FilterChanged("third".to_owned())));
    assert_eq!(state.listing.filtered, vec![2]);
    update(&mut state, Msg::Filter(FilterMsg::FilterChanged(String::new())));
    let parent = Category { label: "x".to_owned(), name: "PARENT".to_owned() };
    update(&mut state, Msg::Filter(FilterMsg::CategoryChanged(parent)));
    assert_eq!(state.listing.filtered, vec![0, 1]);
    update(&mut state, Msg::Filter(FilterMsg::ClearCategory));
    assert_eq!(state.listing.filtered, vec![0, 1, 2]);
    assert!(passes_text("va", "alpha", "first value"));
    assert!(!passes_text("vb", "alpha", "first value"));
}

#[test]
fn the_selection_moves_along_the_list() {
    let mut state = loaded();
    let r = update(&mut state, Msg::SelectNext);
    assert_eq!(state.selection.selected, Some(0));
    assert!(matches!(r, Command::ScrollTo { position: 0, count: 3 }));
    update(&mut state, Msg::SelectNext);
    update(&mut state, Msg::SelectNext);
    let r = update(&mut state, Msg::SelectNext);
    assert_eq!(state.selection.selected, Some(2));
    assert!(matches!(r, Command::ScrollTo { position: 2, count: 3 }));
    update(&mut state, Msg::SelectPrev);
    assert_eq!(state.selection.selected, Some(1));
}

#[test]
fn a_selection_is_read_from_the_firmware() {
    let mut state = loaded();
    update(&mut state, Msg::SelectChar(0));
    assert!(state.selection.cached_values.is_none());
    let other = Some(ModulePreset::Simos1810);
    update(&mut state, Msg::File(FileMsg::BinLoaded(Ok(firmware()), other)));
    assert!(state.selection.cached_values.is_none());
    let module = Some(ModulePreset::Simos18);
    update(&mut state, Msg::File(FileMsg::BinLoaded(Ok(firmware()), module)));
    assert!(matches!(
        state.selection.cached_values,
        Some(CharacteristicValues::Scalar(Raw::Whole(256)))
    ));
    // A count that is stored as a floating point number comes from outside.
    update(&mut state, Msg::SelectChar(2));
    assert!(state.selection.cached_values.is_none());
    let raw = state.selection.uncounted.unwrap();
    assert_eq!(raw, Raw::Single(2f32.to_bits()));
    supply_count(&mut state, raw, 2);
    match &state.selection.cached_values {
        Some(CharacteristicValues::Curve { x, y }) => {
            assert_eq!(x.len(), 2);
            assert_eq!(y, &vec![Raw::Whole(30), Raw::Whole(40)]);
        }
        other => panic!("{other:?}"),
    }
}

#[test]
fn files_are_asked_for_and_loaded() {
    let mut state = State::new();
    assert_eq!(view_left_panel(&state).a2l_button, "Load A2L");
    assert!(matches!(update(&mut state, Msg::File(FileMsg::LoadA2l)), Command::PickA2l));
    assert_eq!(view_left_panel(&state).a2l_button, "Loading...");
    let picked = Picked { path: "/x/y.a2l".to_owned(), name: "y.a2l".to_owned() };
    match update(&mut state, Msg::File(FileMsg::A2lPicked(Some(picked)))) {
        Command::ReadA2l(path) => assert_eq!(path, "/x/y.a2l"),
        other => panic!("{other:?}"),
    }
    update(&mut state, Msg::File(FileMsg::A2lLoaded(Err("bad".to_owned()))));
    let panel = view_left_panel(&state);
    assert_eq!(panel.a2l_error.as_deref(), Some("bad"));
    assert_eq!(panel.a2l_line.as_deref(), Some("A2L: y.a2l"));
    assert!(panel.rows.is_none());
    assert!(matches!(update(&mut state, Msg::File(FileMsg::LoadBin)), Command::PickBin));
    assert!(matches!(
        update(&mut state, Msg::File(FileMsg::BinPicked(None))),
        Command::Nothing
    ));
    assert!(!state.bin_file.loading);
    assert!(matches!(update(&mut state, Msg::File(FileMsg::LoadBin2)), Command::PickBin2));
}

#[test]
fn two_firmwares_are_compared() {
    let mut state = loaded();
    update(&mut state, Msg::File(FileMsg::BinLoaded(Ok(firmware()), None)));
    let r = update(&mut state, Msg::File(FileMsg::Bin2Loaded(Ok(firmware()))));
    assert!(matches!(r, Command::ComputeChanges));
    assert!(state.display.compare_mode && state.display.computing_changes);
    let panel = view_left_panel(&state);
    assert_eq!(
        panel.compare.unwrap().changed_label.as_deref(),
        Some("Changed only (computing...)")
    );
    update(
        &mut state,
        Msg::ChangedSetComputed {
            changed: vec![0, 2],
            axis_changed_values_same: vec![2],
            rescale_uniform: vec![],
        },
    );
    update(&mut state, Msg::Filter(FilterMsg::ToggleChangedOnly(true)));
    assert_eq!(state.listing.filtered, vec![0, 2]);
    let panel = view_left_panel(&state);
    let rows = panel.rows.unwrap();
    assert_eq!(rows[0].mark, Mark::Changed);
    assert_eq!(rows[1].mark, Mark::Suspect);
    assert_eq!((rows[1].tag, rows[1].name.as_str()), ("C", "gamma"));
    let controls = panel.compare.unwrap();
    assert_eq!(controls.changed_label.as_deref(), Some("Changed only (2)"));
    assert_eq!(controls.rescale_label.as_deref(), Some("  !! 1 possible rescale issues"));
    update(&mut state, Msg::SelectChar(2));
    assert!(matches!(
        view_right_panel(&state),
        RightPanel::Details { body: Body::Compare { suspect: true }, .. }
    ));
    update(&mut state, Msg::ToggleCompare(false));
    assert!(!state.filter.show_changed_only);
    assert_eq!(state.listing.filtered, vec![0, 1, 2]);
}

#[test]
fn a_characteristic_is_described() {
    let mut state = State::new();
    assert!(matches!(view_right_panel(&state), RightPanel::LoadA2l));
    update(&mut state, Msg::File(FileMsg::A2lLoaded(Ok(sample()))));
    assert!(matches!(view_right_panel(&state), RightPanel::Select));
    assert_eq!(view_left_panel(&state).count.as_deref(), Some("3 characteristics"));
    update(&mut state, Msg::SelectChar(0));
    match view_right_panel(&state) {
        RightPanel::Details { name, description, section, shape, address, unit, format, body } => {
            assert_eq!(name, "alpha");
            assert_eq!(description.as_deref(), Some("First value"));
            assert_eq!(section.as_deref(), Some("Section: PARENT"));
            assert_eq!((shape, address.as_str()), ("Value", "0xA0800010"));
            assert_eq!((unit.as_str(), format.as_str()), ("unit=kPa", "fmt=%6.3"));
            assert_eq!(body, Body::Load);
        }
        other => panic!("{other:?}"),
    }
    assert_eq!(unit_for(&sample(), "NONE"), "");
    assert_eq!(type_tag(CharacteristicType::Cuboid), "3");
    assert_eq!(shape_name(CharacteristicType::Map2d), "Map");
}

#[test]
fn tables_have_a_cell_for_every_value() {
    assert_eq!(
        map_table(2, 1, &vec![2]),
        vec![
            vec![Cell::Corner, Cell::X(0), Cell::X(1)],
            vec![Cell::Y(0), Cell::Value { row: 0, col: 0 }, Cell::Value { row: 0, col: 1 }],
        ]
    );
    assert_eq!(
        map_table_with_axis_diff(1, 0, 2, 1, &vec![1])[0][1..],
        [Cell::XAgainst { index: 0, old: true }, Cell::XAgainst { index: 1, old: false }]
    );
    let diff = diff_map_table_with_axis_diff(2, 1, 2, 1, &vec![1], &vec![2]);
    assert_eq!(
        diff[1],
        vec![
            Cell::YAgainst { index: 0, old: true },
            Cell::Against { row: 0, col: 0, old: true },
            Cell::Against { row: 0, col: 1, old: false },
        ]
    );
}

#[test]
fn values_are_described() {
    let a2l = sample();
    let ch = &a2l.characteristics[0];
    let curve = &a2l.characteristics[2];
    assert_eq!(view_scalar(256, "2", ch, &a2l), "2 kPa");
    assert_eq!(view_ascii("ab"), "\"ab\"");
    assert_eq!(view_map(2, 3, ch, &a2l), "2x3 map (unit: kPa)");
    assert_eq!(view_cuboid(2, 3, 4, ch, &a2l), "2x3x4 cuboid (unit: kPa)");
    assert_eq!(view_val_blk(3, ch, &a2l), "3 values (unit: kPa)");
    assert_eq!(view_val_blk_item(1, 256, "2", ch, &a2l), "[1] 2");
    assert_eq!(
        view_curve(4, 3, curve, &a2l),
        (vec!["X (kPa)".to_owned(), "Y (kPa)".to_owned()], 3)
    );
    let captions = slice_captions(&vec!["1".to_owned()], 1, curve, &a2l);
    assert_eq!(captions.len(), 1);
    assert!(captions[0].starts_with("Z[0] = 1 "));
    assert_eq!(delta_text(true, "3"), "+3");
    assert_eq!(delta_text(false, "-3"), "-3");
}

#[test]
fn two_readings_are_laid_out() {
    let a2l = sample();
    let ch = &a2l.characteristics[0];
    let pair = view_compare(Some(Shape::Curve), Some(Shape::Curve));
    assert_eq!(pair, CompareLayout::Pair(Shape::Curve));
    let cuboids = view_compare(Some(Shape::Cuboid), Some(Shape::Cuboid));
    assert_eq!(cuboids, CompareLayout::Stacked);
    assert_eq!(view_compare(None, Some(Shape::Ascii)), CompareLayout::SecondOnly);
    assert_eq!(view_compare(Some(Shape::Ascii), None), CompareLayout::FirstOnly);
    assert_eq!(view_compare(None, None), CompareLayout::Neither);
    let texts = view_compare_ascii("a", "b");
    assert_eq!((texts.second.as_str(), texts.same), ("BIN 2:  \"b\"  (changed)", false));
    let same = view_compare_scalar(1, 1, "1", "1", "0", "0%", ch, &a2l);
    assert_eq!(same.first, "BIN 1:  1 kPa");
    let other = view_compare_scalar(1, 3, "1", "3", "+2", "+200%", ch, &a2l);
    assert_eq!(other.difference.as_deref(), Some("  (+2, +200%)"));
    assert_eq!(view_compare_val_blk(1, 2), vec![(true, true), (false, true)]);
    match view_compare_curve(3, 3, 4, 4, false, Some("rpm")) {
        CurveLayout::Apart { note } => {
            assert_eq!(note, "Axis sizes differ: 3 vs 4 points (rpm)");
        }
        other => panic!("{other:?}"),
    }
    assert!(matches!(view_compare_curve(3, 3, 3, 3, true, None), CurveLayout::Aligned { rows: 3 }));
    let shifted = view_compare_curve(3, 3, 3, 3, false, None);
    match &shifted {
        CurveLayout::Shifted { note, rows } => {
            assert_eq!((note.as_str(), *rows), ("Axis breakpoints differ between BINs", 3));
        }
        other => panic!("{other:?}"),
    }
    assert_eq!(compare_curve_titles(&shifted, "rpm", "kPa").len(), 7);
    assert!(matches!(
        view_compare_map(2, 2, 2, 2, true, true, None, None),
        MapLayout::Aligned
    ));
    match view_compare_map(2, 2, 3, 2, false, true, None, None) {
        MapLayout::Apart { note, .. } => {
            assert_eq!(
                note,
                "Grid size: 2x2 \u{2192} 3x2 \u{b7} X-axis breakpoints changed"
            );
        }
        other => panic!("{other:?}"),
    }
}

#[test]
fn what_changed_is_told() {
    let c = Comparison {
        first: true,
        second: true,
        same: false,
        axis_differs: true,
        values_same: true,
        uniform: true,
    };
    let all = vec![
        c,
        Comparison { same: true, ..c },
        Comparison { second: false, ..c },
        Comparison { values_same: false, ..c },
        Comparison { uniform: false, ..c },
        Comparison { first: false, second: false, ..c },
    ];
    let r = compute_changed_set(&all);
    assert_eq!(r.changed, vec![0, 2, 3, 4]);
    assert_eq!(r.axis_changed_values_same, vec![0, 4]);
    assert_eq!(r.rescale_uniform, vec![0]);
}

#[test]
fn another_module_is_read_by_its_own_blocks() {
    let mut state = loaded();
    // The choice counts before a firmware is there.
    let other = ModulePreset::Simos1810;
    assert!(matches!(update(&mut state, Msg::ModuleChanged(other)), Command::Nothing));
    assert_eq!(state.loaded.module, other);
    assert_eq!(state.loaded.address_map, address_map_for(other));
    update(&mut state, Msg::SelectChar(0));
    update(&mut state, Msg::File(FileMsg::BinLoaded(Ok(firmware()), None)));
    assert!(state.selection.cached_values.is_none());
    update(&mut state, Msg::ModuleChanged(ModulePreset::Simos18));
    assert!(matches!(
        state.selection.cached_values,
        Some(CharacteristicValues::Scalar(Raw::Whole(256)))
    ));
    update(&mut state, Msg::File(FileMsg::Bin2Loaded(Ok(firmware()))));
    assert!(matches!(update(&mut state, Msg::ModuleChanged(other)), Command::ComputeChanges));
}
