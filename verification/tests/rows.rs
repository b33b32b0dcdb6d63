use ctxmenu::glyphs::{Glyphs, feather};
use ctxmenu::i18n::strings_for;
use ctxmenu::labels::{appears_on, sort_key};
use ctxmenu::model::{Category, ContextEntry, EntryKind, Scope};
use ctxmenu::outcome::{Agreement, agreement};
use ctxmenu::selection::{Selection, apply_click};
use ctxmenu::services::services_from_load;
use ctxmenu::settings::Language;
use ctxmenu::window::{Row, SortBy, matches_search, push_with_children, resolve};

/// One generated entry, the way the benchmark fills the table.
fn synthetic(i: usize) -> ContextEntry {
    let key = format!("synthetic{i:05}");
    ContextEntry {
        scope: Scope::User,
        category: Category::AllFiles,
        key_name: key.clone(),
        display_name: format!("Synthetic Entry {i}"),
        registry_path: format!("HKCU\\Software\\Classes\\*\\shell\\{key}"),
        kind: EntryKind::Verb {
            command: Some(format!("\"C:\\Synthetic\\tool{i}.exe\" \"%1\"")),
            sub_commands: Vec::new(),
        },
        read_only: false,
        hidden: i % 3 == 0,
        extended: false,
        position: None,
    }
}

fn scan_result(count: usize) -> Vec<ContextEntry> {
    (0..count).map(synthetic).collect()
}

/// A parent with one child and one grandchild.
fn cascading() -> ContextEntry {
    fn leaf(name: &str, kids: Vec<ContextEntry>) -> ContextEntry {
        let mut entry = synthetic(0);
        entry.display_name = name.to_string();
        entry.key_name = name.to_string();
        entry.kind = EntryKind::Verb {
            command: None,
            sub_commands: kids,
        };
        entry
    }

    leaf(
        "Eltern",
        vec![leaf("Kind", vec![leaf("Enkelkind", Vec::new())])],
    )
}

/// A selection of the top rows with these indices.
fn rows(indices: &[usize]) -> Selection {
    let mut selection = Selection::new();
    for &i in indices {
        selection.insert(&Row::top(i));
    }
    selection
}

/// Holds exactly the top rows with these indices.
fn holds_exactly(selection: &Selection, indices: &[usize]) -> bool {
    selection.len() == indices.len() && indices.iter().all(|&i| selection.contains(&Row::top(i)))
}

#[test]
fn clicking_selects_the_way_explorer_does() {
    let visible: Vec<Row> = (0..6).map(Row::top).collect();
    let mut selected = Selection::new();
    let mut anchor = None;

    // Plain click: this row, and nothing else.
    apply_click(&mut selected, &mut anchor, &visible, &visible[1], false, false);
    assert!(holds_exactly(&selected, &[1]));
    assert_eq!(anchor, Some(visible[1].clone()));

    // Shift: the span from the anchor, anchor unmoved.
    apply_click(&mut selected, &mut anchor, &visible, &visible[4], false, true);
    assert!(holds_exactly(&selected, &[1, 2, 3, 4]));
    assert_eq!(
        anchor,
        Some(visible[1].clone()),
        "the anchor stays where the range started"
    );

    // A second Shift-click measures from the same anchor.
    apply_click(&mut selected, &mut anchor, &visible, &visible[0], false, true);
    assert!(holds_exactly(&selected, &[0, 1]));

    // Ctrl toggles a single row and moves the anchor there.
    apply_click(&mut selected, &mut anchor, &visible, &visible[5], true, false);
    assert!(holds_exactly(&selected, &[0, 1, 5]));
    assert_eq!(anchor, Some(visible[5].clone()));
    apply_click(&mut selected, &mut anchor, &visible, &visible[5], true, false);
    assert!(holds_exactly(&selected, &[0, 1]), "clicking it again takes it out");

    // Ctrl and Shift together add a range instead of replacing.
    apply_click(&mut selected, &mut anchor, &visible, &visible[3], true, true);
    assert!(holds_exactly(&selected, &[0, 1, 3, 4, 5]));
}

#[test]
fn a_shift_click_without_an_anchor_behaves_like_a_plain_one() {
    let visible: Vec<Row> = (0..4).map(Row::top).collect();
    let mut selected = rows(&[0, 1, 2]);
    let mut anchor = None;

    apply_click(&mut selected, &mut anchor, &visible, &visible[3], false, true);

    assert!(holds_exactly(&selected, &[3]));
    assert_eq!(anchor, Some(visible[3].clone()), "and it sets one");
}

#[test]
fn the_selection_holds_children_as_well_as_entries() {
    let mut selection = Selection::new();
    let parent = Row::top(7);
    let first_child = Row {
        entry: 7,
        path: vec![0],
    };
    let second_child = Row {
        entry: 7,
        path: vec![1],
    };

    selection.insert(&parent);
    selection.insert(&first_child);
    selection.insert(&second_child);
    assert_eq!(selection.len(), 3, "three distinct rows of one entry");

    selection.remove(&first_child);
    assert!(selection.contains(&parent), "the parent stays");
    assert!(selection.contains(&second_child), "the sibling stays");
    assert!(!selection.contains(&first_child));
}

#[test]
fn inserting_twice_and_removing_what_is_not_there_report_it() {
    let mut selection = Selection::new();
    assert!(selection.insert(&Row::top(2)));
    assert!(!selection.insert(&Row::top(2)), "already selected");
    assert_eq!(selection.len(), 1);
    assert!(!selection.remove(&Row::top(3)), "never selected");
    assert!(selection.remove(&Row::top(2)));
    assert_eq!(selection.len(), 0);
}

#[test]
fn a_ctrl_click_twice_leaves_the_selection_as_it_was() {
    let visible: Vec<Row> = (0..5).map(Row::top).collect();
    let mut selected = rows(&[0, 2]);
    let mut anchor = Some(visible[0].clone());
    apply_click(&mut selected, &mut anchor, &visible, &visible[2], true, false);
    apply_click(&mut selected, &mut anchor, &visible, &visible[2], true, false);
    assert!(holds_exactly(&selected, &[0, 2]));
    assert_eq!(anchor, Some(visible[2].clone()));
}

#[test]
fn a_shift_click_on_a_row_that_is_not_visible_selects_only_that_row() {
    let visible: Vec<Row> = (0..3).map(Row::top).collect();
    let mut selected = rows(&[0]);
    let mut anchor = Some(visible[0].clone());
    let hidden = Row::top(9);
    apply_click(&mut selected, &mut anchor, &visible, &hidden, false, true);
    assert!(holds_exactly(&selected, &[9]));
    assert_eq!(anchor, Some(hidden));
}

#[test]
fn agreement_needs_something_to_agree_about() {
    assert_eq!(agreement(&Vec::<bool>::new()), Agreement::Empty);
    assert_eq!(agreement(&[true]), Agreement::Same(true));
    assert_eq!(agreement(&[false, false, false]), Agreement::Same(false));
    assert_eq!(agreement(&[true, false]), Agreement::Mixed);
}

#[test]
fn a_failed_service_load_is_kept_as_an_error_not_swallowed_into_an_empty_list() {
    let (services, error) = services_from_load(Err(anyhow::Error::msg("kaputt")));
    assert!(services.is_empty());
    assert!(
        error.is_some(),
        "a load failure must be shown, not silently turned into an empty list"
    );

    let (services, error) = services_from_load(Ok(Vec::new()));
    assert!(services.is_empty());
    assert!(error.is_none(), "an empty list is not itself an error");
}

#[test]
fn a_failed_load_says_what_went_wrong_down_the_whole_chain() {
    let failure = anyhow::Error::msg("unexpected end of file").context("services.json");
    let (_, error) = services_from_load(Err(failure));
    assert_eq!(error.as_deref(), Some("services.json: unexpected end of file"));
}

#[test]
fn every_icon_the_bar_asks_for_exists_in_the_pack() {
    let missing: Vec<&str> = Glyphs::NAMES
        .iter()
        .copied()
        .filter(|name| feather(name) == ' ')
        .collect();

    assert!(missing.is_empty(), "not in Feather: {missing:?}");
}

#[test]
fn a_name_the_pack_does_not_carry_comes_back_as_a_space() {
    assert_eq!(feather("no-such-icon-anywhere"), ' ');
    assert_ne!(feather("trash-2"), ' ');
}

#[test]
fn every_row_of_a_submenu_can_be_resolved_and_labelled() {
    let de = strings_for(Language::German);
    let parent = cascading();
    let mut rows = Vec::new();
    push_with_children(&mut rows, &parent, Row::top(0));

    let mut scan = scan_result(1);
    scan[0] = parent;

    for row in &rows {
        let entry = resolve(&scan, row).expect("row fits");
        assert!(!appears_on(entry, &de).is_empty());
        assert!(!sort_key(entry, SortBy::Name, &de).is_empty());
    }
}

#[test]
fn a_submenu_becomes_one_row_per_level() {
    let parent = cascading();
    let mut rows = Vec::new();
    push_with_children(&mut rows, &parent, Row::top(7));

    assert_eq!(rows.len(), 3, "parent, child and grandchild");
    assert!(rows.iter().all(|r| r.entry == 7), "all belong to one entry");
    assert_eq!(rows[0].path, Vec::<usize>::new());
    assert_eq!(rows[1].path, vec![0]);
    assert_eq!(rows[2].path, vec![0, 0]);

    // Exactly one selectable row: a child key is not a target of its own.
    assert_eq!(rows.iter().filter(|r| r.path.is_empty()).count(), 1);
}

#[test]
fn a_row_resolves_to_the_entry_it_names() {
    let mut scan = scan_result(3);
    scan[1] = cascading();

    let mut rows = Vec::new();
    push_with_children(&mut rows, &scan[1], Row::top(1));

    let names: Vec<&str> = rows
        .iter()
        .map(|row| resolve(&scan, row).expect("row fits").display_name.as_str())
        .collect();
    assert_eq!(names, ["Eltern", "Kind", "Enkelkind"]);

    // A path that no longer fits must not panic; it is dropped for a frame.
    assert!(
        resolve(
            &scan,
            &Row {
                entry: 1,
                path: vec![9]
            }
        )
        .is_none()
    );
}

#[test]
fn a_row_past_the_end_of_the_scan_resolves_to_nothing() {
    let scan = scan_result(2);
    assert!(resolve(&scan, &Row::top(2)).is_none());
    assert_eq!(
        resolve(&scan, &Row::top(1)).map(|e| e.key_name.as_str()),
        Some("synthetic00001")
    );
}

#[test]
fn searching_finds_an_entry_by_the_name_of_its_child() {
    let parent = cascading();

    assert!(matches_search(&parent, "enkelkind"));
    assert!(matches_search(&parent, "kind"));
    assert!(!matches_search(&parent, "gibt es nicht"));
}
