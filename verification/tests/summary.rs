use ctxmenu::model::{Category, ContextEntry, EntryKind, Scope};
use ctxmenu::outcome::Agreement;
use ctxmenu::plan::{Step, breadth_of_plan};
use ctxmenu::summary::selection_state;
use ctxmenu::window::Row;

/// Generated entries, the way the benchmark fills the table: every third one
/// hidden, every fourth a COM handler, every eighth of those blocked.
fn scan_result(count: usize) -> Vec<ContextEntry> {
    (0..count)
        .map(|i| {
            let key = format!("synthetic{i:05}");
            let kind = if i % 4 == 3 {
                EntryKind::ShellEx {
                    clsid: format!("{{00000000-0000-0000-0000-{i:012}}}"),
                    server_path: Some(format!("C:\\Synthetic\\handler{i}.dll")),
                    blocked: i % 8 == 3,
                }
            } else {
                EntryKind::Verb {
                    command: Some(format!("\"C:\\Synthetic\\tool{i}.exe\" \"%1\"")),
                    sub_commands: Vec::new(),
                }
            };
            ContextEntry {
                scope: Scope::User,
                category: Category::AllFiles,
                key_name: key.clone(),
                display_name: format!("Synthetic Entry {i}"),
                registry_path: format!("HKCU\\Software\\Classes\\*\\shell\\{key}"),
                kind,
                read_only: false,
                hidden: i % 3 == 0,
                extended: false,
                position: None,
            }
        })
        .collect()
}

fn rows(indices: &[usize]) -> Vec<Row> {
    indices.iter().map(|&i| Row::top(i)).collect()
}

fn all(n: usize) -> Vec<bool> {
    vec![true; n]
}

#[test]
fn an_empty_selection_leaves_every_switch_without_a_current_segment() {
    let scan = scan_result(8);
    let state = selection_state(Some(&scan), &rows(&[]), &all(0));

    assert_eq!(state.count, 0);
    assert_eq!(state.resolved, 0);
    assert_eq!(state.hidden, Agreement::Empty);
    assert_eq!(state.extended, Agreement::Empty);
    assert_eq!(state.blocked, Agreement::Empty);
    assert_eq!(state.position, Agreement::Empty);
}

#[test]
fn a_selection_that_agrees_says_so() {
    let mut scan = scan_result(8);
    for entry in &mut scan {
        entry.hidden = true;
        entry.extended = false;
        entry.position = Some("Top".into());
    }

    let state = selection_state(Some(&scan), &rows(&[0, 1, 2]), &all(3));

    assert_eq!(state.count, 3);
    assert_eq!(state.resolved, 3);
    assert_eq!(state.hidden, Agreement::Same(true));
    assert_eq!(state.extended, Agreement::Same(false));
    assert_eq!(state.position, Agreement::Same(Some("Top".to_string())));
}

#[test]
fn one_dissenter_is_enough_to_light_no_segment() {
    let mut scan = scan_result(8);
    for entry in &mut scan {
        entry.hidden = true;
    }
    scan[2].hidden = false;

    let state = selection_state(Some(&scan), &rows(&[0, 1, 2]), &all(3));

    assert_eq!(state.hidden, Agreement::Mixed);
}

#[test]
fn a_selection_without_a_com_handler_has_no_blocked_state_at_all() {
    let scan = scan_result(8);
    let verbs = selection_state(Some(&scan), &rows(&[0, 1, 2]), &all(3));
    assert_eq!(verbs.blockable, 0);
    assert_eq!(
        verbs.blocked,
        Agreement::Empty,
        "no CLSID means no answer, not the answer 'free'"
    );

    let mixed = selection_state(Some(&scan), &rows(&[0, 1, 3]), &all(3));
    assert_eq!(mixed.blockable, 1);
    assert_eq!(mixed.blocked, Agreement::Same(true), "entry 3 is blocked");
}

#[test]
fn a_row_the_scan_no_longer_knows_is_counted_but_not_read() {
    let scan = scan_result(4);
    let state = selection_state(Some(&scan), &rows(&[0, 99]), &all(2));

    assert_eq!(state.count, 2, "the user did select two rows");
    assert_eq!(state.resolved, 1, "one of them no longer exists");
}

#[test]
fn read_only_rows_are_counted_rather_than_dropped() {
    let mut scan = scan_result(4);
    scan[0].read_only = true;
    scan[1].read_only = true;

    let state = selection_state(Some(&scan), &rows(&[0, 1, 2]), &all(3));

    assert_eq!(state.read_only, 2);
    assert_eq!(state.resolved, 3);
}

#[test]
fn without_a_scan_only_the_count_is_known() {
    let state = selection_state(None, &rows(&[0, 1]), &all(2));

    assert_eq!(state.count, 2);
    assert_eq!(state.resolved, 0);
    assert_eq!(state.changeable, 0);
    assert_eq!(state.hidden, Agreement::Empty);
}

#[test]
fn only_addressable_rows_count_as_changeable() {
    let scan = scan_result(4);
    let state = selection_state(Some(&scan), &rows(&[0, 1, 2]), &[true, false, true]);
    assert_eq!(state.changeable, 2);
}

/// A one-step plan aimed at an entry.
fn plan_against(entry: &ContextEntry) -> Vec<Step> {
    vec![Step {
        row: 0,
        registry_path: entry.registry_path.clone(),
        clsid: None,
        display_name: entry.display_name.clone(),
        packaged: false,
    }]
}

#[test]
fn deleting_an_entry_that_applies_to_every_file_says_how_far_it_reaches() {
    let mut entries = scan_result(4);
    entries[0].category = Category::AllFiles;
    entries[1].category = Category::AllFilesystemObjects;
    entries[2].category = Category::ExtAssoc(".zip".into());

    assert_eq!(breadth_of_plan(&plan_against(&entries[0]), &entries, 98), Some(98));
    assert_eq!(breadth_of_plan(&plan_against(&entries[1]), &entries, 98), Some(98));
    assert_eq!(breadth_of_plan(&plan_against(&entries[2]), &entries, 98), None);
}

#[test]
fn without_a_file_type_scan_there_is_no_number_to_show() {
    let mut entries = scan_result(2);
    entries[0].category = Category::AllFiles;
    assert_eq!(breadth_of_plan(&plan_against(&entries[0]), &entries, 0), None);
}

#[test]
fn the_warning_follows_the_plan_not_the_selection() {
    let mut entries = scan_result(3);
    entries[0].category = Category::AllFiles;
    entries[1].category = Category::Directory;

    let plan = plan_against(&entries[1]);
    assert_eq!(breadth_of_plan(&plan, &entries, 98), None);
}

#[test]
fn registry_paths_are_matched_case_insensitively() {
    let mut entries = scan_result(2);
    entries[0].category = Category::AllFiles;
    let plan = plan_against(&entries[0]);
    entries[0].registry_path = entries[0].registry_path.to_uppercase();

    assert_eq!(breadth_of_plan(&plan, &entries, 98), Some(98));
}
