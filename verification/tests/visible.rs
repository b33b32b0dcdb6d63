use ctxmenu::commands::{FileTypeInfo, Presence, ProgramGroup, Resolution};
use ctxmenu::i18n::strings_for;
use ctxmenu::labels::TypeGroup;
use ctxmenu::model::{Category, ContextEntry, EntryKind, Scope};
use ctxmenu::settings::Language;
use ctxmenu::table::{TableState, rebuild_visible, visible_entries};
use ctxmenu::window::{Row, SortBy, Tab};

fn entry(name: &str, category: Category) -> ContextEntry {
    ContextEntry {
        scope: Scope::User,
        category,
        key_name: name.to_lowercase(),
        display_name: name.to_string(),
        registry_path: format!("HKCU\\Software\\Classes\\x\\shell\\{name}"),
        kind: EntryKind::Verb {
            command: Some(format!("{name}.exe")),
            sub_commands: Vec::new(),
        },
        read_only: false,
        hidden: false,
        extended: false,
        position: None,
    }
}

fn file_type(ext: &str, indices: Vec<usize>) -> FileTypeInfo {
    FileTypeInfo {
        resolution: Resolution {
            ext: ext.to_string(),
            registered: true,
            user_choice: None,
            default_progid: None,
            effective_progid: None,
            perceived_type: None,
            open_with_progids: Vec::new(),
        },
        group: TypeGroup::Images,
        entry_indices: indices,
    }
}

fn program(name: &str, indices: Vec<usize>) -> ProgramGroup {
    ProgramGroup {
        display_name: name.to_string(),
        key: format!("C:\\{name}.exe"),
        locations: Vec::new(),
        is_system: false,
        read_only: false,
        clsids: Vec::new(),
        presence: Presence::Present,
        entry_indices: indices,
    }
}

fn state(tab: Tab) -> TableState {
    TableState {
        tab,
        search: String::new(),
        selected_category: None,
        selected_ext: None,
        selected_group: None,
        include_generic: false,
        sort: SortBy::Natural,
        ascending: true,
    }
}

/// Two base entries, two for `.png`, one every file gets.
fn scan() -> Vec<ContextEntry> {
    vec![
        entry("Open", Category::Directory),
        entry("Zip", Category::AllFiles),
        entry("View", Category::ExtAssoc(".png".into())),
        entry("Edit", Category::ExtAssoc(".png".into())),
        entry("Print", Category::Drive),
    ]
}

#[test]
fn the_category_tab_lists_the_base_categories_or_the_one_picked() {
    let tr = strings_for(Language::English);
    let entries = scan();
    let all = visible_entries(&entries, &[], &[], &state(Tab::Categories), &tr);
    assert_eq!(all, vec![0, 1, 4]);

    let mut picked = state(Tab::Categories);
    picked.selected_category = Some(Category::ExtAssoc(".png".into()));
    assert_eq!(visible_entries(&entries, &[], &[], &picked, &tr), vec![2, 3]);
}

#[test]
fn a_file_type_lists_its_own_entries_first_and_the_generic_ones_only_on_request() {
    let tr = strings_for(Language::English);
    let entries = scan();
    let types = vec![file_type(".jpg", vec![1]), file_type(".png", vec![3, 2])];

    // Nothing picked, nothing typed: nothing to show.
    assert!(visible_entries(&entries, &types, &[], &state(Tab::FileTypes), &tr).is_empty());

    let mut png = state(Tab::FileTypes);
    png.selected_ext = Some(".png".into());
    assert_eq!(visible_entries(&entries, &types, &[], &png, &tr), vec![3, 2]);

    png.include_generic = true;
    assert_eq!(visible_entries(&entries, &types, &[], &png, &tr), vec![3, 2, 1]);
}

#[test]
fn a_search_widens_an_empty_tab_and_lists_a_shared_entry_once() {
    let tr = strings_for(Language::English);
    let entries = scan();
    // Entry 2 belongs to both types, the way a perceived-type handler does.
    let types = vec![file_type(".jpg", vec![2, 1]), file_type(".png", vec![3, 2])];
    let mut typed = state(Tab::FileTypes);
    typed.search = "  ".into();
    assert!(visible_entries(&entries, &types, &[], &typed, &tr).is_empty(), "blank is no search");
    typed.search = " e ".into();
    // "e" is in View, Edit and in every command line ending in .exe.
    assert_eq!(visible_entries(&entries, &types, &[], &typed, &tr), vec![2, 1, 3]);
    typed.search = "VIEW".into();
    assert_eq!(
        visible_entries(&entries, &types, &[], &typed, &tr),
        vec![2],
        "the table compares in lower case, whatever was typed"
    );
}

#[test]
fn the_program_tab_shows_the_picked_program_or_every_program_when_searching() {
    let tr = strings_for(Language::English);
    let entries = scan();
    let groups = vec![program("a", vec![0, 4]), program("b", vec![4, 1])];
    let mut tab = state(Tab::Programs);
    assert!(visible_entries(&entries, &[], &groups, &tab, &tr).is_empty());
    tab.selected_group = Some(1);
    assert_eq!(visible_entries(&entries, &[], &groups, &tab, &tr), vec![4, 1]);
    tab.selected_group = Some(7);
    assert!(visible_entries(&entries, &[], &groups, &tab, &tr).is_empty());
    tab.selected_group = None;
    tab.search = "exe".into();
    assert_eq!(visible_entries(&entries, &[], &groups, &tab, &tr), vec![0, 4, 1]);
}

#[test]
fn the_other_tabs_have_no_rows_of_entries() {
    let tr = strings_for(Language::English);
    let entries = scan();
    for tab in [Tab::Favourites, Tab::Services, Tab::Backups] {
        assert!(visible_entries(&entries, &[], &[], &state(tab), &tr).is_empty());
    }
}

#[test]
fn sorting_by_name_goes_either_way_and_keeps_equal_keys_in_their_order() {
    let tr = strings_for(Language::English);
    let mut entries = scan();
    entries[4].display_name = "open".into();
    let mut sorted = state(Tab::Categories);
    sorted.sort = SortBy::Name;
    // Open (0), Zip (1), open (4): the two "open" keep 0 before 4.
    assert_eq!(visible_entries(&entries, &[], &[], &sorted, &tr), vec![0, 4, 1]);
    sorted.ascending = false;
    assert_eq!(visible_entries(&entries, &[], &[], &sorted, &tr), vec![1, 0, 4]);
}

#[test]
fn a_submenu_follows_its_parent_whatever_the_order() {
    let tr = strings_for(Language::English);
    let mut entries = scan();
    entries[0].kind = EntryKind::Verb {
        command: None,
        sub_commands: vec![entry("Child", Category::Directory)],
    };
    let mut sorted = state(Tab::Categories);
    sorted.sort = SortBy::Name;
    sorted.ascending = false;
    let rows = rebuild_visible(&entries, &[], &[], &sorted, &tr);
    assert_eq!(
        rows,
        vec![
            Row::top(1),
            Row::top(4),
            Row::top(0),
            Row {
                entry: 0,
                path: vec![0]
            },
        ]
    );
}
