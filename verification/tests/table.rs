use ctxmenu::cli::{flags, level_label, print_entry, truncate};
use ctxmenu::model::{Category, ContextEntry, EntryKind, Scope};
use ctxmenu::notes::plain_notes;
use ctxmenu::services::UpdateState;
use ctxmenu::window::count_all;

fn leaf(key: &str, display: &str, command: Option<&str>) -> ContextEntry {
    ContextEntry {
        scope: Scope::User,
        category: Category::AllFiles,
        key_name: key.to_string(),
        display_name: display.to_string(),
        registry_path: format!("HKCU\\Software\\Classes\\*\\shell\\{key}"),
        kind: EntryKind::Verb {
            command: command.map(|c| c.to_string()),
            sub_commands: Vec::new(),
        },
        read_only: false,
        hidden: false,
        extended: false,
        position: None,
    }
}

fn menu(key: &str, children: Vec<ContextEntry>) -> ContextEntry {
    let mut entry = leaf(key, key, None);
    entry.kind = EntryKind::Verb {
        command: None,
        sub_commands: children,
    };
    entry
}

#[test]
fn the_flag_column_names_what_is_set_and_the_start_of_a_position() {
    let mut entry = leaf("a", "A", Some("a.exe"));
    assert_eq!(flags(&entry), "");
    entry.read_only = true;
    entry.extended = true;
    assert_eq!(flags(&entry), "ro shift");
    entry.hidden = true;
    entry.position = Some("Bottom".to_string());
    assert_eq!(flags(&entry), "ro hid shift Bot");
}

#[test]
fn every_level_of_the_chain_has_its_number() {
    assert_eq!(level_label(&Category::AllFiles), "1 alle Dateien");
    assert_eq!(
        level_label(&Category::PerceivedType("image".to_string())),
        "3 wahrgenommener Typ (image)"
    );
    assert_eq!(
        level_label(&Category::ExtAssoc(".png".to_string())),
        "4 SystemFileAssociations\\.png"
    );
    assert_eq!(
        level_label(&Category::ProgId {
            prog_id: "pngfile".to_string(),
            from_ext: ".png".to_string()
        }),
        "5/7 ProgID pngfile"
    );
    assert_eq!(level_label(&Category::ExtDirect(".rar".to_string())), "6 .rar\\shell");
    assert_eq!(level_label(&Category::CommandStore), "\u{2014} Verbvorrat");
    assert_eq!(level_label(&Category::Drive), "Drive");
}

#[test]
fn a_width_of_one_leaves_only_the_ellipsis() {
    assert_eq!(truncate("abc", 1), "\u{2026}");
    assert_eq!(truncate("", 0), "");
}

#[test]
fn a_table_row_pads_every_column_and_a_submenu_is_indented() {
    let parent = menu("parent", vec![leaf("child", "Child", Some("c.exe"))]);
    let lines = print_entry(&parent, 0);
    assert_eq!(
        lines,
        [
            format!(
                "{:<7} {:<8} {:<22} {:<34} {:<7} {}",
                "user", "verb", "parent", "parent", "", "\u{2014}"
            ),
            format!(
                "{:<7} {:<8}   {:<22} {:<34} {:<7} {}",
                "user", "verb", "child", "Child", "", "c.exe"
            ),
        ]
    );
}

#[test]
fn a_long_key_name_is_cut_to_the_room_its_depth_leaves() {
    let entry = leaf("abcdefghijklmnopqrstuvwxyz", "D", Some("x"));
    let lines = print_entry(&entry, 1);
    assert_eq!(lines.len(), 1);
    assert!(lines[0].starts_with("user    verb       abcdefghijklmnopqrs\u{2026}   D"));
}

#[test]
fn counting_takes_every_line_of_every_submenu() {
    let entries = vec![
        leaf("a", "A", Some("a")),
        menu("b", vec![leaf("c", "C", None), menu("d", vec![leaf("e", "E", None)])]),
    ];
    assert_eq!(count_all(&entries), 5);
    assert_eq!(count_all(&[]), 0);
}

#[test]
fn windows_line_ends_do_not_leave_carriage_returns_behind() {
    assert_eq!(plain_notes("## Title\r\n\r\n\r\n* one\r\n"), "Title\n\n* one");
}

#[test]
fn only_a_running_worker_greys_out_the_buttons() {
    assert!(UpdateState::Checking.busy());
    assert!(UpdateState::Downloading.busy());
    assert!(UpdateState::Restarting.busy());
    assert!(!UpdateState::Unknown.busy());
    assert!(!UpdateState::Current.busy());
    assert!(!UpdateState::Available("1.2.0".to_string()).busy());
    assert!(!UpdateState::Failed("x".to_string()).busy());
}

#[test]
fn the_scan_summary_lists_every_scope_asked_for_even_when_empty() {
    let mut a = leaf("a", "A", Some("a"));
    let mut b = leaf("b", "B", Some("b"));
    let c = leaf("c", "C", Some("c"));
    a.scope = Scope::Machine;
    b.kind = EntryKind::ShellEx {
        clsid: "{B}".into(),
        server_path: None,
        blocked: false,
    };
    let entries = vec![a, b, c];
    let (per_scope, handlers, verbs) =
        ctxmenu::tally::scan_counts(&entries, &[Scope::User, Scope::Machine32]);
    assert_eq!(
        per_scope,
        vec![(Scope::Machine, 1), (Scope::Machine32, 0), (Scope::User, 2)]
    );
    assert_eq!((handlers, verbs), (1, 2));
    let (per_scope, _, _) = ctxmenu::tally::scan_counts(&[], &[]);
    assert!(per_scope.is_empty(), "nothing asked, nothing found");
}
