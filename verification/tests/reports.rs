use ctxmenu::commands::{FileTypeInfo, Presence, ProgramGroup, Resolution, run_file_type, run_programs};
use ctxmenu::create::empty_child;
use ctxmenu::favourites::{ResultAction, ResultSource, WebMode, current_source, mode_index, result_index};
use ctxmenu::labels::TypeGroup;
use ctxmenu::model::{Category, ContextEntry, EntryKind, Scope};
use ctxmenu::services::blank_service;

fn entry(name: &str, category: Category) -> ContextEntry {
    ContextEntry {
        scope: Scope::User,
        category,
        key_name: name.to_lowercase(),
        display_name: name.to_string(),
        registry_path: String::new(),
        kind: EntryKind::Verb {
            command: None,
            sub_commands: Vec::new(),
        },
        read_only: false,
        hidden: false,
        extended: false,
        position: None,
    }
}

#[test]
fn a_file_type_report_walks_the_chain_and_adds_up() {
    let entries = vec![
        entry("Zip", Category::AllFiles),
        entry("View", Category::ExtAssoc(".png".into())),
    ];
    let info = FileTypeInfo {
        resolution: Resolution {
            ext: ".png".into(),
            registered: true,
            user_choice: Some("pngfile".into()),
            default_progid: None,
            effective_progid: Some("pngfile".into()),
            perceived_type: None,
            open_with_progids: vec!["a".into(), "b".into()],
        },
        group: TypeGroup::Images,
        entry_indices: vec![1],
    };
    let lines = run_file_type(&info, &entries, "0.25");
    let expected: Vec<String> = vec![
        ".png   Gruppe: Images".into(),
        "-".repeat(100),
        "registriert:        true".into(),
        "Nutzerwahl:         pngfile".into(),
        "Systemvorgabe:      \u{2014}".into(),
        "wirksame ProgID:    pngfile".into(),
        "PerceivedType:      \u{2014} (Ebene 3 entfällt)".into(),
        "OpenWithProgids:    a, b".into(),
        String::new(),
        "Ebenen 1-2, gelten fuer ALLE Dateien: 1 Einträge".into(),
        format!("    {:<7} {:<10} {}", "user", "verb", "Zip"),
        String::new(),
        "Ebenen 3-7, nur fuer .png: 1 Einträge".into(),
        format!("    {:<7} {:<10} {:<34} {}", "user", "verb", "View", "4 SystemFileAssociations\\.png"),
        String::new(),
        "Summe fuer einen Rechtsklick auf eine .png-Datei: 2 Einträge, ermittelt in 0.25 s".into(),
    ];
    assert_eq!(lines, expected);
}

#[test]
fn more_than_six_shared_entries_are_counted_not_listed() {
    let entries: Vec<ContextEntry> =
        (0..8).map(|i| entry(&format!("E{i}"), Category::AllFilesystemObjects)).collect();
    let info = FileTypeInfo {
        resolution: Resolution {
            ext: ".x".into(),
            registered: false,
            user_choice: None,
            default_progid: None,
            effective_progid: None,
            perceived_type: Some("text".into()),
            open_with_progids: Vec::new(),
        },
        group: TypeGroup::Other,
        entry_indices: Vec::new(),
    };
    let lines = run_file_type(&info, &entries, "1");
    assert!(lines.contains(&"    \u{2026} und 2 weitere".to_string()));
    assert!(lines.contains(&"PerceivedType:      text".to_string()));
    assert!(lines.contains(&"OpenWithProgids:    ".to_string()));
    assert_eq!(lines.last().unwrap(), "Summe fuer einen Rechtsklick auf eine .x-Datei: 8 Einträge, ermittelt in 1 s");
}

#[test]
fn the_program_report_counts_presence_and_marks_each_program() {
    let groups = vec![
        ProgramGroup {
            display_name: "Editor".into(),
            key: "C:\\e.exe".into(),
            locations: vec!["Directory".into(), "*".into()],
            is_system: true,
            read_only: false,
            clsids: vec!["{A}".into()],
            presence: Presence::Missing,
            entry_indices: vec![0, 2],
        },
        ProgramGroup {
            display_name: "Viewer".into(),
            key: "C:\\v.exe".into(),
            locations: vec!["Drive".into()],
            is_system: false,
            read_only: false,
            clsids: Vec::new(),
            presence: Presence::Present,
            entry_indices: vec![1],
        },
    ];
    let lines = run_programs(&groups, 5, "0.10", 7, 9);
    let expected: Vec<String> = vec![
        "2 Programme aus 5 Einträgen in 0.10 s (2 ohne zuordenbares Programm)".into(),
        "Namens-Cache: 7 Treffer / 9 Auflösungen".into(),
        "\u{1e}Programme vorhanden\u{1f}present\u{1d}: 1, \u{1e}nicht mehr da\u{1f}gone\u{1d}: 1, \u{1e}nicht prüfbar\u{1f}unknown\u{1d}: 0".into(),
        String::new(),
        format!("  2x  {:<42} [System, COM, \u{1e}nicht mehr vorhanden\u{1f}gone\u{1d}]", "Editor"),
        "      C:\\e.exe".into(),
        "      Directory  *".into(),
        format!("  1x  {:<42} ", "Viewer"),
        "      C:\\v.exe".into(),
        "      Drive".into(),
    ];
    assert_eq!(lines, expected);
}

#[test]
fn fresh_forms_start_empty() {
    let child = empty_child();
    assert!(child.key_name.is_empty() && child.display_name.is_empty() && child.command.is_empty());
    assert!(child.icon.is_none());
    let service = blank_service();
    assert!(service.name.is_empty() && service.spec_url.is_empty());
    assert!(service.allow_insecure, "a new service starts with the box ticked");
}

#[test]
fn the_form_switches_point_at_the_current_choice() {
    assert_eq!(mode_index(&WebMode::Clipboard { url: String::new() }), 0);
    assert_eq!(mode_index(&WebMode::Open { url: String::new() }), 1);
    let save = ResultAction::Save {
        source: ResultSource::Json { path: "data.url".into() },
        suffix: "_x".into(),
    };
    assert_eq!(result_index(&save), 0);
    assert_eq!(result_index(&ResultAction::Open { source: ResultSource::Body }), 1);
    assert_eq!(result_index(&ResultAction::Report), 2);
    assert!(matches!(current_source(&save), ResultSource::Json { path } if path == "data.url"));
    assert!(matches!(current_source(&ResultAction::Report), ResultSource::Body));
}
