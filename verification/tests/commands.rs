use ctxmenu::bilingual::pick;
use ctxmenu::commands::{
    Backup, BackupManifest, Recorded, missing_key, run_apply, run_backups, run_create,
    run_created, run_delete, run_restore,
};
use ctxmenu::create::{NewChild, NewEntry};
use ctxmenu::model::{Action, Category, OperationResult, Report};
use ctxmenu::outcome::RestoreReport;
use ctxmenu::settings::Language;

fn english(lines: &[String]) -> Vec<String> {
    lines.iter().map(|line| pick(line, Language::English).into_owned()).collect()
}

fn german(lines: &[String]) -> Vec<String> {
    lines.iter().map(|line| pick(line, Language::German).into_owned()).collect()
}

fn entry(display_name: &str, command: &str, children: Vec<NewChild>) -> NewEntry {
    NewEntry {
        category: Category::Directory,
        key_name: "ctxmenu_x".to_string(),
        display_name: display_name.to_string(),
        command: command.to_string(),
        icon: None,
        position: None,
        extended: false,
        children,
    }
}

fn child(display_name: &str, command: &str) -> NewChild {
    NewChild {
        key_name: format!("01_{display_name}"),
        display_name: display_name.to_string(),
        command: command.to_string(),
        icon: None,
    }
}

#[test]
fn a_restore_names_every_file_that_did_not_come_back() {
    let report = RestoreReport {
        restored: 3,
        removed: 1,
        failures: vec!["a.reg: access denied".to_string()],
    };
    let lines = run_restore("C:\\Backups\\2024", &report);
    assert_eq!(
        english(&lines),
        [
            "3 Datei(en) restored from C:\\Backups\\2024",
            "1 keys removed that did not exist when the backup was taken",
            "  FEHL a.reg: access denied",
            "note: reg import adds and overwrites, it never removes.",
        ]
    );
    assert_eq!(report.failed(), 1);
}

#[test]
fn a_restore_that_removed_nothing_does_not_mention_it() {
    let report = RestoreReport {
        restored: 2,
        removed: 0,
        failures: Vec::new(),
    };
    let lines = run_restore("D", &report);
    assert_eq!(
        german(&lines),
        [
            "2 Datei(en) zurückgespielt D",
            "Hinweis: reg import fügt hinzu und überschreibt, entfernt aber nichts.",
        ]
    );
}

#[test]
fn no_backups_says_where_they_would_be() {
    let lines = run_backups("C:\\ctxmenu\\backups", &Vec::new());
    assert_eq!(english(&lines), ["no backups yet in C:\\ctxmenu\\backups"]);
}

#[test]
fn each_backup_lists_its_keys_and_its_notes() {
    let backups = vec![Backup {
        directory: "C:\\b\\1".to_string(),
        manifest: BackupManifest {
            created_at: "2024-05-01 12:00:00".to_string(),
            action: "delete".to_string(),
            entries: vec!["HKCU\\A".to_string(), "HKCU\\B".to_string()],
            missing: 1,
            notes: vec!["partial".to_string()],
        },
    }];
    let lines = run_backups("root", &backups);
    assert_eq!(
        lines,
        [
            "2024-05-01 12:00:00  delete               2 Schlüssel, 1 fehlten beim Export",
            "    C:\\b\\1",
            "      HKCU\\A",
            "      HKCU\\B",
            "      ! partial",
        ]
    );
}

#[test]
fn nothing_created_says_so() {
    assert_eq!(english(&run_created(&Vec::new())), ["nothing created yet"]);
}

#[test]
fn a_created_submenu_lists_its_lines_under_its_name() {
    let recorded = vec![
        Recorded {
            entry: entry("Tools", "", vec![child("Eins", "a.exe"), child("Zwei", "b.exe")]),
            location: "Directory".to_string(),
        },
        Recorded {
            entry: entry("Plain", "c.exe \"%1\"", Vec::new()),
            location: "*".to_string(),
        },
    ];
    let lines = run_created(&recorded);
    assert_eq!(
        lines,
        [
            format!("{:<28} Directory", "Tools"),
            format!("    \u{21b3} {:<22} a.exe", "Eins"),
            format!("    \u{21b3} {:<22} b.exe", "Zwei"),
            format!("{:<28} *", "Plain"),
            "    c.exe \"%1\"".to_string(),
        ]
    );
}

#[test]
fn a_missing_key_is_named_in_both_languages() {
    let text = missing_key("HKCU\\X");
    assert_eq!(pick(&text, Language::German), "Schlüssel existiert nicht: HKCU\\X");
    assert_eq!(pick(&text, Language::English), "key does not exist: HKCU\\X");
}

#[test]
fn a_delete_without_yes_only_says_what_it_would_do() {
    let lines = run_delete("HKCU\\X", false, "");
    assert_eq!(
        english(&lines),
        [
            "would back up and delete:",
            "  HKCU\\X",
            "append --yes to execute.",
        ]
    );
}

#[test]
fn a_confirmed_delete_says_how_to_get_it_back() {
    let lines = run_delete("HKCU\\X", true, "C:\\b\\7");
    assert_eq!(
        english(&lines),
        [
            "Backup: C:\\b\\7",
            "deleted: HKCU\\X",
            "restore with: ctxmenu restore \"C:\\b\\7\"",
        ]
    );
}

#[test]
fn an_action_preview_says_whether_windows_will_ask() {
    let lines = run_apply("hide", "HKLM\\Y", true, None);
    assert_eq!(
        english(&lines),
        [
            "would apply: hide",
            "  HKLM\\Y",
            "  elevation required: yes",
            "append --yes to execute.",
        ]
    );
    let lines = run_apply("show", "HKCU\\Y", false, None);
    assert_eq!(pick(&lines[2], Language::German), "  Rechteerhöhung nötig: nein");
}

#[test]
fn an_applied_action_counts_lists_backups_and_every_step() {
    let report = Report {
        backup_directories: vec!["C:\\b\\8".to_string()],
        results: vec![
            OperationResult {
                display_name: "A".to_string(),
                registry_path: "HKCU\\A".to_string(),
                action: Action::Hide,
                error: None,
            },
            OperationResult {
                display_name: "B".to_string(),
                registry_path: "HKLM\\B".to_string(),
                action: Action::Hide,
                error: Some("access denied".to_string()),
            },
        ],
    };
    let lines = run_apply("hide", "HKCU\\A", false, Some(&report));
    assert_eq!(
        english(&lines),
        [
            "1 succeeded, 1 failed",
            "Backup: C:\\b\\8",
            "  ok   HKCU\\A",
            "  FEHL HKLM\\B  \u{2014}  access denied",
        ]
    );
}

#[test]
fn a_created_entry_says_where_and_what() {
    let plain = entry("Öffnen", "x.exe \"%1\"", Vec::new());
    let lines = run_create(&plain, "HKCU\\Software\\Classes\\Directory\\shell\\x", "C:\\e.json");
    assert_eq!(
        english(&lines),
        [
            "created: HKCU\\Software\\Classes\\Directory\\shell\\x",
            "  Öffnen -> x.exe \"%1\"",
            "  entries.json: C:\\e.json",
        ]
    );

    let menu = entry("Menü", "", vec![child("Eins", "a.exe")]);
    let lines = run_create(&menu, "P", "E");
    assert_eq!(
        german(&lines),
        ["Angelegt: P", "  Menü \u{25b8}", "    Eins -> a.exe", "  entries.json: E"]
    );
}
