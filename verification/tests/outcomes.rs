use ctxmenu::i18n::strings_for;
use ctxmenu::outcome::{
    Agreement, RestoreReport, SelectionState, restore_all, restore_message, selection_summary,
};
use ctxmenu::settings::Language;

fn state(count: usize, read_only: usize) -> SelectionState {
    SelectionState {
        count,
        resolved: count,
        changeable: count,
        read_only,
        blockable: 0,
        packaged: 0,
        hidden: Agreement::Empty,
        extended: Agreement::Empty,
        blocked: Agreement::Empty,
        position: Agreement::Empty,
    }
}

#[test]
fn a_clean_restore_only_counts() {
    let en = strings_for(Language::English);
    let report = RestoreReport {
        restored: 4,
        removed: 0,
        failures: Vec::new(),
    };
    assert_eq!(restore_message(&report, &en, Language::English), "4 file(s) restored.");
}

#[test]
fn a_partial_restore_counts_both_and_lists_each_failure_in_the_language_on_screen() {
    let de = strings_for(Language::German);
    let report = RestoreReport {
        restored: 2,
        removed: 1,
        failures: vec![
            "a.reg: \u{1e}Zugriff verweigert\u{1f}access denied\u{1d}".to_string(),
            "b.reg: kaputt".to_string(),
        ],
    };
    assert_eq!(
        restore_message(&report, &de, Language::German),
        "2 Datei(en) zurückgespielt, 2 fehlgeschlagen.\n\
         1 Schlüssel entfernt, die es bei der Sicherung noch nicht gab.\n\
         a.reg: Zugriff verweigert\n\
         b.reg: kaputt"
    );
}

#[test]
fn restoring_several_directories_adds_up_and_keeps_an_unreadable_one_as_a_failure() {
    let outcomes = vec![
        (
            "C:\\b\\1".to_string(),
            Ok(RestoreReport {
                restored: 2,
                removed: 1,
                failures: vec!["x.reg: denied".to_string()],
            }),
        ),
        ("C:\\b\\2".to_string(), Err("no manifest".to_string())),
        (
            "C:\\b\\3".to_string(),
            Ok(RestoreReport {
                restored: 5,
                removed: 0,
                failures: Vec::new(),
            }),
        ),
    ];
    let total = restore_all(outcomes);
    assert_eq!(total.restored, 7);
    assert_eq!(total.removed, 1);
    assert_eq!(total.failures, ["x.reg: denied", "C:\\b\\2: no manifest"]);
}

#[test]
fn restoring_nothing_reports_nothing() {
    let total = restore_all(Vec::new());
    assert_eq!(total.restored, 0);
    assert_eq!(total.removed, 0);
    assert!(total.failures.is_empty());
}

#[test]
fn the_line_above_the_switches_counts_the_selection() {
    let en = strings_for(Language::English);
    assert_eq!(
        selection_summary(&en, &state(0, 0)),
        "Nothing selected – click rows to change them."
    );
    assert_eq!(selection_summary(&en, &state(3, 0)), "3 selected");
    assert_eq!(
        selection_summary(&en, &state(3, 2)),
        "3 selected, 2 of them need administrator rights"
    );
    let de = strings_for(Language::German);
    assert_eq!(selection_summary(&de, &state(12, 0)), "12 ausgewählt");
}
