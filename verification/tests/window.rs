use ctxmenu::glyphs::{Glyphs, theme_glyph};
use ctxmenu::i18n::strings_for;
use ctxmenu::labels::{action_tip, advice_for, appears_on, category_label, shorten, sort_key, theme_tip, window_title};
use ctxmenu::model::{Action, Category, ContextEntry, EntryKind, OperationResult, Report, Scope};
use ctxmenu::notes::plain_notes;
use ctxmenu::outcome::combine_halves;
use ctxmenu::settings::{Language, ThemeChoice};
use ctxmenu::window::{
    Bench, Movement, Row, SortBy, Tab, actions_for, category_for_new_entry, matches_search,
    next_cursor,
};

/// Generated entries, the way the benchmark fills the table: every third one
/// hidden, every fourth a COM handler, every eighth of those blocked.
fn scan_result(count: usize) -> Vec<ContextEntry> {
    (0..count)
        .map(|i| {
            let key = format!("synthetic{i:05}");
            let kind = if i % 4 == 3 {
                EntryKind::ShellEx {
                    clsid: format!("{{00000000-0000-0000-0000-{i:012}}}"),
                    server_path: Some(format!("C:\\Synthetic\\handler{i}.dll")),
                    blocked: i % 8 == 3,
                }
            } else {
                EntryKind::Verb {
                    command: Some(format!("\"C:\\Synthetic\\tool{i}.exe\" \"%1\"")),
                    sub_commands: Vec::new(),
                }
            };
            ContextEntry {
                scope: Scope::User,
                category: Category::AllFiles,
                key_name: key.clone(),
                display_name: format!("Synthetic Entry {i}"),
                registry_path: format!("HKCU\\Software\\Classes\\*\\shell\\{key}"),
                kind,
                read_only: false,
                hidden: i % 3 == 0,
                extended: false,
                position: None,
            }
        })
        .collect()
}

fn bench(remaining: usize) -> Bench {
    Bench {
        warmup: 0,
        remaining,
        scroll: 0,
        keys_sent: 0,
        cursor_walked: 0,
        last_focus: None,
    }
}

#[test]
fn count_down_never_wraps_the_counter_past_zero() {
    let mut b = bench(1);

    assert!(b.count_down(), "one frame left: this one counts");
    assert_eq!(b.remaining, 0);

    assert!(!b.count_down(), "already at zero: nothing left to count");
    assert_eq!(b.remaining, 0, "must stay at zero, not wrap to usize::MAX");
}

/// A report as the two halves of a split action hand one back.
fn half(directory: &str, name: &str) -> Report {
    Report {
        backup_directories: vec![directory.into()],
        results: vec![OperationResult {
            display_name: name.into(),
            registry_path: format!("HKCU\\{name}"),
            action: Action::Hide,
            error: None,
        }],
    }
}

#[test]
fn a_successful_elevated_half_survives_a_failed_direct_half() {
    let de = strings_for(Language::German);
    let combined = combine_halves(
        Err("Backup-Export fehlgeschlagen".into()),
        Ok(half("erhoeht", "hklm_eintrag")),
        &de,
    )
    .expect("half of it worked, and that half must be reported");

    assert_eq!(combined.backup_directories, vec!["erhoeht".to_string()]);
    assert_eq!(combined.succeeded(), 1);
    assert_eq!(combined.failed(), 1, "the direct half is a failed row");
    assert_eq!(combined.results[0].display_name, de.direct_part);
    assert_eq!(
        combined.results[0].error.as_deref(),
        Some("Backup-Export fehlgeschlagen")
    );
}

#[test]
fn both_backup_directories_reach_the_result_dialog() {
    let de = strings_for(Language::German);
    let combined = combine_halves(
        Ok(half("direkt", "hkcu_eintrag")),
        Ok(half("erhoeht", "hklm_eintrag")),
        &de,
    )
    .expect("both halves worked");

    assert_eq!(combined.backup_directories, vec!["direkt", "erhoeht"]);
    assert_eq!(combined.succeeded(), 2);
}

#[test]
fn a_declined_prompt_still_keeps_what_was_already_done() {
    let de = strings_for(Language::German);
    let combined = combine_halves(
        Ok(half("direkt", "hkcu_eintrag")),
        Err("Vom Benutzer abgebrochen".into()),
        &de,
    )
    .expect("a declined prompt is not a failure of the whole action");

    assert_eq!(combined.succeeded(), 1);
    assert_eq!(combined.results[1].display_name, de.elevated_part);

    let nothing = combine_halves(Err("erstens".into()), Err("zweitens".into()), &de)
        .expect_err("nothing happened at all");
    assert!(nothing.contains("erstens") && nothing.contains("zweitens"));
}

#[test]
fn an_error_that_leaves_the_user_guessing_is_explained() {
    let tr = strings_for(Language::German);

    for (message, expected) in [
        ("Zugriff verweigert. (os error 5)", tr.why_access_denied),
        ("Access is denied. (os error 5)", tr.why_access_denied),
        ("Der Dienst antwortete mit 401", tr.why_unauthorised),
        ("the service answered 403", tr.why_unauthorised),
        ("Die Beschreibung antwortete mit 404", tr.why_not_found),
        ("WinHttpSendRequest: timed out", tr.why_unreachable),
        (
            "\x1eKennung schon vergeben\x1fid already taken\x1d: x",
            tr.why_id_taken,
        ),
    ] {
        assert_eq!(
            advice_for(message, &tr),
            Some(expected),
            "no advice for {message:?}"
        );
    }

    assert_eq!(advice_for("Datei zu gro\u{df}", &tr), None);
}

#[test]
fn shortening_never_splits_a_character() {
    assert_eq!(
        shorten("\u{e4}\u{f6}\u{fc}\u{df}", 2),
        "\u{e4}\u{f6}\u{2026}"
    );
    assert_eq!(shorten("  kurz  ", 40), "kurz");
}

#[test]
fn the_menu_offers_the_direction_that_would_change_something() {
    let mut scan = scan_result(8);

    let verb = &mut scan[0];
    verb.hidden = false;
    verb.extended = false;
    verb.position = None;
    let offered = actions_for(verb, true);
    assert!(offered.contains(&Action::Hide));
    assert!(!offered.contains(&Action::Show));
    assert!(offered.contains(&Action::ShiftOnly));
    assert!(
        !offered.iter().any(|a| matches!(a, Action::Block)),
        "a static verb has no CLSID to block"
    );
    assert!(offered.contains(&Action::SetPosition(Some("Top".into()))));
    assert!(
        !offered.contains(&Action::SetPosition(None)),
        "it is already at no position"
    );
    assert!(offered.contains(&Action::Delete));

    let hidden = &mut scan[1];
    hidden.hidden = true;
    hidden.extended = true;
    let offered = actions_for(hidden, true);
    assert!(offered.contains(&Action::Show));
    assert!(!offered.contains(&Action::Hide));
    assert!(offered.contains(&Action::AlwaysShow));
    assert!(!offered.contains(&Action::ShiftOnly));

    let handler = &scan[3];
    let offered = actions_for(handler, true);
    assert!(
        offered.contains(&Action::Unblock),
        "entry 3 is blocked, so the way out is offered"
    );
    assert!(!offered.contains(&Action::Block));
    assert!(
        !offered.iter().any(|a| matches!(a, Action::SetPosition(_))),
        "the scanner never reads a position for a shellex key"
    );
}

#[test]
fn a_group_is_not_offered_what_only_makes_sense_for_one() {
    let mut scan = scan_result(4);
    scan[0].hidden = false;
    let entry = &scan[0];

    let single = actions_for(entry, true);
    let group = actions_for(entry, false);

    assert!(
        single.iter().any(|a| matches!(a, Action::SetPosition(_))),
        "one entry can be sent to the top"
    );
    assert!(
        !group.iter().any(|a| matches!(a, Action::SetPosition(_))),
        "twenty entries all sent to the top are alphabetical again"
    );
    assert!(group.contains(&Action::Hide));
    assert!(group.contains(&Action::Delete));
}

#[test]
fn every_menu_line_carries_the_explanation_its_switch_carries() {
    let de = strings_for(Language::German);
    let scan = scan_result(8);
    for entry in &scan {
        for action in actions_for(entry, true) {
            assert!(
                !action_tip(&action, &de).trim().is_empty(),
                "{action:?} has no tooltip"
            );
        }
    }
}

#[test]
fn the_glyph_list_and_the_struct_stay_the_same_length() {
    let glyphs = Glyphs::load();
    let filled = [
        glyphs.select_all,
        glyphs.select_none,
        glyphs.visible,
        glyphs.hidden,
        glyphs.always,
        glyphs.shift_only,
        glyphs.free,
        glyphs.blocked,
        glyphs.top,
        glyphs.bottom,
        glyphs.no_position,
        glyphs.delete,
        glyphs.rescan,
        glyphs.new,
        glyphs.backup,
        glyphs.inspect,
        glyphs.copy,
        glyphs.restore,
        glyphs.explorer,
        glyphs.link,
        glyphs.theme_system,
        glyphs.theme_light,
        glyphs.theme_dark,
    ];

    assert_eq!(filled.len(), Glyphs::NAMES.len());
    assert!(
        filled.iter().all(|glyph| *glyph != ' '),
        "every field got a glyph"
    );
    assert!(
        filled
            .iter()
            .all(|glyph| ('\u{e000}'..='\u{f8ff}').contains(glyph)),
        "all in the private use area"
    );
}

#[test]
fn each_theme_state_has_its_own_picture_and_its_own_sentence() {
    let glyphs = Glyphs::load();
    let states = [ThemeChoice::System, ThemeChoice::Light, ThemeChoice::Dark];

    let pictures: Vec<char> = states
        .iter()
        .map(|state| theme_glyph(*state, &glyphs))
        .collect();
    assert_eq!(pictures.len(), 3);
    for (index, picture) in pictures.iter().enumerate() {
        assert!(
            !pictures[index + 1..].contains(picture),
            "two theme states share one glyph"
        );
    }

    for language in [Language::German, Language::English] {
        let table = strings_for(language);
        let tips: Vec<&str> = states
            .iter()
            .map(|state| theme_tip(*state, &table))
            .collect();
        for (index, tip) in tips.iter().enumerate() {
            assert!(
                !tips[index + 1..].contains(tip),
                "two theme states share one tooltip: {tip}"
            );
        }
    }
}

#[test]
fn every_settings_button_says_where_a_click_leads() {
    let de = strings_for(Language::German);
    let en = strings_for(Language::English);
    assert!(de.tip_language.contains("Englisch"));
    assert!(en.tip_language.contains("German"));
    assert!(de.tip_theme_system.contains("hell"));
    assert!(de.tip_theme_light.contains("dunkel"));
    assert!(de.tip_theme_dark.contains("System"));
    assert!(en.tip_theme_system.contains("light"));
    assert!(en.tip_theme_light.contains("dark"));
    assert!(en.tip_theme_dark.contains("system"));
}

#[test]
fn release_notes_lose_their_hashes_and_their_empty_stretches() {
    let notes = "## What's Changed\n\n\n* One thing by @someone\n* Another\n\n\n\n**Full Changelog**: https://example.invalid/compare\n";
    assert_eq!(
        plain_notes(notes),
        "What's Changed\n\n* One thing by @someone\n* Another\n\n**Full Changelog**: https://example.invalid/compare"
    );

    assert_eq!(plain_notes("* fixes #42"), "* fixes #42");
    assert_eq!(plain_notes(""), "");
    assert_eq!(plain_notes("   \n\n  \n"), "");
}

#[test]
fn a_new_entry_starts_where_the_user_is_looking() {
    let mut entries = scan_result(3);
    entries[0].category = Category::ExtAssoc(".png".into());
    entries[1].category = Category::ProgId {
        prog_id: "pngfile".into(),
        from_ext: ".png".into(),
    };
    entries[2].category = Category::Drive;

    assert_eq!(
        category_for_new_entry(Some(&entries[0]), Tab::Categories, None, None),
        Category::ExtAssoc(".png".into())
    );
    assert_eq!(
        category_for_new_entry(Some(&entries[1]), Tab::FileTypes, None, None),
        Category::ExtAssoc(".png".into())
    );
    assert_eq!(
        category_for_new_entry(Some(&entries[2]), Tab::Categories, None, None),
        Category::Drive
    );
    assert_eq!(
        category_for_new_entry(None, Tab::FileTypes, Some(".jpg"), None),
        Category::ExtAssoc(".jpg".into())
    );
    assert_eq!(
        category_for_new_entry(None, Tab::Categories, Some(".jpg"), Some(&Category::Folder)),
        Category::Folder
    );
    assert_eq!(
        category_for_new_entry(None, Tab::Programs, None, None),
        Category::Directory
    );
}

#[test]
fn a_shared_progid_uses_the_extension_on_screen_not_the_stale_one() {
    let mut entries = scan_result(1);
    entries[0].category = Category::ProgId {
        prog_id: "picviewer".into(),
        from_ext: ".jpg".into(),
    };

    assert_eq!(
        category_for_new_entry(Some(&entries[0]), Tab::FileTypes, Some(".png"), None),
        Category::ExtAssoc(".png".into()),
        "the extension selected in the tree wins over the entry's stale from_ext"
    );
    assert_eq!(
        category_for_new_entry(Some(&entries[0]), Tab::FileTypes, None, None),
        Category::ExtAssoc(".jpg".into())
    );
}

#[test]
fn the_title_names_the_program_and_the_build() {
    for language in [Language::German, Language::English] {
        let tr = strings_for(language);
        let title = window_title(&tr);
        assert!(title.starts_with(tr.app_title), "{title}");
        assert!(title.ends_with(ctxmenu::VERSION), "{title}");
    }
    assert_ne!(
        window_title(&strings_for(Language::German)),
        window_title(&strings_for(Language::English)),
        "the name is translated even though the number is not"
    );
}

#[test]
fn sorting_ignores_capitalisation() {
    let de = strings_for(Language::German);
    let mut entries = scan_result(3);
    entries[0].display_name = "WinRAR".into();
    entries[1].display_name = "attrib".into();
    entries[2].display_name = "Zip".into();

    let mut order: Vec<&str> = entries.iter().map(|e| e.display_name.as_str()).collect();
    order.sort_by_key(|name| {
        entries
            .iter()
            .find(|e| e.display_name == *name)
            .map(|e| sort_key(e, SortBy::Name, &de))
            .unwrap_or_default()
    });

    assert_eq!(order, ["attrib", "WinRAR", "Zip"]);
}

#[test]
fn rows_with_nothing_to_say_sort_last() {
    let de = strings_for(Language::German);
    let mut entries = scan_result(2);
    entries[0].category = Category::Directory;
    entries[1].category = Category::ExtAssoc(".zip".into());

    assert!(
        sort_key(&entries[1], SortBy::AppliesTo, &de) < sort_key(&entries[0], SortBy::AppliesTo, &de)
    );
}

#[test]
fn the_location_is_said_in_words() {
    let de = strings_for(Language::German);
    let en = strings_for(Language::English);
    let mut entries = scan_result(2);
    entries[0].category = Category::AllFiles;
    entries[1].category = Category::ExtAssoc(".zip".into());

    assert_eq!(appears_on(&entries[0], &de), "Alle Dateien");
    assert_eq!(appears_on(&entries[0], &en), "All Files");
    assert_eq!(appears_on(&entries[1], &de), ".zip");
    assert_eq!(appears_on(&entries[1], &en), ".zip");
}

#[test]
fn search_covers_name_command_and_path() {
    let entries = scan_result(40);
    let entry = &entries[0];

    assert!(matches_search(entry, &entry.display_name.to_lowercase()));
    assert!(matches_search(entry, "synthetic00000"));
    assert!(matches_search(entry, "hkcu\\software\\classes"));
    assert!(!matches_search(entry, "definitely not present"));
}

#[test]
fn search_is_case_insensitive() {
    let entries = scan_result(10);
    assert!(matches_search(&entries[0], "synthetic00000"));
    assert!(matches_search(
        &entries[0],
        "SYNTHETIC00000".to_lowercase().as_str()
    ));
}

#[test]
fn every_base_category_has_a_translated_label() {
    for category in [
        Category::AllFiles,
        Category::AllFilesystemObjects,
        Category::Directory,
        Category::DirectoryBackground,
        Category::Folder,
        Category::DesktopBackground,
        Category::Drive,
    ] {
        for language in [Language::German, Language::English] {
            let table = strings_for(language);
            let label = category_label(&category, &table);
            assert!(!label.trim().is_empty(), "{category:?} has no label");
            assert_ne!(
                label, table.tab_filetypes,
                "{category:?} fell through to the catch-all arm"
            );
        }
    }
}

#[test]
fn a_child_is_dropped_when_its_parent_is_selected_too() {
    let parent = Row::top(7);
    let child = Row {
        entry: 7,
        path: vec![1],
    };
    let grandchild = Row {
        entry: 7,
        path: vec![1, 0],
    };

    assert!(parent.is_ancestor_of(&child));
    assert!(parent.is_ancestor_of(&grandchild));
    assert!(child.is_ancestor_of(&grandchild));

    assert!(!parent.is_ancestor_of(&parent));
    assert!(!child.is_ancestor_of(&parent));
    assert!(
        !child.is_ancestor_of(&Row {
            entry: 7,
            path: vec![2, 0]
        }),
        "a sibling's subtree is not below this child"
    );
    assert!(
        !Row::top(7).is_ancestor_of(&Row {
            entry: 8,
            path: vec![0]
        }),
        "rows of different entries are unrelated"
    );
}

#[test]
fn a_list_cursor_clamps_at_both_ends() {
    assert_eq!(next_cursor(Some(0), 3, Movement::Up), Some(0));
    assert_eq!(next_cursor(Some(2), 3, Movement::Down), Some(2));
    assert_eq!(next_cursor(Some(1), 3, Movement::Down), Some(2));
    assert_eq!(next_cursor(Some(1), 3, Movement::Up), Some(0));
}

#[test]
fn every_key_lands_somewhere_when_nothing_was_selected() {
    for movement in [Movement::Down, Movement::Up, Movement::First] {
        assert_eq!(next_cursor(None, 4, movement), Some(0), "{movement:?}");
    }
    assert_eq!(next_cursor(None, 4, Movement::Last), Some(3));
}

#[test]
fn home_and_end_ignore_where_the_cursor_was() {
    assert_eq!(next_cursor(Some(2), 5, Movement::First), Some(0));
    assert_eq!(next_cursor(Some(2), 5, Movement::Last), Some(4));
}

#[test]
fn an_empty_list_has_no_cursor_at_all() {
    for movement in [
        Movement::Down,
        Movement::Up,
        Movement::First,
        Movement::Last,
    ] {
        assert_eq!(next_cursor(None, 0, movement), None, "{movement:?}");
        assert_eq!(next_cursor(Some(3), 0, movement), None, "{movement:?}");
    }
}
