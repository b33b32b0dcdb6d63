
use ctxmenu::bilingual;
use ctxmenu::bilingual::{CLOSE, OPEN, SPLIT, is_marker, language, pick, set_language, shown};
use ctxmenu::settings::Language;

const GERMAN: Language = Language::German;
const ENGLISH: Language = Language::English;

/// Writes a group the way the source does.
fn marked(german: &str, english: &str) -> String {
    format!("{OPEN}{german}{SPLIT}{english}{CLOSE}")
}

#[test]
fn text_without_a_marker_comes_back_untouched_and_unallocated() {
    for plain in [
        "Zugriff verweigert (os error 5)",
        "HKCU\\Software\\Classes\\*\\shell\\Foo",
        "",
    ] {
        assert!(
            matches!(pick(plain, GERMAN), std::borrow::Cow::Borrowed(same) if same == plain),
            "{plain:?} was rewritten"
        );
        assert!(matches!(pick(plain, ENGLISH), std::borrow::Cow::Borrowed(_)));
    }
}

#[test]
fn the_german_half_is_shown_for_german_and_the_english_half_for_english() {
    let message = marked("Keine Web-Adresse", "not a web address");

    assert_eq!(pick(&message, GERMAN), "Keine Web-Adresse");
    assert_eq!(pick(&message, ENGLISH), "not a web address");
}

#[test]
fn the_text_outside_a_group_belongs_to_both_languages() {
    let message = format!(
        "\"reg.exe\" {}: exit code 1",
        marked("konnte nicht gestartet werden", "could not be started")
    );

    assert_eq!(
        pick(&message, GERMAN),
        "\"reg.exe\" konnte nicht gestartet werden: exit code 1"
    );
    assert_eq!(
        pick(&message, ENGLISH),
        "\"reg.exe\" could not be started: exit code 1"
    );
}

#[test]
fn a_line_with_three_pairs_cuts_all_three() {
    let message = format!(
        "{}: 12, {}: 3, {}: 1",
        marked("Programme vorhanden", "present"),
        marked("nicht mehr da", "gone"),
        marked("nicht prüfbar", "unknown"),
    );

    assert_eq!(
        pick(&message, GERMAN),
        "Programme vorhanden: 12, nicht mehr da: 3, nicht prüfbar: 1"
    );
    assert_eq!(pick(&message, ENGLISH), "present: 12, gone: 3, unknown: 1");
}

#[test]
fn a_chained_anyhow_error_is_cut_at_every_level() {
    let inner = anyhow::Error::msg(format!(
        "{}: Zugriff verweigert (os error 5)",
        marked("Wert setzen fehlgeschlagen", "could not set the value")
    ));
    let outer = inner.context(marked("Eintrag anlegen", "creating entry"));

    assert_eq!(
        bilingual::error(&outer, GERMAN),
        "Eintrag anlegen: Wert setzen fehlgeschlagen: Zugriff verweigert (os error 5)"
    );
    assert_eq!(
        bilingual::error(&outer, ENGLISH),
        "creating entry: could not set the value: Zugriff verweigert (os error 5)"
    );
}

#[test]
fn a_slash_between_two_numbers_is_not_a_language_boundary() {
    for innocent in [
        "58.9 fps / 1.42 ms",
        "MUI-Cache: 41 Treffer / 12 Auflösungen",
        "Seite 3 / 7",
    ] {
        assert_eq!(pick(innocent, GERMAN), innocent);
        assert_eq!(pick(innocent, ENGLISH), innocent);
    }
}

#[test]
fn a_name_the_user_chose_survives_whatever_is_in_it() {
    let payload = "Scan / Prüfen";
    let message = format!(
        "{}: {payload}",
        marked("Kennung schon vergeben", "id already taken")
    );

    assert_eq!(
        pick(&message, GERMAN),
        "Kennung schon vergeben: Scan / Prüfen"
    );
    assert_eq!(pick(&message, ENGLISH), "id already taken: Scan / Prüfen");
}

#[test]
fn machine_readable_output_is_never_touched() {
    let json = r#"{"name":"Mit Notepad öffnen / open with notepad","scope":"user"}"#;

    for language in [GERMAN, ENGLISH] {
        assert!(matches!(pick(json, language), std::borrow::Cow::Borrowed(_)));
        assert_eq!(pick(json, language), json);
    }
}

#[test]
fn a_group_without_an_end_marker_keeps_every_word() {
    let broken = format!("{OPEN}Abbruch{SPLIT}cancelled: 5");

    assert_eq!(pick(&broken, GERMAN), "Abbruchcancelled: 5");
    assert_eq!(pick(&broken, ENGLISH), "Abbruchcancelled: 5");
}

#[test]
fn an_end_marker_before_the_separator_is_not_a_group() {
    let broken = format!("{OPEN}Abbruch{CLOSE}cancelled{SPLIT}");

    assert_eq!(pick(&broken, GERMAN), "Abbruchcancelled");
    assert_eq!(pick(&broken, ENGLISH), "Abbruchcancelled");
}

#[test]
fn a_stray_marker_from_a_foreign_answer_is_dropped_not_obeyed() {
    let answer = format!("Der Dienst antwortete: feld{SPLIT}wert{CLOSE}ende");

    assert_eq!(pick(&answer, GERMAN), "Der Dienst antwortete: feldwertende");
    assert_eq!(
        pick(&answer, ENGLISH),
        "Der Dienst antwortete: feldwertende"
    );
}

#[test]
fn a_stray_opener_is_dropped_and_the_groups_behind_it_are_still_cut() {
    let message = format!(
        "{OPEN}{} und {}",
        marked("kaputt", "broken"),
        marked("gut", "fine")
    );

    assert_eq!(pick(&message, GERMAN), "kaputt und gut");
    assert_eq!(pick(&message, ENGLISH), "broken und fine");
}

#[test]
fn foreign_text_carrying_a_marker_cannot_move_the_boundary() {
    let field = format!("na{SPLIT}me");
    let message = format!("{OPEN}Kein Feld {field} in der Antwort{SPLIT}no such field{CLOSE}");

    for language in [GERMAN, ENGLISH] {
        let shown = pick(&message, language);
        assert!(shown.contains("Kein Feld"), "{shown:?}");
        assert!(shown.contains("no such field"), "{shown:?}");
        assert!(!shown.contains(is_marker), "{shown:?}");
    }
}

#[test]
fn no_marker_ever_reaches_the_screen() {
    let samples = [
        marked("a", "b"),
        format!("{OPEN}dangling"),
        format!("x{SPLIT}y{CLOSE}z"),
        format!("{}{}", marked("a", "b"), marked("c", "d")),
        "harmlos".to_string(),
    ];

    for sample in samples {
        for language in [GERMAN, ENGLISH] {
            let shown = pick(&sample, language);
            assert!(!shown.contains(is_marker), "{sample:?} -> {shown:?}");
        }
    }
}

#[test]
fn cutting_never_adds_a_word_that_was_not_there() {
    let message = format!("vorn {} hinten", marked("deutsch", "english"));

    for language in [GERMAN, ENGLISH] {
        for word in pick(&message, language).split_whitespace() {
            assert!(message.contains(word), "{word:?} was invented");
        }
    }
}

#[test]
fn a_column_is_cut_before_it_is_padded_and_not_the_other_way_round() {
    let heading = marked("Schlüssel", "key");
    let too_late = format!("{heading:<22}");
    assert_eq!(pick(&too_late, GERMAN).chars().count(), 16);
    assert_eq!(pick(&too_late, ENGLISH).chars().count(), 10);

    for (language, word) in [(GERMAN, "Schlüssel"), (ENGLISH, "key")] {
        let cell = bilingual::column(&heading, 22, language);
        assert_eq!(cell.chars().count(), 22, "{cell:?}");
        assert!(cell.starts_with(word), "{cell:?}");
        assert!(!cell.contains(is_marker), "{cell:?}");
    }
}

#[test]
fn a_heading_wider_than_its_column_keeps_every_letter() {
    let heading = marked("Anzeigename", "Display name");

    assert_eq!(bilingual::column(&heading, 4, ENGLISH), "Display name");
    assert_eq!(bilingual::column(&heading, 4, GERMAN), "Anzeigename");
}

#[test]
fn a_column_without_any_marker_is_padded_like_any_other_text() {
    assert_eq!(bilingual::column("Scope", 7, GERMAN), "Scope  ");
    assert_eq!(bilingual::column("Scope", 7, ENGLISH), "Scope  ");
}

#[test]
fn the_process_language_can_be_set_and_read_back() {
    let stored = set_language(Language::English);
    assert_eq!(language(stored), Some(Language::English));
    assert_eq!(shown(&marked("deutsch", "english"), stored, Language::German), "english");

    let stored = set_language(Language::German);
    assert_eq!(language(stored), Some(Language::German));
    assert_eq!(shown(&marked("deutsch", "english"), stored, Language::English), "deutsch");
}

/// Is the byte at `at` inside a string literal? Counted by unescaped
/// quotes, which is enough for one line of Rust.
fn inside_a_literal(line: &str, at: usize) -> bool {
    let mut quotes = 0;
    let mut escaped = false;
    for c in line[..at].chars() {
        match c {
            _ if escaped => escaped = false,
            '\\' => escaped = true,
            '"' => quotes += 1,
            _ => {}
        }
    }
    quotes % 2 == 1
}

/// A German word, a slash, an English word, inside a string literal: the
/// shape a message had before it was marked.
fn bilingual_looking(line: &str) -> bool {
    let ends_a_word = |c: char| c.is_alphabetic() || matches!(c, '?' | '!' | '.');
    line.match_indices(" / ").any(|(at, _)| {
        let before = line[..at].chars().next_back().unwrap_or(' ');
        let after = line[at + 3..].chars().next().unwrap_or(' ');
        ends_a_word(before) && after.is_alphabetic() && inside_a_literal(line, at)
    })
}

#[test]
fn a_translated_question_is_caught_even_though_it_ends_in_punctuation() {
    let missed = r#"    "{} \x1ebeiseite legen\x1fmoving aside\x1d: schreibgeschützt? / read-only?","#;
    assert!(bilingual_looking(missed));

    for arithmetic in [
        "let share = hits as f64 / total as f64;",
        "let each = 1000.0 / average;",
        "let per = width / columns;",
        "let value = parse(text)? / divisor;",
    ] {
        assert!(!bilingual_looking(arithmetic), "reported: {arithmetic}");
    }
}
