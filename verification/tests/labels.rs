use ctxmenu::favourites::{Favourite, Tool, WebMode, WebTool, blank_favourite};
use ctxmenu::glyphs::{Glyphs, menu_glyph};
use ctxmenu::i18n::strings_for;
use ctxmenu::labels::{
    Branch, TypeGroup, describe, detail_text, explained_flags, group_tip, labelled, menu_label,
    mixed_marker, type_group_label,
};
use ctxmenu::model::{Action, Category, ContextEntry, EntryKind, Scope};
use ctxmenu::settings::Language;

fn plain_entry() -> ContextEntry {
    ContextEntry {
        scope: Scope::User,
        category: Category::Directory,
        key_name: "open".to_string(),
        display_name: "Open".to_string(),
        registry_path: "HKCU\\Software\\Classes\\Directory\\shell\\open".to_string(),
        kind: EntryKind::Verb {
            command: Some("x.exe \"%1\"".to_string()),
            sub_commands: Vec::new(),
        },
        read_only: false,
        hidden: false,
        extended: false,
        position: None,
    }
}

fn web(mode: WebMode) -> Favourite {
    let mut favourite = blank_favourite();
    favourite.tool = Tool::Web(WebTool {
        mode,
        allow_insecure: false,
        confirmed: false,
    });
    favourite
}

#[test]
fn a_button_label_is_its_icon_two_spaces_and_its_text() {
    assert_eq!(labelled('\u{e001}', "Alle"), "\u{e001}  Alle");
    assert_eq!(group_tip("Sichtbar", "blendet aus"), "Sichtbar — blendet aus");
}

#[test]
fn only_a_mixed_selection_gets_the_mixed_word() {
    let en = strings_for(Language::English);
    assert_eq!(mixed_marker(&en, true), Some(en.seg_mixed));
    assert_eq!(mixed_marker(&en, false), None);
}

#[test]
fn a_position_line_says_where_the_entry_goes() {
    let en = strings_for(Language::English);
    assert_eq!(
        menu_label(&Action::SetPosition(Some("Top".to_string())), &en),
        format!("{}: {}", en.act_position, en.pos_top)
    );
    assert_eq!(
        menu_label(&Action::SetPosition(Some("Bottom".to_string())), &en),
        format!("{}: {}", en.act_position, en.pos_bottom)
    );
    assert_eq!(
        menu_label(&Action::SetPosition(None), &en),
        format!("{}: {}", en.act_position, en.pos_default)
    );
    assert_eq!(menu_label(&Action::Hide, &en), en.act_hide);
}

#[test]
fn a_menu_line_wears_the_icon_of_what_it_does() {
    let glyphs = Glyphs::load();
    assert_eq!(menu_glyph(&Action::Hide, &glyphs), glyphs.hidden);
    assert_eq!(menu_glyph(&Action::Show, &glyphs), glyphs.visible);
    assert_eq!(menu_glyph(&Action::Unblock, &glyphs), glyphs.free);
    assert_eq!(
        menu_glyph(&Action::SetPosition(Some("Bottom".to_string())), &glyphs),
        glyphs.bottom
    );
    assert_eq!(
        menu_glyph(&Action::SetPosition(Some("Middle".to_string())), &glyphs),
        glyphs.no_position
    );
    assert_eq!(menu_glyph(&Action::Delete, &glyphs), glyphs.delete);
}

#[test]
fn the_command_column_shows_a_command_a_clsid_or_a_dash() {
    let mut entry = plain_entry();
    assert_eq!(detail_text(&entry), "x.exe \"%1\"");
    entry.kind = EntryKind::Verb {
        command: None,
        sub_commands: Vec::new(),
    };
    assert_eq!(detail_text(&entry), "\u{2014}");
    entry.kind = EntryKind::ShellEx {
        clsid: "{ABC}".to_string(),
        server_path: None,
        blocked: false,
    };
    assert_eq!(detail_text(&entry), "{ABC}");
}

#[test]
fn an_entry_with_nothing_set_explains_nothing() {
    let en = strings_for(Language::English);
    assert!(explained_flags(&plain_entry(), &en).is_empty());
}

#[test]
fn each_set_flag_comes_with_its_reason_in_a_fixed_order() {
    let en = strings_for(Language::English);
    let mut entry = plain_entry();
    entry.read_only = true;
    entry.hidden = true;
    entry.extended = true;
    entry.position = Some("Top".to_string());
    entry.scope = Scope::Machine;
    entry.kind = EntryKind::ShellEx {
        clsid: "{ABC}".to_string(),
        server_path: None,
        blocked: true,
    };
    assert_eq!(
        explained_flags(&entry, &en),
        [
            (en.badge_readonly, en.why_readonly),
            (en.badge_hidden, en.why_hidden),
            (en.badge_shift, en.why_extended),
            (en.badge_blocked, en.why_blocked),
            (en.kind_shellex, en.why_com_handler),
            (en.detail_position, en.why_position),
            (en.badge_admin, en.why_machine),
        ]
    );
}

#[test]
fn a_packaged_entry_explains_itself_in_its_own_words() {
    let de = strings_for(Language::German);
    let mut entry = plain_entry();
    entry.hidden = true;
    entry.read_only = true;
    entry.kind = EntryKind::PackagedVerb {
        clsid: "{P}".to_string(),
        package: "Pkg_1.0".to_string(),
        package_name: "Pkg".to_string(),
        blocked_machine: false,
    };
    assert_eq!(
        explained_flags(&entry, &de),
        [
            (de.badge_hidden, de.why_hidden_packaged),
            (de.badge_win11, de.why_packaged),
        ]
    );
}

#[test]
fn a_favourite_says_what_it_is_and_where_it_points() {
    let en = strings_for(Language::English);
    let mut program = blank_favourite();
    program.tool = Tool::Program {
        path: "C:\\x.exe".to_string(),
        args: "  --fast  ".to_string(),
    };
    assert_eq!(
        describe(&program, &en),
        format!("{}  \u{b7}  C:\\x.exe --fast", en.fav_kind_program)
    );

    program.tool = Tool::Program {
        path: "C:\\x.exe".to_string(),
        args: "   ".to_string(),
    };
    assert_eq!(
        describe(&program, &en),
        format!("{}  \u{b7}  C:\\x.exe", en.fav_kind_program)
    );

    let open = web(WebMode::Open {
        url: "https://example.invalid/?q={}".to_string(),
    });
    assert_eq!(
        describe(&open, &en),
        format!(
            "{}  \u{b7}  {}  \u{b7}  https://example.invalid/?q={{}}",
            en.fav_kind_web, en.fav_mode_open
        )
    );
    assert_eq!(open.address().as_deref(), Some("https://example.invalid/?q={}"));
    assert_eq!(program.address(), None);
}

#[test]
fn file_type_groups_translate_only_the_words_that_differ() {
    let de = strings_for(Language::German);
    let en = strings_for(Language::English);
    assert_eq!(type_group_label(TypeGroup::Images, &de), de.grp_images);
    assert_eq!(type_group_label(TypeGroup::Images, &en), en.grp_images);
    assert_eq!(type_group_label(TypeGroup::Raw, &de), "RAW");
    assert_eq!(type_group_label(TypeGroup::Code, &en), "Code");
}

#[test]
fn a_missing_program_is_gone_before_it_is_a_system_one() {
    assert_eq!(Branch::of(true, true), Branch::Gone);
    assert_eq!(Branch::of(false, true), Branch::System);
    assert_eq!(Branch::of(false, false), Branch::Own);
    let en = strings_for(Language::English);
    assert_eq!(Branch::Own.label(&en), en.grp_own_programs);
    assert_eq!(Branch::Gone.salt(), "programs-gone");
    assert_eq!(Branch::System.salt(), "programs-system");
}
