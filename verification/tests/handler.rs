use ctxmenu::handler::{
    Applies, CategoryObject, CategoryValue, Entry, Selection, applies, placed, split_command,
};

fn files_only() -> Selection {
    Selection {
        any_folder: false,
        any_file: true,
        first_ext: Some(".png".into()),
        paths: vec![r"C:\x\a.png".into()],
    }
}

fn folders_only() -> Selection {
    Selection {
        any_folder: true,
        any_file: false,
        first_ext: None,
        paths: vec![r"C:\x".into()],
    }
}

fn entry(category: CategoryValue) -> Entry {
    Entry {
        display_name: String::new(),
        command: String::new(),
        icon: None,
        category,
        children: Vec::new(),
    }
}

fn name(text: &str) -> CategoryValue {
    CategoryValue::Name(text.to_string())
}

fn object() -> CategoryObject {
    CategoryObject {
        ext_assoc: None,
        ext_direct: None,
        prog_id_from_ext: None,
        perceived_type: None,
    }
}

fn ext_assoc(ext: &str) -> CategoryValue {
    let mut o = object();
    o.ext_assoc = Some(Some(ext.to_string()));
    CategoryValue::Object(o)
}

#[test]
fn a_directory_entry_hides_on_a_file_and_shows_on_a_folder() {
    let entry = entry(name("Directory"));
    assert!(!ctxmenu::handler::matches(&entry, &files_only(), &None));
    assert!(ctxmenu::handler::matches(&entry, &folders_only(), &None));
}

#[test]
fn an_extension_entry_matches_its_extension_and_nothing_else() {
    let entry = entry(ext_assoc(".PNG"));
    assert!(ctxmenu::handler::matches(&entry, &files_only(), &None), "case must not matter");
    assert!(!ctxmenu::handler::matches(&entry, &folders_only(), &None));

    let other = self::entry(ext_assoc(".txt"));
    assert!(!ctxmenu::handler::matches(&other, &files_only(), &None));
}

#[test]
fn an_unknown_category_shows_rather_than_hides() {
    let entry = entry(name("SomethingFromTheFuture"));
    assert!(ctxmenu::handler::matches(&entry, &files_only(), &None));
    assert!(ctxmenu::handler::matches(&entry, &folders_only(), &None));
}

#[test]
fn every_named_category_reaches_files_folders_or_everything() {
    assert_eq!(applies(&name("AllFiles")), Applies::Files);
    assert_eq!(applies(&name("Unknown")), Applies::Files);
    for folder in [
        "Directory",
        "Folder",
        "Drive",
        "DirectoryBackground",
        "DesktopBackground",
        "DirectoryAudio",
        "DirectoryImage",
        "DirectoryVideo",
    ] {
        assert_eq!(applies(&name(folder)), Applies::Folders, "{folder}");
    }
    assert_eq!(applies(&name("AllFilesystemObjects")), Applies::Everything);
    assert_eq!(applies(&CategoryValue::Other), Applies::Everything);
    assert_eq!(applies(&CategoryValue::Object(object())), Applies::Everything);
}

#[test]
fn an_object_is_read_extension_first_then_progid_then_perceived_type() {
    let mut o = object();
    o.ext_direct = Some(Some(".RAR".into()));
    o.perceived_type = Some(Some("Image".into()));
    assert_eq!(applies(&CategoryValue::Object(o.clone())), Applies::Ext(".rar".into()));

    // An `ExtAssoc` that holds no text hides `ExtDirect` rather than
    // falling through to it.
    o.ext_assoc = Some(None);
    assert_eq!(applies(&CategoryValue::Object(o.clone())), Applies::Perceived("image".into()));

    o.prog_id_from_ext = Some(Some(".JPG".into()));
    assert_eq!(applies(&CategoryValue::Object(o)), Applies::Ext(".jpg".into()));
}

#[test]
fn a_perceived_type_entry_asks_the_registry_about_the_first_file() {
    let mut o = object();
    o.perceived_type = Some(Some("image".into()));
    let entry = entry(CategoryValue::Object(o));
    assert!(ctxmenu::handler::matches(&entry, &files_only(), &Some("image".into())));
    assert!(!ctxmenu::handler::matches(&entry, &files_only(), &Some("text".into())));
    assert!(!ctxmenu::handler::matches(&entry, &files_only(), &None));
    assert!(!ctxmenu::handler::matches(&entry, &folders_only(), &Some("image".into())));
}

#[test]
fn a_command_line_splits_into_program_and_arguments() {
    assert_eq!(
        split_command(r#""C:\Users\P\Desktop\Visual Studio Code.lnk" "C:\a.txt""#),
        (
            r"C:\Users\P\Desktop\Visual Studio Code.lnk".to_string(),
            r#""C:\a.txt""#.to_string()
        ),
    );
    assert_eq!(
        split_command(r"notepad.exe C:\a.txt"),
        ("notepad.exe".to_string(), r"C:\a.txt".to_string())
    );
    assert_eq!(
        split_command("explorer.exe"),
        ("explorer.exe".to_string(), String::new()),
        "no arguments is not an error"
    );
}

#[test]
fn an_unclosed_quote_takes_the_rest_as_the_program() {
    assert_eq!(
        split_command("  \"C:\\My Tools\\x.exe"),
        ("C:\\My Tools\\x.exe".to_string(), String::new())
    );
    assert_eq!(split_command("   "), (String::new(), String::new()));
    assert_eq!(
        split_command("a.exe    b   "),
        ("a.exe".to_string(), "b".to_string())
    );
}

#[test]
fn the_placeholder_is_replaced_before_anything_runs() {
    let line = placed("notepad.exe \"%1\"", r"C:\p\a.txt");
    assert_eq!(line, "notepad.exe \"C:\\p\\a.txt\"");
}

#[test]
fn both_placeholders_stand_for_the_path_wherever_they_occur() {
    assert_eq!(placed("x.exe %V %1 %1%", "P"), "x.exe P P P%");
    assert_eq!(placed("x.exe", "P"), "x.exe");
    assert_eq!(placed("%%11", "Q"), "%Q1");
}
