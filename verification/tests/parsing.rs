use ctxmenu::cli::{
    Command, ErrorKind, FavouriteCommand, FileTypes, HELP_DE, HELP_EN, help, parse,
    parse_favourite, parse_window_size,
};
use ctxmenu::create::{suggest_child_key_name, suggest_key_name};
use ctxmenu::favourites::{ResultAction, ResultSource, Tool, UploadBody, WebMode};
use ctxmenu::model::{Action, Category, Scope};
use ctxmenu::settings::Language;
use ctxmenu::window::Tab;

fn run(args: &[&str]) -> Result<Command, ctxmenu::cli::CliError> {
    parse(args.iter().map(|s| s.to_string()).collect())
}

fn refusal(args: &[&str]) -> (ErrorKind, String) {
    match run(args) {
        Err(error) => (error.kind, error.detail),
        Ok(_) => panic!("{args:?} should be refused"),
    }
}

#[test]
fn every_refusal_names_its_reason() {
    let cases: Vec<(Vec<&str>, ErrorKind, &str)> = vec![
        (vec!["--tab"], ErrorKind::MissingValue, "--tab"),
        (vec!["--tab", "nirgends"], ErrorKind::UnknownTab, "nirgends"),
        (vec!["--lang", "fr"], ErrorKind::UnknownLanguage, "fr"),
        (vec!["--window", "gross"], ErrorKind::WindowShape, "gross"),
        (vec!["--window", "axb"], ErrorKind::NotANumber, "axb"),
        (vec!["--bench", "0"], ErrorKind::BenchZero, ""),
        (vec!["--search", "x", "--frames", "3"], ErrorKind::UnknownOption, "--frames"),
        (vec!["filetype"], ErrorKind::MissingExtension, ""),
        (vec!["hide"], ErrorKind::MissingRegistryPath, "hide"),
        (vec!["restore"], ErrorKind::MissingDirectory, ""),
        (vec!["delete"], ErrorKind::MissingDeletePath, ""),
        (vec!["create", "--category", "keine"], ErrorKind::UnknownCategory, "keine"),
        (vec!["create", "--sub", "ohne"], ErrorKind::SubWithoutBar, "ohne"),
        (vec!["create", "--sub-icon", "x.dll"], ErrorKind::SubIconWithoutSub, ""),
        (vec!["launch"], ErrorKind::UnknownCommand, "launch"),
        (vec!["scan", "--category"], ErrorKind::CategoryNeedsName, ""),
        (vec!["scan", "--scope"], ErrorKind::ScopeNeedsName, ""),
        (vec!["scan", "--scope", "cloud"], ErrorKind::UnknownScope, "cloud"),
        (vec!["favourite"], ErrorKind::FavouriteNeedsVerb, ""),
        (vec!["favourite", "remove"], ErrorKind::RemoveNeedsId, ""),
        (vec!["favourite", "run", "id"], ErrorKind::RunNeedsIdAndFile, ""),
        (vec!["favourite", "place"], ErrorKind::PlaceNeedsId, ""),
        (vec!["favourite", "place", "id", "--ext"], ErrorKind::FlagNeedsValue, "--ext"),
        (vec!["favourite", "place", "id", "--where", "x"], ErrorKind::UnknownFavouriteOption, "--where"),
        (vec!["favourite", "place", "id"], ErrorKind::PlaceNeedsCategory, ""),
        (vec!["favourite", "add", "--url", "u", "--mode", "mail"], ErrorKind::UnknownMode, "mail"),
        (vec!["favourite", "add", "--endpoint", "e", "--result", "x"], ErrorKind::UnknownResult, "x"),
        (vec!["favourite", "add", "--header", "ohne Doppelpunkt"], ErrorKind::HeaderWithoutColon, ""),
        (vec!["favourite", "add", "--name", "n"], ErrorKind::AddNeedsTool, ""),
        (vec!["favourite", "edit"], ErrorKind::UnknownFavouriteVerb, "edit"),
    ];
    for (args, kind, detail) in cases {
        let (got, said) = refusal(&args);
        assert_eq!(got, kind, "{args:?}");
        assert_eq!(said, detail, "{args:?}");
    }
}

#[test]
fn refusals_read_as_the_console_prints_them() {
    let unknown = run(&["launch"]).err().expect("refused");
    let german = unknown.message(Language::German);
    assert_eq!(
        german,
        format!("\x1eUnbekannter Befehl\x1funknown command\x1d: launch\n\n{HELP_DE}")
    );
    assert!(unknown.message(Language::English).ends_with(HELP_EN));

    let missing = run(&["--ext"]).err().expect("refused");
    assert_eq!(
        missing.message(Language::English),
        "--ext \x1eerwartet einen Wert\x1fexpects a value\x1d"
    );
    let hide = run(&["always-show"]).err().expect("refused");
    assert_eq!(hide.message(Language::German), "always-show erwartet einen Registry-Pfad");
    let mode = run(&["favourite", "add", "--url", "u", "--mode", "Mail"]).err().expect("refused");
    assert_eq!(
        mode.message(Language::German),
        "\x1eUnbekannter Modus\x1funknown mode\x1d: Mail (clipboard, open)"
    );
}

#[test]
fn the_usage_text_follows_the_language() {
    assert_eq!(help(Language::German), HELP_DE);
    assert_eq!(help(Language::English), HELP_EN);
    assert!(HELP_DE.starts_with("ctxmenu"));
}

#[test]
fn the_window_size_takes_two_numbers_and_raises_each() {
    assert_eq!(parse_window_size("1920x1080").unwrap(), (1920, 1080));
    assert_eq!(parse_window_size("+1000X-5").unwrap(), (1000, 600));
    assert_eq!(parse_window_size("50x700").unwrap(), (900, 700));
    assert_eq!(parse_window_size("99999999999x700").unwrap_err().kind, ErrorKind::NotANumber);
    assert_eq!(parse_window_size("1600*1000").unwrap_err().kind, ErrorKind::WindowShape);
}

#[test]
fn the_window_switches_fill_the_start() {
    let Command::Gui(start) = run(&["--ext", ".PNG", "--search", "zip"]).unwrap() else {
        panic!("the window");
    };
    assert_eq!(start.ext.as_deref(), Some(".png"));
    assert_eq!(start.tab, Tab::FileTypes);
    assert_eq!(start.search, "zip");

    let Command::Gui(start) = run(&["--tab", "Sicherungen"]).unwrap() else {
        panic!("the window");
    };
    assert_eq!(start.tab, Tab::Backups);

    let Command::Gui(start) = run(&["--theme-probe"]).unwrap() else {
        panic!("the window");
    };
    assert!(start.theme_probe);
    assert!(matches!(run(&["--smoke"]).unwrap(), Command::Smoke));
}

#[test]
fn the_flag_words_apply_their_action_and_yes_may_stand_anywhere() {
    let Command::Apply { action, path, confirmed } = run(&["shift-only", "HKCU\\x", "--yes"]).unwrap() else {
        panic!("an action");
    };
    assert_eq!(action, Action::ShiftOnly);
    assert_eq!(path, "HKCU\\x");
    assert!(confirmed);

    let Command::Apply { action, confirmed, .. } = run(&["hide", "HKCU\\x"]).unwrap() else {
        panic!("an action");
    };
    assert_eq!(action, Action::Hide);
    assert!(!confirmed);

    let Command::Delete { path, confirmed } = run(&["delete", "--yes"]).unwrap() else {
        panic!("a deletion");
    };
    assert_eq!(path, "--yes");
    assert!(confirmed);
}

#[test]
fn the_plain_commands_take_their_argument() {
    assert!(matches!(run(&["programs"]).unwrap(), Command::Programs));
    assert!(matches!(run(&["backups"]).unwrap(), Command::Backups));
    assert!(matches!(run(&["backup-all"]).unwrap(), Command::BackupAll));
    assert!(matches!(run(&["created"]).unwrap(), Command::Created));
    assert!(matches!(run(&["-h"]).unwrap(), Command::Help));
    assert!(matches!(run(&["favoriten"]).unwrap(), Command::Favourite(FavouriteCommand::List)));
    let Command::FileType(ext) = run(&["filetype", ".zip"]).unwrap() else {
        panic!("a file type");
    };
    assert_eq!(ext, ".zip");
    let Command::Restore(directory) = run(&["restore", "C:\\b"]).unwrap() else {
        panic!("a restore");
    };
    assert_eq!(directory, "C:\\b");
}

#[test]
fn the_scan_switches_are_read_in_order() {
    let Command::Scan(scan) = run(&["scan", "--scope", "machine", "--scope", "ALL", "--quiet", "--all-types", "--every-type"]).unwrap() else {
        panic!("a scan");
    };
    assert_eq!(scan.options.scopes, vec![Scope::User, Scope::Machine, Scope::Machine32]);
    assert!(scan.quiet);
    assert_eq!(scan.options.file_types, FileTypes::Installed);
    let Command::Scan(scan) = run(&["scan", "--all-types"]).unwrap() else {
        panic!("a scan");
    };
    assert_eq!(scan.options.file_types, FileTypes::Wanted);
}

#[test]
fn a_favourite_is_assembled_from_its_switches() {
    let args: Vec<String> = ["add", "--name", "Packen", "--exe", "  \"C:\\7z\\7z.exe\"  ", "--args", "a \"%1\"", "--icon", "7z.ico"]
        .iter()
        .map(|s| s.to_string())
        .collect();
    let FavouriteCommand::Add(favourite) = parse_favourite(&args).unwrap() else {
        panic!("an added favourite");
    };
    assert_eq!(favourite.name, "Packen");
    assert_eq!(favourite.id, "");
    assert_eq!(favourite.icon.as_deref(), Some("7z.ico"));
    let Tool::Program { path, args } = favourite.tool else {
        panic!("a program");
    };
    assert_eq!(path, "C:\\7z\\7z.exe");
    assert_eq!(args, "a \"%1\"");

    let args: Vec<String> = ["add", "--endpoint", "https://x/api", "--raw", "--insecure", "--header", " Authorization :  Bearer k ", "--result", "SAVE", "--suffix", ".min", "--json-path", "out.url"]
        .iter()
        .map(|s| s.to_string())
        .collect();
    let FavouriteCommand::Add(favourite) = parse_favourite(&args).unwrap() else {
        panic!("an added favourite");
    };
    let Tool::Web(web) = favourite.tool else {
        panic!("a web tool");
    };
    assert!(web.allow_insecure);
    assert!(!web.confirmed);
    let WebMode::Upload(upload) = web.mode else {
        panic!("an upload");
    };
    assert_eq!(upload.endpoint, "https://x/api");
    assert_eq!(upload.method, "POST");
    assert!(matches!(upload.body, UploadBody::Raw));
    assert_eq!(upload.headers.len(), 1);
    assert_eq!(upload.headers[0].name, "Authorization");
    assert_eq!(upload.headers[0].value, "Bearer k");
    let ResultAction::Save { source, suffix } = upload.result else {
        panic!("a saved result");
    };
    assert_eq!(suffix, ".min");
    assert!(matches!(source, ResultSource::Json { path } if path == "out.url"));
}

#[test]
fn placing_running_and_removing_a_favourite_name_their_target() {
    let Command::Favourite(FavouriteCommand::Place { id, category }) =
        run(&["favorit", "place", "f1", "--ext", ".jpg", "--category", "Drive"]).unwrap()
    else {
        panic!("a placement");
    };
    assert_eq!(id, "f1");
    assert_eq!(category, Category::Drive);
    let Command::Favourite(FavouriteCommand::Run { id, file }) = run(&["favourite", "run", "f2", "a.png"]).unwrap() else {
        panic!("a run");
    };
    assert_eq!((id.as_str(), file.as_str()), ("f2", "a.png"));
    let Command::Favourite(FavouriteCommand::Remove(id)) = run(&["favourite", "remove", "f3"]).unwrap() else {
        panic!("a removal");
    };
    assert_eq!(id, "f3");
}

#[test]
fn an_entry_of_ones_own_takes_every_switch() {
    let Command::Create(entry) = run(&["create", "--ext", ".txt", "--key", "mein", "--command", "notepad %1", "--icon", "n.ico", "--position", "Mitte"]).unwrap() else {
        panic!("a new entry");
    };
    assert_eq!(entry.category, Category::ExtAssoc(".txt".into()));
    assert_eq!(entry.key_name, "mein");
    assert_eq!(entry.icon.as_deref(), Some("n.ico"));
    assert_eq!(entry.position.as_deref(), Some("mitte"));
    assert!(!entry.is_submenu());
    let Command::Create(entry) = run(&["create", "--perceived", "image", "--position", "UNTEN"]).unwrap() else {
        panic!("a new entry");
    };
    assert_eq!(entry.category, Category::PerceivedType("image".into()));
    assert_eq!(entry.position.as_deref(), Some("Bottom"));
    assert_eq!(entry.key_name, "ctxmenu_");
}

#[test]
fn suggested_key_names_keep_the_order_and_lose_what_a_key_cannot_hold() {
    assert_eq!(suggest_key_name("A\\B C"), "ctxmenu_A_B_C");
    assert_eq!(suggest_child_key_name(0, "Eins"), "01_Eins");
    assert_eq!(suggest_child_key_name(9, "Zehn Elf"), "10_Zehn_Elf");
    assert_eq!(suggest_child_key_name(99, "x"), "100_x");
}

#[test]
fn no_bench_of_zero_frames_slips_through_between_other_switches() {
    for args in [
        vec!["--bench", "0"],
        vec!["--synthetic", "5", "--bench", "00"],
        vec!["--tab", "programs", "--bench", "+0", "--lang", "en"],
    ] {
        assert_eq!(refusal(&args).0, ErrorKind::BenchZero, "{args:?}");
    }
    let Command::Gui(start) = run(&["--bench", "+7"]).unwrap() else {
        panic!("the window");
    };
    assert_eq!(start.bench, Some(7));
}
