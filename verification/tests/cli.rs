use ctxmenu::cli::{CliError, Command, FavouriteCommand, HELP_DE, HELP_EN, parse, parse_favourite, truncate};
use ctxmenu::favourites::{ResultAction, Tool, WebMode};
use ctxmenu::model::{Category, Scope};
use ctxmenu::settings::Language;
use ctxmenu::window::{Start, Tab};

fn parse_args(args: &[&str]) -> Result<Command, CliError> {
    parse(args.iter().map(|s| s.to_string()).collect())
}

/// The `Start` behind a `--`something run, or a failed test.
fn start_of(args: &[&str]) -> Start {
    match parse_args(args).unwrap() {
        Command::Gui(start) => start,
        _ => panic!("{args:?} should open the window"),
    }
}

#[test]
fn no_arguments_opens_the_window() {
    let start = start_of(&[]);
    assert!(start.synthetic.is_none());
    assert!(start.bench.is_none());
    assert_eq!(start.language, None);
    assert_eq!(start.size, None);
    assert!(matches!(parse_args(&["--help"]).unwrap(), Command::Help));
}

#[test]
fn the_start_language_can_be_named_for_one_run() {
    assert_eq!(start_of(&["--lang", "en"]).language, Some(Language::English));
    assert_eq!(start_of(&["--lang", "Deutsch"]).language, Some(Language::German));
    let start = start_of(&["--lang", "en", "--tab", "services"]);
    assert_eq!(start.language, Some(Language::English));
    assert_eq!(start.tab, Tab::Services);

    assert!(parse_args(&["--lang", "klingonisch"]).is_err());
    assert!(parse_args(&["--lang"]).is_err());
}

#[test]
fn the_window_size_is_parsed_and_never_falls_below_the_minimum() {
    assert_eq!(start_of(&["--window", "1600x1000"]).size, Some((1600, 1000)));
    assert_eq!(start_of(&["--window", "1600X1000"]).size, Some((1600, 1000)));
    assert_eq!(start_of(&["--window", " 1600 x 1000 "]).size, Some((1600, 1000)));
    assert_eq!(start_of(&["--window", "100x100"]).size, Some((900, 600)));
    assert_eq!(start_of(&["--window", "1600x10"]).size, Some((1600, 600)));

    for nonsense in ["abc", "1600", "1600x", "x1000", "1600x1000x60"] {
        assert!(
            parse_args(&["--window", nonsense]).is_err(),
            "--window {nonsense} should be refused"
        );
    }
    assert!(parse_args(&["--window"]).is_err());
}

#[test]
fn both_help_texts_name_every_switch() {
    for token in [
        "--tab",
        "--search",
        "--ext",
        "--lang",
        "--window",
        "--synthetic",
        "--bench",
        "--theme-probe",
        "--smoke",
        "--version",
        "--help",
        "categories",
        "filetypes",
        "programs",
        "favourites",
        "services",
        "backups",
    ] {
        assert!(HELP_DE.contains(token), "the German help omits {token}");
        assert!(HELP_EN.contains(token), "the English help omits {token}");
    }
}

#[test]
fn the_version_is_asked_for_the_way_every_tool_answers_it() {
    for flag in ["--version", "-V", "version"] {
        assert!(
            matches!(parse_args(&[flag]).unwrap(), Command::Version),
            "{flag} must report the version"
        );
    }

    let parts: Vec<&str> = ctxmenu::VERSION.split('.').collect();
    assert_eq!(parts.len(), 3, "semantic versioning has three parts");
    assert!(
        parts.iter().all(|p| p.parse::<u32>().is_ok()),
        "every part is a number: {}",
        ctxmenu::VERSION
    );
}

#[test]
fn the_synthetic_row_count_is_parsed() {
    let start = start_of(&["--synthetic", "2000"]);
    assert_eq!(start.synthetic, Some(2000));
    assert_eq!(start.bench, None);

    let start = start_of(&["--synthetic", "2000", "--bench", "600"]);
    assert_eq!(start.synthetic, Some(2000));
    assert_eq!(start.bench, Some(600));

    assert!(parse_args(&["--synthetic"]).is_err());
    assert!(parse_args(&["--synthetic", "viele"]).is_err());
}

#[test]
fn a_bench_of_zero_frames_is_refused() {
    let Err(error) = parse_args(&["--synthetic", "50", "--bench", "0"]) else {
        panic!("--bench 0 must be refused");
    };
    assert!(error.message(Language::German).contains("--bench 0"));

    assert_eq!(start_of(&["--synthetic", "0"]).synthetic, Some(0));
}

fn favourite_args(args: &[&str]) -> Result<FavouriteCommand, CliError> {
    parse_favourite(&args.iter().map(|s| s.to_string()).collect::<Vec<_>>())
}

#[test]
fn a_typo_in_favourite_mode_is_refused_not_swallowed() {
    let Err(error) = favourite_args(&["add", "--name", "X", "--url", "https://y", "--mode", "oepn"])
    else {
        panic!("a typo'd mode must be refused");
    };
    assert!(error.message(Language::German).contains("oepn"));

    let FavouriteCommand::Add(favourite) =
        favourite_args(&["add", "--name", "X", "--url", "https://y", "--mode", "open"])
            .expect("a known mode is accepted")
    else {
        panic!("expected FavouriteCommand::Add");
    };
    let Tool::Web(web) = favourite.tool else {
        panic!("expected a web tool");
    };
    assert!(matches!(web.mode, WebMode::Open { .. }));
}

#[test]
fn a_typo_in_favourite_result_is_refused_not_swallowed() {
    let Err(error) = favourite_args(&[
        "add",
        "--name",
        "X",
        "--endpoint",
        "https://y",
        "--result",
        "svae",
    ]) else {
        panic!("a typo'd result must be refused");
    };
    assert!(error.message(Language::German).contains("svae"));

    let FavouriteCommand::Add(favourite) = favourite_args(&[
        "add",
        "--name",
        "X",
        "--endpoint",
        "https://y",
        "--result",
        "save",
    ])
    .expect("a known result is accepted") else {
        panic!("expected FavouriteCommand::Add");
    };
    let Tool::Web(web) = favourite.tool else {
        panic!("expected a web tool");
    };
    let WebMode::Upload(upload) = web.mode else {
        panic!("expected an upload mode");
    };
    assert!(matches!(upload.result, ResultAction::Save { .. }));
}

#[test]
fn scan_defaults_to_every_scope_and_category() {
    let Command::Scan(args) = parse_args(&["scan"]).unwrap() else {
        panic!("expected a scan command");
    };
    assert_eq!(args.options.scopes.len(), 3);
    assert!(args.options.categories.is_none());
    assert!(!args.json);
}

#[test]
fn category_and_scope_are_parsed() {
    let Command::Scan(args) = parse_args(&[
        "scan",
        "--category",
        "directory",
        "--scope",
        "machine32",
        "--json",
    ])
    .unwrap() else {
        panic!("expected a scan command");
    };
    assert_eq!(args.options.categories, Some(vec![Category::Directory]));
    assert_eq!(args.options.scopes, vec![Scope::Machine32]);
    assert!(args.json);
}

#[test]
fn unknown_values_are_rejected_rather_than_ignored() {
    assert!(parse_args(&["scan", "--category", "nonsense"]).is_err());
    assert!(parse_args(&["scan", "--scope", "nonsense"]).is_err());
    assert!(parse_args(&["scan", "--category"]).is_err());
    assert!(parse_args(&["nonsense"]).is_err());
}

#[test]
fn a_new_entry_is_assembled_from_the_flags() {
    let Command::Create(entry) = parse_args(&[
        "create",
        "--category",
        "directorybackground",
        "--name",
        "Hier öffnen",
        "--command",
        r#""C:\Windows\notepad.exe" "%V""#,
        "--position",
        "oben",
        "--extended",
    ])
    .unwrap() else {
        panic!("expected a create command");
    };

    assert_eq!(entry.category, Category::DirectoryBackground);
    assert_eq!(entry.display_name, "Hier öffnen");
    assert_eq!(entry.position.as_deref(), Some("Top"));
    assert!(entry.extended);
    assert_eq!(entry.key_name, "ctxmenu_Hier_öffnen");
    assert!(entry.command.contains("%V"));
}

#[test]
fn a_submenu_is_assembled_from_repeated_sub_flags() {
    let Command::Create(entry) = parse_args(&[
        "create",
        "--category",
        "directory",
        "--name",
        "Werkzeuge",
        "--sub",
        "Zebra|cmd /c dir | more",
        "--sub-icon",
        r"shell32.dll,-244",
        "--sub",
        "Anton|cmd /c echo a",
    ])
    .unwrap() else {
        panic!("expected a create command");
    };

    assert!(entry.is_submenu());
    assert_eq!(entry.children.len(), 2);
    assert_eq!(entry.children[0].display_name, "Zebra");
    assert_eq!(entry.children[0].command, "cmd /c dir | more");
    assert_eq!(entry.children[0].icon.as_deref(), Some("shell32.dll,-244"));
    assert!(entry.children[1].icon.is_none());

    assert_eq!(entry.children[0].key_name, "01_Zebra");
    assert_eq!(entry.children[1].key_name, "02_Anton");
}

#[test]
fn a_malformed_sub_flag_is_refused_rather_than_guessed_at() {
    assert!(parse_args(&["create", "--name", "x", "--sub", "ohne Strich"]).is_err());
    assert!(parse_args(&["create", "--name", "x", "--sub-icon", "a.dll,0"]).is_err());
}

#[test]
fn truncation_keeps_character_boundaries() {
    assert_eq!(truncate("kurz", 10), "kurz");
    assert_eq!(truncate("äöüäöüäöü", 4), "äöü…");
    assert_eq!(truncate("abcdef", 6), "abcdef");
}
