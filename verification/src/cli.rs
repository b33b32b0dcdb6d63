//! The command line: what `argv` asks for, and what is said when it asks for
//! something that does not exist.
//!
//! Parsing is all of it that decides anything. Running a command reads the
//! registry or the disk and prints, which happens around this module; the
//! lines it prints are composed here.

use vstd::prelude::*;

use crate::chars::{
    ascii_lowercase, ascii_lowered, chars_of, copy_opt, first_index, find_from, int_value, is_word,
    lowercase, lowercase_of, opt_view, texts, parse_i32, parse_usize, string_of, text_eq, trim, trim_range,
    trim_end, trimmed, trimmed_string, unsigned_value,
};
use crate::create::{
    NewChild, NewChildView, NewEntry, NewEntryView, suggest_child_key_name, suggest_key_name,
    suggested_child_key, suggested_key,
};
use crate::favourites::{
    Favourite, FavouriteView, Header, HeaderView, ResultAction, ResultActionView, ResultSource,
    ResultSourceView, Tool, ToolView, Upload, UploadBody, UploadBodyView, UploadView, WebMode,
    WebModeView, WebTool, WebToolView,
};
use crate::model::{
    Action, Category, CategoryView, ContextEntry, EntryKind, Scope, base_view, kind_label,
    scope_from_lowered, scope_label,
};
use crate::bilingual::padded;
use crate::labels::{detail, detail_text};
use crate::settings::{Language, language_from_lowered};
use crate::window::{Start, StartView, Tab, default_start, tab_from_lowered};

verus! {

/// How far a scan reaches beyond the base categories. The lists themselves
/// come from the disk and the registry, so the command line only says which.
#[derive(Debug, Clone, Copy, PartialEq, Eq, Structural)]
pub enum FileTypes {
    /// The base categories only.
    Nothing,
    /// The curated list of extensions plus the user's own: what the window
    /// walks.
    Wanted,
    /// Every extension registered on this machine.
    Installed,
}

/// What a scan visits.
#[derive(Debug, Clone)]
pub struct ScanOptions {
    pub scopes: Vec<Scope>,
    /// `None` for every base category.
    pub categories: Option<Vec<Category>>,
    pub file_types: FileTypes,
}

/// `ctxmenu scan` and its switches.
#[derive(Debug, Clone)]
pub struct ScanArgs {
    pub options: ScanOptions,
    pub json: bool,
    pub quiet: bool,
}

/// `ctxmenu favourite …`.
#[derive(Debug, Clone)]
pub enum FavouriteCommand {
    List,
    Add(Box<Favourite>),
    /// Write a favourite into the context menu somewhere.
    Place { id: String, category: Category },
    Remove(String),
    /// Do what a click on the entry would do, reporting to the console.
    Run { id: String, file: String },
}

/// What the command line asked for.
#[derive(Debug, Clone)]
pub enum Command {
    /// The window, started as the flags said.
    Gui(Start),
    Scan(ScanArgs),
    /// Every entry grouped by the program behind it.
    Programs,
    /// The full resolution chain of one extension.
    FileType(String),
    /// One action on one key, through the plan and elevation path.
    Apply { action: Action, path: String, confirmed: bool },
    Backups,
    /// Back up every place this tool touches.
    BackupAll,
    Restore(String),
    Delete { path: String, confirmed: bool },
    /// An entry of one's own in `HKCU`.
    Create(Box<NewEntry>),
    /// What this tool created.
    Created,
    Favourite(FavouriteCommand),
    Smoke,
    Help,
    Version,
}

/// What went wrong on the command line.
#[derive(Debug, Clone, Copy, PartialEq, Eq, Structural)]
pub enum ErrorKind {
    /// A switch came last, without the value it takes.
    MissingValue,
    UnknownTab,
    UnknownLanguage,
    /// `--window` without an `x` between two numbers.
    WindowShape,
    NotANumber,
    /// `--bench 0` measures nothing.
    BenchZero,
    /// A switch nobody knows; the usage text follows.
    UnknownOption,
    MissingExtension,
    MissingRegistryPath,
    MissingDirectory,
    MissingDeletePath,
    UnknownCategory,
    /// `--sub` without the bar between name and command.
    SubWithoutBar,
    /// `--sub-icon` with no `--sub` before it.
    SubIconWithoutSub,
    /// A command nobody knows; the usage text follows.
    UnknownCommand,
    CategoryNeedsName,
    ScopeNeedsName,
    UnknownScope,
    FavouriteNeedsVerb,
    RemoveNeedsId,
    RunNeedsIdAndFile,
    PlaceNeedsId,
    /// A favourite switch came last, without its value.
    FlagNeedsValue,
    /// A favourite switch nobody knows.
    UnknownFavouriteOption,
    PlaceNeedsCategory,
    UnknownMode,
    UnknownResult,
    HeaderWithoutColon,
    AddNeedsTool,
    UnknownFavouriteVerb,
}

/// A refused command line: what is wrong, and the word it is wrong about
/// (empty where there is none).
#[derive(Debug, Clone)]
pub struct CliError {
    pub kind: ErrorKind,
    pub detail: String,
}

/// An error as the values it holds.
pub open spec fn fault(kind: ErrorKind, detail: Seq<char>) -> (ErrorKind, Seq<char>) {
    (kind, detail)
}

impl View for CliError {
    type V = (ErrorKind, Seq<char>);

    open spec fn view(&self) -> (ErrorKind, Seq<char>) {
        (self.kind, self.detail@)
    }
}

/// The text of an error, its two languages still marked; `help` is the
/// usage text that follows an unknown command or switch.
pub open spec fn error_text(kind: ErrorKind, detail: Seq<char>, help: Seq<char>) -> Seq<char> {
    match kind {
        ErrorKind::MissingValue => detail + " \x1eerwartet einen Wert\x1fexpects a value\x1d"@,
        ErrorKind::UnknownTab => "\x1eUnbekannter Reiter\x1funknown tab\x1d: "@ + detail,
        ErrorKind::UnknownLanguage => "\x1eUnbekannte Sprache\x1funknown language\x1d: "@ + detail,
        ErrorKind::WindowShape => "--window \x1eerwartet <breite>x<höhe>\x1fexpects <width>x<height>\x1d: "@
            + detail,
        ErrorKind::NotANumber => "\x1eKeine Zahl\x1fnot a number\x1d: "@ + detail,
        ErrorKind::BenchZero => "\x1e--bench 0 misst nichts\x1f--bench 0 measures nothing\x1d"@,
        ErrorKind::UnknownOption => "\x1eUnbekannte Option\x1funknown option\x1d: "@ + detail
            + "\n\n"@ + help,
        ErrorKind::MissingExtension => "\x1efiletype erwartet eine Erweiterung\x1fexpects an extension\x1d"@,
        ErrorKind::MissingRegistryPath => detail + " erwartet einen Registry-Pfad"@,
        ErrorKind::MissingDirectory => "\x1erestore erwartet ein Verzeichnis\x1fexpects a directory\x1d"@,
        ErrorKind::MissingDeletePath => "\x1edelete erwartet einen Registry-Pfad\x1fexpects a registry path\x1d"@,
        ErrorKind::UnknownCategory => "\x1eUnbekannte Kategorie\x1funknown category\x1d: "@ + detail,
        ErrorKind::SubWithoutBar => "\x1e--sub erwartet \"Anzeigename|Befehl\"\x1f--sub expects \"display name|command\"\x1d: "@
            + detail,
        ErrorKind::SubIconWithoutSub => "\x1e--sub-icon gehört zu einem vorangehenden --sub\x1f--sub-icon belongs to a preceding --sub\x1d"@,
        ErrorKind::UnknownCommand => "\x1eUnbekannter Befehl\x1funknown command\x1d: "@ + detail
            + "\n\n"@ + help,
        ErrorKind::CategoryNeedsName => "\x1e--category erwartet einen Namen\x1fexpects a name\x1d"@,
        ErrorKind::ScopeNeedsName => "\x1e--scope erwartet einen Namen\x1fexpects a name\x1d"@,
        ErrorKind::UnknownScope => "\x1eUnbekannter Scope\x1funknown scope\x1d: "@ + detail,
        ErrorKind::FavouriteNeedsVerb => "favourite erwartet list, add, place, remove oder run"@,
        ErrorKind::RemoveNeedsId => "remove erwartet eine Kennung"@,
        ErrorKind::RunNeedsIdAndFile => "\x1erun erwartet eine Kennung und eine Datei\x1fexpects an id and a file\x1d"@,
        ErrorKind::PlaceNeedsId => "place erwartet eine Kennung"@,
        ErrorKind::FlagNeedsValue => detail + " erwartet einen Wert"@,
        ErrorKind::UnknownFavouriteOption => "\x1eUnbekannte Option\x1funknown option\x1d: "@
            + detail,
        ErrorKind::PlaceNeedsCategory => "place erwartet --category, --ext oder --perceived"@,
        ErrorKind::UnknownMode => "\x1eUnbekannter Modus\x1funknown mode\x1d: "@ + detail
            + " (clipboard, open)"@,
        ErrorKind::UnknownResult => "\x1eUnbekanntes Ergebnis\x1funknown result\x1d: "@ + detail
            + " (save, open, report)"@,
        ErrorKind::HeaderWithoutColon => "--header erwartet \"Name: Wert\""@,
        ErrorKind::AddNeedsTool => "add erwartet --exe, --url oder --endpoint"@,
        ErrorKind::UnknownFavouriteVerb => "\x1eUnbekannt\x1funknown\x1d: favourite "@ + detail,
    }
}

/// `prefix`, then `detail`, then `suffix`.
fn framed(prefix: &str, detail: &str, suffix: &str) -> (result: String)
    ensures
        result@ == prefix@ + detail@ + suffix@,
{
    let mut text = String::from_str(prefix);
    text.append(detail);
    text.append(suffix);
    text
}

impl CliError {
    fn new(kind: ErrorKind, detail: &str) -> (result: CliError)
        ensures
            result@ == fault(kind, detail@),
    {
        CliError { kind, detail: String::from_str(detail) }
    }

    fn bare(kind: ErrorKind) -> (result: CliError)
        ensures
            result@ == fault(kind, Seq::empty()),
    {
        CliError { kind, detail: String::new() }
    }

    /// The error as it is reported, both languages still marked; the
    /// usage text that follows an unknown command or switch is the one for
    /// `language`.
    pub fn message(&self, language: Language) -> (result: String)
        ensures
            result@ == error_text(self.kind, self.detail@, help_text(language)),
    {
        proof {
            reveal_strlit("");
        }
        let d = self.detail.as_str();
        match self.kind {
            ErrorKind::MissingValue => framed("", d, " \x1eerwartet einen Wert\x1fexpects a value\x1d"),
            ErrorKind::UnknownTab => framed("\x1eUnbekannter Reiter\x1funknown tab\x1d: ", d, ""),
            ErrorKind::UnknownLanguage => framed("\x1eUnbekannte Sprache\x1funknown language\x1d: ", d, ""),
            ErrorKind::WindowShape => framed(
                "--window \x1eerwartet <breite>x<höhe>\x1fexpects <width>x<height>\x1d: ",
                d,
                "",
            ),
            ErrorKind::NotANumber => framed("\x1eKeine Zahl\x1fnot a number\x1d: ", d, ""),
            ErrorKind::BenchZero => String::from_str(
                "\x1e--bench 0 misst nichts\x1f--bench 0 measures nothing\x1d",
            ),
            ErrorKind::UnknownOption => {
                let mut text = framed("\x1eUnbekannte Option\x1funknown option\x1d: ", d, "\n\n");
                text.append(help(language));
                text
            },
            ErrorKind::MissingExtension => String::from_str(
                "\x1efiletype erwartet eine Erweiterung\x1fexpects an extension\x1d",
            ),
            ErrorKind::MissingRegistryPath => framed("", d, " erwartet einen Registry-Pfad"),
            ErrorKind::MissingDirectory => String::from_str(
                "\x1erestore erwartet ein Verzeichnis\x1fexpects a directory\x1d",
            ),
            ErrorKind::MissingDeletePath => String::from_str(
                "\x1edelete erwartet einen Registry-Pfad\x1fexpects a registry path\x1d",
            ),
            ErrorKind::UnknownCategory => framed("\x1eUnbekannte Kategorie\x1funknown category\x1d: ", d, ""),
            ErrorKind::SubWithoutBar => framed(
                "\x1e--sub erwartet \"Anzeigename|Befehl\"\x1f--sub expects \"display name|command\"\x1d: ",
                d,
                "",
            ),
            ErrorKind::SubIconWithoutSub => String::from_str(
                "\x1e--sub-icon gehört zu einem vorangehenden --sub\x1f--sub-icon belongs to a preceding --sub\x1d",
            ),
            ErrorKind::UnknownCommand => {
                let mut text = framed("\x1eUnbekannter Befehl\x1funknown command\x1d: ", d, "\n\n");
                text.append(help(language));
                text
            },
            ErrorKind::CategoryNeedsName => String::from_str(
                "\x1e--category erwartet einen Namen\x1fexpects a name\x1d",
            ),
            ErrorKind::ScopeNeedsName => String::from_str(
                "\x1e--scope erwartet einen Namen\x1fexpects a name\x1d",
            ),
            ErrorKind::UnknownScope => framed("\x1eUnbekannter Scope\x1funknown scope\x1d: ", d, ""),
            ErrorKind::FavouriteNeedsVerb => String::from_str(
                "favourite erwartet list, add, place, remove oder run",
            ),
            ErrorKind::RemoveNeedsId => String::from_str("remove erwartet eine Kennung"),
            ErrorKind::RunNeedsIdAndFile => String::from_str(
                "\x1erun erwartet eine Kennung und eine Datei\x1fexpects an id and a file\x1d",
            ),
            ErrorKind::PlaceNeedsId => String::from_str("place erwartet eine Kennung"),
            ErrorKind::FlagNeedsValue => framed("", d, " erwartet einen Wert"),
            ErrorKind::UnknownFavouriteOption => framed(
                "\x1eUnbekannte Option\x1funknown option\x1d: ",
                d,
                "",
            ),
            ErrorKind::PlaceNeedsCategory => String::from_str(
                "place erwartet --category, --ext oder --perceived",
            ),
            ErrorKind::UnknownMode => framed(
                "\x1eUnbekannter Modus\x1funknown mode\x1d: ",
                d,
                " (clipboard, open)",
            ),
            ErrorKind::UnknownResult => framed(
                "\x1eUnbekanntes Ergebnis\x1funknown result\x1d: ",
                d,
                " (save, open, report)",
            ),
            ErrorKind::HeaderWithoutColon => String::from_str("--header erwartet \"Name: Wert\""),
            ErrorKind::AddNeedsTool => String::from_str("add erwartet --exe, --url oder --endpoint"),
            ErrorKind::UnknownFavouriteVerb => framed("\x1eUnbekannt\x1funknown\x1d: favourite ", d, ""),
        }
    }
}

/// The usage text in `language`.
pub open spec fn help_text(language: Language) -> Seq<char> {
    match language {
        Language::German => HELP_DE@,
        Language::English => HELP_EN@,
    }
}

/// The usage text, in the language this machine speaks.
///
/// Two texts rather than one marked text: it is a table, and a table cut in
/// half keeps the width of the half that was thrown away.
pub fn help(language: Language) -> (result: &'static str)
    ensures
        result@ == help_text(language),
{
    match language {
        Language::German => HELP_DE,
        Language::English => HELP_EN,
    }
}

/// The usage text in German.
pub const HELP_DE: &'static str = "\
ctxmenu — Windows Context Menu Manager

Verwendung:
  ctxmenu                   Fenster öffnen
  ctxmenu --tab <name>      Fenster auf einem Reiter öffnen:
                            categories, filetypes, programs, favourites,
                            services, backups
  ctxmenu --search <text>   Fenster mit gesetzter Suche öffnen
  ctxmenu --ext .png        Fenster auf dem Dateityp-Reiter, Endung gewählt
  ctxmenu --lang de|en      Fenster in dieser Sprache öffnen; die gespeicherte
                            Einstellung bleibt, wie sie ist
  ctxmenu --window 1600x1000
                            Fenster in dieser Größe (Bildpunkte) auf dem linken
                            Bildschirm öffnen; mindestens 900x600
  ctxmenu --synthetic <n> [--bench <frames>]
                            Fenster mit n erzeugten Zeilen, optional als
                            Messlauf
  ctxmenu scan [Optionen]   Einträge auflisten
  ctxmenu programs          Nach Programm gruppieren
  ctxmenu filetype <ext>    Auflösungskette eines Dateityps
  ctxmenu hide|show|shift-only|always-show <key> --yes
                            Merkmal setzen oder entfernen, mit Backup und
                            nötigenfalls Rechteerhöhung
  ctxmenu backups           Backups auflisten
  ctxmenu backup-all        Alles sichern, was dieses Werkzeug anfasst
  ctxmenu restore <pfad>    Backup zurückspielen
  ctxmenu delete <key> --yes
                            Schlüssel sichern und löschen
  ctxmenu create --category <name> | --ext .png | --perceived image
                 --name <text> --command <zeile>
                 [--key <name>] [--icon <ref>] [--position top|bottom]
                 [--extended]
                            Eigenen Eintrag in HKCU anlegen
                 --sub \"<text>|<zeile>\" [--sub-icon <ref>] ...
                            Statt --command: Untermenü, ein --sub je
                            Untereintrag, getrennt am ersten senkrechten
                            Strich; --sub-icon gilt dem davorstehenden --sub
  ctxmenu created           Selbst angelegte Einträge auflisten
  ctxmenu favourites        Favoriten auflisten
  ctxmenu favourite add --name <text>
        --exe <pfad> [--args <zeile>]                  Programm
        --url <adresse> [--mode clipboard|open]        Webtool ohne Endpunkt
        --endpoint <adresse> [--raw] [--field <name>]  Webtool mit Upload
        [--header \"Name: Wert\"] [--result save|open|report]
        [--suffix .min] [--json-path output.url] [--insecure]
  ctxmenu favourite place <id> --category <name> | --ext .png | --perceived image
                            Favorit ins Kontextmenü eintragen
  ctxmenu favourite remove <id>
  ctxmenu favourite run <id> <datei>
                            Ausführen wie ein Klick, Ausgabe auf der Konsole
  ctxmenu --theme-probe     Systemthema einmal umschalten und melden, ob das
                            Fenster folgt; setzt die Einstellung danach zurück
  ctxmenu --smoke           Smoke-Test-Fenster
  ctxmenu --version         Fassung nennen
  ctxmenu --help            Diese Hilfe

Optionen:
  --category <name>   Nur eine Kategorie:
                      allfiles, allfilesystemobjects, directory,
                      directorybackground, folder, desktopbackground, drive
  --scope <name>      user | machine | machine32 | all
                      (Vorgabe: all)
  --all-types         Auch die Dateityp-Kette, für die vorgegebene Liste und
                      eigene Endungen
  --every-type        Statt dessen jede registrierte Endung dieses Rechners
  --json              Ausgabe als JSON
  --quiet             Kein Fortschritt
";

/// The usage text in English.
pub const HELP_EN: &'static str = "\
ctxmenu — Windows Context Menu Manager

Usage:
  ctxmenu                   open the window
  ctxmenu --tab <name>      open the window on a tab:
                            categories, filetypes, programs, favourites,
                            services, backups
  ctxmenu --search <text>   open the window with the search box filled
  ctxmenu --ext .png        open the file type tab with that extension
                            selected
  ctxmenu --lang de|en      open the window in that language, leaving the
                            saved setting as it is
  ctxmenu --window 1600x1000
                            open the window at that size in pixels on the
                            leftmost screen; at least 900x600
  ctxmenu --synthetic <n> [--bench <frames>]
                            window with n generated rows, optionally as a
                            measured run
  ctxmenu scan [options]    list context menu entries
  ctxmenu programs          group by program
  ctxmenu filetype <ext>    resolution chain of one file type
  ctxmenu hide|show|shift-only|always-show <key> --yes
                            set or clear a flag, with a backup and elevation
                            if needed
  ctxmenu backups           list backups
  ctxmenu backup-all        back up every place this tool touches
  ctxmenu restore <path>    restore a backup directory
  ctxmenu delete <key> --yes
                            back up and delete a key
  ctxmenu create --category <name> | --ext .png | --perceived image
                 --name <text> --command <line>
                 [--key <name>] [--icon <ref>] [--position top|bottom]
                 [--extended]
                            create your own entry in HKCU
                 --sub \"<text>|<line>\" [--sub-icon <ref>] ...
                            instead of --command: a submenu, one --sub per
                            child, split at the first vertical bar; --sub-icon
                            applies to the --sub before it
  ctxmenu created           list entries created by this tool
  ctxmenu favourites        list favourites
  ctxmenu favourite add --name <text>
        --exe <path> [--args <line>]                   a program
        --url <address> [--mode clipboard|open]        web tool, no endpoint
        --endpoint <address> [--raw] [--field <name>]  web tool with upload
        [--header \"Name: Value\"] [--result save|open|report]
        [--suffix .min] [--json-path output.url] [--insecure]
  ctxmenu favourite place <id> --category <name> | --ext .png | --perceived image
                            put a favourite into the context menu
  ctxmenu favourite remove <id>
  ctxmenu favourite run <id> <file>
                            run as a click would, reporting on the console
  ctxmenu --theme-probe     flip the system theme once, report whether the
                            window followed, then restore it
  ctxmenu --smoke           open the smoke test window
  ctxmenu --version         print the version
  ctxmenu --help            this help

Options:
  --category <name>   single category only:
                      allfiles, allfilesystemobjects, directory,
                      directorybackground, folder, desktopbackground, drive
  --scope <name>      user | machine | machine32 | all
                      (default: all)
  --all-types         walk the file type chain for the curated list plus
                      one's own extensions
  --every-type        instead: every extension registered on this machine
  --json              emit JSON on stdout
  --quiet             suppress progress output
";

/// A scan's switches as the values they hold.
pub struct ScanArgsView {
    pub scopes: Seq<Scope>,
    pub categories: Option<Seq<CategoryView>>,
    pub file_types: FileTypes,
    pub json: bool,
    pub quiet: bool,
}

impl View for ScanArgs {
    type V = ScanArgsView;

    open spec fn view(&self) -> ScanArgsView {
        ScanArgsView {
            scopes: self.options.scopes@,
            categories: match self.options.categories {
                Some(list) => Some(list@.map_values(|c: Category| c@)),
                None => None,
            },
            file_types: self.options.file_types,
            json: self.json,
            quiet: self.quiet,
        }
    }
}

pub enum FavouriteCommandView {
    List,
    Add(FavouriteView),
    Place { id: Seq<char>, category: CategoryView },
    Remove(Seq<char>),
    Run { id: Seq<char>, file: Seq<char> },
}

impl View for FavouriteCommand {
    type V = FavouriteCommandView;

    open spec fn view(&self) -> FavouriteCommandView {
        match self {
            FavouriteCommand::List => FavouriteCommandView::List,
            FavouriteCommand::Add(favourite) => FavouriteCommandView::Add(favourite@),
            FavouriteCommand::Place { id, category } => FavouriteCommandView::Place {
                id: id@,
                category: category@,
            },
            FavouriteCommand::Remove(id) => FavouriteCommandView::Remove(id@),
            FavouriteCommand::Run { id, file } => FavouriteCommandView::Run { id: id@, file: file@ },
        }
    }
}

/// A command as the values it holds.
pub enum CommandView {
    Gui(StartView),
    Scan(ScanArgsView),
    Programs,
    FileType(Seq<char>),
    Apply { action: Action, path: Seq<char>, confirmed: bool },
    Backups,
    BackupAll,
    Restore(Seq<char>),
    Delete { path: Seq<char>, confirmed: bool },
    Create(NewEntryView),
    Created,
    Favourite(FavouriteCommandView),
    Smoke,
    Help,
    Version,
}

impl View for Command {
    type V = CommandView;

    open spec fn view(&self) -> CommandView {
        match self {
            Command::Gui(start) => CommandView::Gui(start@),
            Command::Scan(args) => CommandView::Scan(args@),
            Command::Programs => CommandView::Programs,
            Command::FileType(ext) => CommandView::FileType(ext@),
            Command::Apply { action, path, confirmed } => CommandView::Apply {
                action: *action,
                path: path@,
                confirmed: *confirmed,
            },
            Command::Backups => CommandView::Backups,
            Command::BackupAll => CommandView::BackupAll,
            Command::Restore(directory) => CommandView::Restore(directory@),
            Command::Delete { path, confirmed } => CommandView::Delete {
                path: path@,
                confirmed: *confirmed,
            },
            Command::Create(entry) => CommandView::Create(entry@),
            Command::Created => CommandView::Created,
            Command::Favourite(command) => CommandView::Favourite(command@),
            Command::Smoke => CommandView::Smoke,
            Command::Help => CommandView::Help,
            Command::Version => CommandView::Version,
        }
    }
}

/// What `str::parse::<i32>` makes of `s`.
pub open spec fn i32_of(s: Seq<char>) -> Option<i32> {
    match int_value(s) {
        Some(v) => if i32::MIN <= v <= i32::MAX {
            Some(v as i32)
        } else {
            None
        },
        None => None,
    }
}

/// What `str::parse::<usize>` makes of `s`.
pub open spec fn usize_of(s: Seq<char>) -> Option<usize> {
    match unsigned_value(s) {
        Some(v) => if v <= usize::MAX {
            Some(v as usize)
        } else {
            None
        },
        None => None,
    }
}

/// The smallest window `--window` hands out, in physical pixels.
pub const MIN_WIDTH: i32 = 900;

pub const MIN_HEIGHT: i32 = 600;

/// `WIDTHxHEIGHT`, split at the first `x` in any case, each side trimmed
/// and read as a number, each raised to the minimum.
pub open spec fn window_size(value: Seq<char>) -> Result<(i32, i32), (ErrorKind, Seq<char>)> {
    let lowered = ascii_lowered(value);
    match first_index(lowered, 'x') {
        None => Err(fault(ErrorKind::WindowShape, value)),
        Some(at) => match (
            i32_of(trimmed(lowered.subrange(0, at))),
            i32_of(trimmed(lowered.subrange(at + 1, lowered.len() as int))),
        ) {
            (Some(width), Some(height)) => Ok(
                (
                    if width < MIN_WIDTH {
                        MIN_WIDTH
                    } else {
                        width
                    },
                    if height < MIN_HEIGHT {
                        MIN_HEIGHT
                    } else {
                        height
                    },
                ),
            ),
            _ => Err(fault(ErrorKind::NotANumber, value)),
        },
    }
}

/// The switches that open the window, read in pairs from the front.
pub open spec fn gui_flags(rest: Seq<Seq<char>>, start: StartView) -> Result<
    StartView,
    (ErrorKind, Seq<char>),
>
    decreases rest.len(),
{
    if rest.len() == 0 {
        Ok(start)
    } else if rest.len() == 1 {
        Err(fault(ErrorKind::MissingValue, rest[0]))
    } else {
        let flag = rest[0];
        let value = rest[1];
        let more = rest.subrange(2, rest.len() as int);
        if flag == "--search"@ {
            gui_flags(more, StartView { search: value, ..start })
        } else if flag == "--ext"@ {
            gui_flags(more, StartView { ext: Some(lowercase_of(value)), tab: Tab::FileTypes, ..start })
        } else if flag == "--tab"@ {
            match tab_from_lowered(ascii_lowered(value)) {
                Some(tab) => gui_flags(more, StartView { tab: tab, ..start }),
                None => Err(fault(ErrorKind::UnknownTab, value)),
            }
        } else if flag == "--lang"@ {
            match language_from_lowered(ascii_lowered(value)) {
                Some(language) => gui_flags(more, StartView { language: Some(language), ..start }),
                None => Err(fault(ErrorKind::UnknownLanguage, value)),
            }
        } else if flag == "--window"@ {
            match window_size(value) {
                Ok(size) => gui_flags(more, StartView { size: Some(size), ..start }),
                Err(e) => Err(e),
            }
        } else if flag == "--synthetic"@ || flag == "--bench"@ {
            match usize_of(value) {
                None => Err(fault(ErrorKind::NotANumber, value)),
                Some(n) => if flag == "--synthetic"@ {
                    gui_flags(more, StartView { synthetic: Some(n), ..start })
                } else if n == 0 {
                    Err(fault(ErrorKind::BenchZero, Seq::empty()))
                } else {
                    gui_flags(more, StartView { bench: Some(n), ..start })
                },
            }
        } else {
            Err(fault(ErrorKind::UnknownOption, flag))
        }
    }
}

/// `--position`: `top` and `oben` are `Top`, `bottom` and `unten` are
/// `Bottom`; anything else stands as written, in lower case.
pub open spec fn position_word(value: Seq<char>) -> Seq<char> {
    let lowered = ascii_lowered(value);
    if lowered == "top"@ || lowered == "oben"@ {
        "Top"@
    } else if lowered == "bottom"@ || lowered == "unten"@ {
        "Bottom"@
    } else {
        lowered
    }
}

/// The entry `create` starts from.
pub open spec fn blank_entry() -> NewEntryView {
    NewEntryView {
        category: CategoryView::Directory,
        key_name: Seq::empty(),
        display_name: Seq::empty(),
        command: Seq::empty(),
        icon: None,
        position: None,
        extended: false,
        children: Seq::empty(),
    }
}

/// The switches of `create`, read from the front.
pub open spec fn create_flags(rest: Seq<Seq<char>>, entry: NewEntryView) -> Result<
    NewEntryView,
    (ErrorKind, Seq<char>),
>
    decreases rest.len(),
{
    if rest.len() == 0 {
        Ok(entry)
    } else if rest[0] == "--extended"@ {
        create_flags(rest.drop_first(), NewEntryView { extended: true, ..entry })
    } else if rest.len() == 1 {
        Err(fault(ErrorKind::MissingValue, rest[0]))
    } else {
        let flag = rest[0];
        let value = rest[1];
        let more = rest.subrange(2, rest.len() as int);
        if flag == "--category"@ {
            match base_view(ascii_lowered(value)) {
                Some(category) => create_flags(more, NewEntryView { category: category, ..entry }),
                None => Err(fault(ErrorKind::UnknownCategory, value)),
            }
        } else if flag == "--ext"@ {
            create_flags(more, NewEntryView { category: CategoryView::ExtAssoc(value), ..entry })
        } else if flag == "--perceived"@ {
            create_flags(more, NewEntryView { category: CategoryView::PerceivedType(value), ..entry })
        } else if flag == "--name"@ {
            create_flags(more, NewEntryView { display_name: value, ..entry })
        } else if flag == "--key"@ {
            create_flags(more, NewEntryView { key_name: value, ..entry })
        } else if flag == "--command"@ {
            create_flags(more, NewEntryView { command: value, ..entry })
        } else if flag == "--icon"@ {
            create_flags(more, NewEntryView { icon: Some(value), ..entry })
        } else if flag == "--sub"@ {
            match first_index(value, '|') {
                None => Err(fault(ErrorKind::SubWithoutBar, value)),
                Some(bar) => create_flags(
                    more,
                    NewEntryView {
                        children: entry.children.push(
                            NewChildView {
                                key_name: Seq::empty(),
                                display_name: trimmed(value.subrange(0, bar)),
                                command: trimmed(value.subrange(bar + 1, value.len() as int)),
                                icon: None,
                            },
                        ),
                        ..entry
                    },
                ),
            }
        } else if flag == "--sub-icon"@ {
            if entry.children.len() == 0 {
                Err(fault(ErrorKind::SubIconWithoutSub, Seq::empty()))
            } else {
                create_flags(
                    more,
                    NewEntryView {
                        children: entry.children.update(
                            entry.children.len() - 1,
                            NewChildView { icon: Some(value), ..entry.children.last() },
                        ),
                        ..entry
                    },
                )
            }
        } else if flag == "--position"@ {
            create_flags(more, NewEntryView { position: Some(position_word(value)), ..entry })
        } else {
            Err(fault(ErrorKind::UnknownOption, flag))
        }
    }
}

/// The names `create` fills in: the entry's own when none was given, and
/// each submenu line's from its place in the order.
pub open spec fn named_entry(entry: NewEntryView) -> NewEntryView {
    NewEntryView {
        key_name: if trimmed(entry.key_name).len() == 0 {
            suggested_key(entry.display_name)
        } else {
            entry.key_name
        },
        children: Seq::new(
            entry.children.len(),
            |i: int|
                NewChildView {
                    key_name: suggested_child_key(i as nat, entry.children[i].display_name),
                    ..entry.children[i]
                },
        ),
        ..entry
    }
}

/// What a scan does when nothing says otherwise: every scope, every base
/// category, no file types.
pub open spec fn default_scan() -> ScanArgsView {
    ScanArgsView {
        scopes: seq![Scope::User, Scope::Machine, Scope::Machine32],
        categories: None,
        file_types: FileTypes::Nothing,
        json: false,
        quiet: false,
    }
}

/// The switches of `scan`, read from the front.
pub open spec fn scan_flags(rest: Seq<Seq<char>>, scan: ScanArgsView) -> Result<
    ScanArgsView,
    (ErrorKind, Seq<char>),
>
    decreases rest.len(),
{
    if rest.len() == 0 {
        Ok(scan)
    } else {
        let arg = rest[0];
        let more = rest.drop_first();
        if arg == "--json"@ {
            scan_flags(more, ScanArgsView { json: true, ..scan })
        } else if arg == "--quiet"@ {
            scan_flags(more, ScanArgsView { quiet: true, ..scan })
        } else if arg == "--all-types"@ {
            scan_flags(more, ScanArgsView { file_types: FileTypes::Wanted, ..scan })
        } else if arg == "--every-type"@ {
            scan_flags(more, ScanArgsView { file_types: FileTypes::Installed, ..scan })
        } else if arg == "--category"@ {
            if more.len() == 0 {
                Err(fault(ErrorKind::CategoryNeedsName, Seq::empty()))
            } else {
                match base_view(ascii_lowered(more[0])) {
                    Some(category) => scan_flags(
                        more.drop_first(),
                        ScanArgsView { categories: Some(seq![category]), ..scan },
                    ),
                    None => Err(fault(ErrorKind::UnknownCategory, more[0])),
                }
            }
        } else if arg == "--scope"@ {
            if more.len() == 0 {
                Err(fault(ErrorKind::ScopeNeedsName, Seq::empty()))
            } else if ascii_lowered(more[0]) == "all"@ {
                scan_flags(
                    more.drop_first(),
                    ScanArgsView { scopes: seq![Scope::User, Scope::Machine, Scope::Machine32], ..scan },
                )
            } else {
                match scope_from_lowered(ascii_lowered(more[0])) {
                    Some(scope) => scan_flags(
                        more.drop_first(),
                        ScanArgsView { scopes: seq![scope], ..scan },
                    ),
                    None => Err(fault(ErrorKind::UnknownScope, more[0])),
                }
            }
        } else {
            Err(fault(ErrorKind::UnknownOption, arg))
        }
    }
}

/// `place`'s switches, read in pairs; the last category named wins.
pub open spec fn place_flags(rest: Seq<Seq<char>>, category: Option<CategoryView>) -> Result<
    Option<CategoryView>,
    (ErrorKind, Seq<char>),
>
    decreases rest.len(),
{
    if rest.len() == 0 {
        Ok(category)
    } else if rest.len() == 1 {
        Err(fault(ErrorKind::FlagNeedsValue, rest[0]))
    } else {
        let flag = rest[0];
        let value = rest[1];
        let more = rest.subrange(2, rest.len() as int);
        if flag == "--category"@ {
            match base_view(ascii_lowered(value)) {
                Some(c) => place_flags(more, Some(c)),
                None => Err(fault(ErrorKind::UnknownCategory, value)),
            }
        } else if flag == "--ext"@ {
            place_flags(more, Some(CategoryView::ExtAssoc(value)))
        } else if flag == "--perceived"@ {
            place_flags(more, Some(CategoryView::PerceivedType(value)))
        } else {
            Err(fault(ErrorKind::UnknownFavouriteOption, flag))
        }
    }
}

/// What `favourite add` has gathered so far.
struct AddForm {
    name: String,
    exe: Option<String>,
    args: String,
    url: Option<String>,
    mode: String,
    endpoint: Option<String>,
    field: String,
    raw: bool,
    insecure: bool,
    headers: Vec<Header>,
    result: String,
    suffix: String,
    json_path: Option<String>,
    icon: Option<String>,
}

/// What `favourite add` has gathered, as the values it holds.
pub struct AddFormView {
    pub name: Seq<char>,
    pub exe: Option<Seq<char>>,
    pub args: Seq<char>,
    pub url: Option<Seq<char>>,
    pub mode: Seq<char>,
    pub endpoint: Option<Seq<char>>,
    pub field: Seq<char>,
    pub raw: bool,
    pub insecure: bool,
    pub headers: Seq<HeaderView>,
    pub result: Seq<char>,
    pub suffix: Seq<char>,
    pub json_path: Option<Seq<char>>,
    pub icon: Option<Seq<char>>,
}

impl View for AddForm {
    type V = AddFormView;

    closed spec fn view(&self) -> AddFormView {
        AddFormView {
            name: self.name@,
            exe: opt_view(self.exe),
            args: self.args@,
            url: opt_view(self.url),
            mode: self.mode@,
            endpoint: opt_view(self.endpoint),
            field: self.field@,
            raw: self.raw,
            insecure: self.insecure,
            headers: self.headers@.map_values(|h: Header| h@),
            result: self.result@,
            suffix: self.suffix@,
            json_path: opt_view(self.json_path),
            icon: opt_view(self.icon),
        }
    }
}

/// What `favourite add` starts from: copied to the clipboard, sent in the
/// field `file`, reported, saved with `.neu` when saved.
pub open spec fn blank_form() -> AddFormView {
    AddFormView {
        name: Seq::empty(),
        exe: None,
        args: Seq::empty(),
        url: None,
        mode: "clipboard"@,
        endpoint: None,
        field: "file"@,
        raw: false,
        insecure: false,
        headers: Seq::empty(),
        result: "report"@,
        suffix: ".neu"@,
        json_path: None,
        icon: None,
    }
}

/// The switches of `favourite add`, read from the front.
pub open spec fn add_flags(rest: Seq<Seq<char>>, form: AddFormView) -> Result<
    AddFormView,
    (ErrorKind, Seq<char>),
>
    decreases rest.len(),
{
    if rest.len() == 0 {
        Ok(form)
    } else if rest[0] == "--raw"@ {
        add_flags(rest.drop_first(), AddFormView { raw: true, ..form })
    } else if rest[0] == "--insecure"@ {
        add_flags(rest.drop_first(), AddFormView { insecure: true, ..form })
    } else if rest.len() == 1 {
        Err(fault(ErrorKind::FlagNeedsValue, rest[0]))
    } else {
        let flag = rest[0];
        let value = rest[1];
        let more = rest.subrange(2, rest.len() as int);
        if flag == "--name"@ {
            add_flags(more, AddFormView { name: value, ..form })
        } else if flag == "--exe"@ {
            add_flags(more, AddFormView { exe: Some(value), ..form })
        } else if flag == "--args"@ {
            add_flags(more, AddFormView { args: value, ..form })
        } else if flag == "--url"@ {
            add_flags(more, AddFormView { url: Some(value), ..form })
        } else if flag == "--mode"@ {
            let mode = lowercase_of(value);
            if mode == "clipboard"@ || mode == "open"@ {
                add_flags(more, AddFormView { mode: mode, ..form })
            } else {
                Err(fault(ErrorKind::UnknownMode, value))
            }
        } else if flag == "--endpoint"@ {
            add_flags(more, AddFormView { endpoint: Some(value), ..form })
        } else if flag == "--field"@ {
            add_flags(more, AddFormView { field: value, ..form })
        } else if flag == "--icon"@ {
            add_flags(more, AddFormView { icon: Some(value), ..form })
        } else if flag == "--result"@ {
            let result = lowercase_of(value);
            if result == "save"@ || result == "open"@ || result == "report"@ {
                add_flags(more, AddFormView { result: result, ..form })
            } else {
                Err(fault(ErrorKind::UnknownResult, value))
            }
        } else if flag == "--suffix"@ {
            add_flags(more, AddFormView { suffix: value, ..form })
        } else if flag == "--json-path"@ {
            add_flags(more, AddFormView { json_path: Some(value), ..form })
        } else if flag == "--header"@ {
            match first_index(value, ':') {
                None => Err(fault(ErrorKind::HeaderWithoutColon, Seq::empty())),
                Some(colon) => add_flags(
                    more,
                    AddFormView {
                        headers: form.headers.push(
                            HeaderView {
                                name: trimmed(value.subrange(0, colon)),
                                value: trimmed(value.subrange(colon + 1, value.len() as int)),
                            },
                        ),
                        ..form
                    },
                ),
            }
        } else {
            Err(fault(ErrorKind::UnknownFavouriteOption, flag))
        }
    }
}

/// `s` without the double quotes at its start.
pub open spec fn unquote_start(s: Seq<char>) -> Seq<char>
    decreases s.len(),
{
    if s.len() > 0 && s[0] == '"' {
        unquote_start(s.drop_first())
    } else {
        s
    }
}

/// `s` without the double quotes at its end.
pub open spec fn unquote_end(s: Seq<char>) -> Seq<char>
    decreases s.len(),
{
    if s.len() > 0 && s.last() == '"' {
        unquote_end(s.drop_last())
    } else {
        s
    }
}

/// `s` without double quotes at either end: `trim_matches('"')`.
pub open spec fn unquoted(s: Seq<char>) -> Seq<char> {
    unquote_end(unquote_start(s))
}

/// The favourite a finished `add` describes: a program when `--exe` was
/// given, else an upload when `--endpoint` was, else an address.
pub open spec fn finish_add(form: AddFormView) -> Result<FavouriteView, (ErrorKind, Seq<char>)> {
    let source = match form.json_path {
        Some(path) => ResultSourceView::Json { path: path },
        None => ResultSourceView::Body,
    };
    let tool = match form.exe {
        Some(path) => Some(ToolView::Program { path: unquoted(trimmed(path)), args: form.args }),
        None => match form.endpoint {
            Some(endpoint) => Some(
                ToolView::Web(
                    WebToolView {
                        mode: WebModeView::Upload(
                            UploadView {
                                endpoint: endpoint,
                                method: "POST"@,
                                body: if form.raw {
                                    UploadBodyView::Raw
                                } else {
                                    UploadBodyView::Multipart { field: form.field }
                                },
                                headers: form.headers,
                                fields: Seq::empty(),
                                result: if form.result == "save"@ {
                                    ResultActionView::Save { source: source, suffix: form.suffix }
                                } else if form.result == "open"@ {
                                    ResultActionView::Open { source: source }
                                } else {
                                    ResultActionView::Report
                                },
                            },
                        ),
                        allow_insecure: form.insecure,
                        confirmed: false,
                    },
                ),
            ),
            None => match form.url {
                Some(url) => Some(
                    ToolView::Web(
                        WebToolView {
                            mode: if form.mode == "open"@ {
                                WebModeView::Open { url: url }
                            } else {
                                WebModeView::Clipboard { url: url }
                            },
                            allow_insecure: form.insecure,
                            confirmed: false,
                        },
                    ),
                ),
                None => None,
            },
        },
    };
    match tool {
        Some(tool) => Ok(
            FavouriteView {
                id: Seq::empty(),
                name: form.name,
                icon: form.icon,
                note: None,
                tool: tool,
            },
        ),
        None => Err(fault(ErrorKind::AddNeedsTool, Seq::empty())),
    }
}

/// `ctxmenu favourite …`, the words after `favourite`.
pub open spec fn favourite_args(a: Seq<Seq<char>>) -> Result<
    FavouriteCommandView,
    (ErrorKind, Seq<char>),
> {
    if a.len() == 0 {
        Err(fault(ErrorKind::FavouriteNeedsVerb, Seq::empty()))
    } else if a[0] == "list"@ {
        Ok(FavouriteCommandView::List)
    } else if a[0] == "remove"@ {
        if a.len() > 1 {
            Ok(FavouriteCommandView::Remove(a[1]))
        } else {
            Err(fault(ErrorKind::RemoveNeedsId, Seq::empty()))
        }
    } else if a[0] == "run"@ {
        if a.len() > 2 {
            Ok(FavouriteCommandView::Run { id: a[1], file: a[2] })
        } else {
            Err(fault(ErrorKind::RunNeedsIdAndFile, Seq::empty()))
        }
    } else if a[0] == "place"@ {
        if a.len() < 2 {
            Err(fault(ErrorKind::PlaceNeedsId, Seq::empty()))
        } else {
            match place_flags(a.subrange(2, a.len() as int), None) {
                Ok(Some(category)) => Ok(FavouriteCommandView::Place { id: a[1], category: category }),
                Ok(None) => Err(fault(ErrorKind::PlaceNeedsCategory, Seq::empty())),
                Err(e) => Err(e),
            }
        }
    } else if a[0] == "add"@ {
        match add_flags(a.drop_first(), blank_form()) {
            Ok(form) => match finish_add(form) {
                Ok(favourite) => Ok(FavouriteCommandView::Add(favourite)),
                Err(e) => Err(e),
            },
            Err(e) => Err(e),
        }
    } else {
        Err(fault(ErrorKind::UnknownFavouriteVerb, a[0]))
    }
}

/// The action a flag word names, for the four words that set one.
pub open spec fn flag_action(word: Seq<char>) -> Option<Action> {
    if word == "hide"@ {
        Some(Action::Hide)
    } else if word == "show"@ {
        Some(Action::Show)
    } else if word == "shift-only"@ {
        Some(Action::ShiftOnly)
    } else if word == "always-show"@ {
        Some(Action::AlwaysShow)
    } else {
        None
    }
}

/// Does the first word open the window with switches?
pub open spec fn window_switch(word: Seq<char>) -> bool {
    word == "--synthetic"@ || word == "--bench"@ || word == "--tab"@ || word == "--search"@
        || word == "--ext"@ || word == "--lang"@ || word == "--window"@
}

/// What a whole command line asks for.
pub open spec fn parsed(a: Seq<Seq<char>>) -> Result<CommandView, (ErrorKind, Seq<char>)> {
    if a.len() == 0 {
        Ok(CommandView::Gui(default_start()))
    } else {
        let first = a[0];
        if first == "--help"@ || first == "-h"@ || first == "help"@ {
            Ok(CommandView::Help)
        } else if first == "--version"@ || first == "-V"@ || first == "version"@ {
            Ok(CommandView::Version)
        } else if first == "--smoke"@ {
            Ok(CommandView::Smoke)
        } else if first == "--theme-probe"@ {
            Ok(CommandView::Gui(StartView { theme_probe: true, ..default_start() }))
        } else if window_switch(first) {
            match gui_flags(a, default_start()) {
                Ok(start) => Ok(CommandView::Gui(start)),
                Err(e) => Err(e),
            }
        } else if first == "programs"@ {
            Ok(CommandView::Programs)
        } else if first == "filetype"@ {
            if a.len() > 1 {
                Ok(CommandView::FileType(a[1]))
            } else {
                Err(fault(ErrorKind::MissingExtension, Seq::empty()))
            }
        } else if flag_action(first) is Some {
            if a.len() > 1 {
                Ok(
                    CommandView::Apply {
                        action: flag_action(first)->0,
                        path: a[1],
                        confirmed: a.contains("--yes"@),
                    },
                )
            } else {
                Err(fault(ErrorKind::MissingRegistryPath, first))
            }
        } else if first == "backups"@ {
            Ok(CommandView::Backups)
        } else if first == "backup-all"@ {
            Ok(CommandView::BackupAll)
        } else if first == "restore"@ {
            if a.len() > 1 {
                Ok(CommandView::Restore(a[1]))
            } else {
                Err(fault(ErrorKind::MissingDirectory, Seq::empty()))
            }
        } else if first == "delete"@ {
            if a.len() > 1 {
                Ok(CommandView::Delete { path: a[1], confirmed: a.contains("--yes"@) })
            } else {
                Err(fault(ErrorKind::MissingDeletePath, Seq::empty()))
            }
        } else if first == "created"@ {
            Ok(CommandView::Created)
        } else if first == "favourites"@ || first == "favoriten"@ {
            Ok(CommandView::Favourite(FavouriteCommandView::List))
        } else if first == "favourite"@ || first == "favorit"@ {
            match favourite_args(a.drop_first()) {
                Ok(command) => Ok(CommandView::Favourite(command)),
                Err(e) => Err(e),
            }
        } else if first == "create"@ {
            match create_flags(a.drop_first(), blank_entry()) {
                Ok(entry) => Ok(CommandView::Create(named_entry(entry))),
                Err(e) => Err(e),
            }
        } else if first == "scan"@ {
            match scan_flags(a.drop_first(), default_scan()) {
                Ok(scan) => Ok(CommandView::Scan(scan)),
                Err(e) => Err(e),
            }
        } else {
            Err(fault(ErrorKind::UnknownCommand, first))
        }
    }
}

/// `1600x1000` as a window size.
///
/// Too small is raised rather than refused: the size is a wish about how a
/// picture should look. Anything that is not two numbers is refused.
pub fn parse_window_size(value: &str) -> (result: Result<(i32, i32), CliError>)
    ensures
        match result {
            Ok(size) => window_size(value@) == Ok::<(i32, i32), (ErrorKind, Seq<char>)>(size),
            Err(e) => window_size(value@) == Err::<(i32, i32), (ErrorKind, Seq<char>)>(e@),
        },
{
    let lowered = ascii_lowercase(value);
    assert(lowered@.subrange(0, lowered@.len() as int) =~= lowered@);
    match find_from(&lowered, 0, 'x') {
        None => Err(CliError::new(ErrorKind::WindowShape, value)),
        Some(at) => {
            let (a, b) = trim_range(&lowered, 0, at);
            let width = parse_i32(&lowered, a, b);
            let (c, d) = trim_range(&lowered, at + 1, lowered.len());
            let height = parse_i32(&lowered, c, d);
            match (width, height) {
                (Some(w), Some(h)) => Ok(
                    (
                        if w < MIN_WIDTH {
                            MIN_WIDTH
                        } else {
                            w
                        },
                        if h < MIN_HEIGHT {
                            MIN_HEIGHT
                        } else {
                            h
                        },
                    ),
                ),
                _ => Err(CliError::new(ErrorKind::NotANumber, value)),
            }
        },
    }
}

/// The switches that open the window, all of `args` read in pairs.
fn window_start(args: &Vec<String>) -> (result: Result<Start, CliError>)
    ensures
        match result {
            Ok(start) => gui_flags(texts(args@), default_start()) == Ok::<
                StartView,
                (ErrorKind, Seq<char>),
            >(start@),
            Err(e) => gui_flags(texts(args@), default_start()) == Err::<
                StartView,
                (ErrorKind, Seq<char>),
            >(e@),
        },
{
    let ghost a = texts(args@);
    let mut start = Start::default();
    let mut i: usize = 0;
    assert(a.subrange(0, a.len() as int) =~= a);
    while i < args.len()
        invariant
            i <= args.len(),
            a == texts(args@),
            a.len() == args.len(),
            gui_flags(a.subrange(i as int, a.len() as int), start@) == gui_flags(
                a,
                default_start(),
            ),
        decreases args.len() - i,
    {
        let ghost rest = a.subrange(i as int, a.len() as int);
        let flag = args[i].as_str();
        assert(rest[0] == flag@);
        if i + 1 == args.len() {
            return Err(CliError::new(ErrorKind::MissingValue, flag));
        }
        let value = args[i + 1].as_str();
        assert(rest[1] == value@);
        assert(rest.subrange(2, rest.len() as int) =~= a.subrange(i + 2, a.len() as int));
        if text_eq(flag, "--search") {
            start.search = String::from_str(value);
        } else if text_eq(flag, "--ext") {
            let lowered = lowercase(value);
            start.ext = Some(string_of(lowered.as_slice()));
            start.tab = Tab::FileTypes;
        } else if text_eq(flag, "--tab") {
            match Tab::from_slug(value) {
                Some(tab) => start.tab = tab,
                None => return Err(CliError::new(ErrorKind::UnknownTab, value)),
            }
        } else if text_eq(flag, "--lang") {
            match Language::from_slug(value) {
                Some(language) => start.language = Some(language),
                None => return Err(CliError::new(ErrorKind::UnknownLanguage, value)),
            }
        } else if text_eq(flag, "--window") {
            match parse_window_size(value) {
                Ok(size) => start.size = Some(size),
                Err(e) => return Err(e),
            }
        } else if text_eq(flag, "--synthetic") || text_eq(flag, "--bench") {
            match parse_usize(value) {
                None => return Err(CliError::new(ErrorKind::NotANumber, value)),
                Some(number) => {
                    if text_eq(flag, "--synthetic") {
                        start.synthetic = Some(number);
                    } else {
                        // A run over zero frames measures nothing, and the
                        // counter it would drive could never reach its end.
                        if number == 0 {
                            return Err(CliError::bare(ErrorKind::BenchZero));
                        }
                        start.bench = Some(number);
                    }
                },
            }
        } else {
            return Err(CliError::new(ErrorKind::UnknownOption, flag));
        }
        i = i + 2;
    }
    Ok(start)
}

/// The entry `create` starts from.
fn blank_new_entry() -> (result: NewEntry)
    ensures
        result@ == blank_entry(),
{
    let entry = NewEntry {
        category: Category::Directory,
        key_name: String::new(),
        display_name: String::new(),
        command: String::new(),
        icon: None,
        position: None,
        extended: false,
        children: Vec::new(),
    };
    assert(entry@.children =~= Seq::<NewChildView>::empty());
    entry
}

/// `--position`, as the entry stores it.
fn position_value(value: &str) -> (result: String)
    ensures
        result@ == position_word(value@),
{
    let lowered = ascii_lowercase(value);
    if is_word(&lowered, "top") || is_word(&lowered, "oben") {
        String::from_str("Top")
    } else if is_word(&lowered, "bottom") || is_word(&lowered, "unten") {
        String::from_str("Bottom")
    } else {
        string_of(lowered.as_slice())
    }
}

/// The switches of `create`, `args[from..]` read from the front.
fn create_entry(args: &Vec<String>, from: usize) -> (result: Result<NewEntry, CliError>)
    requires
        from <= args.len(),
    ensures
        match result {
            Ok(entry) => create_flags(texts(args@).subrange(from as int, args@.len() as int), blank_entry())
                == Ok::<NewEntryView, (ErrorKind, Seq<char>)>(entry@),
            Err(e) => create_flags(texts(args@).subrange(from as int, args@.len() as int), blank_entry())
                == Err::<NewEntryView, (ErrorKind, Seq<char>)>(e@),
        },
{
    let ghost a = texts(args@);
    let mut entry = blank_new_entry();
    let mut i: usize = from;
    while i < args.len()
        invariant
            from <= i <= args.len(),
            a == texts(args@),
            a.len() == args.len(),
            create_flags(a.subrange(i as int, a.len() as int), entry@) == create_flags(
                a.subrange(from as int, a.len() as int),
                blank_entry(),
            ),
        decreases args.len() - i,
    {
        let ghost rest = a.subrange(i as int, a.len() as int);
        let ghost before = entry@;
        let flag = args[i].as_str();
        assert(rest[0] == flag@);
        assert(rest.drop_first() =~= a.subrange(i + 1, a.len() as int));
        if text_eq(flag, "--extended") {
            entry.extended = true;
            i = i + 1;
            continue;
        }
        if i + 1 == args.len() {
            return Err(CliError::new(ErrorKind::MissingValue, flag));
        }
        let value = args[i + 1].as_str();
        assert(rest[1] == value@);
        assert(rest.subrange(2, rest.len() as int) =~= a.subrange(i + 2, a.len() as int));
        if text_eq(flag, "--category") {
            match Category::from_slug(value) {
                Some(category) => entry.category = category,
                None => return Err(CliError::new(ErrorKind::UnknownCategory, value)),
            }
        } else if text_eq(flag, "--ext") {
            entry.category = Category::ExtAssoc(String::from_str(value));
        } else if text_eq(flag, "--perceived") {
            entry.category = Category::PerceivedType(String::from_str(value));
        } else if text_eq(flag, "--name") {
            entry.display_name = String::from_str(value);
        } else if text_eq(flag, "--key") {
            entry.key_name = String::from_str(value);
        } else if text_eq(flag, "--command") {
            entry.command = String::from_str(value);
        } else if text_eq(flag, "--icon") {
            entry.icon = Some(String::from_str(value));
        } else if text_eq(flag, "--sub") {
            // Split at the first bar, so a command may hold more of them:
            // `Auflisten|cmd /c dir | more` is a name and a pipeline.
            let v = chars_of(value);
            assert(v@.subrange(0, v@.len() as int) =~= v@);
            match find_from(&v, 0, '|') {
                None => return Err(CliError::new(ErrorKind::SubWithoutBar, value)),
                Some(bar) => {
                    let child = NewChild {
                        // Filled in once the order is known.
                        key_name: String::new(),
                        display_name: trimmed_string(&v, 0, bar),
                        command: trimmed_string(&v, bar + 1, v.len()),
                        icon: None,
                    };
                    entry.children.push(child);
                    proof {
                        assert(entry@.children =~= before.children.push(child@));
                    }
                },
            }
        } else if text_eq(flag, "--sub-icon") {
            // Belongs to the `--sub` in front of it.
            match entry.children.pop() {
                None => return Err(CliError::bare(ErrorKind::SubIconWithoutSub)),
                Some(last) => {
                    let mut child = last;
                    child.icon = Some(String::from_str(value));
                    entry.children.push(child);
                    proof {
                        assert(entry@.children =~= before.children.update(
                            before.children.len() - 1,
                            NewChildView { icon: Some(value@), ..before.children.last() },
                        ));
                    }
                },
            }
        } else if text_eq(flag, "--position") {
            entry.position = Some(position_value(value));
        } else {
            return Err(CliError::new(ErrorKind::UnknownOption, flag));
        }
        i = i + 2;
    }
    Ok(entry)
}

/// Fills in the names nobody gave: the entry's own, and each submenu line's
/// from its place, because that number is what orders the menu.
fn name_entry(entry: NewEntry) -> (result: NewEntry)
    ensures
        result@ == named_entry(entry@),
{
    let mut entry = entry;
    let ghost before = entry@;
    let key = trim(entry.key_name.as_str());
    if key.len() == 0 {
        entry.key_name = suggest_key_name(entry.display_name.as_str());
    }
    let mut named: Vec<NewChild> = Vec::new();
    let mut k: usize = 0;
    while k < entry.children.len()
        invariant
            k <= entry.children.len(),
            entry.children@.map_values(|c: NewChild| c@) == before.children,
            named@.len() == k,
            forall|j: int|
                0 <= j < k ==> #[trigger] named@[j]@ == (NewChildView {
                    key_name: suggested_child_key(j as nat, before.children[j].display_name),
                    ..before.children[j]
                }),
        decreases entry.children.len() - k,
    {
        let child = &entry.children[k];
        assert(before.children[k as int] == child@);
        named.push(
            NewChild {
                key_name: suggest_child_key_name(k, child.display_name.as_str()),
                display_name: child.display_name.clone(),
                command: child.command.clone(),
                icon: copy_opt(&child.icon),
            },
        );
        k = k + 1;
    }
    entry.children = named;
    assert(entry@.children =~= named_entry(before).children);
    entry
}

/// What a scan does when nothing says otherwise.
fn default_scan_args() -> (result: ScanArgs)
    ensures
        result@ == default_scan(),
{
    ScanArgs {
        options: ScanOptions { scopes: Scope::all(), categories: None, file_types: FileTypes::Nothing },
        json: false,
        quiet: false,
    }
}

/// The switches of `scan`, `args[from..]` read from the front.
fn scan_args(args: &Vec<String>, from: usize) -> (result: Result<ScanArgs, CliError>)
    requires
        from <= args.len(),
    ensures
        match result {
            Ok(scan) => scan_flags(texts(args@).subrange(from as int, args@.len() as int), default_scan())
                == Ok::<ScanArgsView, (ErrorKind, Seq<char>)>(scan@),
            Err(e) => scan_flags(texts(args@).subrange(from as int, args@.len() as int), default_scan())
                == Err::<ScanArgsView, (ErrorKind, Seq<char>)>(e@),
        },
{
    let ghost a = texts(args@);
    let mut scan = default_scan_args();
    let mut i: usize = from;
    while i < args.len()
        invariant
            from <= i <= args.len(),
            a == texts(args@),
            a.len() == args.len(),
            scan_flags(a.subrange(i as int, a.len() as int), scan@) == scan_flags(
                a.subrange(from as int, a.len() as int),
                default_scan(),
            ),
        decreases args.len() - i,
    {
        let ghost rest = a.subrange(i as int, a.len() as int);
        let arg = args[i].as_str();
        assert(rest[0] == arg@);
        assert(rest.drop_first() =~= a.subrange(i + 1, a.len() as int));
        if text_eq(arg, "--json") {
            scan.json = true;
        } else if text_eq(arg, "--quiet") {
            scan.quiet = true;
        } else if text_eq(arg, "--all-types") {
            scan.options.file_types = FileTypes::Wanted;
        } else if text_eq(arg, "--every-type") {
            scan.options.file_types = FileTypes::Installed;
        } else if text_eq(arg, "--category") {
            if i + 1 == args.len() {
                return Err(CliError::bare(ErrorKind::CategoryNeedsName));
            }
            let value = args[i + 1].as_str();
            assert(rest.drop_first()[0] == value@);
            assert(rest.drop_first().drop_first() =~= a.subrange(i + 2, a.len() as int));
            match Category::from_slug(value) {
                Some(category) => {
                    let list = vec![category];
                    assert(list@.map_values(|c: Category| c@) =~= seq![category@]);
                    scan.options.categories = Some(list);
                },
                None => return Err(CliError::new(ErrorKind::UnknownCategory, value)),
            }
            i = i + 1;
        } else if text_eq(arg, "--scope") {
            if i + 1 == args.len() {
                return Err(CliError::bare(ErrorKind::ScopeNeedsName));
            }
            let value = args[i + 1].as_str();
            assert(rest.drop_first()[0] == value@);
            assert(rest.drop_first().drop_first() =~= a.subrange(i + 2, a.len() as int));
            let lowered = ascii_lowercase(value);
            if is_word(&lowered, "all") {
                scan.options.scopes = Scope::all();
            } else {
                match Scope::from_slug(value) {
                    Some(scope) => {
                        let list = vec![scope];
                        assert(list@ =~= seq![scope]);
                        scan.options.scopes = list;
                    },
                    None => return Err(CliError::new(ErrorKind::UnknownScope, value)),
                }
            }
            i = i + 1;
        } else {
            return Err(CliError::new(ErrorKind::UnknownOption, arg));
        }
        i = i + 1;
    }
    Ok(scan)
}

/// The switches of `favourite place`, `args[from..]` read in pairs.
fn place_category(args: &Vec<String>, from: usize) -> (result: Result<Option<Category>, CliError>)
    requires
        from <= args.len(),
    ensures
        match result {
            Ok(found) => place_flags(texts(args@).subrange(from as int, args@.len() as int), None)
                == Ok::<Option<CategoryView>, (ErrorKind, Seq<char>)>(
                match found {
                    Some(c) => Some(c@),
                    None => None,
                },
            ),
            Err(e) => place_flags(texts(args@).subrange(from as int, args@.len() as int), None)
                == Err::<Option<CategoryView>, (ErrorKind, Seq<char>)>(e@),
        },
{
    let ghost a = texts(args@);
    let mut found: Option<Category> = None;
    let mut i: usize = from;
    while i < args.len()
        invariant
            from <= i <= args.len(),
            a == texts(args@),
            a.len() == args.len(),
            place_flags(
                a.subrange(i as int, a.len() as int),
                match found {
                    Some(c) => Some(c@),
                    None => None,
                },
            ) == place_flags(a.subrange(from as int, a.len() as int), None),
        decreases args.len() - i,
    {
        let ghost rest = a.subrange(i as int, a.len() as int);
        let flag = args[i].as_str();
        assert(rest[0] == flag@);
        if i + 1 == args.len() {
            return Err(CliError::new(ErrorKind::FlagNeedsValue, flag));
        }
        let value = args[i + 1].as_str();
        assert(rest[1] == value@);
        assert(rest.subrange(2, rest.len() as int) =~= a.subrange(i + 2, a.len() as int));
        if text_eq(flag, "--category") {
            match Category::from_slug(value) {
                Some(category) => found = Some(category),
                None => return Err(CliError::new(ErrorKind::UnknownCategory, value)),
            }
        } else if text_eq(flag, "--ext") {
            found = Some(Category::ExtAssoc(String::from_str(value)));
        } else if text_eq(flag, "--perceived") {
            found = Some(Category::PerceivedType(String::from_str(value)));
        } else {
            return Err(CliError::new(ErrorKind::UnknownFavouriteOption, flag));
        }
        i = i + 2;
    }
    Ok(found)
}

proof fn lemma_unquote_start_at(s: Seq<char>, k: int)
    requires
        0 <= k <= s.len(),
        forall|j: int| 0 <= j < k ==> s[j] == '"',
        k == s.len() || s[k] != '"',
    ensures
        unquote_start(s) == s.subrange(k, s.len() as int),
    decreases s.len(),
{
    if k == 0 {
        assert(s.subrange(0, s.len() as int) =~= s);
    } else {
        assert forall|j: int| 0 <= j < k - 1 implies s.drop_first()[j] == '"' by {
            assert(s.drop_first()[j] == s[j + 1]);
        }
        if k < s.len() {
            assert(s.drop_first()[k - 1] == s[k]);
        }
        lemma_unquote_start_at(s.drop_first(), k - 1);
        assert(s.drop_first().subrange(k - 1, s.drop_first().len() as int) =~= s.subrange(
            k,
            s.len() as int,
        ));
    }
}

proof fn lemma_unquote_end_at(s: Seq<char>, k: int)
    requires
        0 <= k <= s.len(),
        forall|j: int| k <= j < s.len() ==> s[j] == '"',
        k == 0 || s[k - 1] != '"',
    ensures
        unquote_end(s) == s.subrange(0, k),
    decreases s.len(),
{
    if k == s.len() {
        assert(s.subrange(0, s.len() as int) =~= s);
    } else {
        assert forall|j: int| k <= j < s.drop_last().len() implies s.drop_last()[j] == '"' by {
            assert(s.drop_last()[j] == s[j]);
        }
        if k > 0 {
            assert(s.drop_last()[k - 1] == s[k - 1]);
        }
        lemma_unquote_end_at(s.drop_last(), k);
        assert(s.drop_last().subrange(0, k) =~= s.subrange(0, k));
    }
}

/// A program path as typed: trimmed, and without the quotes around it.
fn program_path(path: &str) -> (result: String)
    ensures
        result@ == unquoted(trimmed(path@)),
{
    let v = trim(path);
    let ghost s = v@;
    let mut a: usize = 0;
    while a < v.len() && v[a] == '"'
        invariant
            a <= v.len(),
            forall|j: int| 0 <= j < a ==> v@[j] == '"',
        decreases v.len() - a,
    {
        a = a + 1;
    }
    proof {
        lemma_unquote_start_at(s, a as int);
    }
    let ghost started = s.subrange(a as int, s.len() as int);
    let mut b: usize = v.len();
    while b > a && v[b - 1] == '"'
        invariant
            a <= b <= v.len(),
            forall|j: int| b <= j < v.len() ==> v@[j] == '"',
        decreases b - a,
    {
        b = b - 1;
    }
    proof {
        assert forall|j: int| b - a <= j < started.len() implies started[j] == '"' by {
            assert(started[j] == v@[j + a]);
        }
        if b > a {
            assert(started[b - a - 1] == v@[b - 1]);
        }
        lemma_unquote_end_at(started, b - a);
        assert(started.subrange(0, b - a) =~= v@.subrange(a as int, b as int));
    }
    let mut out: Vec<char> = Vec::new();
    crate::chars::extend_range(&mut out, &v, a, b);
    string_of(out.as_slice())
}

/// What `favourite add` starts from.
fn blank_add_form() -> (result: AddForm)
    ensures
        result@ == blank_form(),
{
    let form = AddForm {
        name: String::new(),
        exe: None,
        args: String::new(),
        url: None,
        mode: String::from_str("clipboard"),
        endpoint: None,
        field: String::from_str("file"),
        raw: false,
        insecure: false,
        headers: Vec::new(),
        result: String::from_str("report"),
        suffix: String::from_str(".neu"),
        json_path: None,
        icon: None,
    };
    assert(form@.headers =~= Seq::<HeaderView>::empty());
    form
}

/// The switches of `favourite add`, `args[from..]` read from the front.
fn add_form(args: &Vec<String>, from: usize) -> (result: Result<AddForm, CliError>)
    requires
        from <= args.len(),
    ensures
        match result {
            Ok(form) => add_flags(texts(args@).subrange(from as int, args@.len() as int), blank_form())
                == Ok::<AddFormView, (ErrorKind, Seq<char>)>(form@),
            Err(e) => add_flags(texts(args@).subrange(from as int, args@.len() as int), blank_form())
                == Err::<AddFormView, (ErrorKind, Seq<char>)>(e@),
        },
{
    let ghost a = texts(args@);
    let mut form = blank_add_form();
    let mut i: usize = from;
    while i < args.len()
        invariant
            from <= i <= args.len(),
            a == texts(args@),
            a.len() == args.len(),
            add_flags(a.subrange(i as int, a.len() as int), form@) == add_flags(
                a.subrange(from as int, a.len() as int),
                blank_form(),
            ),
        decreases args.len() - i,
    {
        let ghost rest = a.subrange(i as int, a.len() as int);
        let ghost before = form@;
        let flag = args[i].as_str();
        assert(rest[0] == flag@);
        assert(rest.drop_first() =~= a.subrange(i + 1, a.len() as int));
        if text_eq(flag, "--raw") {
            form.raw = true;
            i = i + 1;
            continue;
        }
        if text_eq(flag, "--insecure") {
            form.insecure = true;
            i = i + 1;
            continue;
        }
        if i + 1 == args.len() {
            return Err(CliError::new(ErrorKind::FlagNeedsValue, flag));
        }
        let value = args[i + 1].as_str();
        assert(rest[1] == value@);
        assert(rest.subrange(2, rest.len() as int) =~= a.subrange(i + 2, a.len() as int));
        if text_eq(flag, "--name") {
            form.name = String::from_str(value);
        } else if text_eq(flag, "--exe") {
            form.exe = Some(String::from_str(value));
        } else if text_eq(flag, "--args") {
            form.args = String::from_str(value);
        } else if text_eq(flag, "--url") {
            form.url = Some(String::from_str(value));
        } else if text_eq(flag, "--mode") {
            // A typo is refused, not quietly read as the clipboard.
            let mode = lowercase(value);
            if is_word(&mode, "clipboard") || is_word(&mode, "open") {
                form.mode = string_of(mode.as_slice());
            } else {
                return Err(CliError::new(ErrorKind::UnknownMode, value));
            }
        } else if text_eq(flag, "--endpoint") {
            form.endpoint = Some(String::from_str(value));
        } else if text_eq(flag, "--field") {
            form.field = String::from_str(value);
        } else if text_eq(flag, "--icon") {
            form.icon = Some(String::from_str(value));
        } else if text_eq(flag, "--result") {
            let result = lowercase(value);
            if is_word(&result, "save") || is_word(&result, "open") || is_word(&result, "report") {
                form.result = string_of(result.as_slice());
            } else {
                return Err(CliError::new(ErrorKind::UnknownResult, value));
            }
        } else if text_eq(flag, "--suffix") {
            form.suffix = String::from_str(value);
        } else if text_eq(flag, "--json-path") {
            form.json_path = Some(String::from_str(value));
        } else if text_eq(flag, "--header") {
            let v = chars_of(value);
            assert(v@.subrange(0, v@.len() as int) =~= v@);
            match find_from(&v, 0, ':') {
                None => return Err(CliError::bare(ErrorKind::HeaderWithoutColon)),
                Some(colon) => {
                    let header = Header {
                        name: trimmed_string(&v, 0, colon),
                        value: trimmed_string(&v, colon + 1, v.len()),
                    };
                    form.headers.push(header);
                    proof {
                        assert(form@.headers =~= before.headers.push(header@));
                    }
                },
            }
        } else {
            return Err(CliError::new(ErrorKind::UnknownFavouriteOption, flag));
        }
        i = i + 2;
    }
    Ok(form)
}

/// The favourite a finished `add` describes.
fn finish_form(form: AddForm) -> (result: Result<Favourite, CliError>)
    ensures
        match result {
            Ok(favourite) => finish_add(form@) == Ok::<FavouriteView, (ErrorKind, Seq<char>)>(
                favourite@,
            ),
            Err(e) => finish_add(form@) == Err::<FavouriteView, (ErrorKind, Seq<char>)>(e@),
        },
{
    let ghost seen = form@;
    let source = match &form.json_path {
        Some(path) => ResultSource::Json { path: path.clone() },
        None => ResultSource::Body,
    };
    let tool = match &form.exe {
        Some(path) => Tool::Program { path: program_path(path.as_str()), args: form.args },
        None => match &form.endpoint {
            Some(endpoint) => {
                let body = if form.raw {
                    UploadBody::Raw
                } else {
                    UploadBody::Multipart { field: form.field }
                };
                let result = if text_eq(form.result.as_str(), "save") {
                    ResultAction::Save { source, suffix: form.suffix }
                } else if text_eq(form.result.as_str(), "open") {
                    ResultAction::Open { source }
                } else {
                    ResultAction::Report
                };
                let upload = Upload {
                    endpoint: endpoint.clone(),
                    method: String::from_str("POST"),
                    body,
                    headers: form.headers,
                    fields: Vec::new(),
                    result,
                };
                assert(upload@.fields =~= Seq::<HeaderView>::empty());
                Tool::Web(
                    WebTool {
                        mode: WebMode::Upload(Box::new(upload)),
                        allow_insecure: form.insecure,
                        confirmed: false,
                    },
                )
            },
            None => match &form.url {
                Some(url) => {
                    let mode = if text_eq(form.mode.as_str(), "open") {
                        WebMode::Open { url: url.clone() }
                    } else {
                        WebMode::Clipboard { url: url.clone() }
                    };
                    Tool::Web(WebTool { mode, allow_insecure: form.insecure, confirmed: false })
                },
                None => return Err(CliError::bare(ErrorKind::AddNeedsTool)),
            },
        },
    };
    Ok(Favourite { id: String::new(), name: form.name, icon: form.icon, note: None, tool })
}

/// `ctxmenu favourite …`, the words from `args[from]` on.
fn favourite_command(args: &Vec<String>, from: usize) -> (result: Result<FavouriteCommand, CliError>)
    requires
        from <= args.len(),
    ensures
        match result {
            Ok(command) => favourite_args(texts(args@).subrange(from as int, args@.len() as int))
                == Ok::<FavouriteCommandView, (ErrorKind, Seq<char>)>(command@),
            Err(e) => favourite_args(texts(args@).subrange(from as int, args@.len() as int))
                == Err::<FavouriteCommandView, (ErrorKind, Seq<char>)>(e@),
        },
{
    let ghost a = texts(args@).subrange(from as int, args@.len() as int);
    if from == args.len() {
        return Err(CliError::bare(ErrorKind::FavouriteNeedsVerb));
    }
    let what = args[from].as_str();
    assert(a[0] == what@);
    if text_eq(what, "list") {
        Ok(FavouriteCommand::List)
    } else if text_eq(what, "remove") {
        if from + 1 < args.len() {
            assert(a[1] == args@[from + 1]@);
            Ok(FavouriteCommand::Remove(args[from + 1].clone()))
        } else {
            Err(CliError::bare(ErrorKind::RemoveNeedsId))
        }
    } else if text_eq(what, "run") {
        if from + 1 < args.len() && from + 2 < args.len() {
            assert(a[1] == args@[from + 1]@);
            assert(a[2] == args@[from + 2]@);
            Ok(FavouriteCommand::Run { id: args[from + 1].clone(), file: args[from + 2].clone() })
        } else {
            Err(CliError::bare(ErrorKind::RunNeedsIdAndFile))
        }
    } else if text_eq(what, "place") {
        if from + 1 >= args.len() {
            return Err(CliError::bare(ErrorKind::PlaceNeedsId));
        }
        assert(a[1] == args@[from + 1]@);
        assert(a.subrange(2, a.len() as int) =~= texts(args@).subrange(
            from + 2,
            args@.len() as int,
        ));
        match place_category(args, from + 2) {
            Ok(Some(category)) => Ok(FavouriteCommand::Place { id: args[from + 1].clone(), category }),
            Ok(None) => Err(CliError::bare(ErrorKind::PlaceNeedsCategory)),
            Err(e) => Err(e),
        }
    } else if text_eq(what, "add") {
        assert(a.drop_first() =~= texts(args@).subrange(from + 1, args@.len() as int));
        match add_form(args, from + 1) {
            Ok(form) => match finish_form(form) {
                Ok(favourite) => Ok(FavouriteCommand::Add(Box::new(favourite))),
                Err(e) => Err(e),
            },
            Err(e) => Err(e),
        }
    } else {
        Err(CliError::new(ErrorKind::UnknownFavouriteVerb, what))
    }
}

/// Does any argument read exactly `word`?
fn has_word(args: &Vec<String>, word: &str) -> (result: bool)
    ensures
        result == texts(args@).contains(word@),
{
    let ghost a = texts(args@);
    let mut i: usize = 0;
    while i < args.len()
        invariant
            i <= args.len(),
            a == texts(args@),
            forall|j: int| 0 <= j < i ==> a[j] != word@,
        decreases args.len() - i,
    {
        if text_eq(args[i].as_str(), word) {
            assert(a[i as int] == word@);
            return true;
        }
        i = i + 1;
    }
    false
}

/// Reads a command line, `argv` without the program's own name.
///
/// No arguments at all means the window: this is a program with a window
/// that happens to have a command line, not the other way round.
pub fn parse(args: Vec<String>) -> (result: Result<Command, CliError>)
    ensures
        match result {
            Ok(command) => parsed(texts(args@)) == Ok::<CommandView, (ErrorKind, Seq<char>)>(
                command@,
            ),
            Err(e) => parsed(texts(args@)) == Err::<CommandView, (ErrorKind, Seq<char>)>(e@),
        },
{
    let ghost a = texts(args@);
    if args.len() == 0 {
        return Ok(Command::Gui(Start::default()));
    }
    let first = args[0].as_str();
    assert(a[0] == first@);
    assert(a.drop_first() =~= a.subrange(1, a.len() as int));
    if text_eq(first, "--help") || text_eq(first, "-h") || text_eq(first, "help") {
        Ok(Command::Help)
    } else if text_eq(first, "--version") || text_eq(first, "-V") || text_eq(first, "version") {
        Ok(Command::Version)
    } else if text_eq(first, "--smoke") {
        Ok(Command::Smoke)
    } else if text_eq(first, "--theme-probe") {
        let mut start = Start::default();
        start.theme_probe = true;
        Ok(Command::Gui(start))
    } else if text_eq(first, "--synthetic") || text_eq(first, "--bench") || text_eq(first, "--tab")
        || text_eq(first, "--search") || text_eq(first, "--ext") || text_eq(first, "--lang")
        || text_eq(first, "--window") {
        match window_start(&args) {
            Ok(start) => Ok(Command::Gui(start)),
            Err(e) => Err(e),
        }
    } else if text_eq(first, "programs") {
        Ok(Command::Programs)
    } else if text_eq(first, "filetype") {
        if args.len() > 1 {
            assert(a[1] == args@[1]@);
            Ok(Command::FileType(args[1].clone()))
        } else {
            Err(CliError::bare(ErrorKind::MissingExtension))
        }
    } else if text_eq(first, "hide") || text_eq(first, "show") || text_eq(first, "shift-only")
        || text_eq(first, "always-show") {
        let action = if text_eq(first, "hide") {
            Action::Hide
        } else if text_eq(first, "show") {
            Action::Show
        } else if text_eq(first, "shift-only") {
            Action::ShiftOnly
        } else {
            Action::AlwaysShow
        };
        if args.len() > 1 {
            assert(a[1] == args@[1]@);
            let confirmed = has_word(&args, "--yes");
            Ok(Command::Apply { action, path: args[1].clone(), confirmed })
        } else {
            Err(CliError::new(ErrorKind::MissingRegistryPath, first))
        }
    } else if text_eq(first, "backups") {
        Ok(Command::Backups)
    } else if text_eq(first, "backup-all") {
        Ok(Command::BackupAll)
    } else if text_eq(first, "restore") {
        if args.len() > 1 {
            assert(a[1] == args@[1]@);
            Ok(Command::Restore(args[1].clone()))
        } else {
            Err(CliError::bare(ErrorKind::MissingDirectory))
        }
    } else if text_eq(first, "delete") {
        if args.len() > 1 {
            assert(a[1] == args@[1]@);
            let confirmed = has_word(&args, "--yes");
            Ok(Command::Delete { path: args[1].clone(), confirmed })
        } else {
            Err(CliError::bare(ErrorKind::MissingDeletePath))
        }
    } else if text_eq(first, "created") {
        Ok(Command::Created)
    } else if text_eq(first, "favourites") || text_eq(first, "favoriten") {
        Ok(Command::Favourite(FavouriteCommand::List))
    } else if text_eq(first, "favourite") || text_eq(first, "favorit") {
        match favourite_command(&args, 1) {
            Ok(command) => Ok(Command::Favourite(command)),
            Err(e) => Err(e),
        }
    } else if text_eq(first, "create") {
        match create_entry(&args, 1) {
            Ok(entry) => Ok(Command::Create(Box::new(name_entry(entry)))),
            Err(e) => Err(e),
        }
    } else if text_eq(first, "scan") {
        match scan_args(&args, 1) {
            Ok(scan) => Ok(Command::Scan(scan)),
            Err(e) => Err(e),
        }
    } else {
        Err(CliError::new(ErrorKind::UnknownCommand, first))
    }
}

/// A text cut to `width` characters: kept whole when it fits, else its
/// first `width - 1` characters and an ellipsis.
pub open spec fn truncated(value: Seq<char>, width: nat) -> Seq<char> {
    if value.len() <= width {
        value
    } else {
        value.subrange(0, if width > 0 { width - 1 } else { 0 }) + seq!['\u{2026}']
    }
}

/// Cuts a text to a column's width on character boundaries, so an umlaut is
/// never split.
pub fn truncate(value: &str, width: usize) -> (result: String)
    ensures
        result@ == truncated(value@, width as nat),
{
    let v = chars_of(value);
    if v.len() <= width {
        return String::from_str(value);
    }
    let keep = if width > 0 {
        width - 1
    } else {
        0
    };
    let mut out: Vec<char> = Vec::new();
    crate::chars::extend_range(&mut out, &v, 0, keep);
    out.push('\u{2026}');
    assert(out@ =~= v@.subrange(0, keep as int) + seq!['\u{2026}']);
    string_of(out.as_slice())
}

/// The first three characters of a text, or all of it when shorter.
pub open spec fn first_three(text: Seq<char>) -> Seq<char> {
    if text.len() <= 3 {
        text
    } else {
        text.subrange(0, 3)
    }
}

/// The flag column: read-only, hidden, shift-only, and the start of a
/// forced position.
pub open spec fn flag_column(entry: ContextEntry) -> Seq<char> {
    trim_end(
        (if entry.read_only {
            "ro "@
        } else {
            Seq::empty()
        }) + (if entry.hidden {
            "hid "@
        } else {
            Seq::empty()
        }) + (if entry.extended {
            "shift "@
        } else {
            Seq::empty()
        }) + match entry.position {
            Some(p) => first_three(p@),
            None => Seq::empty(),
        },
    )
}

/// The compact flag column of the scan table.
pub fn flags(entry: &ContextEntry) -> (result: String)
    ensures
        result@ == flag_column(*entry),
{
    let mut out: Vec<char> = Vec::new();
    proof {
        reveal_strlit("ro ");
        reveal_strlit("hid ");
        reveal_strlit("shift ");
    }
    if entry.read_only {
        let mut part = chars_of("ro ");
        out.append(&mut part);
    }
    if entry.hidden {
        let mut part = chars_of("hid ");
        out.append(&mut part);
    }
    if entry.extended {
        let mut part = chars_of("shift ");
        out.append(&mut part);
    }
    let ghost before = out@;
    if let Some(position) = &entry.position {
        let p = chars_of(position.as_str());
        let take = if p.len() <= 3 {
            p.len()
        } else {
            3
        };
        crate::chars::extend_range(&mut out, &p, 0, take);
        assert(p@.subrange(0, p@.len() as int) =~= p@);
    }
    assert(out@ =~= (if entry.read_only {
        "ro "@
    } else {
        Seq::empty()
    }) + (if entry.hidden {
        "hid "@
    } else {
        Seq::empty()
    }) + (if entry.extended {
        "shift "@
    } else {
        Seq::empty()
    }) + match entry.position {
        Some(p) => first_three(p@),
        None => Seq::empty(),
    });
    let b = crate::chars::trim_end_len(&out);
    let mut kept: Vec<char> = Vec::new();
    crate::chars::extend_range(&mut kept, &out, 0, b);
    string_of(kept.as_slice())
}

/// Which level of the resolution chain an entry came from.
pub open spec fn level_text(category: CategoryView) -> Seq<char> {
    match category {
        CategoryView::AllFiles => "1 alle Dateien"@,
        CategoryView::AllFilesystemObjects => "2 alle Dateisystemobjekte"@,
        CategoryView::PerceivedType(t) => "3 wahrgenommener Typ ("@ + t + ")"@,
        CategoryView::ExtAssoc(e) => "4 SystemFileAssociations\\"@ + e,
        CategoryView::ProgId { prog_id, .. } => "5/7 ProgID "@ + prog_id,
        CategoryView::ExtDirect(e) => "6 "@ + e + "\\shell"@,
        CategoryView::CommandStore => "\u{2014} Verbvorrat"@,
        CategoryView::Directory => "Directory"@,
        CategoryView::DirectoryBackground => "DirectoryBackground"@,
        CategoryView::Folder => "Folder"@,
        CategoryView::DesktopBackground => "DesktopBackground"@,
        CategoryView::Drive => "Drive"@,
    }
}

/// Which level of the resolution chain an entry came from; the command
/// store is a stock, not a level.
pub fn level_label(category: &Category) -> (result: String)
    ensures
        result@ == level_text(category@),
{
    proof {
        reveal_strlit("");
    }
    match category {
        Category::AllFiles => String::from_str("1 alle Dateien"),
        Category::AllFilesystemObjects => String::from_str("2 alle Dateisystemobjekte"),
        Category::PerceivedType(t) => framed("3 wahrgenommener Typ (", t.as_str(), ")"),
        Category::ExtAssoc(e) => framed("4 SystemFileAssociations\\", e.as_str(), ""),
        Category::ProgId { prog_id, .. } => framed("5/7 ProgID ", prog_id.as_str(), ""),
        Category::ExtDirect(e) => framed("6 ", e.as_str(), "\\shell"),
        Category::CommandStore => String::from_str("\u{2014} Verbvorrat"),
        Category::Directory => String::from_str("Directory"),
        Category::DirectoryBackground => String::from_str("DirectoryBackground"),
        Category::Folder => String::from_str("Folder"),
        Category::DesktopBackground => String::from_str("DesktopBackground"),
        Category::Drive => String::from_str("Drive"),
    }
}

/// `n` spaces.
pub open spec fn spaces(n: nat) -> Seq<char> {
    Seq::new(n, |i: int| ' ')
}

/// One row of the scan table, `indent` levels into a cascading menu.
pub open spec fn table_line(entry: ContextEntry, indent: nat) -> Seq<char> {
    padded(scope_label(entry.scope), 7) + " "@ + padded(kind_label(entry.kind), 8) + " "@
        + spaces(2 * indent) + padded(
        truncated(entry.key_name@, if 2 * indent <= 22 { (22 - 2 * indent) as nat } else { 0 }),
        22,
    ) + " "@ + padded(truncated(entry.display_name@, 34), 34) + " "@ + padded(
        flag_column(entry),
        7,
    ) + " "@ + truncated(detail(entry), 40)
}

/// The rows of `list` and of every cascading menu below them, each line
/// one level deeper than its entry.
pub open spec fn table_lines(list: Seq<ContextEntry>, indent: nat) -> Seq<Seq<char>>
    decreases list,
{
    if list.len() == 0 {
        Seq::empty()
    } else {
        let last = list.last();
        table_lines(list.drop_last(), indent) + seq![table_line(last, indent)] + match last.kind {
            EntryKind::Verb { sub_commands, .. } => table_lines(sub_commands@, indent + 1),
            _ => Seq::empty(),
        }
    }
}

fn push_padded(out: &mut Vec<char>, text: &str, width: usize)
    ensures
        final(out)@ == old(out)@ + padded(text@, width as nat),
{
    let v = chars_of(text);
    let mut i: usize = 0;
    let ghost start = out@;
    while i < v.len()
        invariant
            i <= v.len(),
            v@ == text@,
            out@ == start + v@.subrange(0, i as int),
        decreases v.len() - i,
    {
        out.push(v[i]);
        assert(out@ =~= start + v@.subrange(0, i + 1));
        i = i + 1;
    }
    assert(v@.subrange(0, v@.len() as int) =~= v@);
    let ghost filled = out@;
    let mut k = v.len();
    while k < width
        invariant
            v.len() <= k,
            k <= width || k == v.len(),
            out@ == filled + spaces((k - v.len()) as nat),
        decreases width - k,
    {
        out.push(' ');
        assert(out@ =~= filled + spaces((k + 1 - v.len()) as nat));
        k = k + 1;
    }
    assert(out@ =~= start + padded(text@, width as nat));
}

fn push_text(out: &mut Vec<char>, text: &str)
    ensures
        final(out)@ == old(out)@ + text@,
{
    let mut v = chars_of(text);
    out.append(&mut v);
}

/// One row of the scan table.
fn entry_line(entry: &ContextEntry, indent: usize) -> (result: String)
    requires
        indent <= 11,
    ensures
        result@ == table_line(*entry, indent as nat),
{
    let mut out: Vec<char> = Vec::new();
    push_padded(&mut out, entry.scope.label(), 7);
    push_text(&mut out, " ");
    push_padded(&mut out, entry.kind.type_label(), 8);
    push_text(&mut out, " ");
    let mut k: usize = 0;
    let ghost before = out@;
    while k < 2 * indent
        invariant
            k <= 2 * indent,
            indent <= 11,
            out@ == before + spaces(k as nat),
        decreases 2 * indent - k,
    {
        out.push(' ');
        assert(out@ =~= before + spaces((k + 1) as nat));
        k = k + 1;
    }
    push_padded(&mut out, truncate(entry.key_name.as_str(), 22 - 2 * indent).as_str(), 22);
    push_text(&mut out, " ");
    push_padded(&mut out, truncate(entry.display_name.as_str(), 34).as_str(), 34);
    push_text(&mut out, " ");
    push_padded(&mut out, flags(entry).as_str(), 7);
    push_text(&mut out, " ");
    push_text(&mut out, truncate(detail_text(entry), 40).as_str());
    string_of(out.as_slice())
}

/// How many levels of cascading menus lie below `list`.
pub open spec fn levels(list: Seq<ContextEntry>) -> nat
    decreases list,
{
    if list.len() == 0 {
        0
    } else {
        let below = match list.last().kind {
            EntryKind::Verb { sub_commands, .. } => if sub_commands@.len() > 0 {
                1 + levels(sub_commands@)
            } else {
                0
            },
            _ => 0,
        };
        let rest = levels(list.drop_last());
        if rest >= below {
            rest
        } else {
            below
        }
    }
}

proof fn lemma_levels_prefix(list: Seq<ContextEntry>, k: int)
    requires
        0 < k <= list.len(),
    ensures
        levels(list.subrange(0, k)) <= levels(list),
        levels(list) >= match list[k - 1].kind {
            EntryKind::Verb { sub_commands, .. } => if sub_commands@.len() > 0 {
                1 + levels(sub_commands@)
            } else {
                0
            },
            _ => 0,
        },
    decreases list.len(),
{
    if k < list.len() {
        assert(list.drop_last().subrange(0, k) =~= list.subrange(0, k));
        assert(list.drop_last()[k - 1] == list[k - 1]);
        lemma_levels_prefix(list.drop_last(), k);
    } else {
        assert(list.subrange(0, k) =~= list);
    }
}

fn push_lines(lines: &mut Vec<String>, list: &[ContextEntry], indent: usize)
    requires
        indent + levels(list@) <= 11,
    ensures
        final(lines)@.map_values(|l: String| l@) == old(lines)@.map_values(|l: String| l@)
            + table_lines(list@, indent as nat),
    decreases list@,
{
    let mut i: usize = 0;
    assert(lines@.map_values(|l: String| l@) =~= old(lines)@.map_values(|l: String| l@)
        + table_lines(list@.subrange(0, 0), indent as nat));
    while i < list.len()
        invariant
            i <= list.len(),
            indent + levels(list@) <= 11,
            lines@.map_values(|l: String| l@) == old(lines)@.map_values(|l: String| l@)
                + table_lines(list@.subrange(0, i as int), indent as nat),
        decreases list.len() - i,
    {
        let ghost prefix = list@.subrange(0, i + 1);
        assert(prefix.drop_last() =~= list@.subrange(0, i as int));
        assert(prefix.last() == list@[i as int]);
        proof {
            lemma_levels_prefix(list@, i + 1);
        }
        let ghost before = lines@.map_values(|l: String| l@);
        let line = entry_line(&list[i], indent);
        lines.push(line);
        assert(lines@.map_values(|l: String| l@) =~= before + seq![line@]);
        match &list[i].kind {
            EntryKind::Verb { sub_commands, .. } => if sub_commands.len() > 0 {
                push_lines(lines, sub_commands.as_slice(), indent + 1);
            } else {
                assert(table_lines(sub_commands@, (indent + 1) as nat) =~= Seq::<Seq<char>>::empty());
            },
            _ => {},
        }
        i = i + 1;
    }
    assert(list@.subrange(0, i as int) =~= list@);
}

/// The rows one entry takes in the scan table: its own, then its cascading
/// menus, each level indented by two more spaces.
pub fn print_entry(entry: &ContextEntry, indent: usize) -> (result: Vec<String>)
    requires
        indent + levels(seq![*entry]) <= 11,
    ensures
        result@.map_values(|l: String| l@) == table_lines(seq![*entry], indent as nat),
{
    let mut lines: Vec<String> = Vec::new();
    proof {
        lemma_levels_prefix(seq![*entry], 1);
        assert(seq![*entry].drop_last() =~= Seq::<ContextEntry>::empty());
        assert(seq![*entry].last() == *entry);
    }
    lines.push(entry_line(entry, indent));
    assert(lines@.map_values(|l: String| l@) =~= seq![table_line(*entry, indent as nat)]);
    match &entry.kind {
        EntryKind::Verb { sub_commands, .. } => if sub_commands.len() > 0 {
            push_lines(&mut lines, sub_commands.as_slice(), indent + 1);
        } else {
            assert(table_lines(sub_commands@, (indent + 1) as nat) =~= Seq::<Seq<char>>::empty());
        },
        _ => {},
    }
    assert(table_lines(Seq::<ContextEntry>::empty(), indent as nat) =~= Seq::<Seq<char>>::empty());
    lines
}


/// `ctxmenu favourite …`, the words after `favourite`.
pub fn parse_favourite(args: &Vec<String>) -> (result: Result<FavouriteCommand, CliError>)
    ensures
        match result {
            Ok(command) => favourite_args(texts(args@)) == Ok::<
                FavouriteCommandView,
                (ErrorKind, Seq<char>),
            >(command@),
            Err(e) => favourite_args(texts(args@)) == Err::<FavouriteCommandView, (ErrorKind, Seq<char>)>(
                e@,
            ),
        },
{
    assert(texts(args@).subrange(0, args@.len() as int) =~= texts(args@));
    favourite_command(args, 0)
}


/// A program started with no arguments opens the window as it always opens,
/// rather than printing a usage message.
pub proof fn law_no_arguments_open_the_window()
    ensures
        parsed(Seq::empty()) == Ok::<CommandView, (ErrorKind, Seq<char>)>(
            CommandView::Gui(default_start()),
        ),
{
}

/// `--window` never hands out a size below 900 by 600: too small is raised,
/// each side on its own.
pub proof fn law_window_never_below_minimum(value: Seq<char>)
    ensures
        window_size(value) matches Ok((width, height)) ==> width >= MIN_WIDTH && height
            >= MIN_HEIGHT,
{
}

/// No window start the command line produces asks for a run over zero
/// frames: `--bench 0` is refused, whatever stands around it.
pub proof fn law_bench_never_zero(rest: Seq<Seq<char>>, start: StartView)
    requires
        start.bench != Some(0usize),
    ensures
        gui_flags(rest, start) matches Ok(s) ==> s.bench != Some(0usize),
    decreases rest.len(),
{
    if rest.len() >= 2 {
        let flag = rest[0];
        let value = rest[1];
        let more = rest.subrange(2, rest.len() as int);
        if flag == "--search"@ {
            law_bench_never_zero(more, StartView { search: value, ..start });
        } else if flag == "--ext"@ {
            law_bench_never_zero(
                more,
                StartView { ext: Some(lowercase_of(value)), tab: Tab::FileTypes, ..start },
            );
        } else if flag == "--tab"@ {
            if let Some(tab) = tab_from_lowered(ascii_lowered(value)) {
                law_bench_never_zero(more, StartView { tab: tab, ..start });
            }
        } else if flag == "--lang"@ {
            if let Some(language) = language_from_lowered(ascii_lowered(value)) {
                law_bench_never_zero(more, StartView { language: Some(language), ..start });
            }
        } else if flag == "--window"@ {
            if let Ok(size) = window_size(value) {
                law_bench_never_zero(more, StartView { size: Some(size), ..start });
            }
        } else if flag == "--synthetic"@ || flag == "--bench"@ {
            if let Some(n) = usize_of(value) {
                if flag == "--synthetic"@ {
                    law_bench_never_zero(more, StartView { synthetic: Some(n), ..start });
                } else if n != 0 {
                    law_bench_never_zero(more, StartView { bench: Some(n), ..start });
                }
            }
        }
    }
}

/// A cut cell never grows past its column: with room for at least one
/// character, the result is at most `width` long, and a text that fits is
/// kept whole.
pub proof fn law_truncation_fits(value: Seq<char>, width: nat)
    requires
        width >= 1,
    ensures
        truncated(value, width).len() <= width,
        value.len() <= width ==> truncated(value, width) == value,
{
}

/// Switches that `create` reads to the end leave the rest of the line to be
/// read from the entry they built.
proof fn lemma_create_flags_then(
    before: Seq<Seq<char>>,
    after: Seq<Seq<char>>,
    entry: NewEntryView,
)
    requires
        create_flags(before, entry) is Ok,
    ensures
        create_flags(before + after, entry) == create_flags(after, create_flags(before, entry)->Ok_0),
    decreases before.len(),
{
    let all = before + after;
    if before.len() == 0 {
        assert(all =~= after);
    } else {
        assert(all[0] == before[0]);
        if before[0] == "--extended"@ {
            assert(all.drop_first() =~= before.drop_first() + after);
            lemma_create_flags_then(
                before.drop_first(),
                after,
                NewEntryView { extended: true, ..entry },
            );
        } else if before.len() >= 2 {
            let flag = before[0];
            let value = before[1];
            let more = before.subrange(2, before.len() as int);
            assert(all[1] == value);
            assert(all.subrange(2, all.len() as int) =~= more + after);
            if flag == "--category"@ {
                if let Some(category) = base_view(ascii_lowered(value)) {
                    lemma_create_flags_then(more, after, NewEntryView { category: category, ..entry });
                }
            } else if flag == "--ext"@ {
                lemma_create_flags_then(
                    more,
                    after,
                    NewEntryView { category: CategoryView::ExtAssoc(value), ..entry },
                );
            } else if flag == "--perceived"@ {
                lemma_create_flags_then(
                    more,
                    after,
                    NewEntryView { category: CategoryView::PerceivedType(value), ..entry },
                );
            } else if flag == "--name"@ {
                lemma_create_flags_then(more, after, NewEntryView { display_name: value, ..entry });
            } else if flag == "--key"@ {
                lemma_create_flags_then(more, after, NewEntryView { key_name: value, ..entry });
            } else if flag == "--command"@ {
                lemma_create_flags_then(more, after, NewEntryView { command: value, ..entry });
            } else if flag == "--icon"@ {
                lemma_create_flags_then(more, after, NewEntryView { icon: Some(value), ..entry });
            } else if flag == "--sub"@ {
                if let Some(bar) = first_index(value, '|') {
                    lemma_create_flags_then(
                        more,
                        after,
                        NewEntryView {
                            children: entry.children.push(
                                NewChildView {
                                    key_name: Seq::empty(),
                                    display_name: trimmed(value.subrange(0, bar)),
                                    command: trimmed(value.subrange(bar + 1, value.len() as int)),
                                    icon: None,
                                },
                            ),
                            ..entry
                        },
                    );
                }
            } else if flag == "--sub-icon"@ {
                if entry.children.len() > 0 {
                    lemma_create_flags_then(
                        more,
                        after,
                        NewEntryView {
                            children: entry.children.update(
                                entry.children.len() - 1,
                                NewChildView { icon: Some(value), ..entry.children.last() },
                            ),
                            ..entry
                        },
                    );
                }
            } else if flag == "--position"@ {
                lemma_create_flags_then(
                    more,
                    after,
                    NewEntryView { position: Some(position_word(value)), ..entry },
                );
            }
        }
    }
}

/// One `--sub-icon VALUE` read at the front: the latest submenu line gets
/// the icon, and reading goes on from there.
proof fn lemma_sub_icon_step(value: Seq<char>, tail: Seq<Seq<char>>, entry: NewEntryView)
    requires
        entry.children.len() > 0,
    ensures
        create_flags(seq!["--sub-icon"@, value] + tail, entry) == create_flags(
            tail,
            NewEntryView {
                children: entry.children.update(
                    entry.children.len() - 1,
                    NewChildView { icon: Some(value), ..entry.children[entry.children.len() - 1] },
                ),
                ..entry
            },
        ),
{
    reveal_strlit("--sub-icon");
    reveal_strlit("--extended");
    reveal_strlit("--category");
    reveal_strlit("--ext");
    reveal_strlit("--perceived");
    reveal_strlit("--name");
    reveal_strlit("--key");
    reveal_strlit("--command");
    reveal_strlit("--icon");
    reveal_strlit("--sub");
    assert("--sub-icon"@[2] != "--extended"@[2]);
    assert("--sub-icon"@[2] != "--category"@[2]);
    let rest = seq!["--sub-icon"@, value] + tail;
    assert(rest[0] == "--sub-icon"@);
    assert(rest[1] == value);
    assert(rest.subrange(2, rest.len() as int) =~= tail);
    assert(entry.children.last() == entry.children[entry.children.len() - 1]);
}

/// `--sub-icon` belongs to the `--sub` just before it: after any switches of
/// `create` that have given at least one submenu line, `--sub-icon VALUE`
/// sets the icon of the latest line to `VALUE` and leaves every earlier
/// line, and everything else of the entry, as it was; what follows is read
/// on from there.
pub proof fn law_a_sub_icon_belongs_to_the_latest_sub(
    before: Seq<Seq<char>>,
    value: Seq<char>,
    after: Seq<Seq<char>>,
    entry: NewEntryView,
)
    requires
        create_flags(before, entry) matches Ok(built) && built.children.len() > 0,
    ensures
        ({
            let built = create_flags(before, entry)->Ok_0;
            let n = built.children.len() as int;
            let marked = NewEntryView {
                children: built.children.update(
                    n - 1,
                    NewChildView { icon: Some(value), ..built.children[n - 1] },
                ),
                ..built
            };
            &&& create_flags(before + seq!["--sub-icon"@, value] + after, entry) == create_flags(
                after,
                marked,
            )
            &&& create_flags(before + seq!["--sub-icon"@, value], entry) matches Ok(done)
                && done.children.len() == n && done.children[n - 1].icon == Some(value)
                && done.children[n - 1].display_name == built.children[n - 1].display_name
                && done.children[n - 1].command == built.children[n - 1].command
                && done.children[n - 1].key_name == built.children[n - 1].key_name && (forall|i: int|
                0 <= i < n - 1 ==> #[trigger] done.children[i] == built.children[i])
                && done.category == built.category && done.display_name == built.display_name
                && done.key_name == built.key_name && done.command == built.command
                && done.icon == built.icon && done.position == built.position
                && done.extended == built.extended
        }),
{
    let built = create_flags(before, entry)->Ok_0;
    let n = built.children.len() as int;
    let marked = NewEntryView {
        children: built.children.update(
            n - 1,
            NewChildView { icon: Some(value), ..built.children[n - 1] },
        ),
        ..built
    };
    let icon_line = seq!["--sub-icon"@, value];
    lemma_sub_icon_step(value, after, built);
    lemma_sub_icon_step(value, Seq::empty(), built);
    assert(before + icon_line + after =~= before + (icon_line + after));
    lemma_create_flags_then(before, icon_line + after, entry);
    lemma_create_flags_then(before, icon_line, entry);
    assert(icon_line =~= icon_line + Seq::<Seq<char>>::empty());
    assert(create_flags(Seq::<Seq<char>>::empty(), marked) == Ok::<
        NewEntryView,
        (ErrorKind, Seq<char>),
    >(marked));
}

} // verus!
