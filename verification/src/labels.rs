//! What the window says about entries, actions and itself, in the language
//! on screen.

use vstd::prelude::*;

use crate::chars::{chars_of, contains_chars, lowercase, lowercase_of, occurs, string_of, trimmed};
use crate::favourites::{Favourite, FavouriteView, Tool, ToolView, WebMode, WebModeView, address_of};
use crate::i18n::Strings;
use crate::model::{Action, ActionView, Category, CategoryView, ContextEntry, EntryKind, Scope, applies_to_label, kind_label, scope_label};
use crate::settings::ThemeChoice;
use crate::window::SortBy;

verus! {

/// An icon in front of its label, the shape every button in the bar takes.
pub fn labelled(icon: char, text: &str) -> (result: String)
    ensures
        result@ == seq![icon] + "  "@ + text@,
{
    let mut out: Vec<char> = Vec::new();
    out.push(icon);
    let mut rest = chars_of("  ");
    out.append(&mut rest);
    let mut words = chars_of(text);
    out.append(&mut words);
    string_of(out.as_slice())
}

/// What a switch group is about, in front of what it does.
pub fn group_tip(name: &str, explanation: &str) -> (result: String)
    ensures
        result@ == name@ + " — "@ + explanation@,
{
    let mut text = String::from_str(name);
    text.append(" — ");
    text.append(explanation);
    text
}

/// The word for a selection that does not agree with itself, or nothing.
pub fn mixed_marker(tr: &Strings, mixed: bool) -> (result: Option<&'static str>)
    ensures
        result == if mixed {
            Some(tr.seg_mixed)
        } else {
            None
        },
{
    if mixed {
        Some(tr.seg_mixed)
    } else {
        None
    }
}

/// A text cut down to `limit` characters after trimming, with an ellipsis
/// where it was cut.
pub open spec fn shortened(text: Seq<char>, limit: nat) -> Seq<char> {
    let t = trimmed(text);
    if t.len() <= limit {
        t
    } else {
        t.subrange(0, limit as int) + seq!['\u{2026}']
    }
}

/// Cuts a service's own prose down to what a panel can hold, never inside a
/// character.
pub fn shorten(text: &str, limit: usize) -> (result: String)
    ensures
        result@ == shortened(text@, limit as nat),
{
    let t = crate::chars::trim(text);
    if t.len() <= limit {
        return string_of(t.as_slice());
    }
    let mut out: Vec<char> = Vec::new();
    crate::chars::extend_range(&mut out, &t, 0, limit);
    out.push('\u{2026}');
    assert(out@ =~= t@.subrange(0, limit as int) + seq!['\u{2026}']);
    string_of(out.as_slice())
}

/// The title bar: the name in the chosen language, then the version.
pub fn window_title(tr: &Strings) -> (result: String)
    ensures
        result@ == tr.app_title@ + " "@ + crate::VERSION@,
{
    let mut text = String::from_str(tr.app_title);
    text.append(" ");
    text.append(crate::VERSION);
    text
}

/// The name of an action in the language on screen.
pub open spec fn action_name(action: Action, tr: Strings) -> &'static str {
    match action {
        Action::Hide => tr.act_hide,
        Action::Show => tr.act_show,
        Action::ShiftOnly => tr.act_shift_only,
        Action::AlwaysShow => tr.act_always_show,
        Action::SetPosition(_) => tr.act_position,
        Action::Block => tr.act_block,
        Action::Unblock => tr.act_unblock,
        Action::Delete => tr.act_delete,
    }
}

/// The name of an action in the language on screen.
pub fn action_label(action: &Action, tr: &Strings) -> (result: &'static str)
    ensures
        result == action_name(*action, *tr),
{
    match action {
        Action::Hide => tr.act_hide,
        Action::Show => tr.act_show,
        Action::ShiftOnly => tr.act_shift_only,
        Action::AlwaysShow => tr.act_always_show,
        Action::SetPosition(_) => tr.act_position,
        Action::Block => tr.act_block,
        Action::Unblock => tr.act_unblock,
        Action::Delete => tr.act_delete,
    }
}

/// The sentence a switch carries, which the menu line doing the same thing
/// carries too: one explanation per mechanism.
pub fn action_tip(action: &Action, tr: &Strings) -> (result: &'static str)
    ensures
        result == match action {
            Action::Hide | Action::Show => tr.tip_group_visibility,
            Action::ShiftOnly | Action::AlwaysShow => tr.tip_group_shift,
            Action::Block | Action::Unblock => tr.tip_group_systemwide,
            Action::SetPosition(_) => tr.tip_position,
            Action::Delete => tr.tip_delete,
        },
{
    match action {
        Action::Hide | Action::Show => tr.tip_group_visibility,
        Action::ShiftOnly | Action::AlwaysShow => tr.tip_group_shift,
        Action::Block | Action::Unblock => tr.tip_group_systemwide,
        Action::SetPosition(_) => tr.tip_position,
        Action::Delete => tr.tip_delete,
    }
}

/// An action as a menu line: a position says where it goes.
pub open spec fn menu_text(action: ActionView, tr: Strings) -> Seq<char> {
    match action {
        ActionView::SetPosition(value) => tr.act_position@ + ": "@ + (if value == Some("Top"@) {
            tr.pos_top@
        } else if value == Some("Bottom"@) {
            tr.pos_bottom@
        } else {
            tr.pos_default@
        }),
        ActionView::Hide => tr.act_hide@,
        ActionView::Show => tr.act_show@,
        ActionView::ShiftOnly => tr.act_shift_only@,
        ActionView::AlwaysShow => tr.act_always_show@,
        ActionView::Block => tr.act_block@,
        ActionView::Unblock => tr.act_unblock@,
        ActionView::Delete => tr.act_delete@,
    }
}

/// An action as a menu line: what it does, not what it is called inside.
pub fn menu_label(action: &Action, tr: &Strings) -> (result: String)
    ensures
        result@ == menu_text(action@, *tr),
{
    match action {
        Action::SetPosition(value) => {
            let where_to = match value {
                Some(p) => if crate::chars::text_eq(p.as_str(), "Top") {
                    tr.pos_top
                } else if crate::chars::text_eq(p.as_str(), "Bottom") {
                    tr.pos_bottom
                } else {
                    tr.pos_default
                },
                None => tr.pos_default,
            };
            let mut text = String::from_str(tr.act_position);
            text.append(": ");
            text.append(where_to);
            text
        },
        other => String::from_str(action_label(other, tr)),
    }
}

/// What the theme button says when the pointer rests on it.
pub fn theme_tip(choice: ThemeChoice, tr: &Strings) -> (result: &'static str)
    ensures
        result == match choice {
            ThemeChoice::System => tr.tip_theme_system,
            ThemeChoice::Light => tr.tip_theme_light,
            ThemeChoice::Dark => tr.tip_theme_dark,
        },
{
    match choice {
        ThemeChoice::System => tr.tip_theme_system,
        ThemeChoice::Light => tr.tip_theme_light,
        ThemeChoice::Dark => tr.tip_theme_dark,
    }
}

/// The name of a category; file type categories fall back to the tab's name.
pub open spec fn category_name(category: CategoryView, tr: Strings) -> &'static str {
    match category {
        CategoryView::AllFiles => tr.cat_all_files,
        CategoryView::AllFilesystemObjects => tr.cat_all_filesystem_objects,
        CategoryView::Directory => tr.cat_directory,
        CategoryView::DirectoryBackground => tr.cat_directory_background,
        CategoryView::Folder => tr.cat_folder,
        CategoryView::DesktopBackground => tr.cat_desktop_background,
        CategoryView::Drive => tr.cat_drive,
        CategoryView::CommandStore => tr.cat_command_store,
        _ => tr.tab_filetypes,
    }
}

/// The name of a category in the language on screen.
pub fn category_label(category: &Category, tr: &Strings) -> (result: &'static str)
    ensures
        result == category_name(category@, *tr),
{
    match category {
        Category::AllFiles => tr.cat_all_files,
        Category::AllFilesystemObjects => tr.cat_all_filesystem_objects,
        Category::Directory => tr.cat_directory,
        Category::DirectoryBackground => tr.cat_directory_background,
        Category::Folder => tr.cat_folder,
        Category::DesktopBackground => tr.cat_desktop_background,
        Category::Drive => tr.cat_drive,
        Category::CommandStore => tr.cat_command_store,
        _ => tr.tab_filetypes,
    }
}

/// A category as a picker shows it: a file type says itself, the others
/// have names.
pub open spec fn choice_text(category: Category, tr: Strings) -> Seq<char> {
    if applies_to_label(category).len() == 0 {
        category_name(category@, tr)@
    } else {
        applies_to_label(category)
    }
}

/// A category as it should read in a picker.
pub fn category_choice_label(category: &Category, tr: &Strings) -> (result: String)
    ensures
        result@ == choice_text(*category, *tr),
{
    let label = category.applies_to_label();
    if label.as_str().unicode_len() == 0 {
        String::from_str(category_label(category, tr))
    } else {
        label
    }
}

/// Where an entry turns up, in words rather than registry shorthand.
pub fn appears_on(entry: &ContextEntry, tr: &Strings) -> (result: String)
    ensures
        result@ == choice_text(entry.category, *tr),
{
    category_choice_label(&entry.category, tr)
}

/// What the command column shows: the command line, the CLSID, or the
/// package.
pub open spec fn detail(entry: ContextEntry) -> Seq<char> {
    match entry.kind {
        EntryKind::Verb { command, .. } => match command {
            Some(c) => c@,
            None => "\u{2014}"@,
        },
        EntryKind::ShellEx { clsid, .. } => clsid@,
        EntryKind::PackagedVerb { package_name, .. } => package_name@,
    }
}

/// What the command column shows for an entry.
pub fn detail_text(entry: &ContextEntry) -> (result: &str)
    ensures
        result@ == detail(*entry),
{
    match &entry.kind {
        EntryKind::Verb { command, .. } => match command {
            Some(c) => c.as_str(),
            None => "\u{2014}",
        },
        EntryKind::ShellEx { clsid, .. } => clsid.as_str(),
        EntryKind::PackagedVerb { package_name, .. } => package_name.as_str(),
    }
}

/// The value a column is ordered by, in lower case throughout so that
/// capitals do not decide the order.
pub open spec fn sort_text(entry: ContextEntry, column: SortBy, tr: Strings) -> Seq<char> {
    match column {
        SortBy::Natural => Seq::empty(),
        SortBy::Name => lowercase_of(entry.display_name@),
        SortBy::Kind => kind_label(entry.kind),
        SortBy::Scope => scope_label(entry.scope),
        SortBy::AppliesTo => lowercase_of(choice_text(entry.category, tr)),
        SortBy::Command => lowercase_of(detail(entry)),
    }
}

/// The value a column is ordered by.
pub fn sort_key(entry: &ContextEntry, column: SortBy, tr: &Strings) -> (result: String)
    ensures
        result@ == sort_text(*entry, column, *tr),
{
    match column {
        SortBy::Natural => String::new(),
        SortBy::Name => string_of(lowercase(entry.display_name.as_str()).as_slice()),
        SortBy::Kind => String::from_str(entry.kind.type_label()),
        SortBy::Scope => String::from_str(entry.scope.label()),
        SortBy::AppliesTo => {
            let shown = appears_on(entry, tr);
            string_of(lowercase(shown.as_str()).as_slice())
        },
        SortBy::Command => string_of(lowercase(detail_text(entry)).as_slice()),
    }
}

/// The sentence that says what an error means here, where the message alone
/// leaves that open; matched on the wording, in any case.
pub open spec fn advice(message: Seq<char>, tr: Strings) -> Option<&'static str> {
    let lower = lowercase_of(message);
    if occurs(lower, "zugriff verweigert"@) || occurs(lower, "access is denied"@) || occurs(
        lower,
        "os error 5"@,
    ) {
        Some(tr.why_access_denied)
    } else if occurs(lower, " 401"@) || occurs(lower, " 403"@) {
        Some(tr.why_unauthorised)
    } else if occurs(lower, " 404"@) {
        Some(tr.why_not_found)
    } else if occurs(lower, "winhttpconnect"@) || occurs(lower, "winhttpsendrequest"@) || occurs(
        lower,
        "timed out"@,
    ) || occurs(lower, "zeit\u{fc}berschreitung"@) {
        Some(tr.why_unreachable)
    } else if occurs(lower, "schon vergeben"@) || occurs(lower, "already taken"@) {
        Some(tr.why_id_taken)
    } else if occurs(lower, "existiert bereits"@) || occurs(lower, "already exists"@) {
        Some(tr.why_key_exists)
    } else {
        None
    }
}

fn says(lower: &Vec<char>, phrase: &str) -> (result: bool)
    ensures
        result == occurs(lower@, phrase@),
{
    contains_chars(lower, &chars_of(phrase))
}

/// What to do about an error, where the message alone leaves that open.
pub fn advice_for(message: &str, tr: &Strings) -> (result: Option<&'static str>)
    ensures
        result == advice(message@, *tr),
{
    let lower = lowercase(message);
    if says(&lower, "zugriff verweigert") || says(&lower, "access is denied") || says(
        &lower,
        "os error 5",
    ) {
        Some(tr.why_access_denied)
    } else if says(&lower, " 401") || says(&lower, " 403") {
        Some(tr.why_unauthorised)
    } else if says(&lower, " 404") {
        Some(tr.why_not_found)
    } else if says(&lower, "winhttpconnect") || says(&lower, "winhttpsendrequest") || says(
        &lower,
        "timed out",
    ) || says(&lower, "zeit\u{fc}berschreitung") {
        Some(tr.why_unreachable)
    } else if says(&lower, "schon vergeben") || says(&lower, "already taken") {
        Some(tr.why_id_taken)
    } else if says(&lower, "existiert bereits") || says(&lower, "already exists") {
        Some(tr.why_key_exists)
    } else {
        None
    }
}

/// How the scan groups file types.
#[derive(Debug, Clone, Copy, PartialEq, Eq, Structural)]
pub enum TypeGroup {
    Documents,
    Images,
    Raw,
    Audio,
    Video,
    Archives,
    Code,
    System,
    Other,
}

/// The label of a file type group: four differ between the languages, the
/// rest are the same word in both.
pub fn type_group_label(group: TypeGroup, tr: &Strings) -> (result: &'static str)
    ensures
        result@ == match group {
            TypeGroup::Documents => tr.grp_documents@,
            TypeGroup::Images => tr.grp_images@,
            TypeGroup::Archives => tr.grp_archives@,
            TypeGroup::Other => tr.grp_other@,
            TypeGroup::Raw => "RAW"@,
            TypeGroup::Audio => "Audio"@,
            TypeGroup::Video => "Video"@,
            TypeGroup::Code => "Code"@,
            TypeGroup::System => "System"@,
        },
{
    match group {
        TypeGroup::Documents => tr.grp_documents,
        TypeGroup::Images => tr.grp_images,
        TypeGroup::Archives => tr.grp_archives,
        TypeGroup::Other => tr.grp_other,
        TypeGroup::Raw => "RAW",
        TypeGroup::Audio => "Audio",
        TypeGroup::Video => "Video",
        TypeGroup::Code => "Code",
        TypeGroup::System => "System",
    }
}

/// The three branches of the program tree.
#[derive(Debug, Clone, Copy, PartialEq, Eq, Structural)]
pub enum Branch {
    Gone,
    Own,
    System,
}

impl Branch {
    /// The branch a program belongs in. Gone wins over system: a Windows
    /// component that is not on disk is the more surprising fact.
    pub fn of(gone: bool, is_system: bool) -> (result: Branch)
        ensures
            result == if gone {
                Branch::Gone
            } else if is_system {
                Branch::System
            } else {
                Branch::Own
            },
    {
        if gone {
            Branch::Gone
        } else if is_system {
            Branch::System
        } else {
            Branch::Own
        }
    }

    /// The heading of the branch.
    pub fn label(self, tr: &Strings) -> (result: &'static str)
        ensures
            result == match self {
                Branch::Gone => tr.grp_gone_programs,
                Branch::Own => tr.grp_own_programs,
                Branch::System => tr.grp_system_programs,
            },
    {
        match self {
            Branch::Gone => tr.grp_gone_programs,
            Branch::Own => tr.grp_own_programs,
            Branch::System => tr.grp_system_programs,
        }
    }

    /// A stable id for the branch's header, the same after every rescan.
    pub fn salt(self) -> (result: &'static str)
        ensures
            result@ == match self {
                Branch::Gone => "programs-gone"@,
                Branch::Own => "programs-own"@,
                Branch::System => "programs-system"@,
            },
    {
        match self {
            Branch::Gone => "programs-gone",
            Branch::Own => "programs-own",
            Branch::System => "programs-system",
        }
    }
}

/// One note when `set`, none otherwise.
pub open spec fn note_if(set: bool, badge: &'static str, why: &'static str) -> Seq<(&'static str, &'static str)> {
    if set {
        seq![(badge, why)]
    } else {
        Seq::empty()
    }
}

/// The notes of a COM handler: blocked or not, and why its text is fixed.
pub open spec fn handler_notes(entry: ContextEntry, tr: Strings) -> Seq<(&'static str, &'static str)> {
    match entry.kind {
        EntryKind::ShellEx { blocked, .. } => note_if(blocked, tr.badge_blocked, tr.why_blocked)
            + seq![(tr.kind_shellex, tr.why_com_handler)],
        _ => Seq::empty(),
    }
}

/// The flags of an entry in words: only what is set, each with its reason.
pub open spec fn flag_notes(entry: ContextEntry, tr: Strings) -> Seq<(&'static str, &'static str)> {
    match entry.kind {
        EntryKind::PackagedVerb { blocked_machine, .. } => note_if(
            entry.hidden,
            tr.badge_hidden,
            tr.why_hidden_packaged,
        ) + note_if(blocked_machine, tr.badge_blocked, tr.why_blocked) + seq![
            (tr.badge_win11, tr.why_packaged),
        ],
        _ => note_if(entry.read_only, tr.badge_readonly, tr.why_readonly) + note_if(
            entry.hidden,
            tr.badge_hidden,
            tr.why_hidden,
        ) + note_if(entry.extended, tr.badge_shift, tr.why_extended) + handler_notes(entry, tr)
            + note_if(entry.position is Some, tr.detail_position, tr.why_position) + note_if(
            entry.scope != Scope::User,
            tr.badge_admin,
            tr.why_machine,
        ),
    }
}

fn note(out: &mut Vec<(&'static str, &'static str)>, set: bool, badge: &'static str, why: &'static str)
    ensures
        final(out)@ == old(out)@ + note_if(set, badge, why),
{
    if set {
        out.push((badge, why));
    }
    assert(out@ =~= old(out)@ + note_if(set, badge, why));
}

/// The flags of an entry, in words, for the detail pane.
pub fn explained_flags(entry: &ContextEntry, tr: &Strings) -> (result: Vec<(&'static str, &'static str)>)
    ensures
        result@ == flag_notes(*entry, *tr),
{
    let mut out: Vec<(&'static str, &'static str)> = Vec::new();
    // A packaged entry explains itself in its own words throughout.
    if let EntryKind::PackagedVerb { blocked_machine, .. } = &entry.kind {
        note(&mut out, entry.hidden, tr.badge_hidden, tr.why_hidden_packaged);
        note(&mut out, *blocked_machine, tr.badge_blocked, tr.why_blocked);
        note(&mut out, true, tr.badge_win11, tr.why_packaged);
        assert(out@ =~= flag_notes(*entry, *tr));
        return out;
    }
    note(&mut out, entry.read_only, tr.badge_readonly, tr.why_readonly);
    note(&mut out, entry.hidden, tr.badge_hidden, tr.why_hidden);
    note(&mut out, entry.extended, tr.badge_shift, tr.why_extended);
    let ghost before = out@;
    if let EntryKind::ShellEx { blocked, .. } = &entry.kind {
        note(&mut out, *blocked, tr.badge_blocked, tr.why_blocked);
        // Not a flag but the same question: why the text cannot be changed.
        note(&mut out, true, tr.kind_shellex, tr.why_com_handler);
    }
    assert(out@ =~= before + handler_notes(*entry, *tr));
    note(&mut out, entry.position.is_some(), tr.detail_position, tr.why_position);
    note(&mut out, entry.scope != Scope::User, tr.badge_admin, tr.why_machine);
    assert(out@ =~= flag_notes(*entry, *tr));
    out
}


/// One line saying what a favourite is and where it points.
pub open spec fn favourite_line(favourite: FavouriteView, tr: Strings) -> Seq<char> {
    match favourite.tool {
        ToolView::Program { path, args } => {
            let args = trimmed(args);
            if args.len() == 0 {
                tr.fav_kind_program@ + "  \u{b7}  "@ + path
            } else {
                tr.fav_kind_program@ + "  \u{b7}  "@ + path + " "@ + args
            }
        },
        ToolView::Web(web) => tr.fav_kind_web@ + "  \u{b7}  "@ + (match web.mode {
            WebModeView::Open { .. } => tr.fav_mode_open@,
            WebModeView::Clipboard { .. } => tr.fav_mode_clipboard@,
            WebModeView::Upload(_) => tr.fav_mode_upload@,
        }) + "  \u{b7}  "@ + match address_of(favourite.tool) {
            Some(a) => a,
            None => Seq::empty(),
        },
    }
}

/// One line saying what a favourite is and where it points.
pub fn describe(favourite: &Favourite, tr: &Strings) -> (result: String)
    ensures
        result@ == favourite_line(favourite@, *tr),
{
    match &favourite.tool {
        Tool::Program { path, args } => {
            let args = crate::chars::trim(args.as_str());
            let mut text = String::from_str(tr.fav_kind_program);
            text.append("  \u{b7}  ");
            text.append(path.as_str());
            if args.len() > 0 {
                text.append(" ");
                text.append(string_of(args.as_slice()).as_str());
            }
            text
        },
        Tool::Web(web) => {
            let mode = match &web.mode {
                WebMode::Open { .. } => tr.fav_mode_open,
                WebMode::Clipboard { .. } => tr.fav_mode_clipboard,
                WebMode::Upload(_) => tr.fav_mode_upload,
            };
            let mut text = String::from_str(tr.fav_kind_web);
            text.append("  \u{b7}  ");
            text.append(mode);
            text.append("  \u{b7}  ");
            match favourite.address() {
                Some(a) => text.append(a.as_str()),
                None => {},
            }
            text
        },
    }
}

/// The Command column is ordered by what it shows, in lower case: a verb's
/// command line, the dash of a verb without one, a handler's CLSID, a
/// packaged entry's package name. Two entries that show the same text there
/// sort together, whatever their names and keys.
pub proof fn law_the_command_column_sorts_by_what_it_shows(
    entry: ContextEntry,
    other: ContextEntry,
    tr: Strings,
)
    ensures
        entry.kind matches EntryKind::Verb { command: Some(c), .. } ==> sort_text(
            entry,
            SortBy::Command,
            tr,
        ) == lowercase_of(c@),
        entry.kind matches EntryKind::Verb { command: None, .. } ==> sort_text(
            entry,
            SortBy::Command,
            tr,
        ) == lowercase_of("\u{2014}"@),
        entry.kind matches EntryKind::ShellEx { clsid, .. } ==> sort_text(entry, SortBy::Command, tr)
            == lowercase_of(clsid@),
        entry.kind matches EntryKind::PackagedVerb { package_name, .. } ==> sort_text(
            entry,
            SortBy::Command,
            tr,
        ) == lowercase_of(package_name@),
        detail(entry) == detail(other) ==> sort_text(entry, SortBy::Command, tr) == sort_text(
            other,
            SortBy::Command,
            tr,
        ),
{
}

} // verus!
