//! What the window's clicks decide: which dialog follows, what the top bar
//! starts, and what the trees and the table headers change.
//!
//! The window draws and reports what was clicked; each function here takes
//! the state and the event and gives the next state and the work to do.

use vstd::prelude::*;

use crate::chars::text_eq;
use crate::model::{Category, Report};
use crate::plan::Step;
use crate::table::TableState;
use crate::window::{SortBy, Tab};

verus! {

/// The dialog on top of the window.
#[derive(Debug, Clone)]
pub enum Dialog {
    /// Drawn up but not yet applied: the steps, whether Windows will ask,
    /// and how many file types beyond the one on screen it reaches.
    Confirm { plan: Vec<Step>, needs_elevation: bool, breadth: Option<usize> },
    Running,
    Done(Report),
    Error(String),
    /// Something worked.
    Note(String),
    /// An entry of one's own was written; a note when its record was not.
    Created { path: String, note: Option<String> },
    About,
}

/// What happened to the dialog, or under it.
#[derive(Debug)]
pub enum DialogEvent {
    /// The confirmation's go-ahead.
    Execute,
    /// The confirmation's cancel.
    Cancel,
    /// A close button.
    Close,
    /// The work in the background came back.
    Finished(Result<Report, String>),
    /// Undo, on the report of a finished plan.
    Undo,
    /// The undo came back: fine, or what did not come back, in words.
    Restored(Result<(), String>),
    /// Restart Explorer, from the report or the note of a new entry.
    RestartExplorer,
    Restarted(Result<(), String>),
}

/// The work a dialog event asks for.
#[derive(Debug, Clone)]
pub enum DialogAction {
    /// Run these steps in the background.
    Apply(Vec<Step>),
    /// Put back the backups the report on screen names.
    Restore,
    /// Scan again: the registry changed under the table.
    Rescan,
    RestartExplorer,
}

/// Which dialog follows an event, and what to do. A confirmed plan runs
/// while its dialog says so; the run ends in its report or its error; an
/// undo that brings everything back closes and rescans, one that does not
/// says what is missing; a close button closes. Anything else leaves the
/// dialog as it is.
pub open spec fn dialog_next(dialog: Option<Dialog>, event: DialogEvent) -> (Option<Dialog>, Option<DialogAction>) {
    match (dialog, event) {
        (Some(Dialog::Confirm { plan, .. }), DialogEvent::Execute) => (Some(Dialog::Running), Some(DialogAction::Apply(plan))),
        (Some(Dialog::Confirm { .. }), DialogEvent::Cancel) => (None, None),
        (Some(Dialog::Running), DialogEvent::Finished(outcome)) => match outcome {
            Ok(report) => (Some(Dialog::Done(report)), None),
            Err(message) => (Some(Dialog::Error(message)), None),
        },
        (Some(Dialog::Done(report)), DialogEvent::Undo) => (Some(Dialog::Done(report)), Some(DialogAction::Restore)),
        (Some(Dialog::Done(_)), DialogEvent::Restored(outcome)) => match outcome {
            Ok(()) => (None, Some(DialogAction::Rescan)),
            Err(message) => (Some(Dialog::Error(message)), None),
        },
        (Some(Dialog::Done(report)), DialogEvent::RestartExplorer) => (Some(Dialog::Done(report)), Some(DialogAction::RestartExplorer)),
        (Some(Dialog::Created { path, note }), DialogEvent::RestartExplorer) => (
            Some(Dialog::Created { path, note }),
            Some(DialogAction::RestartExplorer),
        ),
        (Some(Dialog::Done(_)), DialogEvent::Restarted(outcome)) => match outcome {
            Ok(()) => (None, None),
            Err(message) => (Some(Dialog::Error(message)), None),
        },
        (Some(Dialog::Created { .. }), DialogEvent::Restarted(outcome)) => match outcome {
            Ok(()) => (None, None),
            Err(message) => (Some(Dialog::Error(message)), None),
        },
        (Some(Dialog::Done(_)), DialogEvent::Close) => (None, None),
        (Some(Dialog::Error(_)), DialogEvent::Close) => (None, None),
        (Some(Dialog::Note(_)), DialogEvent::Close) => (None, None),
        (Some(Dialog::Created { .. }), DialogEvent::Close) => (None, None),
        (Some(Dialog::About), DialogEvent::Close) => (None, None),
        (dialog, _) => (dialog, None),
    }
}

/// One event of the dialogs.
pub fn dialog_step(dialog: Option<Dialog>, event: DialogEvent) -> (result: (Option<Dialog>, Option<DialogAction>))
    ensures
        result == dialog_next(dialog, event),
{
    match (dialog, event) {
        (Some(Dialog::Confirm { plan, .. }), DialogEvent::Execute) => (Some(Dialog::Running), Some(DialogAction::Apply(plan))),
        (Some(Dialog::Confirm { .. }), DialogEvent::Cancel) => (None, None),
        (Some(Dialog::Running), DialogEvent::Finished(outcome)) => match outcome {
            Ok(report) => (Some(Dialog::Done(report)), None),
            Err(message) => (Some(Dialog::Error(message)), None),
        },
        (Some(Dialog::Done(report)), DialogEvent::Undo) => (Some(Dialog::Done(report)), Some(DialogAction::Restore)),
        (Some(Dialog::Done(_)), DialogEvent::Restored(outcome)) => match outcome {
            Ok(()) => (None, Some(DialogAction::Rescan)),
            Err(message) => (Some(Dialog::Error(message)), None),
        },
        (Some(Dialog::Done(report)), DialogEvent::RestartExplorer) => (Some(Dialog::Done(report)), Some(DialogAction::RestartExplorer)),
        (Some(Dialog::Created { path, note }), DialogEvent::RestartExplorer) => (
            Some(Dialog::Created { path, note }),
            Some(DialogAction::RestartExplorer),
        ),
        (Some(Dialog::Done(_)), DialogEvent::Restarted(outcome)) => match outcome {
            Ok(()) => (None, None),
            Err(message) => (Some(Dialog::Error(message)), None),
        },
        (Some(Dialog::Created { .. }), DialogEvent::Restarted(outcome)) => match outcome {
            Ok(()) => (None, None),
            Err(message) => (Some(Dialog::Error(message)), None),
        },
        (Some(Dialog::Done(_)), DialogEvent::Close) => (None, None),
        (Some(Dialog::Error(_)), DialogEvent::Close) => (None, None),
        (Some(Dialog::Note(_)), DialogEvent::Close) => (None, None),
        (Some(Dialog::Created { .. }), DialogEvent::Close) => (None, None),
        (Some(Dialog::About), DialogEvent::Close) => (None, None),
        (dialog, _) => (dialog, None),
    }
}

/// A plan only ever runs from its confirmation, after the go-ahead, and
/// runs exactly the steps that were confirmed.
pub proof fn law_only_a_confirmed_plan_runs(dialog: Option<Dialog>, event: DialogEvent, steps: Vec<Step>)
    requires
        dialog_next(dialog, event).1 == Some(DialogAction::Apply(steps)),
    ensures
        dialog matches Some(Dialog::Confirm { plan, .. }) && plan == steps,
        event is Execute,
{
}

/// What the top bar shows and switches.
#[derive(Debug, Clone)]
pub struct BarState {
    pub tab: Tab,
    pub search: String,
    /// A scan is running, which greys out the rescan button.
    pub scanning: bool,
    /// The machine runs Windows 11, which has two menu styles.
    pub win11: bool,
    pub classic_menu: bool,
    pub handler_installed: bool,
}

/// A list a tab keeps of its own, read again when the tab opens.
#[derive(Debug, Clone, Copy, PartialEq, Eq, Structural)]
pub enum Listing {
    Backups,
    Favourites,
    Services,
}

/// A click or a keystroke in the top bar.
#[derive(Debug, Clone)]
pub enum BarEvent {
    PickTab(Tab),
    Rescan,
    NewEntry,
    BackupNow,
    RestartExplorer,
    /// A menu style button: the classic menu or the new one.
    MenuStyle(bool),
    /// The box that installs the Windows 11 menu handler.
    Handler(bool),
    /// The search box, as it now reads.
    Search(String),
}

/// The work a top bar event asks for.
#[derive(Debug, Clone, Copy, PartialEq, Eq, Structural)]
pub enum BarAction {
    /// Clear the selection, rebuild the rows, and read the tab's own list
    /// again when it keeps one.
    OpenTab(Option<Listing>),
    Scan,
    /// Open the entry editor where the user is looking.
    OpenEditor,
    Backup,
    RestartExplorer,
    SwitchMenu(bool),
    SwitchHandler(bool),
    /// Rebuild the rows for the new search.
    Rebuild,
}

/// Does the tab list entries, rather than a list of its own?
pub open spec fn on_entries(tab: Tab) -> bool {
    !(tab is Backups || tab is Favourites || tab is Services)
}

/// The list a tab keeps of its own.
pub open spec fn listing_of(tab: Tab) -> Option<Listing> {
    match tab {
        Tab::Backups => Some(Listing::Backups),
        Tab::Favourites => Some(Listing::Favourites),
        Tab::Services => Some(Listing::Services),
        _ => None,
    }
}

/// What a top bar event does. A new entry and a backup only on the tabs
/// that list entries; a rescan not while one runs; the menu switches only
/// on Windows 11 and only when they change something; the rows are rebuilt
/// when the search text changed.
pub open spec fn bar_next(state: BarState, event: BarEvent) -> (BarState, Option<BarAction>) {
    match event {
        BarEvent::PickTab(tab) => (BarState { tab, ..state }, Some(BarAction::OpenTab(listing_of(tab)))),
        BarEvent::Rescan => (state, if state.scanning { None } else { Some(BarAction::Scan) }),
        BarEvent::NewEntry => (state, if on_entries(state.tab) { Some(BarAction::OpenEditor) } else { None }),
        BarEvent::BackupNow => (state, if on_entries(state.tab) { Some(BarAction::Backup) } else { None }),
        BarEvent::RestartExplorer => (state, Some(BarAction::RestartExplorer)),
        BarEvent::MenuStyle(classic) => (
            state,
            if state.win11 && classic != state.classic_menu { Some(BarAction::SwitchMenu(classic)) } else { None },
        ),
        BarEvent::Handler(wanted) => (
            state,
            if state.win11 && wanted != state.handler_installed { Some(BarAction::SwitchHandler(wanted)) } else { None },
        ),
        BarEvent::Search(text) => {
            let changed = text@ != state.search@;
            (BarState { search: text, ..state }, if changed { Some(BarAction::Rebuild) } else { None })
        },
    }
}

/// One event of the top bar.
pub fn bar_step(state: BarState, event: BarEvent) -> (result: (BarState, Option<BarAction>))
    ensures
        result == bar_next(state, event),
{
    let entry_tab = match state.tab {
        Tab::Backups | Tab::Favourites | Tab::Services => false,
        _ => true,
    };
    match event {
        BarEvent::PickTab(tab) => {
            let listing = match tab {
                Tab::Backups => Some(Listing::Backups),
                Tab::Favourites => Some(Listing::Favourites),
                Tab::Services => Some(Listing::Services),
                _ => None,
            };
            (BarState { tab, ..state }, Some(BarAction::OpenTab(listing)))
        },
        BarEvent::Rescan => {
            let action = if state.scanning { None } else { Some(BarAction::Scan) };
            (state, action)
        },
        BarEvent::NewEntry => (state, if entry_tab { Some(BarAction::OpenEditor) } else { None }),
        BarEvent::BackupNow => (state, if entry_tab { Some(BarAction::Backup) } else { None }),
        BarEvent::RestartExplorer => (state, Some(BarAction::RestartExplorer)),
        BarEvent::MenuStyle(classic) => {
            let action = if state.win11 && classic != state.classic_menu {
                Some(BarAction::SwitchMenu(classic))
            } else {
                None
            };
            (state, action)
        },
        BarEvent::Handler(wanted) => {
            let action = if state.win11 && wanted != state.handler_installed {
                Some(BarAction::SwitchHandler(wanted))
            } else {
                None
            };
            (state, action)
        },
        BarEvent::Search(text) => {
            let changed = !text_eq(text.as_str(), state.search.as_str());
            (BarState { search: text, ..state }, if changed { Some(BarAction::Rebuild) } else { None })
        },
    }
}

/// A click in the trees or on a table header.
#[derive(Debug, Clone)]
pub enum TableEvent {
    /// A column header.
    SortColumn(SortBy),
    /// A category in the tree, or the tree's root for every base category.
    PickCategory(Option<Category>),
    /// A file type in the tree.
    PickExt(String),
    /// Take an extension of one's own off the watch list.
    ForgetExt(String),
    /// A program in the list, by its place.
    PickGroup(usize),
    /// The box that adds what every file gets to a file type.
    ShowGeneric(bool),
}

/// The work a table event asks for.
#[derive(Debug, Clone, Copy, PartialEq, Eq, Structural)]
pub enum TableAction {
    /// Rebuild the rows in the new order or with the new setting.
    Rebuild,
    /// Clear the selection and rebuild: the list shows a different set.
    ClearAndRebuild,
    /// Store the setting and rebuild.
    SaveAndRebuild,
    /// Store the shorter watch list and scan again.
    SaveAndRescan,
}

/// The order after a click on a header: the active column turns around,
/// a second time it goes back to the order the rows were collected in, and
/// any other column starts ascending.
pub open spec fn next_sort(sort: SortBy, ascending: bool, column: SortBy) -> (SortBy, bool) {
    if sort == column && ascending {
        (column, false)
    } else if sort == column {
        (SortBy::Natural, true)
    } else {
        (column, true)
    }
}

/// What a click in the trees or on a header does to what the table looks
/// at.
pub open spec fn table_next(state: TableState, event: TableEvent) -> (TableState, Option<TableAction>) {
    match event {
        TableEvent::SortColumn(column) => {
            let (sort, ascending) = next_sort(state.sort, state.ascending, column);
            (TableState { sort, ascending, ..state }, Some(TableAction::Rebuild))
        },
        TableEvent::PickCategory(category) => (
            TableState { selected_category: category, ..state },
            Some(TableAction::ClearAndRebuild),
        ),
        TableEvent::PickExt(ext) => (TableState { selected_ext: Some(ext), ..state }, Some(TableAction::ClearAndRebuild)),
        TableEvent::ForgetExt(ext) => (
            match state.selected_ext {
                Some(current) => if current@ == ext@ {
                    TableState { selected_ext: None, ..state }
                } else {
                    TableState { selected_ext: Some(current), ..state }
                },
                None => state,
            },
            Some(TableAction::SaveAndRescan),
        ),
        TableEvent::PickGroup(index) => (
            TableState { selected_group: Some(index), ..state },
            Some(TableAction::ClearAndRebuild),
        ),
        TableEvent::ShowGeneric(shown) => (
            TableState { include_generic: shown, ..state },
            Some(TableAction::SaveAndRebuild),
        ),
    }
}

/// One click in the trees or on a header.
pub fn table_step(state: TableState, event: TableEvent) -> (result: (TableState, Option<TableAction>))
    ensures
        result == table_next(state, event),
{
    match event {
        TableEvent::SortColumn(column) => {
            let (sort, ascending) = if state.sort == column && state.ascending {
                (column, false)
            } else if state.sort == column {
                (SortBy::Natural, true)
            } else {
                (column, true)
            };
            (TableState { sort, ascending, ..state }, Some(TableAction::Rebuild))
        },
        TableEvent::PickCategory(category) => (
            TableState { selected_category: category, ..state },
            Some(TableAction::ClearAndRebuild),
        ),
        TableEvent::PickExt(ext) => (TableState { selected_ext: Some(ext), ..state }, Some(TableAction::ClearAndRebuild)),
        TableEvent::ForgetExt(ext) => {
            let TableState { tab, search, selected_category, selected_ext, selected_group, include_generic, sort, ascending } = state;
            let kept = match selected_ext {
                Some(current) => if text_eq(current.as_str(), ext.as_str()) {
                    None
                } else {
                    Some(current)
                },
                None => None,
            };
            (
                TableState { tab, search, selected_category, selected_ext: kept, selected_group, include_generic, sort, ascending },
                Some(TableAction::SaveAndRescan),
            )
        },
        TableEvent::PickGroup(index) => (
            TableState { selected_group: Some(index), ..state },
            Some(TableAction::ClearAndRebuild),
        ),
        TableEvent::ShowGeneric(shown) => (
            TableState { include_generic: shown, ..state },
            Some(TableAction::SaveAndRebuild),
        ),
    }
}

/// Three clicks on one header go ascending, descending, and back to the
/// order the rows were collected in.
pub proof fn law_three_clicks_come_back_to_the_collected_order(column: SortBy)
    requires
        column != SortBy::Natural,
    ensures
        next_sort(SortBy::Natural, true, column) == (column, true),
        next_sort(column, true, column) == (column, false),
        next_sort(column, false, column) == (SortBy::Natural, true),
{
}

} // verus!
