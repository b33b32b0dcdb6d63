use ctxmenu::favourites::{Header, ResultAction, ResultSource, Upload, UploadBody};
use ctxmenu::forms::{
    ServiceAction, ServiceEvent, UploadEvent, cleaned_service, needs_id, service_step, upload_edit,
};
use ctxmenu::model::{Action, Category, ContextEntry, EntryKind, Report, Scope};
use ctxmenu::plan::plan_for_selection;
use ctxmenu::screen::{
    BarAction, BarEvent, BarState, Dialog, DialogAction, DialogEvent, Listing, TableAction,
    TableEvent, bar_step, dialog_step, table_step,
};
use ctxmenu::services::blank_service;
use ctxmenu::steps::{
    ApplyAction, ApplyEvent, ApplyState, CreateAction, CreateEvent, CreateState, DeleteAction,
    DeleteEvent, DeleteState, apply_step, create_step, delete_step,
};
use ctxmenu::table::TableState;
use ctxmenu::window::{Movement, Row, SortBy, Tab, next_cursor};

#[test]
fn a_stale_cursor_past_the_end_comes_back_onto_the_list() {
    assert_eq!(next_cursor(Some(10), 3, Movement::Up), Some(2));
    assert_eq!(next_cursor(Some(3), 3, Movement::Up), Some(2));
    assert_eq!(next_cursor(Some(10), 3, Movement::Down), Some(2));
}

#[test]
fn a_confirmed_delete_backs_up_deletes_forgets_and_reports() {
    let (s, a) = delete_step(DeleteState::Checking, true, DeleteEvent::Exists(true));
    assert_eq!((s, a), (DeleteState::BackingUp, DeleteAction::ExportBackup));
    let (s, a) = delete_step(s, true, DeleteEvent::BackedUp(true));
    assert_eq!((s, a), (DeleteState::Deleting, DeleteAction::DeleteTree));
    let (s, a) = delete_step(s, true, DeleteEvent::Deleted(true));
    assert_eq!((s, a), (DeleteState::Forgetting, DeleteAction::Forget));
    let (s, a) = delete_step(s, true, DeleteEvent::Forgotten(false));
    assert_eq!((s, a), (DeleteState::Finished(true), DeleteAction::Report), "a failed tidy-up is no failed delete");
}

#[test]
fn a_delete_stops_at_a_missing_key_a_missing_yes_or_a_failed_backup() {
    assert_eq!(
        delete_step(DeleteState::Checking, true, DeleteEvent::Exists(false)),
        (DeleteState::Finished(false), DeleteAction::FailMissing)
    );
    assert_eq!(
        delete_step(DeleteState::Checking, false, DeleteEvent::Exists(true)),
        (DeleteState::Finished(true), DeleteAction::Preview)
    );
    assert_eq!(
        delete_step(DeleteState::BackingUp, true, DeleteEvent::BackedUp(false)),
        (DeleteState::Finished(false), DeleteAction::Fail)
    );
    assert_eq!(
        delete_step(DeleteState::BackingUp, true, DeleteEvent::Deleted(true)),
        (DeleteState::BackingUp, DeleteAction::Wait)
    );
}

#[test]
fn an_action_runs_the_elevated_half_only_when_the_plan_has_one() {
    let checked = ApplyEvent::Checked { exists: true, needs_elevation: true };
    assert_eq!(apply_step(ApplyState::Checking, false, checked), (ApplyState::Finished(true), ApplyAction::Preview(true)));
    let (s, a) = apply_step(ApplyState::Checking, true, checked);
    assert_eq!((s, a), (ApplyState::Direct(true), ApplyAction::ExecuteDirect));
    let (s, a) = apply_step(s, true, ApplyEvent::Executed(true));
    assert_eq!((s, a), (ApplyState::Elevated, ApplyAction::RunElevated));
    assert_eq!(apply_step(s, true, ApplyEvent::ElevatedDone(true)), (ApplyState::Finished(true), ApplyAction::Report));
    assert_eq!(
        apply_step(ApplyState::Direct(false), true, ApplyEvent::Executed(true)),
        (ApplyState::Finished(true), ApplyAction::Report)
    );
    assert_eq!(
        apply_step(ApplyState::Checking, true, ApplyEvent::Checked { exists: false, needs_elevation: false }),
        (ApplyState::Finished(false), ApplyAction::FailMissing)
    );
}

#[test]
fn a_creation_goes_ahead_whatever_the_check_found() {
    let (s, a) = create_step(CreateState::Checking, CreateEvent::Checked { any_error: true });
    assert_eq!((s, a), (CreateState::Creating, CreateAction::Create));
    let (s, a) = create_step(s, CreateEvent::Created(true));
    assert_eq!((s, a), (CreateState::Locating, CreateAction::Locate));
    assert_eq!(create_step(s, CreateEvent::Located(false)), (CreateState::Finished(false), CreateAction::Fail));
}

fn entry(name: &str, kind: EntryKind) -> ContextEntry {
    ContextEntry {
        scope: Scope::User,
        category: Category::Directory,
        key_name: name.into(),
        display_name: name.into(),
        registry_path: format!("HKCU\\Software\\Classes\\Directory\\shell\\{name}"),
        kind,
        read_only: false,
        hidden: false,
        extended: false,
        position: None,
    }
}

#[test]
fn a_plan_skips_children_of_selected_parents_and_rows_it_cannot_address() {
    let child = entry("Kind", EntryKind::Verb { command: None, sub_commands: Vec::new() });
    let entries = vec![
        entry("Eltern", EntryKind::Verb { command: None, sub_commands: vec![child] }),
        entry("Handler", EntryKind::ShellEx { clsid: "{A}".into(), server_path: None, blocked: false }),
        entry("Verb", EntryKind::Verb { command: Some("x".into()), sub_commands: Vec::new() }),
    ];
    let selected = vec![
        Row { entry: 0, path: vec![0] },
        Row::top(0),
        Row::top(1),
        Row::top(2),
        Row::top(9),
    ];
    let plan = plan_for_selection(&selected, &entries, &Action::Hide, &[true, true, true, false, true]);
    let rows: Vec<usize> = plan.iter().map(|s| s.row).collect();
    assert_eq!(rows, vec![1, 2], "the child goes with its parent; the unaddressable and the vanished drop out");
    assert_eq!(plan[1].clsid.as_deref(), Some("{A}"));
    assert_eq!(plan[0].display_name, "Eltern");

    let blocking = plan_for_selection(&selected, &entries, &Action::Block, &[true; 5]);
    let rows: Vec<usize> = blocking.iter().map(|s| s.row).collect();
    assert_eq!(rows, vec![2], "only a row with a CLSID can be blocked");
}

#[test]
fn a_confirmed_plan_runs_and_its_outcome_is_shown() {
    let confirm = Some(Dialog::Confirm { plan: Vec::new(), needs_elevation: false, breadth: None });
    let (dialog, action) = dialog_step(confirm, DialogEvent::Execute);
    assert!(matches!(dialog, Some(Dialog::Running)));
    assert!(matches!(action, Some(DialogAction::Apply(_))));
    let report = Report { backup_directories: vec!["C:\\b".into()], results: Vec::new() };
    let (dialog, action) = dialog_step(dialog, DialogEvent::Finished(Ok(report)));
    assert!(matches!(dialog, Some(Dialog::Done(_))) && action.is_none());
    let (dialog, action) = dialog_step(dialog, DialogEvent::Undo);
    assert!(matches!(action, Some(DialogAction::Restore)));
    let (dialog, action) = dialog_step(dialog, DialogEvent::Restored(Err("a.reg".into())));
    assert!(matches!(dialog, Some(Dialog::Error(ref m)) if m == "a.reg") && action.is_none());
    let (dialog, _) = dialog_step(dialog, DialogEvent::Close);
    assert!(dialog.is_none());

    let confirm = Some(Dialog::Confirm { plan: Vec::new(), needs_elevation: true, breadth: Some(3) });
    let (dialog, action) = dialog_step(confirm, DialogEvent::Cancel);
    assert!(dialog.is_none() && action.is_none());
    let (dialog, action) = dialog_step(Some(Dialog::Running), DialogEvent::Finished(Err("kaputt".into())));
    assert!(matches!(dialog, Some(Dialog::Error(ref m)) if m == "kaputt") && action.is_none());
}

fn bar() -> BarState {
    BarState {
        tab: Tab::Categories,
        search: String::new(),
        scanning: false,
        win11: true,
        classic_menu: false,
        handler_installed: false,
    }
}

#[test]
fn the_top_bar_only_offers_what_changes_something() {
    let (state, action) = bar_step(bar(), BarEvent::PickTab(Tab::Favourites));
    assert_eq!(action, Some(BarAction::OpenTab(Some(Listing::Favourites))));
    assert_eq!(bar_step(state.clone(), BarEvent::NewEntry).1, None, "no new entry on a list of its own");
    assert_eq!(bar_step(bar(), BarEvent::BackupNow).1, Some(BarAction::Backup));
    assert_eq!(bar_step(bar(), BarEvent::MenuStyle(false)).1, None);
    assert_eq!(bar_step(bar(), BarEvent::MenuStyle(true)).1, Some(BarAction::SwitchMenu(true)));
    let mut old = bar();
    old.win11 = false;
    assert_eq!(bar_step(old, BarEvent::Handler(true)).1, None);
    let mut busy = bar();
    busy.scanning = true;
    assert_eq!(bar_step(busy, BarEvent::Rescan).1, None);
    let (state, action) = bar_step(bar(), BarEvent::Search("zip".into()));
    assert_eq!((state.search.as_str(), action), ("zip", Some(BarAction::Rebuild)));
    assert_eq!(bar_step(state, BarEvent::Search("zip".into())).1, None);
}

fn table() -> TableState {
    TableState {
        tab: Tab::FileTypes,
        search: String::new(),
        selected_category: None,
        selected_ext: Some(".png".into()),
        selected_group: None,
        include_generic: false,
        sort: SortBy::Natural,
        ascending: true,
    }
}

#[test]
fn a_header_cycles_and_a_forgotten_type_leaves_the_tree() {
    let (s, a) = table_step(table(), TableEvent::SortColumn(SortBy::Name));
    assert_eq!((s.sort, s.ascending, a), (SortBy::Name, true, Some(TableAction::Rebuild)));
    let (s, _) = table_step(s, TableEvent::SortColumn(SortBy::Name));
    assert_eq!((s.sort, s.ascending), (SortBy::Name, false));
    let (s, _) = table_step(s, TableEvent::SortColumn(SortBy::Name));
    assert_eq!((s.sort, s.ascending), (SortBy::Natural, true));

    let (s, a) = table_step(table(), TableEvent::ForgetExt(".jpg".into()));
    assert_eq!((s.selected_ext.as_deref(), a), (Some(".png"), Some(TableAction::SaveAndRescan)));
    let (s, _) = table_step(s, TableEvent::ForgetExt(".png".into()));
    assert!(s.selected_ext.is_none());
    let (s, a) = table_step(s, TableEvent::PickGroup(4));
    assert_eq!((s.selected_group, a), (Some(4), Some(TableAction::ClearAndRebuild)));
}

#[test]
fn a_service_keeps_a_key_only_with_a_value_and_saves_only_when_named() {
    let draft = blank_service();
    let (draft, action) = service_step(draft, ServiceEvent::Save);
    assert!(action.is_none(), "no name, no address");
    let (draft, _) = service_step(draft, ServiceEvent::Name("  Tools ".into()));
    let (draft, _) = service_step(draft, ServiceEvent::Address("http://h/spec.json".into()));
    let (draft, _) = service_step(draft, ServiceEvent::Key { name: "Authorization".into(), value: "   ".into() });
    assert!(draft.auth_header.is_none());
    let (draft, _) = service_step(draft, ServiceEvent::Key { name: "X-Key".into(), value: "k".into() });
    assert_eq!(draft.auth_header.as_ref().map(|h| h.value.as_str()), Some("k"));
    let (draft, action) = service_step(draft, ServiceEvent::Save);
    assert_eq!(action, Some(ServiceAction::Save));
    let saved = cleaned_service(draft);
    assert_eq!(saved.name, "Tools");
    assert!(needs_id(&saved));
    assert_eq!(service_step(saved, ServiceEvent::Cancel).1, Some(ServiceAction::Close));
}

#[test]
fn the_upload_form_switches_body_method_and_result() {
    let mut upload = Upload {
        endpoint: "https://h/x".into(),
        method: "POST".into(),
        body: UploadBody::Raw,
        headers: Vec::new(),
        fields: Vec::new(),
        result: ResultAction::Open { source: ResultSource::Json { path: "url".into() } },
    };
    upload_edit(&mut upload, UploadEvent::Field("ignored".into()));
    assert!(matches!(upload.body, UploadBody::Raw));
    upload_edit(&mut upload, UploadEvent::Multipart);
    assert!(matches!(&upload.body, UploadBody::Multipart { field } if field == "file"));
    upload_edit(&mut upload, UploadEvent::Method("PUT".into()));
    assert_eq!(upload.method, "PUT");
    upload_edit(&mut upload, UploadEvent::Result(0));
    assert!(matches!(&upload.result, ResultAction::Save { source: ResultSource::Json { path }, suffix } if path == "url" && suffix == ".neu"));
    upload_edit(&mut upload, UploadEvent::AddField);
    upload_edit(&mut upload, UploadEvent::AddHeader);
    upload.headers[0] = Header { name: "A".into(), value: "1".into() };
    upload_edit(&mut upload, UploadEvent::RemoveField(5));
    assert_eq!(upload.fields.len(), 1);
    upload_edit(&mut upload, UploadEvent::RemoveField(0));
    assert!(upload.fields.is_empty());
    upload_edit(&mut upload, UploadEvent::Raw);
    assert!(matches!(upload.body, UploadBody::Raw));
}
