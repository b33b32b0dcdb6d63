//! What the console commands that change the registry decide, step by step.
//!
//! Each command is a small machine: it is told what the last piece of work
//! came to and answers with the next piece of work. Whoever runs it does
//! the work itself (reading and writing the registry, exporting a backup,
//! telling the shell) and prints with the line builders of `commands`.

use vstd::prelude::*;

verus! {

/// How far `ctxmenu delete` has got.
#[derive(Debug, Clone, Copy, PartialEq, Eq, Structural)]
pub enum DeleteState {
    /// Whether the key is there is not known yet.
    Checking,
    BackingUp,
    Deleting,
    /// Taking the key out of the record of created entries.
    Forgetting,
    /// Done, successfully or not.
    Finished(bool),
}

/// What the work of the last step came to.
#[derive(Debug, Clone, Copy, PartialEq, Eq, Structural)]
pub enum DeleteEvent {
    /// Whether the key exists.
    Exists(bool),
    /// Whether the backup was written.
    BackedUp(bool),
    /// Whether the key was deleted.
    Deleted(bool),
    /// Whether the record was tidied.
    Forgotten(bool),
}

/// The next piece of work.
#[derive(Debug, Clone, Copy, PartialEq, Eq, Structural)]
pub enum DeleteAction {
    /// Refuse: the key does not exist.
    FailMissing,
    /// Print what would happen and stop.
    Preview,
    ExportBackup,
    DeleteTree,
    Forget,
    /// Print where the backup went and what is gone, and stop.
    Report,
    /// Stop with the error the last step gave.
    Fail,
    /// Nothing: the event does not belong to this step.
    Wait,
}

/// The machine of `ctxmenu delete`: nothing happens to a key that is not
/// there; without `--yes` only a preview; with it a backup first, then the
/// deletion, then the record, whose failure does not undo a success.
pub open spec fn delete_next(state: DeleteState, confirmed: bool, event: DeleteEvent) -> (
    DeleteState,
    DeleteAction,
) {
    match (state, event) {
        (DeleteState::Checking, DeleteEvent::Exists(false)) => (DeleteState::Finished(false), DeleteAction::FailMissing),
        (DeleteState::Checking, DeleteEvent::Exists(true)) => if confirmed {
            (DeleteState::BackingUp, DeleteAction::ExportBackup)
        } else {
            (DeleteState::Finished(true), DeleteAction::Preview)
        },
        (DeleteState::BackingUp, DeleteEvent::BackedUp(ok)) => if ok {
            (DeleteState::Deleting, DeleteAction::DeleteTree)
        } else {
            (DeleteState::Finished(false), DeleteAction::Fail)
        },
        (DeleteState::Deleting, DeleteEvent::Deleted(ok)) => if ok {
            (DeleteState::Forgetting, DeleteAction::Forget)
        } else {
            (DeleteState::Finished(false), DeleteAction::Fail)
        },
        (DeleteState::Forgetting, DeleteEvent::Forgotten(_)) => (DeleteState::Finished(true), DeleteAction::Report),
        _ => (state, DeleteAction::Wait),
    }
}

/// One step of `ctxmenu delete`.
pub fn delete_step(state: DeleteState, confirmed: bool, event: DeleteEvent) -> (result: (DeleteState, DeleteAction))
    ensures
        result == delete_next(state, confirmed, event),
{
    match (state, event) {
        (DeleteState::Checking, DeleteEvent::Exists(false)) => (DeleteState::Finished(false), DeleteAction::FailMissing),
        (DeleteState::Checking, DeleteEvent::Exists(true)) => if confirmed {
            (DeleteState::BackingUp, DeleteAction::ExportBackup)
        } else {
            (DeleteState::Finished(true), DeleteAction::Preview)
        },
        (DeleteState::BackingUp, DeleteEvent::BackedUp(ok)) => if ok {
            (DeleteState::Deleting, DeleteAction::DeleteTree)
        } else {
            (DeleteState::Finished(false), DeleteAction::Fail)
        },
        (DeleteState::Deleting, DeleteEvent::Deleted(ok)) => if ok {
            (DeleteState::Forgetting, DeleteAction::Forget)
        } else {
            (DeleteState::Finished(false), DeleteAction::Fail)
        },
        (DeleteState::Forgetting, DeleteEvent::Forgotten(_)) => (DeleteState::Finished(true), DeleteAction::Report),
        _ => (state, DeleteAction::Wait),
    }
}

/// A key that is not there is an error, and nothing is done to it, with or
/// without `--yes`.
pub proof fn law_a_missing_key_is_not_deleted(confirmed: bool)
    ensures
        delete_next(DeleteState::Checking, confirmed, DeleteEvent::Exists(false)) == (
            DeleteState::Finished(false),
            DeleteAction::FailMissing,
        ),
{
}

/// Without `--yes` a delete only previews: the run ends, and no backup,
/// deletion or record is touched.
pub proof fn law_an_unconfirmed_delete_only_previews()
    ensures
        delete_next(DeleteState::Checking, false, DeleteEvent::Exists(true)) == (
            DeleteState::Finished(true),
            DeleteAction::Preview,
        ),
{
}

/// A key is only ever deleted right after its backup was written.
pub proof fn law_the_backup_comes_before_the_deletion(state: DeleteState, confirmed: bool, event: DeleteEvent)
    requires
        delete_next(state, confirmed, event).1 == DeleteAction::DeleteTree,
    ensures
        state == DeleteState::BackingUp,
        event == DeleteEvent::BackedUp(true),
{
}

/// Failing to tidy the record after a deletion does not make the deletion
/// a failure.
pub proof fn law_forgetting_never_fails_a_delete(confirmed: bool, tidied: bool)
    ensures
        delete_next(DeleteState::Forgetting, confirmed, DeleteEvent::Forgotten(tidied)) == (
            DeleteState::Finished(true),
            DeleteAction::Report,
        ),
{
}

/// How far an action on one key has got.
#[derive(Debug, Clone, Copy, PartialEq, Eq, Structural)]
pub enum ApplyState {
    Checking,
    /// The part that needs no elevation is running; whether an elevated
    /// part follows.
    Direct(bool),
    Elevated,
    Finished(bool),
}

/// What the work of the last step came to.
#[derive(Debug, Clone, Copy, PartialEq, Eq, Structural)]
pub enum ApplyEvent {
    /// Whether the key exists, and whether changing it needs elevation.
    Checked { exists: bool, needs_elevation: bool },
    /// Whether the direct part ran.
    Executed(bool),
    /// Whether the elevated part ran.
    ElevatedDone(bool),
}

/// The next piece of work.
#[derive(Debug, Clone, Copy, PartialEq, Eq, Structural)]
pub enum ApplyAction {
    FailMissing,
    /// Print what would happen, and whether Windows will ask, and stop.
    Preview(bool),
    ExecuteDirect,
    /// Say that the elevated run starts, and start it.
    RunElevated,
    /// Tell the shell, print the report, and stop.
    Report,
    Fail,
    Wait,
}

/// The machine of `ctxmenu hide|show|…`: a key that is not there is an
/// error; without `--yes` only a preview; with it the direct part, then the
/// elevated part when the plan needs one, then the report.
pub open spec fn apply_next(state: ApplyState, confirmed: bool, event: ApplyEvent) -> (ApplyState, ApplyAction) {
    match (state, event) {
        (ApplyState::Checking, ApplyEvent::Checked { exists, needs_elevation }) => if !exists {
            (ApplyState::Finished(false), ApplyAction::FailMissing)
        } else if !confirmed {
            (ApplyState::Finished(true), ApplyAction::Preview(needs_elevation))
        } else {
            (ApplyState::Direct(needs_elevation), ApplyAction::ExecuteDirect)
        },
        (ApplyState::Direct(elevate), ApplyEvent::Executed(ok)) => if !ok {
            (ApplyState::Finished(false), ApplyAction::Fail)
        } else if elevate {
            (ApplyState::Elevated, ApplyAction::RunElevated)
        } else {
            (ApplyState::Finished(true), ApplyAction::Report)
        },
        (ApplyState::Elevated, ApplyEvent::ElevatedDone(ok)) => if ok {
            (ApplyState::Finished(true), ApplyAction::Report)
        } else {
            (ApplyState::Finished(false), ApplyAction::Fail)
        },
        _ => (state, ApplyAction::Wait),
    }
}

/// One step of an action on one key.
pub fn apply_step(state: ApplyState, confirmed: bool, event: ApplyEvent) -> (result: (ApplyState, ApplyAction))
    ensures
        result == apply_next(state, confirmed, event),
{
    match (state, event) {
        (ApplyState::Checking, ApplyEvent::Checked { exists, needs_elevation }) => if !exists {
            (ApplyState::Finished(false), ApplyAction::FailMissing)
        } else if !confirmed {
            (ApplyState::Finished(true), ApplyAction::Preview(needs_elevation))
        } else {
            (ApplyState::Direct(needs_elevation), ApplyAction::ExecuteDirect)
        },
        (ApplyState::Direct(elevate), ApplyEvent::Executed(ok)) => if !ok {
            (ApplyState::Finished(false), ApplyAction::Fail)
        } else if elevate {
            (ApplyState::Elevated, ApplyAction::RunElevated)
        } else {
            (ApplyState::Finished(true), ApplyAction::Report)
        },
        (ApplyState::Elevated, ApplyEvent::ElevatedDone(ok)) => if ok {
            (ApplyState::Finished(true), ApplyAction::Report)
        } else {
            (ApplyState::Finished(false), ApplyAction::Fail)
        },
        _ => (state, ApplyAction::Wait),
    }
}

/// An action on a key that is not there is an error and changes nothing;
/// an unconfirmed one only previews.
pub proof fn law_an_action_needs_the_key_and_the_yes(confirmed: bool, needs_elevation: bool)
    ensures
        apply_next(ApplyState::Checking, confirmed, ApplyEvent::Checked { exists: false, needs_elevation }) == (
            ApplyState::Finished(false),
            ApplyAction::FailMissing,
        ),
        apply_next(ApplyState::Checking, false, ApplyEvent::Checked { exists: true, needs_elevation }) == (
            ApplyState::Finished(true),
            ApplyAction::Preview(needs_elevation),
        ),
{
}

/// How far `ctxmenu create` has got.
#[derive(Debug, Clone, Copy, PartialEq, Eq, Structural)]
pub enum CreateState {
    Checking,
    Creating,
    /// Finding where the record of created entries lives.
    Locating,
    Finished(bool),
}

/// What the work of the last step came to.
#[derive(Debug, Clone, Copy, PartialEq, Eq, Structural)]
pub enum CreateEvent {
    /// The entry was checked; whether any of its problems is an error.
    Checked { any_error: bool },
    /// Whether the key was written.
    Created(bool),
    /// Whether the record's place was found.
    Located(bool),
}

/// The next piece of work.
#[derive(Debug, Clone, Copy, PartialEq, Eq, Structural)]
pub enum CreateAction {
    /// Print every problem the check found, and write the entry anyway.
    Create,
    /// Tell the shell, print a note beside the key if there is one, and
    /// find the record's place.
    Locate,
    Report,
    Fail,
    Wait,
}

/// The machine of `ctxmenu create`: the check's problems are printed, never
/// obeyed; the command fails only when writing the key or finding the
/// record's place fails.
pub open spec fn create_next(state: CreateState, event: CreateEvent) -> (CreateState, CreateAction) {
    match (state, event) {
        (CreateState::Checking, CreateEvent::Checked { .. }) => (CreateState::Creating, CreateAction::Create),
        (CreateState::Creating, CreateEvent::Created(ok)) => if ok {
            (CreateState::Locating, CreateAction::Locate)
        } else {
            (CreateState::Finished(false), CreateAction::Fail)
        },
        (CreateState::Locating, CreateEvent::Located(ok)) => if ok {
            (CreateState::Finished(true), CreateAction::Report)
        } else {
            (CreateState::Finished(false), CreateAction::Fail)
        },
        _ => (state, CreateAction::Wait),
    }
}

/// One step of `ctxmenu create`.
pub fn create_step(state: CreateState, event: CreateEvent) -> (result: (CreateState, CreateAction))
    ensures
        result == create_next(state, event),
{
    match (state, event) {
        (CreateState::Checking, CreateEvent::Checked { .. }) => (CreateState::Creating, CreateAction::Create),
        (CreateState::Creating, CreateEvent::Created(ok)) => if ok {
            (CreateState::Locating, CreateAction::Locate)
        } else {
            (CreateState::Finished(false), CreateAction::Fail)
        },
        (CreateState::Locating, CreateEvent::Located(ok)) => if ok {
            (CreateState::Finished(true), CreateAction::Report)
        } else {
            (CreateState::Finished(false), CreateAction::Fail)
        },
        _ => (state, CreateAction::Wait),
    }
}

/// Problems the check finds, errors among them, never stop the entry from
/// being written.
pub proof fn law_problems_never_stop_a_creation(any_error: bool)
    ensures
        create_next(CreateState::Checking, CreateEvent::Checked { any_error }) == (
            CreateState::Creating,
            CreateAction::Create,
        ),
{
}

/// `ctxmenu create` ends in failure only when writing the key or finding
/// the record's place failed.
pub proof fn law_a_creation_fails_only_on_its_writes(state: CreateState, event: CreateEvent)
    requires
        create_next(state, event).0 == CreateState::Finished(false),
        state != CreateState::Finished(false),
    ensures
        event == CreateEvent::Created(false) || event == CreateEvent::Located(false),
{
}

} // verus!
