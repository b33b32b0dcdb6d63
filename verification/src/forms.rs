//! What a click or a keystroke does to the forms for services and uploads.
//!
//! The window draws the fields; what an event changes in the draft, and
//! whether the form is done, is decided here.

use vstd::prelude::*;

use crate::chars::{string_of, trim, trimmed};
use crate::favourites::{
    Header, HeaderView, ResultAction, ResultActionView, ResultSourceView, Upload,
    UploadBody, UploadBodyView, UploadView, current_source, result_index,
};
use crate::services::Service;

verus! {

/// Something done in the service form.
#[derive(Debug, Clone)]
pub enum ServiceEvent {
    Name(String),
    Address(String),
    /// The key's header, as typed: its name and its value.
    Key { name: String, value: String },
    ResultPath(String),
    Insecure(bool),
    Save,
    Cancel,
}

/// What the window does once the form is done.
#[derive(Debug, Clone, Copy, PartialEq, Eq, Structural)]
pub enum ServiceAction {
    /// Store the draft, cleaned up.
    Save,
    Close,
}

/// Can the form be saved: a name and an address, neither blank.
pub open spec fn service_ready(draft: Service) -> bool {
    trimmed(draft.name@).len() > 0 && trimmed(draft.spec_url@).len() > 0
}

/// What an event does to a service draft. A key with a blank value is no
/// key at all, the normal case for a public service; saving only happens
/// with a name and an address.
pub open spec fn service_next(draft: Service, event: ServiceEvent) -> (Service, Option<ServiceAction>) {
    match event {
        ServiceEvent::Name(text) => (Service { name: text, ..draft }, None),
        ServiceEvent::Address(text) => (Service { spec_url: text, ..draft }, None),
        ServiceEvent::Key { name, value } => (
            Service {
                auth_header: if trimmed(value@).len() == 0 {
                    None
                } else {
                    Some(Header { name, value })
                },
                ..draft
            },
            None,
        ),
        ServiceEvent::ResultPath(text) => (Service { result_path: text, ..draft }, None),
        ServiceEvent::Insecure(allowed) => (Service { allow_insecure: allowed, ..draft }, None),
        ServiceEvent::Save => if service_ready(draft) {
            (draft, Some(ServiceAction::Save))
        } else {
            (draft, None)
        },
        ServiceEvent::Cancel => (draft, Some(ServiceAction::Close)),
    }
}

/// Is the text blank once trimmed?
fn blank(text: &str) -> (result: bool)
    ensures
        result == (trimmed(text@).len() == 0),
{
    trim(text).len() == 0
}

/// One event of the service form.
pub fn service_step(draft: Service, event: ServiceEvent) -> (result: (Service, Option<ServiceAction>))
    ensures
        result == service_next(draft, event),
{
    match event {
        ServiceEvent::Name(text) => (Service { name: text, ..draft }, None),
        ServiceEvent::Address(text) => (Service { spec_url: text, ..draft }, None),
        ServiceEvent::Key { name, value } => {
            let header = if blank(value.as_str()) {
                None
            } else {
                Some(Header { name, value })
            };
            (Service { auth_header: header, ..draft }, None)
        },
        ServiceEvent::ResultPath(text) => (Service { result_path: text, ..draft }, None),
        ServiceEvent::Insecure(allowed) => (Service { allow_insecure: allowed, ..draft }, None),
        ServiceEvent::Save => {
            let ready = !blank(draft.name.as_str()) && !blank(draft.spec_url.as_str());
            if ready {
                (draft, Some(ServiceAction::Save))
            } else {
                (draft, None)
            }
        },
        ServiceEvent::Cancel => (draft, Some(ServiceAction::Close)),
    }
}

/// A saved service: name and address without the space around them, the
/// rest as typed.
pub fn cleaned_service(draft: Service) -> (result: Service)
    ensures
        result.name@ == trimmed(draft.name@),
        result.spec_url@ == trimmed(draft.spec_url@),
        result.id == draft.id,
        result.auth_header == draft.auth_header,
        result.allow_insecure == draft.allow_insecure,
        result.result_path == draft.result_path,
        result.icon == draft.icon,
{
    let name = string_of(trim(draft.name.as_str()).as_slice());
    let spec_url = string_of(trim(draft.spec_url.as_str()).as_slice());
    Service { name, spec_url, ..draft }
}

/// Does a saved service still need an id made from its name?
pub fn needs_id(service: &Service) -> (result: bool)
    ensures
        result == (trimmed(service.id@).len() == 0),
{
    blank(service.id.as_str())
}

/// Something done in the upload form.
#[derive(Debug, Clone)]
pub enum UploadEvent {
    Endpoint(String),
    /// The verb clicked.
    Method(String),
    /// Send the file as a form field.
    Multipart,
    /// Send the file as the body itself.
    Raw,
    /// The name of the form field, as typed.
    Field(String),
    /// The result switch: save, open, report.
    Result(usize),
    AddField,
    RemoveField(usize),
    AddHeader,
    RemoveHeader(usize),
}

/// An upload event as the values it holds.
pub enum UploadEventView {
    Endpoint(Seq<char>),
    Method(Seq<char>),
    Multipart,
    Raw,
    Field(Seq<char>),
    Result(usize),
    AddField,
    RemoveField(usize),
    AddHeader,
    RemoveHeader(usize),
}

impl View for UploadEvent {
    type V = UploadEventView;

    open spec fn view(&self) -> UploadEventView {
        match self {
            UploadEvent::Endpoint(t) => UploadEventView::Endpoint(t@),
            UploadEvent::Method(t) => UploadEventView::Method(t@),
            UploadEvent::Multipart => UploadEventView::Multipart,
            UploadEvent::Raw => UploadEventView::Raw,
            UploadEvent::Field(t) => UploadEventView::Field(t@),
            UploadEvent::Result(i) => UploadEventView::Result(*i),
            UploadEvent::AddField => UploadEventView::AddField,
            UploadEvent::RemoveField(i) => UploadEventView::RemoveField(*i),
            UploadEvent::AddHeader => UploadEventView::AddHeader,
            UploadEvent::RemoveHeader(i) => UploadEventView::RemoveHeader(*i),
        }
    }
}

/// The place of a result action in the switch.
pub open spec fn result_place(result: ResultActionView) -> usize {
    match result {
        ResultActionView::Save { .. } => 0,
        ResultActionView::Open { .. } => 1,
        ResultActionView::Report => 2,
    }
}

/// Where a result action reads from; the body when it reads nothing.
pub open spec fn result_source(result: ResultActionView) -> ResultSourceView {
    match result {
        ResultActionView::Save { source, .. } => source,
        ResultActionView::Open { source } => source,
        ResultActionView::Report => ResultSourceView::Body,
    }
}

/// `list` without the item at `i`, or unchanged when there is none.
pub open spec fn without(list: Seq<HeaderView>, i: usize) -> Seq<HeaderView> {
    if i < list.len() {
        list.remove(i as int)
    } else {
        list
    }
}

/// What an event does to an upload. Choosing the form field body starts
/// over with the field `file`; switching the result keeps where it reads
/// from, and a new save starts with the suffix `.neu`; a name typed for the
/// field only counts while the file goes in a field.
pub open spec fn upload_next(upload: UploadView, event: UploadEventView) -> UploadView {
    match event {
        UploadEventView::Endpoint(t) => UploadView { endpoint: t, ..upload },
        UploadEventView::Method(t) => UploadView { method: t, ..upload },
        UploadEventView::Multipart => UploadView { body: UploadBodyView::Multipart { field: "file"@ }, ..upload },
        UploadEventView::Raw => UploadView { body: UploadBodyView::Raw, ..upload },
        UploadEventView::Field(t) => match upload.body {
            UploadBodyView::Multipart { .. } => UploadView { body: UploadBodyView::Multipart { field: t }, ..upload },
            UploadBodyView::Raw => upload,
        },
        UploadEventView::Result(i) => if i == result_place(upload.result) {
            upload
        } else {
            let source = result_source(upload.result);
            UploadView {
                result: if i == 0 {
                    ResultActionView::Save { source, suffix: ".neu"@ }
                } else if i == 1 {
                    ResultActionView::Open { source }
                } else {
                    ResultActionView::Report
                },
                ..upload
            }
        },
        UploadEventView::AddField => UploadView {
            fields: upload.fields.push(HeaderView { name: Seq::empty(), value: Seq::empty() }),
            ..upload
        },
        UploadEventView::RemoveField(i) => UploadView { fields: without(upload.fields, i), ..upload },
        UploadEventView::AddHeader => UploadView {
            headers: upload.headers.push(HeaderView { name: Seq::empty(), value: Seq::empty() }),
            ..upload
        },
        UploadEventView::RemoveHeader(i) => UploadView { headers: without(upload.headers, i), ..upload },
    }
}

fn add_blank(list: &mut Vec<Header>)
    ensures
        final(list)@.map_values(|h: Header| h@) == old(list)@.map_values(|h: Header| h@).push(
            HeaderView { name: Seq::empty(), value: Seq::empty() },
        ),
{
    list.push(Header { name: String::new(), value: String::new() });
    assert(list@.map_values(|h: Header| h@) =~= old(list)@.map_values(|h: Header| h@).push(
        HeaderView { name: Seq::empty(), value: Seq::empty() },
    ));
}

fn drop_at(list: &mut Vec<Header>, i: usize)
    ensures
        final(list)@.map_values(|h: Header| h@) == without(old(list)@.map_values(|h: Header| h@), i),
{
    if i < list.len() {
        let _ = list.remove(i);
        assert(list@.map_values(|h: Header| h@) =~= old(list)@.map_values(|h: Header| h@).remove(i as int));
    }
}

/// One event of the upload form.
pub fn upload_edit(upload: &mut Upload, event: UploadEvent)
    ensures
        final(upload)@ == upload_next(old(upload)@, event@),
{
    match event {
        UploadEvent::Endpoint(t) => {
            upload.endpoint = t;
        },
        UploadEvent::Method(t) => {
            upload.method = t;
        },
        UploadEvent::Multipart => {
            proof {
                reveal_strlit("file");
            }
            upload.body = UploadBody::Multipart { field: String::from_str("file") };
        },
        UploadEvent::Raw => {
            upload.body = UploadBody::Raw;
        },
        UploadEvent::Field(t) => {
            let multipart = match &upload.body {
                UploadBody::Multipart { .. } => true,
                UploadBody::Raw => false,
            };
            if multipart {
                upload.body = UploadBody::Multipart { field: t };
            }
        },
        UploadEvent::Result(i) => {
            if i != result_index(&upload.result) {
                let source = current_source(&upload.result);
                upload.result = if i == 0 {
                    proof {
                        reveal_strlit(".neu");
                    }
                    ResultAction::Save { source, suffix: String::from_str(".neu") }
                } else if i == 1 {
                    ResultAction::Open { source }
                } else {
                    ResultAction::Report
                };
            }
        },
        UploadEvent::AddField => add_blank(&mut upload.fields),
        UploadEvent::RemoveField(i) => drop_at(&mut upload.fields, i),
        UploadEvent::AddHeader => add_blank(&mut upload.headers),
        UploadEvent::RemoveHeader(i) => drop_at(&mut upload.headers, i),
    }
}

} // verus!
