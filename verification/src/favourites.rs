//! Favourites: programs and web tools a right-click can hand a file to.

use vstd::prelude::*;

use crate::chars::{fill, filled, opt_view};
use crate::i18n::Strings;

verus! {

/// A header sent with an upload.
#[derive(Debug, Clone)]
pub struct Header {
    pub name: String,
    pub value: String,
}

/// Where the answer of an upload keeps the result.
#[derive(Debug, Clone)]
pub enum ResultSource {
    /// The body itself is the result.
    Body,
    /// A field of a JSON answer, by its dotted path, holds an address to
    /// fetch the result from.
    Json { path: String },
}

/// What happens to the result of an upload.
#[derive(Debug, Clone)]
pub enum ResultAction {
    /// Saved beside the file it came from, its name carrying `suffix`.
    Save { source: ResultSource, suffix: String },
    /// Opened in the browser.
    Open { source: ResultSource },
    /// Only reported.
    Report,
}

/// How the file travels in an upload.
#[derive(Debug, Clone)]
pub enum UploadBody {
    /// The bytes as the whole body.
    Raw,
    /// A multipart form, the file in the named field.
    Multipart { field: String },
}

/// A web tool that is sent the file.
#[derive(Debug, Clone)]
pub struct Upload {
    pub endpoint: String,
    pub method: String,
    pub body: UploadBody,
    pub headers: Vec<Header>,
    /// Form fields sent beside the file, by name and value: where a tool's
    /// settings travel.
    pub fields: Vec<Header>,
    pub result: ResultAction,
}

/// What a web tool does with a click.
#[derive(Debug, Clone)]
pub enum WebMode {
    /// The address goes to the clipboard.
    Clipboard { url: String },
    /// The address opens in the browser.
    Open { url: String },
    /// The file is sent.
    Upload(Box<Upload>),
}

/// A tool that lives on the web.
#[derive(Debug, Clone)]
pub struct WebTool {
    pub mode: WebMode,
    /// Accept a certificate nobody vouches for.
    pub allow_insecure: bool,
    /// The user has agreed to files being sent.
    pub confirmed: bool,
}

/// What a favourite runs.
#[derive(Debug, Clone)]
pub enum Tool {
    Program { path: String, args: String },
    Web(WebTool),
}

/// One favourite.
#[derive(Debug, Clone)]
pub struct Favourite {
    /// Given when the favourite is stored; empty before.
    pub id: String,
    pub name: String,
    pub icon: Option<String>,
    pub note: Option<String>,
    pub tool: Tool,
}

/// A header as the text it holds.
pub struct HeaderView {
    pub name: Seq<char>,
    pub value: Seq<char>,
}

pub enum ResultSourceView {
    Body,
    Json { path: Seq<char> },
}

pub enum ResultActionView {
    Save { source: ResultSourceView, suffix: Seq<char> },
    Open { source: ResultSourceView },
    Report,
}

pub enum UploadBodyView {
    Raw,
    Multipart { field: Seq<char> },
}

pub struct UploadView {
    pub endpoint: Seq<char>,
    pub method: Seq<char>,
    pub body: UploadBodyView,
    pub headers: Seq<HeaderView>,
    pub fields: Seq<HeaderView>,
    pub result: ResultActionView,
}

pub enum WebModeView {
    Clipboard { url: Seq<char> },
    Open { url: Seq<char> },
    Upload(UploadView),
}

pub struct WebToolView {
    pub mode: WebModeView,
    pub allow_insecure: bool,
    pub confirmed: bool,
}

pub enum ToolView {
    Program { path: Seq<char>, args: Seq<char> },
    Web(WebToolView),
}

/// A favourite as the text it holds.
pub struct FavouriteView {
    pub id: Seq<char>,
    pub name: Seq<char>,
    pub icon: Option<Seq<char>>,
    pub note: Option<Seq<char>>,
    pub tool: ToolView,
}

impl View for Header {
    type V = HeaderView;

    open spec fn view(&self) -> HeaderView {
        HeaderView { name: self.name@, value: self.value@ }
    }
}

impl View for ResultSource {
    type V = ResultSourceView;

    open spec fn view(&self) -> ResultSourceView {
        match self {
            ResultSource::Body => ResultSourceView::Body,
            ResultSource::Json { path } => ResultSourceView::Json { path: path@ },
        }
    }
}

impl View for ResultAction {
    type V = ResultActionView;

    open spec fn view(&self) -> ResultActionView {
        match self {
            ResultAction::Save { source, suffix } => ResultActionView::Save {
                source: source@,
                suffix: suffix@,
            },
            ResultAction::Open { source } => ResultActionView::Open { source: source@ },
            ResultAction::Report => ResultActionView::Report,
        }
    }
}

impl View for UploadBody {
    type V = UploadBodyView;

    open spec fn view(&self) -> UploadBodyView {
        match self {
            UploadBody::Raw => UploadBodyView::Raw,
            UploadBody::Multipart { field } => UploadBodyView::Multipart { field: field@ },
        }
    }
}

impl View for Upload {
    type V = UploadView;

    open spec fn view(&self) -> UploadView {
        UploadView {
            endpoint: self.endpoint@,
            method: self.method@,
            body: self.body@,
            headers: self.headers@.map_values(|h: Header| h@),
            fields: self.fields@.map_values(|h: Header| h@),
            result: self.result@,
        }
    }
}

impl View for WebMode {
    type V = WebModeView;

    open spec fn view(&self) -> WebModeView {
        match self {
            WebMode::Clipboard { url } => WebModeView::Clipboard { url: url@ },
            WebMode::Open { url } => WebModeView::Open { url: url@ },
            WebMode::Upload(upload) => WebModeView::Upload(upload@),
        }
    }
}

impl View for WebTool {
    type V = WebToolView;

    open spec fn view(&self) -> WebToolView {
        WebToolView {
            mode: self.mode@,
            allow_insecure: self.allow_insecure,
            confirmed: self.confirmed,
        }
    }
}

impl View for Tool {
    type V = ToolView;

    open spec fn view(&self) -> ToolView {
        match self {
            Tool::Program { path, args } => ToolView::Program { path: path@, args: args@ },
            Tool::Web(web) => ToolView::Web(web@),
        }
    }
}

impl View for Favourite {
    type V = FavouriteView;

    open spec fn view(&self) -> FavouriteView {
        FavouriteView {
            id: self.id@,
            name: self.name@,
            icon: opt_view(self.icon),
            note: opt_view(self.note),
            tool: self.tool@,
        }
    }
}

/// An empty favourite to start from: a program, because adding an
/// executable is the common case.
pub fn blank_favourite() -> (result: Favourite)
    ensures
        result@ == (FavouriteView {
            id: Seq::empty(),
            name: Seq::empty(),
            icon: None,
            note: None,
            tool: ToolView::Program { path: Seq::empty(), args: Seq::empty() },
        }),
{
    Favourite {
        id: String::new(),
        name: String::new(),
        icon: None,
        note: None,
        tool: Tool::Program { path: String::new(), args: String::new() },
    }
}

/// The position of a web mode in the form's switch.
pub fn mode_index(mode: &WebMode) -> (result: usize)
    ensures
        result == match mode {
            WebMode::Clipboard { .. } => 0usize,
            WebMode::Open { .. } => 1,
            WebMode::Upload(_) => 2,
        },
{
    match mode {
        WebMode::Clipboard { .. } => 0,
        WebMode::Open { .. } => 1,
        WebMode::Upload(_) => 2,
    }
}

/// The address a web mode holds, kept when the mode is switched so that
/// switching does not wipe what was typed.
pub fn current_url(mode: &WebMode) -> (result: String)
    ensures
        result@ == match mode@ {
            WebModeView::Clipboard { url } => url,
            WebModeView::Open { url } => url,
            WebModeView::Upload(upload) => upload.endpoint,
        },
{
    match mode {
        WebMode::Clipboard { url } => url.clone(),
        WebMode::Open { url } => url.clone(),
        WebMode::Upload(upload) => upload.endpoint.clone(),
    }
}

/// The position of a result action in the form's switch.
pub fn result_index(result: &ResultAction) -> (index: usize)
    ensures
        index == match result {
            ResultAction::Save { .. } => 0usize,
            ResultAction::Open { .. } => 1,
            ResultAction::Report => 2,
        },
{
    match result {
        ResultAction::Save { .. } => 0,
        ResultAction::Open { .. } => 1,
        ResultAction::Report => 2,
    }
}

fn copy_source(source: &ResultSource) -> (result: ResultSource)
    ensures
        result@ == source@,
{
    match source {
        ResultSource::Body => ResultSource::Body,
        ResultSource::Json { path } => ResultSource::Json { path: path.clone() },
    }
}

/// Where a result action reads its result from; the body when it reads
/// none.
pub fn current_source(result: &ResultAction) -> (source: ResultSource)
    ensures
        source@ == match result@ {
            ResultActionView::Save { source, .. } => source,
            ResultActionView::Open { source } => source,
            ResultActionView::Report => ResultSourceView::Body,
        },
{
    match result {
        ResultAction::Save { source, .. } => copy_source(source),
        ResultAction::Open { source } => copy_source(source),
        ResultAction::Report => ResultSource::Body,
    }
}


/// The address a favourite points at: a web tool's address or endpoint;
/// a program has none.
pub open spec fn address_of(tool: ToolView) -> Option<Seq<char>> {
    match tool {
        ToolView::Program { .. } => None,
        ToolView::Web(web) => Some(
            match web.mode {
                WebModeView::Clipboard { url } => url,
                WebModeView::Open { url } => url,
                WebModeView::Upload(upload) => upload.endpoint,
            },
        ),
    }
}

impl Favourite {
    /// The address this favourite points at, if it is a web tool.
    pub fn address(&self) -> (result: Option<String>)
        ensures
            match result {
                Some(a) => address_of(self.tool@) == Some(a@),
                None => address_of(self.tool@) is None,
            },
    {
        match &self.tool {
            Tool::Program { .. } => None,
            Tool::Web(web) => Some(current_url(&web.mode)),
        }
    }
}

/// What can be wrong with a favourite before it is saved.
#[derive(Debug, Clone, PartialEq, Eq)]
pub enum Fault {
    MissingName,
    MissingPath,
    /// The program is not where the path says, as written.
    FileNotFound(String),
    MissingAddress,
    /// Plain `http` without the box that allows it.
    InsecureAddress,
    NotHttps,
    /// An address with no `{}` for the selection.
    NoPlaceholder,
}

/// What a fault of a favourite says, in the language on screen.
pub open spec fn fault_message(fault: Fault, tr: Strings) -> Seq<char> {
    match fault {
        Fault::MissingName => tr.fault_fav_name@,
        Fault::MissingPath => tr.fault_fav_path@,
        Fault::FileNotFound(path) => filled(tr.fmt_fault_fav_missing_file@, path@),
        Fault::MissingAddress => tr.fault_fav_address@,
        Fault::InsecureAddress => tr.fault_fav_insecure@,
        Fault::NotHttps => tr.fault_fav_not_https@,
        Fault::NoPlaceholder => tr.fault_fav_placeholder@,
    }
}

/// What is wrong with a favourite, in the language on screen.
pub fn fav_fault_text(fault: &Fault, tr: &Strings) -> (result: String)
    ensures
        result@ == fault_message(*fault, *tr),
{
    match fault {
        Fault::MissingName => String::from_str(tr.fault_fav_name),
        Fault::MissingPath => String::from_str(tr.fault_fav_path),
        Fault::FileNotFound(path) => fill(tr.fmt_fault_fav_missing_file, path.as_str()),
        Fault::MissingAddress => String::from_str(tr.fault_fav_address),
        Fault::InsecureAddress => String::from_str(tr.fault_fav_insecure),
        Fault::NotHttps => String::from_str(tr.fault_fav_not_https),
        Fault::NoPlaceholder => String::from_str(tr.fault_fav_placeholder),
    }
}

} // verus!
