//! What a scan finds: context menu entries, where they live and what they are.

use vstd::prelude::*;

use crate::chars::{ascii_lowercase, ascii_lowered, is_word, opt_view};

verus! {

/// Which registry hive an entry was read from.
#[derive(Debug, Clone, Copy, PartialEq, Eq, Structural)]
pub enum Scope {
    /// `HKCU\Software\Classes`.
    User,
    /// `HKLM\Software\Classes`.
    Machine,
    /// The 32-bit view of `HKLM\Software\Classes`.
    Machine32,
}

impl Scope {
    /// Every scope, in the order a scan visits them.
    pub fn all() -> (result: Vec<Scope>)
        ensures
            result@ == seq![Scope::User, Scope::Machine, Scope::Machine32],
    {
        let mut out = Vec::new();
        out.push(Scope::User);
        out.push(Scope::Machine);
        out.push(Scope::Machine32);
        out
    }

    /// The short name the command line and the table use.
    pub fn label(&self) -> (result: &'static str)
        ensures
            result@ == scope_label(*self),
    {
        match self {
            Scope::User => "user",
            Scope::Machine => "machine",
            Scope::Machine32 => "machine32",
        }
    }

    /// The scope a command line names, in any capitalisation.
    pub fn from_slug(value: &str) -> (result: Option<Scope>)
        ensures
            result == scope_from_lowered(ascii_lowered(value@)),
    {
        let lowered = ascii_lowercase(value);
        if is_word(&lowered, "user") {
            Some(Scope::User)
        } else if is_word(&lowered, "machine") {
            Some(Scope::Machine)
        } else if is_word(&lowered, "machine32") {
            Some(Scope::Machine32)
        } else {
            None
        }
    }
}

/// The short name of a scope.
pub open spec fn scope_label(scope: Scope) -> Seq<char> {
    match scope {
        Scope::User => "user"@,
        Scope::Machine => "machine"@,
        Scope::Machine32 => "machine32"@,
    }
}

/// The scope a lower-case slug names.
pub open spec fn scope_from_lowered(slug: Seq<char>) -> Option<Scope> {
    if slug == "user"@ {
        Some(Scope::User)
    } else if slug == "machine"@ {
        Some(Scope::Machine)
    } else if slug == "machine32"@ {
        Some(Scope::Machine32)
    } else {
        None
    }
}

/// Where in the registry an entry hangs, which is what decides which
/// right-clicks show it.
#[derive(Debug, Clone, PartialEq, Eq)]
pub enum Category {
    /// `*`: every file.
    AllFiles,
    /// `AllFilesystemObjects`: every file and folder.
    AllFilesystemObjects,
    Directory,
    DirectoryBackground,
    Folder,
    DesktopBackground,
    Drive,
    /// The shared stock of verbs that other entries refer to.
    CommandStore,
    /// `SystemFileAssociations\<type>`, such as `image`.
    PerceivedType(String),
    /// `SystemFileAssociations\<ext>`.
    ExtAssoc(String),
    /// A ProgID's own `shell` key, reached from an extension.
    ProgId { prog_id: String, from_ext: String },
    /// `<ext>\shell`, directly under the extension.
    ExtDirect(String),
}

/// A category as the text it holds, which is what contracts compare.
pub enum CategoryView {
    AllFiles,
    AllFilesystemObjects,
    Directory,
    DirectoryBackground,
    Folder,
    DesktopBackground,
    Drive,
    CommandStore,
    PerceivedType(Seq<char>),
    ExtAssoc(Seq<char>),
    ProgId { prog_id: Seq<char>, from_ext: Seq<char> },
    ExtDirect(Seq<char>),
}

impl View for Category {
    type V = CategoryView;

    open spec fn view(&self) -> CategoryView {
        match self {
            Category::AllFiles => CategoryView::AllFiles,
            Category::AllFilesystemObjects => CategoryView::AllFilesystemObjects,
            Category::Directory => CategoryView::Directory,
            Category::DirectoryBackground => CategoryView::DirectoryBackground,
            Category::Folder => CategoryView::Folder,
            Category::DesktopBackground => CategoryView::DesktopBackground,
            Category::Drive => CategoryView::Drive,
            Category::CommandStore => CategoryView::CommandStore,
            Category::PerceivedType(kind) => CategoryView::PerceivedType(kind@),
            Category::ExtAssoc(ext) => CategoryView::ExtAssoc(ext@),
            Category::ProgId { prog_id, from_ext } => CategoryView::ProgId {
                prog_id: prog_id@,
                from_ext: from_ext@,
            },
            Category::ExtDirect(ext) => CategoryView::ExtDirect(ext@),
        }
    }
}

/// The base category a lower-case slug names, as a view.
pub open spec fn base_view(slug: Seq<char>) -> Option<CategoryView> {
    match category_from_lowered(slug) {
        Some(category) => Some(category@),
        None => None,
    }
}

/// The seven base categories, the ones a scan visits without a file type.
pub open spec fn is_base(category: Category) -> bool {
    match category {
        Category::AllFiles | Category::AllFilesystemObjects | Category::Directory
        | Category::DirectoryBackground | Category::Folder | Category::DesktopBackground
        | Category::Drive => true,
        _ => false,
    }
}

/// The base category a lower-case slug names.
pub open spec fn category_from_lowered(slug: Seq<char>) -> Option<Category> {
    if slug == "allfiles"@ {
        Some(Category::AllFiles)
    } else if slug == "allfilesystemobjects"@ {
        Some(Category::AllFilesystemObjects)
    } else if slug == "directory"@ {
        Some(Category::Directory)
    } else if slug == "directorybackground"@ {
        Some(Category::DirectoryBackground)
    } else if slug == "folder"@ {
        Some(Category::Folder)
    } else if slug == "desktopbackground"@ {
        Some(Category::DesktopBackground)
    } else if slug == "drive"@ {
        Some(Category::Drive)
    } else {
        None
    }
}

impl Category {
    /// Is this one of the seven base categories?
    pub fn is_base(&self) -> (result: bool)
        ensures
            result == is_base(*self),
    {
        match self {
            Category::AllFiles | Category::AllFilesystemObjects | Category::Directory
            | Category::DirectoryBackground | Category::Folder | Category::DesktopBackground
            | Category::Drive => true,
            _ => false,
        }
    }

    /// The base category a command line names, in any capitalisation.
    pub fn from_slug(value: &str) -> (result: Option<Category>)
        ensures
            result == category_from_lowered(ascii_lowered(value@)),
    {
        let lowered = ascii_lowercase(value);
        if is_word(&lowered, "allfiles") {
            Some(Category::AllFiles)
        } else if is_word(&lowered, "allfilesystemobjects") {
            Some(Category::AllFilesystemObjects)
        } else if is_word(&lowered, "directory") {
            Some(Category::Directory)
        } else if is_word(&lowered, "directorybackground") {
            Some(Category::DirectoryBackground)
        } else if is_word(&lowered, "folder") {
            Some(Category::Folder)
        } else if is_word(&lowered, "desktopbackground") {
            Some(Category::DesktopBackground)
        } else if is_word(&lowered, "drive") {
            Some(Category::Drive)
        } else {
            None
        }
    }

    /// Is this the same category as `other`, text for text?
    pub fn same_as(&self, other: &Category) -> (result: bool)
        ensures
            result == (self@ == other@),
    {
        match (self, other) {
            (Category::AllFiles, Category::AllFiles) => true,
            (Category::AllFilesystemObjects, Category::AllFilesystemObjects) => true,
            (Category::Directory, Category::Directory) => true,
            (Category::DirectoryBackground, Category::DirectoryBackground) => true,
            (Category::Folder, Category::Folder) => true,
            (Category::DesktopBackground, Category::DesktopBackground) => true,
            (Category::Drive, Category::Drive) => true,
            (Category::CommandStore, Category::CommandStore) => true,
            (Category::PerceivedType(a), Category::PerceivedType(b)) => crate::chars::text_eq(a.as_str(), b.as_str()),
            (Category::ExtAssoc(a), Category::ExtAssoc(b)) => crate::chars::text_eq(a.as_str(), b.as_str()),
            (
                Category::ProgId { prog_id: a, from_ext: x },
                Category::ProgId { prog_id: b, from_ext: y },
            ) => crate::chars::text_eq(a.as_str(), b.as_str()) && crate::chars::text_eq(x.as_str(), y.as_str()),
            (Category::ExtDirect(a), Category::ExtDirect(b)) => crate::chars::text_eq(a.as_str(), b.as_str()),
            _ => false,
        }
    }

    /// A copy of this category.
    pub fn copied(&self) -> (result: Category)
        ensures
            result == *self,
    {
        match self {
            Category::AllFiles => Category::AllFiles,
            Category::AllFilesystemObjects => Category::AllFilesystemObjects,
            Category::Directory => Category::Directory,
            Category::DirectoryBackground => Category::DirectoryBackground,
            Category::Folder => Category::Folder,
            Category::DesktopBackground => Category::DesktopBackground,
            Category::Drive => Category::Drive,
            Category::CommandStore => Category::CommandStore,
            Category::PerceivedType(kind) => Category::PerceivedType(kind.clone()),
            Category::ExtAssoc(ext) => Category::ExtAssoc(ext.clone()),
            Category::ProgId { prog_id, from_ext } => Category::ProgId {
                prog_id: prog_id.clone(),
                from_ext: from_ext.clone(),
            },
            Category::ExtDirect(ext) => Category::ExtDirect(ext.clone()),
        }
    }

    /// What a file type category applies to, in its own words: the
    /// extension or perceived type it names. Empty for the base categories
    /// and the command store, which have names of their own.
    pub fn applies_to_label(&self) -> (result: String)
        ensures
            result@ == applies_to_label(*self),
    {
        match self {
            Category::PerceivedType(kind) => kind.clone(),
            Category::ExtAssoc(ext) => ext.clone(),
            Category::ExtDirect(ext) => ext.clone(),
            Category::ProgId { from_ext, .. } => from_ext.clone(),
            _ => String::new(),
        }
    }
}

/// What a file type category applies to; empty for every other category.
pub open spec fn applies_to_label(category: Category) -> Seq<char> {
    match category {
        Category::PerceivedType(kind) => kind@,
        Category::ExtAssoc(ext) => ext@,
        Category::ExtDirect(ext) => ext@,
        Category::ProgId { from_ext, .. } => from_ext@,
        _ => Seq::empty(),
    }
}

/// What kind of entry a key holds.
#[derive(Debug)]
pub enum EntryKind {
    /// A static verb: a command line, or a cascading menu of further entries.
    Verb { command: Option<String>, sub_commands: Vec<ContextEntry> },
    /// A COM handler under `shellex`, named by its CLSID.
    ShellEx { clsid: String, server_path: Option<String>, blocked: bool },
    /// An entry of the new Windows 11 menu, brought by a package.
    PackagedVerb { clsid: String, package: String, package_name: String, blocked_machine: bool },
}

/// The short name of a kind.
pub open spec fn kind_label(kind: EntryKind) -> Seq<char> {
    match kind {
        EntryKind::Verb { .. } => "verb"@,
        EntryKind::ShellEx { .. } => "shellex"@,
        EntryKind::PackagedVerb { .. } => "win11"@,
    }
}

impl EntryKind {
    /// The short name the type column shows.
    pub fn type_label(&self) -> (result: &'static str)
        ensures
            result@ == kind_label(*self),
    {
        match self {
            EntryKind::Verb { .. } => "verb",
            EntryKind::ShellEx { .. } => "shellex",
            EntryKind::PackagedVerb { .. } => "win11",
        }
    }
}

/// One context menu entry as a scan found it.
#[derive(Debug)]
pub struct ContextEntry {
    pub scope: Scope,
    pub category: Category,
    /// The name of the registry key.
    pub key_name: String,
    /// What the menu shows.
    pub display_name: String,
    /// The full path of the key, starting with the hive.
    pub registry_path: String,
    pub kind: EntryKind,
    /// The key cannot be written without elevation.
    pub read_only: bool,
    /// `LegacyDisable` is set.
    pub hidden: bool,
    /// `Extended` is set: only shown with Shift held.
    pub extended: bool,
    /// `Position`, when set: `Top`, `Bottom` or something unusual.
    pub position: Option<String>,
}

/// What can be done to an entry.
#[derive(Debug, Clone, PartialEq, Eq)]
pub enum Action {
    Hide,
    Show,
    ShiftOnly,
    AlwaysShow,
    /// Put the CLSID on the system-wide blocked list.
    Block,
    Unblock,
    /// `Some("Top")`, `Some("Bottom")`, or `None` to clear the position.
    SetPosition(Option<String>),
    Delete,
}

/// An action as the values it holds.
pub enum ActionView {
    Hide,
    Show,
    ShiftOnly,
    AlwaysShow,
    Block,
    Unblock,
    SetPosition(Option<Seq<char>>),
    Delete,
}

impl View for Action {
    type V = ActionView;

    open spec fn view(&self) -> ActionView {
        match self {
            Action::Hide => ActionView::Hide,
            Action::Show => ActionView::Show,
            Action::ShiftOnly => ActionView::ShiftOnly,
            Action::AlwaysShow => ActionView::AlwaysShow,
            Action::Block => ActionView::Block,
            Action::Unblock => ActionView::Unblock,
            Action::SetPosition(position) => ActionView::SetPosition(opt_view(*position)),
            Action::Delete => ActionView::Delete,
        }
    }
}

/// The entries of a cascading menu, if this entry opens one.
pub open spec fn kids(entry: ContextEntry) -> Option<Seq<ContextEntry>> {
    match entry.kind {
        EntryKind::Verb { sub_commands, .. } => if sub_commands@.len() > 0 {
            Some(sub_commands@)
        } else {
            None
        },
        _ => None,
    }
}

/// How many entries there are, the entries of cascading menus included.
pub open spec fn total(entries: Seq<ContextEntry>) -> nat
    decreases entries,
{
    if entries.len() == 0 {
        0
    } else {
        let last = entries.last();
        total(entries.drop_last()) + 1 + match last.kind {
            EntryKind::Verb { sub_commands, .. } => total(sub_commands@),
            _ => 0,
        }
    }
}

/// How one step of an action went.
#[derive(Debug, Clone)]
pub struct OperationResult {
    pub display_name: String,
    pub registry_path: String,
    pub action: Action,
    /// `None` when the step succeeded.
    pub error: Option<String>,
}

/// How many steps failed.
pub open spec fn failures(results: Seq<OperationResult>) -> nat
    decreases results.len(),
{
    if results.len() == 0 {
        0
    } else {
        failures(results.drop_last()) + if results.last().error is Some {
            1nat
        } else {
            0nat
        }
    }
}

/// A step's outcome as the values it holds.
pub struct OperationResultView {
    pub display_name: Seq<char>,
    pub registry_path: Seq<char>,
    pub action: ActionView,
    pub error: Option<Seq<char>>,
}

impl View for OperationResult {
    type V = OperationResultView;

    open spec fn view(&self) -> OperationResultView {
        OperationResultView {
            display_name: self.display_name@,
            registry_path: self.registry_path@,
            action: self.action@,
            error: opt_view(self.error),
        }
    }
}

/// A report as the values it holds.
pub struct ReportView {
    pub backup_directories: Seq<Seq<char>>,
    pub results: Seq<OperationResultView>,
}

/// What applying a plan did, and where its backups went.
#[derive(Debug, Clone)]
pub struct Report {
    pub backup_directories: Vec<String>,
    pub results: Vec<OperationResult>,
}

impl View for Report {
    type V = ReportView;

    open spec fn view(&self) -> ReportView {
        ReportView {
            backup_directories: self.backup_directories@.map_values(|d: String| d@),
            results: self.results@.map_values(|r: OperationResult| r@),
        }
    }
}

impl Report {
    /// Takes in what another run did: its steps after these, its backups
    /// after these.
    pub fn merge(&mut self, other: Report)
        ensures
            final(self).backup_directories@ == old(self).backup_directories@
                + other.backup_directories@,
            final(self).results@ == old(self).results@ + other.results@,
    {
        let mut other = other;
        self.backup_directories.append(&mut other.backup_directories);
        self.results.append(&mut other.results);
    }

    /// How many steps failed.
    pub fn failed(&self) -> (result: usize)
        ensures
            result == failures(self.results@),
    {
        let mut count: usize = 0;
        let mut i: usize = 0;
        while i < self.results.len()
            invariant
                i <= self.results.len(),
                count == failures(self.results@.subrange(0, i as int)),
                count <= i,
            decreases self.results.len() - i,
        {
            assert(self.results@.subrange(0, i + 1).drop_last() =~= self.results@.subrange(
                0,
                i as int,
            ));
            if self.results[i].error.is_some() {
                count = count + 1;
            }
            i = i + 1;
        }
        assert(self.results@.subrange(0, i as int) =~= self.results@);
        count
    }

    /// How many steps succeeded.
    pub fn succeeded(&self) -> (result: usize)
        ensures
            result == self.results@.len() - failures(self.results@),
    {
        proof {
            lemma_failures_bound(self.results@);
        }
        self.results.len() - self.failed()
    }
}

/// No more steps failed than there were.
pub proof fn lemma_failures_bound(results: Seq<OperationResult>)
    ensures
        failures(results) <= results.len(),
    decreases results.len(),
{
    if results.len() > 0 {
        lemma_failures_bound(results.drop_last());
    }
}

} // verus!
