//! The decisions behind the window: which tab, which rows, what a click or a
//! key does to them. Drawing happens elsewhere; everything here is plain data.

use vstd::prelude::*;

use crate::chars::{ascii_lowercase, ascii_lowered, chars_of, contains_chars, is_word, lowercase, lowercase_of, occurs, occurs_at, opt_view, text_eq};
use crate::model::{Action, ActionView, Category, CategoryView, ContextEntry, EntryKind, kids, total};
use crate::settings::Language;

verus! {

/// The tabs of the window.
#[derive(Debug, Clone, Copy, PartialEq, Eq, Structural)]
pub enum Tab {
    Categories,
    FileTypes,
    Programs,
    Favourites,
    Services,
    Backups,
}

/// The tab a lower-case name stands for, in English or in German.
pub open spec fn tab_from_lowered(slug: Seq<char>) -> Option<Tab> {
    if slug == "categories"@ || slug == "kategorien"@ {
        Some(Tab::Categories)
    } else if slug == "filetypes"@ || slug == "dateitypen"@ {
        Some(Tab::FileTypes)
    } else if slug == "programs"@ || slug == "programme"@ {
        Some(Tab::Programs)
    } else if slug == "favourites"@ || slug == "favoriten"@ {
        Some(Tab::Favourites)
    } else if slug == "services"@ || slug == "dienste"@ {
        Some(Tab::Services)
    } else if slug == "backups"@ || slug == "sicherungen"@ {
        Some(Tab::Backups)
    } else {
        None
    }
}

impl Tab {
    /// The tab a command line names, in any capitalisation, so the window
    /// can be opened on a tab other than the first.
    pub fn from_slug(value: &str) -> (result: Option<Tab>)
        ensures
            result == tab_from_lowered(ascii_lowered(value@)),
    {
        let v = ascii_lowercase(value);
        if is_word(&v, "categories") || is_word(&v, "kategorien") {
            Some(Tab::Categories)
        } else if is_word(&v, "filetypes") || is_word(&v, "dateitypen") {
            Some(Tab::FileTypes)
        } else if is_word(&v, "programs") || is_word(&v, "programme") {
            Some(Tab::Programs)
        } else if is_word(&v, "favourites") || is_word(&v, "favoriten") {
            Some(Tab::Favourites)
        } else if is_word(&v, "services") || is_word(&v, "dienste") {
            Some(Tab::Services)
        } else if is_word(&v, "backups") || is_word(&v, "sicherungen") {
            Some(Tab::Backups)
        } else {
            None
        }
    }
}

/// What the command line asked the window to start as. The default is the
/// plain start: scan the registry, first tab, saved language, usual size.
#[derive(Debug, Clone)]
pub struct Start {
    /// Fill the table with this many generated rows instead of scanning.
    pub synthetic: Option<usize>,
    /// Run this many measured frames, report and exit.
    pub bench: Option<usize>,
    pub tab: Tab,
    /// Text for the search box before the first frame.
    pub search: String,
    /// Extension to preselect in the file type tab.
    pub ext: Option<String>,
    /// The service to select, by its id.
    pub service: Option<String>,
    /// Open the editor on a new entry in this category.
    pub new_entry: Option<Category>,
    /// Flip the system theme once and report whether the window followed.
    pub theme_probe: bool,
    /// The language for this run only.
    pub language: Option<Language>,
    /// The window size for this run only, in physical pixels.
    pub size: Option<(i32, i32)>,
}

/// A start as the values it holds.
pub struct StartView {
    pub synthetic: Option<usize>,
    pub bench: Option<usize>,
    pub tab: Tab,
    pub search: Seq<char>,
    pub ext: Option<Seq<char>>,
    pub service: Option<Seq<char>>,
    pub new_entry: Option<CategoryView>,
    pub theme_probe: bool,
    pub language: Option<Language>,
    pub size: Option<(i32, i32)>,
}

impl View for Start {
    type V = StartView;

    open spec fn view(&self) -> StartView {
        StartView {
            synthetic: self.synthetic,
            bench: self.bench,
            tab: self.tab,
            search: self.search@,
            ext: opt_view(self.ext),
            service: opt_view(self.service),
            new_entry: match self.new_entry {
                Some(category) => Some(category@),
                None => None,
            },
            theme_probe: self.theme_probe,
            language: self.language,
            size: self.size,
        }
    }
}

/// The plain start.
pub open spec fn default_start() -> StartView {
    StartView {
        synthetic: None,
        bench: None,
        tab: Tab::Categories,
        search: Seq::empty(),
        ext: None,
        service: None,
        new_entry: None,
        theme_probe: false,
        language: None,
        size: None,
    }
}

impl Default for Start {
    fn default() -> (result: Start)
        ensures
            result@ == default_start(),
    {
        Start {
            synthetic: None,
            bench: None,
            tab: Tab::Categories,
            search: String::new(),
            ext: None,
            service: None,
            new_entry: None,
            theme_probe: false,
            language: None,
            size: None,
        }
    }
}


/// Which column the table is ordered by.
#[derive(Debug, Clone, Copy, PartialEq, Eq, Structural)]
pub enum SortBy {
    /// The order the rows were collected in, which carries meaning of its own.
    Natural,
    Name,
    Kind,
    Scope,
    AppliesTo,
    Command,
}

/// One line of the table: an entry, and the path down into its cascading
/// menus, one index per level; empty for the entry itself.
#[derive(Debug, Clone, PartialEq, Eq, Hash)]
pub struct Row {
    /// Index into the scanned entries.
    pub entry: usize,
    pub path: Vec<usize>,
}

/// Does the row at (`entry`, `path`) contain the row at (`other_entry`,
/// `other_path`) as a submenu line, at any depth?
pub open spec fn contains_row(
    entry: usize,
    path: Seq<usize>,
    other_entry: usize,
    other_path: Seq<usize>,
) -> bool {
    entry == other_entry && path.len() < other_path.len() && other_path.subrange(
        0,
        path.len() as int,
    ) == path
}

impl Row {
    /// The row of an entry itself.
    pub fn top(entry: usize) -> (result: Row)
        ensures
            result.entry == entry,
            result.path@ == Seq::<usize>::empty(),
    {
        Row { entry, path: Vec::new() }
    }

    /// Does this row contain `other` as a submenu line, at any depth? Used to
    /// drop a child from a plan whose parent is in it too.
    pub fn is_ancestor_of(&self, other: &Row) -> (result: bool)
        ensures
            result == contains_row(self.entry, self.path@, other.entry, other.path@),
    {
        if self.entry != other.entry || self.path.len() >= other.path.len() {
            return false;
        }
        let mut i: usize = 0;
        while i < self.path.len()
            invariant
                i <= self.path.len() < other.path.len(),
                forall|j: int| 0 <= j < i ==> self.path@[j] == other.path@[j],
            decreases self.path.len() - i,
        {
            if self.path[i] != other.path[i] {
                assert(other.path@.subrange(0, self.path@.len() as int)[i as int] != self.path@[i as int]);
                return false;
            }
            i = i + 1;
        }
        assert(other.path@.subrange(0, self.path@.len() as int) =~= self.path@);
        true
    }
}

/// The entries of a cascading menu, if this entry opens one.
pub fn children(entry: &ContextEntry) -> (result: Option<&Vec<ContextEntry>>)
    ensures
        match result {
            Some(list) => kids(*entry) == Some(list@),
            None => kids(*entry) is None,
        },
{
    match &entry.kind {
        EntryKind::Verb { sub_commands, .. } => if sub_commands.len() > 0 {
            Some(sub_commands)
        } else {
            None
        },
        _ => None,
    }
}

/// The entry `path` leads to from `entry`, one submenu level per step.
pub open spec fn walk(entry: ContextEntry, path: Seq<usize>) -> Option<ContextEntry>
    decreases path.len(),
{
    if path.len() == 0 {
        Some(entry)
    } else {
        match kids(entry) {
            Some(list) => if path[0] < list.len() {
                walk(list[path[0] as int], path.drop_first())
            } else {
                None
            },
            None => None,
        }
    }
}

/// The entry a row names, if the row fits the entries.
pub open spec fn resolved(entries: Seq<ContextEntry>, entry: usize, path: Seq<usize>) -> Option<
    ContextEntry,
> {
    if entry < entries.len() {
        walk(entries[entry as int], path)
    } else {
        None
    }
}

/// Walks a row's path down into the nested entries. `None` only if the path
/// does not fit, which happens for a frame after a rescan replaced them.
pub fn resolve<'a>(entries: &'a [ContextEntry], row: &Row) -> (result: Option<&'a ContextEntry>)
    ensures
        match result {
            Some(found) => resolved(entries@, row.entry, row.path@) == Some(*found),
            None => resolved(entries@, row.entry, row.path@) is None,
        },
{
    if row.entry >= entries.len() {
        return None;
    }
    let mut entry: &ContextEntry = &entries[row.entry];
    let mut k: usize = 0;
    assert(row.path@.subrange(0, row.path@.len() as int) =~= row.path@);
    while k < row.path.len()
        invariant
            k <= row.path.len(),
            row.entry < entries@.len(),
            walk(entries@[row.entry as int], row.path@) == walk(
                *entry,
                row.path@.subrange(k as int, row.path@.len() as int),
            ),
        decreases row.path.len() - k,
    {
        let ghost rest = row.path@.subrange(k as int, row.path@.len() as int);
        assert(rest[0] == row.path@[k as int]);
        assert(rest.drop_first() =~= row.path@.subrange(k + 1, row.path@.len() as int));
        match children(entry) {
            None => return None,
            Some(list) => {
                let step = row.path[k];
                if step >= list.len() {
                    return None;
                }
                entry = &list[step];
            },
        }
        k = k + 1;
    }
    Some(entry)
}

/// A key that moves a list cursor.
#[derive(Debug, Clone, Copy, PartialEq, Eq, Structural)]
pub enum Movement {
    Down,
    Up,
    First,
    Last,
}

/// Where a list cursor goes: clamped at both ends, on the first row when
/// nothing was selected, and nowhere in an empty list.
pub open spec fn cursor_after(current: Option<usize>, count: usize, movement: Movement) -> Option<
    usize,
> {
    if count == 0 {
        None
    } else {
        Some(
            match (movement, current) {
                (Movement::First, _) => 0,
                (Movement::Last, _) => (count - 1) as usize,
                (_, None) => 0,
                (Movement::Down, Some(index)) => if index + 1 < count {
                    (index + 1) as usize
                } else {
                    (count - 1) as usize
                },
                (Movement::Up, Some(index)) => if index > 0 && index <= count {
                    (index - 1) as usize
                } else if index > count {
                    (count - 1) as usize
                } else {
                    0
                },
            },
        )
    }
}

/// Where a list cursor goes on an arrow key, `Home` or `End`.
pub fn next_cursor(current: Option<usize>, count: usize, movement: Movement) -> (result: Option<usize>)
    ensures
        result == cursor_after(current, count, movement),
{
    if count == 0 {
        return None;
    }
    Some(
        match (movement, current) {
            (Movement::First, _) => 0,
            (Movement::Last, _) => count - 1,
            (_, None) => 0,
            (Movement::Down, Some(index)) => if index < count - 1 {
                index + 1
            } else {
                count - 1
            },
            // A cursor left past the end by a shorter list comes back onto
            // its last row.
            (Movement::Up, Some(index)) => if index > count {
                count - 1
            } else if index > 0 {
                index - 1
            } else {
                0
            },
        },
    )
}

/// A measured run: frames still to count and what the run fed in.
#[derive(Debug)]
pub struct Bench {
    pub warmup: usize,
    pub remaining: usize,
    pub scroll: usize,
    /// Arrow-key presses fed in, and how far the cursor actually walked.
    pub keys_sent: usize,
    pub cursor_walked: usize,
    pub last_focus: Option<Row>,
}

impl Bench {
    /// Counts one frame off `remaining`, never past zero. Returns whether
    /// this frame was counted.
    pub fn count_down(&mut self) -> (counted: bool)
        ensures
            counted == (old(self).remaining > 0),
            final(self).remaining == if counted {
                (old(self).remaining - 1) as usize
            } else {
                old(self).remaining
            },
            final(self).warmup == old(self).warmup,
            final(self).scroll == old(self).scroll,
            final(self).keys_sent == old(self).keys_sent,
            final(self).cursor_walked == old(self).cursor_walked,
            final(self).last_focus == old(self).last_focus,
    {
        if self.remaining == 0 {
            return false;
        }
        self.remaining = self.remaining - 1;
        true
    }
}

/// The CLSID of an entry that names one: a COM handler with a CLSID, or a
/// packaged entry.
pub open spec fn clsid(entry: ContextEntry) -> Option<Seq<char>> {
    match entry.kind {
        EntryKind::ShellEx { clsid, .. } => if clsid@.len() > 0 {
            Some(clsid@)
        } else {
            None
        },
        EntryKind::PackagedVerb { clsid, .. } => Some(clsid@),
        _ => None,
    }
}

/// The CLSID of a COM handler, if this entry is one and names it. Shared by
/// the switches and the menu, so the two cannot disagree about what can be
/// blocked.
pub fn clsid_of(entry: &ContextEntry) -> (result: Option<&str>)
    ensures
        match result {
            Some(text) => clsid(*entry) == Some(text@),
            None => clsid(*entry) is None,
        },
{
    match &entry.kind {
        EntryKind::ShellEx { clsid, .. } => if clsid.as_str().unicode_len() > 0 {
            Some(clsid.as_str())
        } else {
            None
        },
        EntryKind::PackagedVerb { clsid, .. } => Some(clsid.as_str()),
        _ => None,
    }
}

/// Is this category read for every file, whatever its type? Levels 1 and 2
/// of the resolution chain are.
pub fn applies_to_every_file_type(category: &Category) -> (result: bool)
    ensures
        result == (category@ is AllFiles || category@ is AllFilesystemObjects),
{
    match category {
        Category::AllFiles | Category::AllFilesystemObjects => true,
        _ => false,
    }
}

/// Everything an entry can actually be told to do, in menu order: only the
/// direction that would change something, only what its kind has, and a
/// position only for a single static verb.
pub open spec fn offered(entry: ContextEntry, alone: bool) -> Seq<ActionView> {
    let visibility = if entry.hidden {
        ActionView::Show
    } else {
        ActionView::Hide
    };
    match entry.kind {
        EntryKind::PackagedVerb { blocked_machine, .. } => seq![
            visibility,
            if blocked_machine {
                ActionView::Unblock
            } else {
                ActionView::Block
            },
        ],
        _ => {
            let shift = if entry.extended {
                ActionView::AlwaysShow
            } else {
                ActionView::ShiftOnly
            };
            let blocking = if clsid(entry) is Some {
                seq![
                    if entry.kind matches EntryKind::ShellEx { blocked: true, .. } {
                        ActionView::Unblock
                    } else {
                        ActionView::Block
                    },
                ]
            } else {
                Seq::empty()
            };
            let here = opt_view(entry.position);
            let positions = if alone && entry.kind is Verb {
                (if here != Some("Top"@) {
                    seq![ActionView::SetPosition(Some("Top"@))]
                } else {
                    Seq::empty()
                }) + (if here != Some("Bottom"@) {
                    seq![ActionView::SetPosition(Some("Bottom"@))]
                } else {
                    Seq::empty()
                }) + (if here != None::<Seq<char>> {
                    seq![ActionView::SetPosition(None)]
                } else {
                    Seq::empty()
                })
            } else {
                Seq::empty()
            };
            seq![visibility, shift] + blocking + positions + seq![ActionView::Delete]
        },
    }
}

/// The actions as the values they hold.
pub open spec fn action_views(actions: Seq<Action>) -> Seq<ActionView> {
    actions.map_values(|a: Action| a@)
}

/// Pushes an action and keeps the views in step.
fn offer(out: &mut Vec<Action>, action: Action)
    ensures
        action_views(final(out)@) == action_views(old(out)@).push(action@),
{
    out.push(action);
    assert(action_views(out@) =~= action_views(old(out)@).push(action@));
}

/// Everything this entry can actually be told to do, in menu order.
pub fn actions_for(entry: &ContextEntry, alone: bool) -> (result: Vec<Action>)
    ensures
        action_views(result@) == offered(*entry, alone),
{
    let mut out: Vec<Action> = Vec::new();
    offer(&mut out, if entry.hidden { Action::Show } else { Action::Hide });
    // A packaged entry has no Extended flag, no position and no key to
    // delete: its menu offers exactly what the plan can do for it.
    if let EntryKind::PackagedVerb { blocked_machine, .. } = &entry.kind {
        offer(&mut out, if *blocked_machine { Action::Unblock } else { Action::Block });
        assert(action_views(out@) =~= offered(*entry, alone));
        return out;
    }
    offer(&mut out, if entry.extended { Action::AlwaysShow } else { Action::ShiftOnly });
    let ghost after_shift = action_views(out@);
    if clsid_of(entry).is_some() {
        let blocked = match &entry.kind {
            EntryKind::ShellEx { blocked, .. } => *blocked,
            _ => false,
        };
        offer(&mut out, if blocked { Action::Unblock } else { Action::Block });
    }
    let ghost after_block = action_views(out@);
    // Position only for a single entry: twenty rows all sent to the top are
    // alphabetical again, one block higher.
    let is_verb = match &entry.kind {
        EntryKind::Verb { .. } => true,
        _ => false,
    };
    if alone && is_verb {
        let at_top = match &entry.position {
            Some(p) => text_eq(p.as_str(), "Top"),
            None => false,
        };
        if !at_top {
            offer(&mut out, Action::SetPosition(Some(String::from_str("Top"))));
        }
        let at_bottom = match &entry.position {
            Some(p) => text_eq(p.as_str(), "Bottom"),
            None => false,
        };
        if !at_bottom {
            offer(&mut out, Action::SetPosition(Some(String::from_str("Bottom"))));
        }
        if entry.position.is_some() {
            offer(&mut out, Action::SetPosition(None));
        }
    }
    offer(&mut out, Action::Delete);
    assert(action_views(out@) =~= offered(*entry, alone));
    out
}

/// The nearest category an entry can actually be created in: a file type
/// stays, a ProgID or a bare extension becomes the extension's
/// `SystemFileAssociations` key, a base category stays, the command store has
/// none.
pub open spec fn creatable(category: CategoryView) -> Option<CategoryView> {
    match category {
        CategoryView::PerceivedType(_) | CategoryView::ExtAssoc(_) => Some(category),
        CategoryView::ProgId { from_ext, .. } => Some(CategoryView::ExtAssoc(from_ext)),
        CategoryView::ExtDirect(ext) => Some(CategoryView::ExtAssoc(ext)),
        CategoryView::CommandStore => None,
        _ => Some(category),
    }
}

/// The nearest category an entry can actually be created in.
pub fn creatable_category(category: &Category) -> (result: Option<Category>)
    ensures
        match result {
            Some(c) => creatable(category@) == Some(c@),
            None => creatable(category@) is None,
        },
{
    match category {
        Category::PerceivedType(_) | Category::ExtAssoc(_) => Some(category.copied()),
        Category::ProgId { from_ext, .. } => Some(Category::ExtAssoc(from_ext.clone())),
        Category::ExtDirect(ext) => Some(Category::ExtAssoc(ext.clone())),
        Category::CommandStore => None,
        _ => Some(category.copied()),
    }
}

/// The category a new entry starts in: the extension on screen for a shared
/// ProgID, then where the clicked row can be created, then the extension
/// chosen in the file type tree, then the category chosen last, then
/// `Directory`.
pub open spec fn new_entry_category(
    focused: Option<ContextEntry>,
    tab: Tab,
    selected_ext: Option<Seq<char>>,
    selected_category: Option<CategoryView>,
) -> CategoryView {
    if focused is Some && focused->0.category is ProgId && tab == Tab::FileTypes
        && selected_ext is Some {
        CategoryView::ExtAssoc(selected_ext->0)
    } else if focused is Some && creatable(focused->0.category@) is Some {
        creatable(focused->0.category@)->0
    } else if tab == Tab::FileTypes && selected_ext is Some {
        CategoryView::ExtAssoc(selected_ext->0)
    } else {
        match selected_category {
            Some(c) => c,
            None => CategoryView::Directory,
        }
    }
}

/// The category a new entry should start in: where the user is looking.
pub fn category_for_new_entry(
    focused: Option<&ContextEntry>,
    tab: Tab,
    selected_ext: Option<&str>,
    selected_category: Option<&Category>,
) -> (result: Category)
    ensures
        result@ == new_entry_category(
            match focused {
                Some(e) => Some(*e),
                None => None,
            },
            tab,
            match selected_ext {
                Some(e) => Some(e@),
                None => None,
            },
            match selected_category {
                Some(c) => Some(c@),
                None => None,
            },
        ),
{
    // A ProgID is shared by several extensions, and the one on screen is
    // the one a click on it means.
    if let Some(entry) = focused {
        if let Category::ProgId { .. } = &entry.category {
            if tab == Tab::FileTypes {
                if let Some(ext) = selected_ext {
                    return Category::ExtAssoc(String::from_str(ext));
                }
            }
        }
    }
    if let Some(entry) = focused {
        if let Some(category) = creatable_category(&entry.category) {
            return category;
        }
    }
    if tab == Tab::FileTypes {
        if let Some(ext) = selected_ext {
            return Category::ExtAssoc(String::from_str(ext));
        }
    }
    match selected_category {
        Some(c) => c.copied(),
        None => Category::Directory,
    }
}


/// `needle` occurs in `text` once `text` is in lower case.
pub open spec fn mentions(text: Seq<char>, needle: Seq<char>) -> bool {
    occurs(lowercase_of(text), needle)
}

/// Does one of an entry's own texts mention `needle`: its name, key, path,
/// and what its kind names (command; CLSID and server; package)?
pub open spec fn own_match(entry: ContextEntry, needle: Seq<char>) -> bool {
    mentions(entry.display_name@, needle) || mentions(entry.key_name@, needle) || mentions(
        entry.registry_path@,
        needle,
    ) || match entry.kind {
        EntryKind::Verb { command, .. } => command is Some && mentions(command->0@, needle),
        EntryKind::ShellEx { clsid, server_path, .. } => mentions(clsid@, needle) || (
        server_path is Some && mentions(server_path->0@, needle)),
        EntryKind::PackagedVerb { clsid, package, package_name, .. } => mentions(
            package_name@,
            needle,
        ) || mentions(package@, needle) || mentions(clsid@, needle),
    }
}

/// Does a search for `needle` find one of `entries`, or one of their
/// submenu lines at any depth?
pub open spec fn found_in(entries: Seq<ContextEntry>, needle: Seq<char>) -> bool
    decreases entries,
{
    if entries.len() == 0 {
        false
    } else {
        let last = entries.last();
        found_in(entries.drop_last(), needle) || own_match(last, needle) || match last.kind {
            EntryKind::Verb { sub_commands, .. } => found_in(sub_commands@, needle),
            _ => false,
        }
    }
}

/// Does a search for `needle` find this entry? It does when it finds one of
/// the entry's submenu lines, because the right-click menu offers those.
pub open spec fn found(entry: ContextEntry, needle: Seq<char>) -> bool {
    found_in(seq![entry], needle)
}

fn text_mentions(text: &str, needle: &Vec<char>) -> (result: bool)
    ensures
        result == mentions(text@, needle@),
{
    contains_chars(&lowercase(text), needle)
}

fn entry_mentions(entry: &ContextEntry, needle: &Vec<char>) -> (result: bool)
    ensures
        result == own_match(*entry, needle@),
{
    if text_mentions(entry.display_name.as_str(), needle) || text_mentions(
        entry.key_name.as_str(),
        needle,
    ) || text_mentions(entry.registry_path.as_str(), needle) {
        return true;
    }
    match &entry.kind {
        EntryKind::Verb { command, .. } => match command {
            Some(c) => text_mentions(c.as_str(), needle),
            None => false,
        },
        EntryKind::ShellEx { clsid, server_path, .. } => text_mentions(clsid.as_str(), needle)
            || match server_path {
            Some(p) => text_mentions(p.as_str(), needle),
            None => false,
        },
        EntryKind::PackagedVerb { clsid, package, package_name, .. } => text_mentions(
            package_name.as_str(),
            needle,
        ) || text_mentions(package.as_str(), needle) || text_mentions(clsid.as_str(), needle),
    }
}

fn search_list(entries: &[ContextEntry], needle: &Vec<char>) -> (result: bool)
    ensures
        result == found_in(entries@, needle@),
    decreases entries@,
{
    let mut i: usize = 0;
    while i < entries.len()
        invariant
            i <= entries.len(),
            !found_in(entries@.subrange(0, i as int), needle@),
        decreases entries.len() - i,
    {
        let ghost prefix = entries@.subrange(0, i + 1);
        assert(prefix.drop_last() =~= entries@.subrange(0, i as int));
        assert(prefix.last() == entries@[i as int]);
        let entry = &entries[i];
        let nested = match &entry.kind {
            EntryKind::Verb { sub_commands, .. } => search_list(sub_commands.as_slice(), needle),
            _ => false,
        };
        if nested || entry_mentions(entry, needle) {
            proof {
                lemma_found_prefix(entries@, i + 1, needle@);
            }
            return true;
        }
        i = i + 1;
    }
    assert(entries@.subrange(0, i as int) =~= entries@);
    false
}

/// Finding something in a prefix finds it in the whole.
pub proof fn lemma_found_prefix(entries: Seq<ContextEntry>, k: int, needle: Seq<char>)
    requires
        0 <= k <= entries.len(),
        found_in(entries.subrange(0, k), needle),
    ensures
        found_in(entries, needle),
    decreases entries.len(),
{
    if k < entries.len() {
        assert(entries.drop_last().subrange(0, k) =~= entries.subrange(0, k));
        lemma_found_prefix(entries.drop_last(), k, needle);
    } else {
        assert(entries.subrange(0, k) =~= entries);
    }
}

/// Does a search for `needle` (already in lower case, as the search box
/// keeps it) find this entry, or one of its submenu lines?
pub fn matches_search(entry: &ContextEntry, needle: &str) -> (result: bool)
    ensures
        result == found(*entry, needle@),
{
    let wanted = chars_of(needle);
    // A submenu line matches for its entry: being told there is no such
    // entry would be a lie, since the right-click menu does offer it.
    let nested = match &entry.kind {
        EntryKind::Verb { sub_commands, .. } => search_list(sub_commands.as_slice(), &wanted),
        _ => false,
    };
    assert(seq![*entry].drop_last() =~= Seq::<ContextEntry>::empty());
    assert(seq![*entry].last() == *entry);
    assert(!found_in(Seq::<ContextEntry>::empty(), needle@));
    nested || entry_mentions(entry, &wanted)
}

/// How many entries there are, the lines of cascading menus included.
pub fn count_all(entries: &[ContextEntry]) -> (result: usize)
    requires
        total(entries@) <= usize::MAX,
    ensures
        result == total(entries@),
    decreases entries@,
{
    let mut count: usize = 0;
    let mut i: usize = 0;
    while i < entries.len()
        invariant
            i <= entries.len(),
            total(entries@) <= usize::MAX,
            count == total(entries@.subrange(0, i as int)),
        decreases entries.len() - i,
    {
        let ghost prefix = entries@.subrange(0, i + 1);
        assert(prefix.drop_last() =~= entries@.subrange(0, i as int));
        assert(prefix.last() == entries@[i as int]);
        proof {
            lemma_total_prefix(entries@, i + 1);
        }
        let nested = match &entries[i].kind {
            EntryKind::Verb { sub_commands, .. } => count_all(sub_commands.as_slice()),
            _ => 0,
        };
        count = count + 1 + nested;
        i = i + 1;
    }
    assert(entries@.subrange(0, i as int) =~= entries@);
    count
}

/// A prefix never counts more than the whole.
pub proof fn lemma_total_prefix(entries: Seq<ContextEntry>, k: int)
    requires
        0 <= k <= entries.len(),
    ensures
        total(entries.subrange(0, k)) <= total(entries),
    decreases entries.len(),
{
    if k < entries.len() {
        assert(entries.drop_last().subrange(0, k) =~= entries.subrange(0, k));
        lemma_total_prefix(entries.drop_last(), k);
    } else {
        assert(entries.subrange(0, k) =~= entries);
    }
}



/// Rows as the values they hold.
pub open spec fn row_views(rows: Seq<Row>) -> Seq<(usize, Seq<usize>)> {
    rows.map_values(|r: Row| (r.entry, r.path@))
}

/// The rows of `list`, the submenu lines under `path` of entry `entry`: each
/// line at `path` plus its index, then everything below it.
pub open spec fn rows_in(list: Seq<ContextEntry>, entry: usize, path: Seq<usize>) -> Seq<
    (usize, Seq<usize>),
>
    decreases list,
{
    if list.len() == 0 {
        Seq::empty()
    } else {
        let at = path.push((list.len() - 1) as usize);
        rows_in(list.drop_last(), entry, path) + seq![(entry, at)] + match list.last().kind {
            EntryKind::Verb { sub_commands, .. } => rows_in(sub_commands@, entry, at),
            _ => Seq::empty(),
        }
    }
}

/// The rows an entry is shown as: itself, then every line of its cascading
/// menus, depth first.
pub open spec fn tree_rows(item: ContextEntry, entry: usize, path: Seq<usize>) -> Seq<
    (usize, Seq<usize>),
> {
    seq![(entry, path)] + match item.kind {
        EntryKind::Verb { sub_commands, .. } => rows_in(sub_commands@, entry, path),
        _ => Seq::empty(),
    }
}

fn copy_path(path: &Vec<usize>) -> (result: Vec<usize>)
    ensures
        result@ == path@,
{
    let mut out: Vec<usize> = Vec::new();
    let mut i: usize = 0;
    while i < path.len()
        invariant
            i <= path.len(),
            out@ == path@.subrange(0, i as int),
        decreases path.len() - i,
    {
        out.push(path[i]);
        assert(out@ =~= path@.subrange(0, i + 1));
        i = i + 1;
    }
    assert(path@.subrange(0, i as int) =~= path@);
    out
}

fn push_rows(rows: &mut Vec<Row>, list: &[ContextEntry], entry: usize, path: &Vec<usize>)
    ensures
        row_views(final(rows)@) == row_views(old(rows)@) + rows_in(list@, entry, path@),
    decreases list@,
{
    let mut i: usize = 0;
    assert(row_views(rows@) =~= row_views(old(rows)@) + rows_in(list@.subrange(0, 0), entry, path@));
    while i < list.len()
        invariant
            i <= list.len(),
            row_views(rows@) == row_views(old(rows)@) + rows_in(
                list@.subrange(0, i as int),
                entry,
                path@,
            ),
        decreases list.len() - i,
    {
        let ghost prefix = list@.subrange(0, i + 1);
        assert(prefix.drop_last() =~= list@.subrange(0, i as int));
        assert(prefix.last() == list@[i as int]);
        let ghost before = row_views(rows@);
        let mut at = copy_path(path);
        at.push(i);
        let row = Row { entry, path: copy_path(&at) };
        rows.push(row);
        assert(row_views(rows@) =~= before + seq![(entry, at@)]);
        let ghost middle = row_views(rows@);
        match &list[i].kind {
            EntryKind::Verb { sub_commands, .. } => push_rows(rows, sub_commands.as_slice(), entry, &at),
            _ => {},
        }
        assert(row_views(rows@) =~= row_views(old(rows)@) + rows_in(prefix, entry, path@));
        i = i + 1;
    }
    assert(list@.subrange(0, i as int) =~= list@);
}

/// Appends the rows of `entry` at `row`: the entry itself, then everything
/// below it.
pub fn push_with_children(rows: &mut Vec<Row>, entry: &ContextEntry, row: Row)
    ensures
        row_views(final(rows)@) == row_views(old(rows)@) + tree_rows(*entry, row.entry, row.path@),
{
    let index = row.entry;
    let path = copy_path(&row.path);
    rows.push(row);
    assert(row_views(rows@) =~= row_views(old(rows)@) + seq![(index, path@)]);
    let ghost middle = row_views(rows@);
    match &entry.kind {
        EntryKind::Verb { sub_commands, .. } => push_rows(rows, sub_commands.as_slice(), index, &path),
        _ => {},
    }
    assert(row_views(rows@) =~= row_views(old(rows)@) + tree_rows(*entry, index, path@));
}


/// No row is its own ancestor, and of two rows at most one contains the
/// other.
pub proof fn law_ancestry_is_strict(a: usize, p: Seq<usize>, b: usize, q: Seq<usize>)
    ensures
        !contains_row(a, p, a, p),
        !(contains_row(a, p, b, q) && contains_row(b, q, a, p)),
{
}

/// A row below a row below a third is below the third as well: dropping
/// every descendant of a selected row drops the grandchildren too.
pub proof fn law_ancestry_is_transitive(
    a: usize,
    p: Seq<usize>,
    b: usize,
    q: Seq<usize>,
    c: usize,
    r: Seq<usize>,
)
    requires
        contains_row(a, p, b, q),
        contains_row(b, q, c, r),
    ensures
        contains_row(a, p, c, r),
{
    assert(r.subrange(0, p.len() as int) =~= r.subrange(0, q.len() as int).subrange(
        0,
        p.len() as int,
    ));
}

/// A list cursor lands on a row that exists, wherever it stood before,
/// and only an empty list has none.
pub proof fn law_cursor_stays_in_the_list(current: Option<usize>, count: usize, movement: Movement)
    ensures
        cursor_after(current, count, movement) is None <==> count == 0,
        cursor_after(current, count, movement) matches Some(index) ==> index < count,
{
    if count > 0 {
        assert(((count - 1) as usize) as int == count - 1);
        match current {
            Some(index) => {
                assert(index + 1 < count ==> ((index + 1) as usize) as int == index + 1);
                assert(index > 0 ==> ((index - 1) as usize) as int == index - 1);
            },
            None => {},
        }
    }
}

/// The menu offers the visibility direction that would change something,
/// first and only once: `Show` for a hidden entry, `Hide` for a shown one,
/// never both and never the other.
pub proof fn law_only_the_direction_that_changes(entry: ContextEntry, alone: bool)
    ensures
        offered(entry, alone)[0] == if entry.hidden {
            ActionView::Show
        } else {
            ActionView::Hide
        },
        forall|i: int|
            1 <= i < offered(entry, alone).len() ==> !(#[trigger] offered(entry, alone)[i] is Show)
                && !(offered(entry, alone)[i] is Hide),
        forall|i: int|
            0 <= i < offered(entry, alone).len() && #[trigger] offered(entry, alone)[i]
                is ShiftOnly ==> !entry.extended,
        forall|i: int|
            0 <= i < offered(entry, alone).len() && #[trigger] offered(entry, alone)[i]
                is AlwaysShow ==> entry.extended,
{
}

/// A group of rows is never offered a position: twenty entries all sent to
/// the top are alphabetical again. A single entry is never offered the
/// position it already has.
pub proof fn law_positions_only_for_one(entry: ContextEntry)
    ensures
        forall|i: int|
            0 <= i < offered(entry, false).len() ==> !(#[trigger] offered(entry, false)[i]
                is SetPosition),
        forall|i: int|
            0 <= i < offered(entry, true).len() ==> #[trigger] offered(entry, true)[i]
                != ActionView::SetPosition(opt_view(entry.position)),
{
}

/// Whatever finds one entry of a list finds the list.
pub proof fn lemma_found_member(list: Seq<ContextEntry>, i: int, needle: Seq<char>)
    requires
        0 <= i < list.len(),
        found(list[i], needle),
    ensures
        found_in(list, needle),
    decreases list.len(),
{
    let one = seq![list[i]];
    assert(one.drop_last() =~= Seq::<ContextEntry>::empty());
    assert(one.last() == list[i]);
    assert(!found_in(Seq::<ContextEntry>::empty(), needle));
    if i < list.len() - 1 {
        assert(list.drop_last()[i] == list[i]);
        lemma_found_member(list.drop_last(), i, needle);
    }
}

/// A search that finds a submenu line finds the entry it belongs to: the
/// right-click menu does offer that line.
pub proof fn law_a_line_finds_its_entry(entry: ContextEntry, i: int, needle: Seq<char>)
    requires
        entry.kind is Verb,
        0 <= i < entry.kind->sub_commands@.len(),
        found(entry.kind->sub_commands@[i], needle),
    ensures
        found(entry, needle),
{
    lemma_found_member(entry.kind->sub_commands@, i, needle);
    let one = seq![entry];
    assert(one.drop_last() =~= Seq::<ContextEntry>::empty());
    assert(one.last() == entry);
    assert(!found_in(Seq::<ContextEntry>::empty(), needle));
}


/// One step further down: if `path` leads to an entry whose menu has a line
/// at `k`, then `path` and `k` lead to that line.
pub proof fn lemma_walk_push(root: ContextEntry, path: Seq<usize>, k: usize)
    requires
        walk(root, path) matches Some(node) && kids(node) matches Some(list) && k < list.len(),
    ensures
        walk(root, path.push(k)) == Some(kids(walk(root, path)->0)->0[k as int]),
    decreases path.len(),
{
    let list = kids(root)->0;
    if path.len() == 0 {
        assert(path.push(k) =~= seq![k]);
        assert(seq![k].drop_first() =~= Seq::<usize>::empty());
        assert(walk(list[k as int], Seq::<usize>::empty()) == Some(list[k as int]));
    } else {
        let next = list[path[0] as int];
        assert(path.push(k).drop_first() =~= path.drop_first().push(k));
        assert(path.push(k)[0] == path[0]);
        assert(walk(root, path) == walk(next, path.drop_first()));
        lemma_walk_push(next, path.drop_first(), k);
    }
}

/// Every menu in `list`, and `list` itself, has fewer lines than `usize`
/// can count: what any list held in memory satisfies.
pub open spec fn fits(list: Seq<ContextEntry>) -> bool
    decreases list,
{
    list.len() <= usize::MAX && (list.len() == 0 || (fits(list.drop_last()) && match list.last().kind {
        EntryKind::Verb { sub_commands, .. } => fits(sub_commands@),
        _ => true,
    }))
}

/// The lines of `list` in the order the table shows them: each line, then
/// everything below it.
pub open spec fn lines_in(list: Seq<ContextEntry>) -> Seq<ContextEntry>
    decreases list,
{
    if list.len() == 0 {
        Seq::empty()
    } else {
        let last = list.last();
        lines_in(list.drop_last()) + seq![last] + match last.kind {
            EntryKind::Verb { sub_commands, .. } => lines_in(sub_commands@),
            _ => Seq::empty(),
        }
    }
}

/// An entry and every line below it, parent before children.
pub open spec fn lines_of(item: ContextEntry) -> Seq<ContextEntry> {
    seq![item] + match item.kind {
        EntryKind::Verb { sub_commands, .. } => lines_in(sub_commands@),
        _ => Seq::empty(),
    }
}

/// Every row `rows_in` makes for the lines of the entry at `path` leads
/// somewhere, as long as those lines are the start of that entry's menu.
pub proof fn lemma_rows_in_resolve(
    root: ContextEntry,
    path: Seq<usize>,
    list: Seq<ContextEntry>,
    entry: usize,
)
    requires
        fits(list),
        walk(root, path) matches Some(node) && (list.len() == 0 || (kids(node) matches Some(
            full,
        ) && list.len() <= full.len() && list == full.subrange(0, list.len() as int))),
    ensures
        rows_in(list, entry, path).len() == lines_in(list).len(),
        forall|j: int|
            0 <= j < rows_in(list, entry, path).len() ==> (#[trigger] rows_in(list, entry, path)[j]).0
                == entry && walk(root, rows_in(list, entry, path)[j].1) == Some(lines_in(list)[j]),
    decreases list,
{
    if list.len() > 0 {
        let node = walk(root, path)->0;
        let full = kids(node)->0;
        let n = list.len() - 1;
        let at = path.push(n as usize);
        let front = list.drop_last();
        assert(front.len() == 0 || front == full.subrange(0, front.len() as int));
        lemma_rows_in_resolve(root, path, front, entry);
        lemma_walk_push(root, path, n as usize);
        let last = list.last();
        assert(list[n] == full.subrange(0, list.len() as int)[n]);
        assert(last == full[n]);
        assert(walk(root, at) == Some(last));
        let a = rows_in(front, entry, path);
        let b = match last.kind {
            EntryKind::Verb { sub_commands, .. } => {
                let below = sub_commands@;
                if below.len() > 0 {
                    assert(kids(last) == Some(below));
                    assert(below == below.subrange(0, below.len() as int));
                }
                assert(decreases_to!(list => list.last()));
                assert(decreases_to!(list.last() => list.last().kind));
                assert(decreases_to!(list.last().kind => sub_commands));
                assert(decreases_to!(sub_commands => sub_commands@));
                lemma_rows_in_resolve(root, at, below, entry);
                rows_in(below, entry, at)
            },
            _ => Seq::empty(),
        };
        assert(rows_in(list, entry, path) == a + seq![(entry, at)] + b);
        let la = lines_in(front);
        let lb = match last.kind {
            EntryKind::Verb { sub_commands, .. } => lines_in(sub_commands@),
            _ => Seq::empty(),
        };
        assert(lines_in(list) == la + seq![last] + lb);
        assert forall|j: int| 0 <= j < rows_in(list, entry, path).len() implies (
        #[trigger] rows_in(list, entry, path)[j]).0 == entry && walk(
            root,
            rows_in(list, entry, path)[j].1,
        ) == Some(lines_in(list)[j]) by {
            if j < a.len() {
                assert(rows_in(list, entry, path)[j] == a[j]);
                assert(lines_in(list)[j] == la[j]);
            } else if j == a.len() {
                assert(rows_in(list, entry, path)[j] == (entry, at));
                assert(lines_in(list)[j] == last);
            } else {
                assert(rows_in(list, entry, path)[j] == b[j - a.len() - 1]);
                assert(lines_in(list)[j] == lb[j - a.len() - 1]);
            }
        }
    }
}

/// Every row the table shows for an entry names that entry and resolves to
/// a line that exists: the entry itself, then its submenu lines, each
/// followed by the lines below it. A submenu line's path always fits the
/// scan it was made from.
pub proof fn law_every_row_resolves(entries: Seq<ContextEntry>, entry: usize)
    requires
        entry < entries.len(),
        fits(seq![entries[entry as int]]),
    ensures
        tree_rows(entries[entry as int], entry, Seq::empty()).len() == lines_of(entries[entry as int]).len(),
        forall|j: int|
            0 <= j < tree_rows(entries[entry as int], entry, Seq::empty()).len() ==> (
            #[trigger] tree_rows(entries[entry as int], entry, Seq::empty())[j]).0 == entry
                && resolved(
                entries,
                entry,
                tree_rows(entries[entry as int], entry, Seq::empty())[j].1,
            ) == Some(lines_of(entries[entry as int])[j]),
{
    let root = entries[entry as int];
    assert(seq![root].drop_last() =~= Seq::<ContextEntry>::empty());
    assert(seq![root].last() == root);
    let below = match root.kind {
        EntryKind::Verb { sub_commands, .. } => sub_commands@,
        _ => Seq::empty(),
    };
    assert(fits(below));
    if below.len() > 0 {
        assert(kids(root) == Some(below));
        assert(below == below.subrange(0, below.len() as int));
    }
    lemma_rows_in_resolve(root, Seq::empty(), below, entry);
    let rows = tree_rows(root, entry, Seq::empty());
    let b = rows_in(below, entry, Seq::empty());
    assert(rows == seq![(entry, Seq::<usize>::empty())] + b);
    let lb = match root.kind {
        EntryKind::Verb { sub_commands, .. } => lines_in(sub_commands@),
        _ => Seq::empty(),
    };
    assert(lines_of(root) == seq![root] + lb);
    assert forall|j: int| 0 <= j < rows.len() implies (#[trigger] rows[j]).0 == entry && resolved(
        entries,
        entry,
        rows[j].1,
    ) == Some(lines_of(root)[j]) by {
        if j > 0 {
            assert(rows[j] == b[j - 1]);
            assert(lines_of(root)[j] == lb[j - 1]);
        }
    }
}

/// An empty search finds every entry.
pub proof fn law_an_empty_search_finds_everything(entry: ContextEntry)
    ensures
        found(entry, Seq::empty()),
{
    let hay = lowercase_of(entry.display_name@);
    assert(occurs_at(hay, Seq::<char>::empty(), 0)) by {
        assert(hay.subrange(0, 0) =~= Seq::<char>::empty());
    }
    assert(own_match(entry, Seq::empty()));
    let one = seq![entry];
    assert(one.drop_last() =~= Seq::<ContextEntry>::empty());
    assert(one.last() == entry);
}

/// Every text an entry shows is searched: its name, its key, its registry
/// path, and what its kind names (the command line of a verb; the CLSID and
/// the server DLL of a COM handler; the package, its name and its CLSID for a
/// packaged entry). Whichever of them mentions the needle in lower case, the
/// search finds the entry.
pub proof fn law_every_shown_text_is_searched(entry: ContextEntry, needle: Seq<char>)
    ensures
        occurs(lowercase_of(entry.display_name@), needle) ==> found(entry, needle),
        occurs(lowercase_of(entry.key_name@), needle) ==> found(entry, needle),
        occurs(lowercase_of(entry.registry_path@), needle) ==> found(entry, needle),
        entry.kind matches EntryKind::Verb { command: Some(c), .. } && occurs(
            lowercase_of(c@),
            needle,
        ) ==> found(entry, needle),
        entry.kind matches EntryKind::ShellEx { clsid, .. } && occurs(lowercase_of(clsid@), needle)
            ==> found(entry, needle),
        entry.kind matches EntryKind::ShellEx { server_path: Some(p), .. } && occurs(
            lowercase_of(p@),
            needle,
        ) ==> found(entry, needle),
        entry.kind matches EntryKind::PackagedVerb { package_name, .. } && occurs(
            lowercase_of(package_name@),
            needle,
        ) ==> found(entry, needle),
        entry.kind matches EntryKind::PackagedVerb { package, .. } && occurs(
            lowercase_of(package@),
            needle,
        ) ==> found(entry, needle),
        entry.kind matches EntryKind::PackagedVerb { clsid, .. } && occurs(
            lowercase_of(clsid@),
            needle,
        ) ==> found(entry, needle),
{
    let one = seq![entry];
    assert(one.drop_last() =~= Seq::<ContextEntry>::empty());
    assert(one.last() == entry);
    assert(own_match(entry, needle) ==> found(entry, needle));
}

/// A COM handler that names its CLSID is offered exactly one of Block and
/// Unblock, the one that would change something: Block while it is active,
/// Unblock once it is blocked. A packaged entry likewise, by whether it is
/// blocked for the machine.
pub proof fn law_block_or_unblock_as_it_stands(entry: ContextEntry, alone: bool)
    ensures
        entry.kind matches EntryKind::ShellEx { clsid, blocked, .. } ==> (clsid@.len() > 0 ==> {
            &&& offered(entry, alone).contains(ActionView::Block) <==> !blocked
            &&& offered(entry, alone).contains(ActionView::Unblock) <==> blocked
        }),
        entry.kind matches EntryKind::PackagedVerb { blocked_machine, .. } ==> {
            &&& offered(entry, alone).contains(ActionView::Block) <==> !blocked_machine
            &&& offered(entry, alone).contains(ActionView::Unblock) <==> blocked_machine
        },
{
    let list = offered(entry, alone);
    match entry.kind {
        EntryKind::ShellEx { clsid, blocked, .. } => {
            if clsid@.len() > 0 {
                let wanted = if blocked {
                    ActionView::Unblock
                } else {
                    ActionView::Block
                };
                let other = if blocked {
                    ActionView::Block
                } else {
                    ActionView::Unblock
                };
                assert(list[2] == wanted);
                assert forall|i: int| 0 <= i < list.len() implies list[i] != other by {
                    if i != 2 {
                        assert(!(list[i] is Block) && !(list[i] is Unblock));
                    }
                }
            }
        },
        EntryKind::PackagedVerb { blocked_machine, .. } => {
            assert(list[1] == if blocked_machine {
                ActionView::Unblock
            } else {
                ActionView::Block
            });
        },
        _ => {},
    }
}

} // verus!
