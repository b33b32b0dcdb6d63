//! Entries of one's own: what the form and `ctxmenu create` assemble.

use vstd::prelude::*;

use crate::chars::{chars_of, decimal, decimal_chars, fill, filled, number_text, opt_view, space, string_of};
use crate::i18n::Strings;
use crate::model::{Category, CategoryView};

verus! {

/// One line of a submenu of one's own.
#[derive(Debug, Clone)]
pub struct NewChild {
    /// The key under the parent's `shell`; its leading number is what orders
    /// the submenu.
    pub key_name: String,
    pub display_name: String,
    pub command: String,
    pub icon: Option<String>,
}

/// An entry to be written under `HKCU`.
#[derive(Debug, Clone)]
pub struct NewEntry {
    pub category: Category,
    pub key_name: String,
    pub display_name: String,
    /// The command line; unused when the entry is a submenu.
    pub command: String,
    pub icon: Option<String>,
    /// `Top`, `Bottom`, or whatever else was asked for.
    pub position: Option<String>,
    /// Only shown with Shift held.
    pub extended: bool,
    /// The lines of the submenu, in menu order; empty for a plain entry.
    pub children: Vec<NewChild>,
}

/// A submenu line as the text it holds.
pub struct NewChildView {
    pub key_name: Seq<char>,
    pub display_name: Seq<char>,
    pub command: Seq<char>,
    pub icon: Option<Seq<char>>,
}

/// An entry as the text it holds.
pub struct NewEntryView {
    pub category: CategoryView,
    pub key_name: Seq<char>,
    pub display_name: Seq<char>,
    pub command: Seq<char>,
    pub icon: Option<Seq<char>>,
    pub position: Option<Seq<char>>,
    pub extended: bool,
    pub children: Seq<NewChildView>,
}

impl View for NewChild {
    type V = NewChildView;

    open spec fn view(&self) -> NewChildView {
        NewChildView {
            key_name: self.key_name@,
            display_name: self.display_name@,
            command: self.command@,
            icon: opt_view(self.icon),
        }
    }
}

impl View for NewEntry {
    type V = NewEntryView;

    open spec fn view(&self) -> NewEntryView {
        NewEntryView {
            category: self.category@,
            key_name: self.key_name@,
            display_name: self.display_name@,
            command: self.command@,
            icon: opt_view(self.icon),
            position: opt_view(self.position),
            extended: self.extended,
            children: self.children@.map_values(|child: NewChild| child@),
        }
    }
}

impl NewEntry {
    /// Does this entry open a submenu rather than run a command?
    pub fn is_submenu(&self) -> (result: bool)
        ensures
            result == (self.children@.len() > 0),
    {
        !self.children.is_empty()
    }
}

/// A character as it may stand in a key name: white space and the
/// backslash, which would open a subkey, become underscores.
pub open spec fn key_char(c: char) -> char {
    if space(c) || c == '\\' {
        '_'
    } else {
        c
    }
}

/// A display name as a key name.
pub open spec fn key_text(name: Seq<char>) -> Seq<char> {
    name.map_values(|c: char| key_char(c))
}

/// The key name proposed for an entry nobody named.
pub open spec fn suggested_key(display_name: Seq<char>) -> Seq<char> {
    "ctxmenu_"@ + key_text(display_name)
}

/// `n` with at least two digits, as `{:02}` writes it.
pub open spec fn two_digits(n: nat) -> Seq<char> {
    if n < 10 {
        seq!['0'] + decimal(n)
    } else {
        decimal(n)
    }
}

/// The key name of the submenu line at `index`: its place, counted from
/// one, then its name.
pub open spec fn suggested_child_key(index: nat, display_name: Seq<char>) -> Seq<char> {
    two_digits(index + 1) + seq!['_'] + key_text(display_name)
}

fn key_chars(name: &str, out: &mut Vec<char>)
    ensures
        final(out)@ == old(out)@ + key_text(name@),
{
    let v = chars_of(name);
    let ghost start = out@;
    let mut i: usize = 0;
    while i < v.len()
        invariant
            i <= v.len(),
            v@ == name@,
            out@ == start + key_text(v@.subrange(0, i as int)),
        decreases v.len() - i,
    {
        let c = v[i];
        let safe = if crate::chars::is_space(c) || c == '\\' {
            '_'
        } else {
            c
        };
        out.push(safe);
        proof {
            assert(key_text(v@.subrange(0, i + 1)) =~= key_text(v@.subrange(0, i as int)).push(
                key_char(c),
            ));
        }
        i = i + 1;
    }
    assert(v@.subrange(0, v.len() as int) =~= v@);
}

/// The key name for an entry that was given none: `ctxmenu_` and the
/// display name, with spaces and backslashes turned into underscores.
pub fn suggest_key_name(display_name: &str) -> (result: String)
    ensures
        result@ == suggested_key(display_name@),
{
    let mut out = chars_of("ctxmenu_");
    key_chars(display_name, &mut out);
    string_of(out.as_slice())
}

/// The key name of the submenu line at `index`: `01_`, `02_`, … and the
/// line's name, so the numbers keep the lines in the order given.
pub fn suggest_child_key_name(index: usize, display_name: &str) -> (result: String)
    requires
        index < usize::MAX,
    ensures
        result@ == suggested_child_key(index as nat, display_name@),
{
    let number = index + 1;
    let mut out: Vec<char> = Vec::new();
    if number < 10 {
        out.push('0');
    }
    let mut digits = decimal_chars(number);
    out.append(&mut digits);
    out.push('_');
    key_chars(display_name, &mut out);
    string_of(out.as_slice())
}


/// A fresh, empty line of a submenu; its key name comes from its place.
pub fn empty_child() -> (result: NewChild)
    ensures
        result@ == (NewChildView {
            key_name: Seq::empty(),
            display_name: Seq::empty(),
            command: Seq::empty(),
            icon: None,
        }),
{
    NewChild { key_name: String::new(), display_name: String::new(), command: String::new(), icon: None }
}

/// What can be wrong with an entry before it is written.
#[derive(Debug, Clone, PartialEq, Eq)]
pub enum Fault {
    MissingKeyName,
    BackslashInKeyName,
    MissingDisplayName,
    MissingCommand,
    /// `%1` on a folder background, where there is no file.
    PercentOneInBackground,
    AmpersandInDisplayName,
    /// A position other than `Top` or `Bottom`, as written.
    UnusualPosition(String),
    CommandBesideSubmenu,
    /// The line of the submenu, counted as the form shows it.
    ChildMissingDisplayName(usize),
    ChildMissingCommand(usize),
    DuplicateChildKeyName(String),
    CategoryNotCreatable,
    UnusableKeyName,
}

/// What a fault says, in the language on screen.
pub open spec fn fault_message(fault: Fault, tr: Strings) -> Seq<char> {
    match fault {
        Fault::MissingKeyName => tr.fault_key_name@,
        Fault::BackslashInKeyName => tr.fault_backslash@,
        Fault::MissingDisplayName => tr.fault_display_name@,
        Fault::MissingCommand => tr.fault_command@,
        Fault::PercentOneInBackground => tr.fault_percent_one@,
        Fault::AmpersandInDisplayName => tr.fault_ampersand@,
        Fault::UnusualPosition(value) => filled(tr.fmt_fault_position@, value@),
        Fault::CommandBesideSubmenu => tr.fault_command_in_submenu@,
        Fault::ChildMissingDisplayName(n) => filled(tr.fmt_fault_child_name@, decimal(n as nat)),
        Fault::ChildMissingCommand(n) => filled(tr.fmt_fault_child_command@, decimal(n as nat)),
        Fault::DuplicateChildKeyName(name) => filled(tr.fmt_fault_child_duplicate@, name@),
        Fault::CategoryNotCreatable => tr.fault_category@,
        Fault::UnusableKeyName => tr.fault_key_name_refused@,
    }
}

/// What a fault says, in the language on screen.
pub fn fault_text(fault: &Fault, tr: &Strings) -> (result: String)
    ensures
        result@ == fault_message(*fault, *tr),
{
    match fault {
        Fault::MissingKeyName => String::from_str(tr.fault_key_name),
        Fault::BackslashInKeyName => String::from_str(tr.fault_backslash),
        Fault::MissingDisplayName => String::from_str(tr.fault_display_name),
        Fault::MissingCommand => String::from_str(tr.fault_command),
        Fault::PercentOneInBackground => String::from_str(tr.fault_percent_one),
        Fault::AmpersandInDisplayName => String::from_str(tr.fault_ampersand),
        Fault::UnusualPosition(value) => fill(tr.fmt_fault_position, value.as_str()),
        Fault::CommandBesideSubmenu => String::from_str(tr.fault_command_in_submenu),
        Fault::ChildMissingDisplayName(n) => fill(tr.fmt_fault_child_name, number_text(*n).as_str()),
        Fault::ChildMissingCommand(n) => fill(tr.fmt_fault_child_command, number_text(*n).as_str()),
        Fault::DuplicateChildKeyName(name) => fill(tr.fmt_fault_child_duplicate, name.as_str()),
        Fault::CategoryNotCreatable => String::from_str(tr.fault_category),
        Fault::UnusableKeyName => String::from_str(tr.fault_key_name_refused),
    }
}

} // verus!
