//! What the new Windows 11 menu shows for the entries this tool recorded:
//! which entry a selection gets, and the command line a click starts.
//!
//! The menu reads the recorded entries itself, tolerantly: a category it
//! does not know shows the entry rather than hiding it.

use vstd::prelude::*;

use crate::chars::{chars_of, extend_range, find_from, first_index, lowercase, lowercase_of, opt_view, space, string_of, trim_start, trimmed};

verus! {

/// A recorded category, as the menu reads it: a bare name, an object by
/// the fields the menu asks about, or anything else.
#[derive(Debug, Clone)]
pub enum CategoryValue {
    /// A name such as `Directory`.
    Name(String),
    Object(CategoryObject),
    /// Neither a name nor an object.
    Other,
}

/// The fields of a recorded category object the menu asks about. Each is
/// `None` when the object lacks it, and `Some(None)` when it is there but
/// holds no text.
#[derive(Debug, Clone)]
pub struct CategoryObject {
    pub ext_assoc: Option<Option<String>>,
    pub ext_direct: Option<Option<String>>,
    /// The `from_ext` inside `ProgId`.
    pub prog_id_from_ext: Option<Option<String>>,
    pub perceived_type: Option<Option<String>>,
}

/// One recorded entry, as the menu needs it.
#[derive(Debug, Clone)]
pub struct Entry {
    pub display_name: String,
    pub command: String,
    pub icon: Option<String>,
    pub category: CategoryValue,
    pub children: Vec<Child>,
}

/// One line of a recorded submenu.
#[derive(Debug, Clone)]
pub struct Child {
    pub display_name: String,
    pub command: String,
    pub icon: Option<String>,
}

/// Where an entry wants to appear, reduced to what a selection can answer.
#[derive(Debug, Clone, PartialEq, Eq)]
pub enum Applies {
    Files,
    Everything,
    Folders,
    /// An extension, in lower case, dot included.
    Ext(String),
    /// A perceived type such as `image`, in lower case.
    Perceived(String),
}

/// Where an entry wants to appear, as the values it holds.
pub enum AppliesView {
    Files,
    Everything,
    Folders,
    Ext(Seq<char>),
    Perceived(Seq<char>),
}

impl View for Applies {
    type V = AppliesView;

    open spec fn view(&self) -> AppliesView {
        match self {
            Applies::Files => AppliesView::Files,
            Applies::Everything => AppliesView::Everything,
            Applies::Folders => AppliesView::Folders,
            Applies::Ext(e) => AppliesView::Ext(e@),
            Applies::Perceived(p) => AppliesView::Perceived(p@),
        }
    }
}

/// The category names this menu knows.
pub open spec fn known_name(name: Seq<char>) -> bool {
    ||| name == "AllFiles"@
    ||| name == "Unknown"@
    ||| name == "Directory"@
    ||| name == "Folder"@
    ||| name == "Drive"@
    ||| name == "DirectoryBackground"@
    ||| name == "DesktopBackground"@
    ||| name == "DirectoryAudio"@
    ||| name == "DirectoryImage"@
    ||| name == "DirectoryVideo"@
}

/// Where a named category appears: files for the file categories, folders
/// for the folder, background and folder-content ones, everywhere for a
/// name this menu does not know.
pub open spec fn named_reach(name: Seq<char>) -> AppliesView {
    if name == "AllFiles"@ || name == "Unknown"@ {
        AppliesView::Files
    } else if name == "Directory"@ || name == "Folder"@ || name == "Drive"@
        || name == "DirectoryBackground"@ || name == "DesktopBackground"@
        || name == "DirectoryAudio"@ || name == "DirectoryImage"@ || name == "DirectoryVideo"@ {
        AppliesView::Folders
    } else {
        AppliesView::Everything
    }
}

/// The text of a field, when the field is there and holds text.
pub open spec fn field_text(field: Option<Option<String>>) -> Option<Seq<char>> {
    match field {
        Some(Some(text)) => Some(text@),
        _ => None,
    }
}

/// Where a recorded category appears. `ExtAssoc` is asked before
/// `ExtDirect` (and only when it is missing), then `ProgId`'s extension,
/// then the perceived type; an object with none of them, or anything
/// else, appears everywhere.
pub open spec fn reach(category: CategoryValue) -> AppliesView {
    match category {
        CategoryValue::Name(name) => named_reach(name@),
        CategoryValue::Object(o) => {
            let ext = match o.ext_assoc {
                Some(value) => Some(value),
                None => o.ext_direct,
            };
            match field_text(ext) {
                Some(e) => AppliesView::Ext(lowercase_of(e)),
                None => match field_text(o.prog_id_from_ext) {
                    Some(e) => AppliesView::Ext(lowercase_of(e)),
                    None => match field_text(o.perceived_type) {
                        Some(p) => AppliesView::Perceived(lowercase_of(p)),
                        None => AppliesView::Everything,
                    },
                },
            }
        },
        CategoryValue::Other => AppliesView::Everything,
    }
}

fn text_of_field(field: &Option<Option<String>>) -> (result: Option<&String>)
    ensures
        match result {
            Some(t) => field_text(*field) == Some(t@),
            None => field_text(*field) is None,
        },
{
    match field {
        Some(Some(text)) => Some(text),
        _ => None,
    }
}

/// Where a recorded category appears. A category from a newer window that
/// this menu has never heard of shows the entry rather than hiding it.
pub fn applies(category: &CategoryValue) -> (result: Applies)
    ensures
        result@ == reach(*category),
{
    match category {
        CategoryValue::Name(name) => {
            let n = chars_of(name.as_str());
            if crate::chars::is_word(&n, "AllFiles") || crate::chars::is_word(&n, "Unknown") {
                Applies::Files
            } else if crate::chars::is_word(&n, "Directory") || crate::chars::is_word(&n, "Folder")
                || crate::chars::is_word(&n, "Drive") || crate::chars::is_word(&n, "DirectoryBackground")
                || crate::chars::is_word(&n, "DesktopBackground") || crate::chars::is_word(&n, "DirectoryAudio")
                || crate::chars::is_word(&n, "DirectoryImage") || crate::chars::is_word(&n, "DirectoryVideo") {
                Applies::Folders
            } else {
                Applies::Everything
            }
        },
        CategoryValue::Object(o) => {
            let ext = match &o.ext_assoc {
                Some(_) => text_of_field(&o.ext_assoc),
                None => text_of_field(&o.ext_direct),
            };
            if let Some(e) = ext {
                return Applies::Ext(string_of(lowercase(e.as_str()).as_slice()));
            }
            if let Some(e) = text_of_field(&o.prog_id_from_ext) {
                return Applies::Ext(string_of(lowercase(e.as_str()).as_slice()));
            }
            if let Some(p) = text_of_field(&o.perceived_type) {
                return Applies::Perceived(string_of(lowercase(p.as_str()).as_slice()));
            }
            Applies::Everything
        },
        CategoryValue::Other => Applies::Everything,
    }
}

/// The selection, reduced to the questions the menu asks.
#[derive(Debug, Clone)]
pub struct Selection {
    pub any_folder: bool,
    pub any_file: bool,
    /// The extension of the first file, in lower case, dot included.
    pub first_ext: Option<String>,
    /// The paths of every selected item, for a click.
    pub paths: Vec<String>,
}

/// Does the entry belong in the menu for this selection? `perceived` is
/// what the registry gives as the perceived type of the first file's
/// extension, in lower case.
pub open spec fn shown_for(reach: AppliesView, selection: Selection, perceived: Option<Seq<char>>) -> bool {
    match reach {
        AppliesView::Everything => true,
        AppliesView::Files => selection.any_file,
        AppliesView::Folders => selection.any_folder,
        AppliesView::Ext(e) => opt_view(selection.first_ext) == Some(e),
        AppliesView::Perceived(p) => selection.first_ext is Some && perceived == Some(p),
    }
}

/// Does this entry belong in the menu for this selection?
///
/// `perceived` is the perceived type the registry gives the extension of
/// the first selected file, in lower case; only an entry made for a
/// perceived type asks for it.
pub fn matches(entry: &Entry, selection: &Selection, perceived: &Option<String>) -> (result: bool)
    ensures
        result == shown_for(reach(entry.category), *selection, opt_view(*perceived)),
{
    match applies(&entry.category) {
        Applies::Everything => true,
        Applies::Files => selection.any_file,
        Applies::Folders => selection.any_folder,
        Applies::Ext(ext) => match &selection.first_ext {
            Some(first) => crate::chars::text_eq(first.as_str(), ext.as_str()),
            None => false,
        },
        Applies::Perceived(wanted) => match (&selection.first_ext, perceived) {
            (Some(_), Some(p)) => crate::chars::text_eq(p.as_str(), wanted.as_str()),
            _ => false,
        },
    }
}

/// `s` with every `pattern` replaced by `with`, scanning left to right the
/// way `str::replace` does.
pub open spec fn replaced(s: Seq<char>, pattern: Seq<char>, with: Seq<char>) -> Seq<char>
    decreases s.len(),
{
    if pattern.len() == 0 || s.len() == 0 {
        s
    } else if pattern.len() <= s.len() && s.subrange(0, pattern.len() as int) == pattern {
        with + replaced(s.subrange(pattern.len() as int, s.len() as int), pattern, with)
    } else {
        seq![s[0]] + replaced(s.drop_first(), pattern, with)
    }
}

/// Does `pattern` start at `at`?
fn starts_at(v: &Vec<char>, at: usize, pattern: &Vec<char>) -> (result: bool)
    requires
        at <= v.len(),
    ensures
        result == (pattern.len() <= v.len() - at && v@.subrange(at as int, at + pattern.len()) == pattern@),
{
    if pattern.len() > v.len() - at {
        return false;
    }
    let mut k: usize = 0;
    while k < pattern.len()
        invariant
            k <= pattern.len() <= v.len() - at,
            forall|j: int| 0 <= j < k ==> v@[at + j] == pattern@[j],
        decreases pattern.len() - k,
    {
        if v[at + k] != pattern[k] {
            assert(v@.subrange(at as int, at + pattern.len())[k as int] != pattern@[k as int]);
            return false;
        }
        k = k + 1;
    }
    assert(v@.subrange(at as int, at + pattern.len()) =~= pattern@);
    true
}

/// `text` with every `pattern` replaced by `with`.
fn replace_all(text: &str, pattern: &str, with: &str) -> (result: String)
    requires
        pattern@.len() > 0,
    ensures
        result@ == replaced(text@, pattern@, with@),
{
    let v = chars_of(text);
    let p = chars_of(pattern);
    let w = chars_of(with);
    let mut out: Vec<char> = Vec::new();
    let mut i: usize = 0;
    assert(v@.subrange(0, v@.len() as int) =~= v@);
    while i < v.len()
        invariant
            i <= v.len(),
            v@ == text@,
            p@ == pattern@,
            w@ == with@,
            p@.len() > 0,
            out@ + replaced(v@.subrange(i as int, v@.len() as int), p@, w@) == replaced(v@, p@, w@),
        decreases v.len() - i,
    {
        let ghost rest = v@.subrange(i as int, v@.len() as int);
        if starts_at(&v, i, &p) {
            assert(rest.subrange(0, p@.len() as int) =~= v@.subrange(i as int, i + p@.len()));
            assert(rest.subrange(p@.len() as int, rest.len() as int) =~= v@.subrange(
                i + p@.len(),
                v@.len() as int,
            ));
            let mut copy = w.clone();
            out.append(&mut copy);
            assert(out@ + replaced(v@.subrange(i + p@.len(), v@.len() as int), p@, w@) =~= replaced(v@, p@, w@));
            i = i + p.len();
        } else {
            assert(p@.len() <= rest.len() ==> rest.subrange(0, p@.len() as int) =~= v@.subrange(i as int, i + p@.len()));
            assert(rest.drop_first() =~= v@.subrange(i + 1, v@.len() as int));
            out.push(v[i]);
            assert(out@ + replaced(v@.subrange(i + 1, v@.len() as int), p@, w@) =~= replaced(v@, p@, w@));
            i = i + 1;
        }
    }
    assert(v@.subrange(i as int, v@.len() as int) =~= Seq::<char>::empty());
    assert(out@ + replaced(v@.subrange(i as int, v@.len() as int), p@, w@) =~= out@);
    string_of(out.as_slice())
}

/// A recorded command for one selected path: `%1` and `%V`, the path
/// placeholders a shell verb knows, both stand for the path.
pub open spec fn placed_line(command: Seq<char>, path: Seq<char>) -> Seq<char> {
    replaced(replaced(command, "%1"@, path), "%V"@, path)
}

/// A recorded command with the selected path in place of `%1` and `%V`.
pub fn placed(command: &str, path: &str) -> (result: String)
    ensures
        result@ == placed_line(command@, path@),
{
    proof {
        reveal_strlit("%1");
        reveal_strlit("%V");
    }
    let once = replace_all(command, "%1", path);
    replace_all(once.as_str(), "%V", path)
}

/// One command line as program and arguments: a quoted program keeps its
/// spaces and loses its quotes; otherwise the program ends at the first
/// space. The arguments lose the space around them.
pub open spec fn split_line(line: Seq<char>) -> (Seq<char>, Seq<char>) {
    let l = trim_start(line);
    if l.len() > 0 && l[0] == '"' {
        let rest = l.drop_first();
        match first_index(rest, '"') {
            Some(i) => (rest.subrange(0, i), trimmed(rest.subrange(i + 1, rest.len() as int))),
            None => (rest, Seq::empty()),
        }
    } else {
        match first_index(l, ' ') {
            Some(i) => (l.subrange(0, i), trimmed(l.subrange(i + 1, l.len() as int))),
            None => (l, Seq::empty()),
        }
    }
}

/// Splits one command line into the program and everything behind it,
/// because the shell wants them apart.
pub fn split_command(line: &str) -> (result: (String, String))
    ensures
        (result.0@, result.1@) == split_line(line@),
{
    let v = chars_of(line);
    let mut k: usize = 0;
    while k < v.len() && crate::chars::is_space(v[k])
        invariant
            k <= v.len(),
            forall|j: int| 0 <= j < k ==> space(v@[j]),
        decreases v.len() - k,
    {
        k = k + 1;
    }
    proof {
        crate::chars::lemma_trim_start_at(v@, k as int);
    }
    let ghost l = v@.subrange(k as int, v@.len() as int);
    if k < v.len() && v[k] == '"' {
        let ghost rest = l.drop_first();
        assert(rest =~= v@.subrange(k + 1, v@.len() as int));
        match find_from(&v, k + 1, '"') {
            Some(q) => {
                let mut file: Vec<char> = Vec::new();
                extend_range(&mut file, &v, k + 1, q);
                let (a, b) = crate::chars::trim_range(&v, q + 1, v.len());
                let mut args: Vec<char> = Vec::new();
                extend_range(&mut args, &v, a, b);
                assert(file@ =~= rest.subrange(0, q - (k + 1)));
                assert(v@.subrange(q + 1, v@.len() as int) =~= rest.subrange(q - k, rest.len() as int));
                (string_of(file.as_slice()), string_of(args.as_slice()))
            },
            None => {
                let mut file: Vec<char> = Vec::new();
                extend_range(&mut file, &v, k + 1, v.len());
                (string_of(file.as_slice()), String::new())
            },
        }
    } else {
        match find_from(&v, k, ' ') {
            Some(q) => {
                let mut file: Vec<char> = Vec::new();
                extend_range(&mut file, &v, k, q);
                let (a, b) = crate::chars::trim_range(&v, q + 1, v.len());
                let mut args: Vec<char> = Vec::new();
                extend_range(&mut args, &v, a, b);
                assert(file@ =~= l.subrange(0, q - k));
                assert(v@.subrange(q + 1, v@.len() as int) =~= l.subrange(q - k + 1, l.len() as int));
                (string_of(file.as_slice()), string_of(args.as_slice()))
            },
            None => {
                let mut file: Vec<char> = Vec::new();
                extend_range(&mut file, &v, k, v.len());
                (string_of(file.as_slice()), String::new())
            },
        }
    }
}

/// A category this menu has never heard of, by name or as an object with
/// none of the fields it asks about, shows the entry for every selection:
/// a newer window must not make an older menu hide what it recorded.
pub proof fn law_an_unknown_category_shows_everywhere(
    category: CategoryValue,
    selection: Selection,
    perceived: Option<Seq<char>>,
)
    requires
        match category {
            CategoryValue::Name(name) => !known_name(name@),
            CategoryValue::Object(o) => field_text(o.ext_assoc) is None && (o.ext_assoc is Some || field_text(o.ext_direct) is None)
                && field_text(o.prog_id_from_ext) is None && field_text(o.perceived_type) is None,
            CategoryValue::Other => true,
        },
    ensures
        shown_for(reach(category), selection, perceived),
{
}

} // verus!
