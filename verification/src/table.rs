//! Which rows the entry table shows, and in what order.

use vstd::prelude::*;

use crate::chars::{chars_of, lowercase, lowercase_of, string_of, trim, trimmed};
use crate::commands::{FileTypeInfo, ProgramGroup};
use crate::i18n::Strings;
use crate::labels::{sort_key, sort_text};
use crate::model::{Category, ContextEntry, is_base};
use crate::tools::{lex_le, lex_le_exec};
use crate::window::{Row, SortBy, Tab, found, matches_search, push_with_children, row_views, tree_rows};

verus! {

/// What the table is looking at, besides the scan itself.
#[derive(Debug, Clone)]
pub struct TableState {
    pub tab: Tab,
    /// The search box, as typed.
    pub search: String,
    /// The category picked in the tree of the category tab.
    pub selected_category: Option<Category>,
    /// The extension picked in the tree of the file type tab.
    pub selected_ext: Option<String>,
    /// The program picked in the program tab, by its place in the list.
    pub selected_group: Option<usize>,
    /// Whether the file type tab also lists what every file gets.
    pub include_generic: bool,
    pub sort: SortBy,
    pub ascending: bool,
}

/// Every index in `s` names one of `n` entries.
pub open spec fn all_below(s: Seq<usize>, n: nat) -> bool {
    forall|k: int| 0 <= k < s.len() ==> #[trigger] s[k] < n
}

/// Every file type names only entries of the scan.
pub open spec fn types_fit(types: Seq<FileTypeInfo>, n: nat) -> bool {
    forall|t: int| 0 <= t < types.len() ==> all_below(#[trigger] types[t].entry_indices@, n)
}

/// Every program names only entries of the scan.
pub open spec fn groups_fit(groups: Seq<ProgramGroup>, n: nat) -> bool {
    forall|g: int| 0 <= g < groups.len() ==> all_below(#[trigger] groups[g].entry_indices@, n)
}

/// Lists of indices, one after the other.
pub open spec fn flat(lists: Seq<Seq<usize>>) -> Seq<usize>
    decreases lists.len(),
{
    if lists.len() == 0 {
        Seq::empty()
    } else {
        flat(lists.drop_last()) + lists.last()
    }
}

/// The entries of every file type, type after type.
pub open spec fn type_lists(types: Seq<FileTypeInfo>) -> Seq<Seq<usize>> {
    types.map_values(|t: FileTypeInfo| t.entry_indices@)
}

/// The entries of every program, program after program.
pub open spec fn group_lists(groups: Seq<ProgramGroup>) -> Seq<Seq<usize>> {
    groups.map_values(|g: ProgramGroup| g.entry_indices@)
}

/// The places of the first `n` entries in `category`, or, without one, in
/// a base category.
pub open spec fn in_category(entries: Seq<ContextEntry>, category: Option<Category>, n: nat) -> Seq<usize>
    decreases n,
{
    if n == 0 {
        Seq::empty()
    } else {
        let rest = in_category(entries, category, (n - 1) as nat);
        let e = entries[n - 1];
        let wanted = match category {
            Some(c) => e.category@ == c@,
            None => is_base(e.category),
        };
        if wanted {
            rest.push((n - 1) as usize)
        } else {
            rest
        }
    }
}

/// The places of the first `n` entries that every file gets: levels 1 and
/// 2 of the chain.
pub open spec fn generic(entries: Seq<ContextEntry>, n: nat) -> Seq<usize>
    decreases n,
{
    if n == 0 {
        Seq::empty()
    } else {
        let rest = generic(entries, (n - 1) as nat);
        match entries[n - 1].category {
            Category::AllFiles | Category::AllFilesystemObjects => rest.push((n - 1) as usize),
            _ => rest,
        }
    }
}

/// The first file type with this extension.
pub open spec fn type_named(types: Seq<FileTypeInfo>, ext: Seq<char>) -> Option<int>
    decreases types.len(),
{
    if types.len() == 0 {
        None
    } else {
        match type_named(types.drop_last(), ext) {
            Some(i) => Some(i),
            None => if types.last().resolution.ext@ == ext {
                Some(types.len() - 1)
            } else {
                None
            },
        }
    }
}

/// Is something typed into the search box?
pub open spec fn searching(search: Seq<char>) -> bool {
    trimmed(search).len() > 0
}

/// The entries a tab offers before searching and sorting.
///
/// The category tab shows the picked category, or every base category. The
/// file type and program tabs show the picked type or program; with none
/// picked they show nothing, unless a search widens them to the whole tab.
/// The picked type lists its own entries first, then, if asked for, what
/// every file gets.
pub open spec fn candidates(
    entries: Seq<ContextEntry>,
    types: Seq<FileTypeInfo>,
    groups: Seq<ProgramGroup>,
    state: TableState,
) -> Seq<usize> {
    match state.tab {
        Tab::Categories => in_category(entries, state.selected_category, entries.len()),
        Tab::FileTypes => match state.selected_ext {
            None => if searching(state.search@) {
                flat(type_lists(types))
            } else {
                Seq::empty()
            },
            Some(ext) => (match type_named(types, ext@) {
                Some(t) => types[t].entry_indices@,
                None => Seq::empty(),
            }) + if state.include_generic {
                generic(entries, entries.len())
            } else {
                Seq::empty()
            },
        },
        Tab::Programs => match state.selected_group {
            None => if searching(state.search@) {
                flat(group_lists(groups))
            } else {
                Seq::empty()
            },
            Some(g) => if g < groups.len() {
                groups[g as int].entry_indices@
            } else {
                Seq::empty()
            },
        },
        _ => Seq::empty(),
    }
}

/// Appends every index of `list` to `out`.
fn append_indices(out: &mut Vec<usize>, list: &Vec<usize>)
    ensures
        final(out)@ == old(out)@ + list@,
{
    let mut k: usize = 0;
    while k < list.len()
        invariant
            k <= list.len(),
            out@ == old(out)@ + list@.subrange(0, k as int),
        decreases list.len() - k,
    {
        out.push(list[k]);
        assert(list@.subrange(0, k + 1) =~= list@.subrange(0, k as int).push(list@[k as int]));
        k = k + 1;
    }
    assert(list@.subrange(0, k as int) =~= list@);
}

fn all_type_indices(types: &[FileTypeInfo], n: usize) -> (result: Vec<usize>)
    requires
        types_fit(types@, n as nat),
    ensures
        result@ == flat(type_lists(types@)),
        all_below(result@, n as nat),
{
    let mut out: Vec<usize> = Vec::new();
    let mut t: usize = 0;
    while t < types.len()
        invariant
            t <= types.len(),
            types_fit(types@, n as nat),
            out@ == flat(type_lists(types@.subrange(0, t as int))),
            all_below(out@, n as nat),
        decreases types.len() - t,
    {
        assert(all_below(types@[t as int].entry_indices@, n as nat));
        append_indices(&mut out, &types[t].entry_indices);
        assert(type_lists(types@.subrange(0, t + 1)).drop_last() =~= type_lists(types@.subrange(0, t as int)));
        t = t + 1;
    }
    assert(types@.subrange(0, t as int) =~= types@);
    out
}

fn all_group_indices(groups: &[ProgramGroup], n: usize) -> (result: Vec<usize>)
    requires
        groups_fit(groups@, n as nat),
    ensures
        result@ == flat(group_lists(groups@)),
        all_below(result@, n as nat),
{
    let mut out: Vec<usize> = Vec::new();
    let mut g: usize = 0;
    while g < groups.len()
        invariant
            g <= groups.len(),
            groups_fit(groups@, n as nat),
            out@ == flat(group_lists(groups@.subrange(0, g as int))),
            all_below(out@, n as nat),
        decreases groups.len() - g,
    {
        assert(all_below(groups@[g as int].entry_indices@, n as nat));
        append_indices(&mut out, &groups[g].entry_indices);
        assert(group_lists(groups@.subrange(0, g + 1)).drop_last() =~= group_lists(groups@.subrange(0, g as int)));
        g = g + 1;
    }
    assert(groups@.subrange(0, g as int) =~= groups@);
    out
}

proof fn lemma_type_named_prefix(types: Seq<FileTypeInfo>, ext: Seq<char>, m: int)
    requires
        0 <= m <= types.len(),
        type_named(types.subrange(0, m), ext) is Some,
    ensures
        type_named(types, ext) == type_named(types.subrange(0, m), ext),
    decreases types.len(),
{
    if m < types.len() {
        assert(types.drop_last().subrange(0, m) =~= types.subrange(0, m));
        lemma_type_named_prefix(types.drop_last(), ext, m);
    } else {
        assert(types.subrange(0, m) =~= types);
    }
}

fn find_type(types: &[FileTypeInfo], ext: &str) -> (result: Option<usize>)
    ensures
        match result {
            Some(i) => i < types.len() && type_named(types@, ext@) == Some(i as int),
            None => type_named(types@, ext@) is None,
        },
{
    let mut t: usize = 0;
    while t < types.len()
        invariant
            t <= types.len(),
            type_named(types@.subrange(0, t as int), ext@) is None,
        decreases types.len() - t,
    {
        assert(types@.subrange(0, t + 1).drop_last() =~= types@.subrange(0, t as int));
        if crate::chars::text_eq(types[t].resolution.ext.as_str(), ext) {
            proof {
                lemma_type_named_prefix(types@, ext@, t + 1);
            }
            return Some(t);
        }
        t = t + 1;
    }
    assert(types@.subrange(0, t as int) =~= types@);
    None
}

fn category_indices(entries: &[ContextEntry], category: &Option<Category>) -> (result: Vec<usize>)
    ensures
        result@ == in_category(entries@, *category, entries@.len()),
        all_below(result@, entries@.len()),
{
    let mut out: Vec<usize> = Vec::new();
    let mut i: usize = 0;
    while i < entries.len()
        invariant
            i <= entries.len(),
            out@ == in_category(entries@, *category, i as nat),
            all_below(out@, i as nat),
        decreases entries.len() - i,
    {
        let wanted = match category {
            Some(c) => entries[i].category.same_as(c),
            None => entries[i].category.is_base(),
        };
        if wanted {
            out.push(i);
        }
        i = i + 1;
    }
    out
}

fn generic_indices(entries: &[ContextEntry], out: &mut Vec<usize>)
    requires
        all_below(old(out)@, entries@.len()),
    ensures
        final(out)@ == old(out)@ + generic(entries@, entries@.len()),
        all_below(final(out)@, entries@.len()),
{
    let mut i: usize = 0;
    while i < entries.len()
        invariant
            i <= entries.len(),
            out@ == old(out)@ + generic(entries@, i as nat),
            all_below(out@, entries@.len()),
        decreases entries.len() - i,
    {
        match entries[i].category {
            Category::AllFiles | Category::AllFilesystemObjects => {
                out.push(i);
                assert(out@ =~= old(out)@ + generic(entries@, (i + 1) as nat));
            },
            _ => {},
        }
        i = i + 1;
    }
}

/// The entries the tab offers, before searching and sorting.
fn candidate_indices(
    entries: &[ContextEntry],
    types: &[FileTypeInfo],
    groups: &[ProgramGroup],
    state: &TableState,
) -> (result: Vec<usize>)
    requires
        types_fit(types@, entries@.len()),
        groups_fit(groups@, entries@.len()),
    ensures
        result@ == candidates(entries@, types@, groups@, *state),
        all_below(result@, entries@.len()),
{
    let searching = trim(state.search.as_str()).len() > 0;
    match state.tab {
        Tab::Categories => category_indices(entries, &state.selected_category),
        Tab::FileTypes => match &state.selected_ext {
            None => if searching {
                all_type_indices(types, entries.len())
            } else {
                Vec::new()
            },
            Some(ext) => {
                let mut out: Vec<usize> = match find_type(types, ext.as_str()) {
                    Some(t) => {
                        assert(all_below(types@[t as int].entry_indices@, entries@.len()));
                        types[t].entry_indices.clone()
                    },
                    None => Vec::new(),
                };
                if state.include_generic {
                    generic_indices(entries, &mut out);
                } else {
                    assert(out@ =~= out@ + Seq::<usize>::empty());
                }
                out
            },
        },
        Tab::Programs => match state.selected_group {
            None => if searching {
                all_group_indices(groups, entries.len())
            } else {
                Vec::new()
            },
            Some(g) => if g < groups.len() {
                assert(all_below(groups@[g as int].entry_indices@, entries@.len()));
                groups[g].entry_indices.clone()
            } else {
                Vec::new()
            },
        },
        _ => Vec::new(),
    }
}

/// `s` with every index after its first appearance left out.
pub open spec fn first_appearances(s: Seq<usize>) -> Seq<usize>
    decreases s.len(),
{
    if s.len() == 0 {
        s
    } else {
        let rest = first_appearances(s.drop_last());
        if s.drop_last().contains(s.last()) {
            rest
        } else {
            rest.push(s.last())
        }
    }
}

/// The search as the table compares it: trimmed and in lower case.
pub open spec fn needle_of(search: Seq<char>) -> Seq<char> {
    lowercase_of(trimmed(search))
}

/// The indices in `s` whose entry, or one of its submenu lines, the search
/// finds; an empty search finds everything.
pub open spec fn search_hits(entries: Seq<ContextEntry>, s: Seq<usize>, needle: Seq<char>) -> Seq<usize>
    decreases s.len(),
{
    if s.len() == 0 {
        s
    } else {
        let rest = search_hits(entries, s.drop_last(), needle);
        if needle.len() == 0 || found(entries[s.last() as int], needle) {
            rest.push(s.last())
        } else {
            rest
        }
    }
}

/// The entries a tab offers for the search, each once, in the order they
/// were collected.
pub open spec fn offered(
    entries: Seq<ContextEntry>,
    types: Seq<FileTypeInfo>,
    groups: Seq<ProgramGroup>,
    state: TableState,
) -> Seq<usize> {
    search_hits(entries, first_appearances(candidates(entries, types, groups, state)), needle_of(state.search@))
}

/// The key an entry is sorted by in this column.
pub open spec fn key_of(entries: Seq<ContextEntry>, index: usize, column: SortBy, tr: Strings) -> Seq<char> {
    sort_text(entries[index as int], column, tr)
}

/// Does key `a` come no later than key `b` in this direction?
pub open spec fn comes_before(a: Seq<char>, b: Seq<char>, ascending: bool) -> bool {
    if ascending {
        lex_le(a, b)
    } else {
        lex_le(b, a)
    }
}

/// `order` is `source` as the table lists it: as collected when no column
/// sorts, else by the column's key in the chosen direction, rows with the
/// same key keeping the order they were collected in.
pub open spec fn listed(
    order: Seq<usize>,
    source: Seq<usize>,
    entries: Seq<ContextEntry>,
    column: SortBy,
    ascending: bool,
    tr: Strings,
) -> bool {
    if column == SortBy::Natural {
        order == source
    } else {
        exists|pos: Seq<int>| #[trigger] sorted_places(pos, order, source, entries, column, ascending, tr)
    }
}

/// `pos` says where in `source` each row of `order` came from: every place
/// once, sorted by key, and the same key in the order of the places.
pub open spec fn sorted_places(
    pos: Seq<int>,
    order: Seq<usize>,
    source: Seq<usize>,
    entries: Seq<ContextEntry>,
    column: SortBy,
    ascending: bool,
    tr: Strings,
) -> bool {
    &&& pos.len() == order.len() == source.len()
    &&& forall|i: int| 0 <= i < pos.len() ==> 0 <= #[trigger] pos[i] < source.len()
    &&& forall|i: int, j: int| 0 <= i < j < pos.len() ==> #[trigger] pos[i] != #[trigger] pos[j]
    &&& forall|i: int| 0 <= i < order.len() ==> #[trigger] order[i] == source[pos[i]]
    &&& forall|i: int, j: int|
        0 <= i < j < order.len() ==> comes_before(
            key_of(entries, #[trigger] order[i], column, tr),
            key_of(entries, #[trigger] order[j], column, tr),
            ascending,
        )
    &&& forall|i: int, j: int|
        0 <= i < j < order.len() && key_of(entries, #[trigger] order[i], column, tr) == key_of(
            entries,
            #[trigger] order[j],
            column,
            tr,
        ) ==> pos[i] < pos[j]
}

/// The rows of the entries in `order`, each followed by its submenu lines.
pub open spec fn rows_of(entries: Seq<ContextEntry>, order: Seq<usize>) -> Seq<(usize, Seq<usize>)>
    decreases order.len(),
{
    if order.len() == 0 {
        Seq::empty()
    } else {
        rows_of(entries, order.drop_last()) + tree_rows(entries[order.last() as int], order.last(), Seq::empty())
    }
}

/// The indices the search has seen.
pub uninterp spec fn seen_indices(set: rustc_hash::FxHashSet<usize>) -> Set<usize>;

/// A set of indices with nothing in it.
///
/// Trusted: `FxHashSet::default` makes a set with no element.
#[verifier::external_body]
fn seen_new() -> (result: rustc_hash::FxHashSet<usize>)
    ensures
        seen_indices(result) == Set::<usize>::empty(),
{
    rustc_hash::FxHashSet::default()
}

/// Adds an index; says whether it was new.
///
/// Trusted: `HashSet::insert` adds the value and reports whether it was not
/// there yet; the key is a `usize`, equal exactly when the numbers are.
#[verifier::external_body]
fn seen_insert(set: &mut rustc_hash::FxHashSet<usize>, index: usize) -> (added: bool)
    ensures
        seen_indices(*final(set)) == seen_indices(*old(set)).insert(index),
        added == !seen_indices(*old(set)).contains(index),
{
    set.insert(index)
}

/// Each index once, at its first appearance.
fn without_repeats(list: Vec<usize>) -> (result: Vec<usize>)
    ensures
        result@ == first_appearances(list@),
{
    let mut seen = seen_new();
    let mut out: Vec<usize> = Vec::new();
    let mut k: usize = 0;
    while k < list.len()
        invariant
            k <= list.len(),
            out@ == first_appearances(list@.subrange(0, k as int)),
            seen_indices(seen) == list@.subrange(0, k as int).to_set(),
        decreases list.len() - k,
    {
        let ghost prefix = list@.subrange(0, k as int);
        assert(list@.subrange(0, k + 1).drop_last() =~= prefix);
        let index = list[k];
        if seen_insert(&mut seen, index) {
            out.push(index);
        }
        assert(prefix.to_set().contains(index) == prefix.contains(index));
        proof {
            let next = list@.subrange(0, k + 1);
            assert(next =~= prefix.push(index));
            assert forall|a: usize| #[trigger] next.contains(a) <==> (prefix.contains(a) || a == index) by {
                if next.contains(a) {
                    let i = choose|i: int| 0 <= i < next.len() && next[i] == a;
                    if i < k {
                        assert(prefix[i] == a);
                    }
                }
                if prefix.contains(a) {
                    let i = choose|i: int| 0 <= i < prefix.len() && prefix[i] == a;
                    assert(next[i] == a);
                }
                if a == index {
                    assert(next[k as int] == a);
                }
            }
            assert(next.to_set() =~= prefix.to_set().insert(index));
        }
        k = k + 1;
    }
    assert(list@.subrange(0, k as int) =~= list@);
    out
}

/// The indices whose entry the search finds.
fn keep_hits(entries: &[ContextEntry], list: &Vec<usize>, needle: &str) -> (result: Vec<usize>)
    requires
        all_below(list@, entries@.len()),
    ensures
        result@ == search_hits(entries@, list@, needle@),
{
    let everything = chars_of(needle).len() == 0;
    let mut out: Vec<usize> = Vec::new();
    let mut k: usize = 0;
    while k < list.len()
        invariant
            k <= list.len(),
            all_below(list@, entries@.len()),
            everything == (needle@.len() == 0),
            out@ == search_hits(entries@, list@.subrange(0, k as int), needle@),
        decreases list.len() - k,
    {
        assert(list@.subrange(0, k + 1).drop_last() =~= list@.subrange(0, k as int));
        let index = list[k];
        assert(index < entries.len());
        if everything || matches_search(&entries[index], needle) {
            out.push(index);
        }
        k = k + 1;
    }
    assert(list@.subrange(0, k as int) =~= list@);
    out
}

proof fn lemma_first_appearances_below(s: Seq<usize>, n: nat)
    requires
        all_below(s, n),
    ensures
        all_below(first_appearances(s), n),
    decreases s.len(),
{
    if s.len() > 0 {
        assert(all_below(s.drop_last(), n)) by {
            assert forall|k: int| 0 <= k < s.drop_last().len() implies #[trigger] s.drop_last()[k] < n by {
                assert(s.drop_last()[k] == s[k]);
            }
        }
        lemma_first_appearances_below(s.drop_last(), n);
    }
}

proof fn lemma_hits_below(entries: Seq<ContextEntry>, s: Seq<usize>, needle: Seq<char>, n: nat)
    requires
        all_below(s, n),
    ensures
        all_below(search_hits(entries, s, needle), n),
    decreases s.len(),
{
    if s.len() > 0 {
        assert(all_below(s.drop_last(), n)) by {
            assert forall|k: int| 0 <= k < s.drop_last().len() implies #[trigger] s.drop_last()[k] < n by {
                assert(s.drop_last()[k] == s[k]);
            }
        }
        lemma_hits_below(entries, s.drop_last(), needle, n);
    }
}

proof fn lemma_before_total(a: Seq<char>, b: Seq<char>, ascending: bool)
    ensures
        comes_before(a, b, ascending) || comes_before(b, a, ascending),
{
    crate::tools::lemma_lex_total(a, b);
}

proof fn lemma_before_transitive(a: Seq<char>, b: Seq<char>, c: Seq<char>, ascending: bool)
    requires
        comes_before(a, b, ascending),
        comes_before(b, c, ascending),
    ensures
        comes_before(a, c, ascending),
{
    if ascending {
        crate::tools::lemma_lex_transitive(a, b, c);
    } else {
        crate::tools::lemma_lex_transitive(c, b, a);
    }
}

/// Does key `a` come no later than key `b` in this direction?
fn comes_before_exec(a: &String, b: &String, ascending: bool) -> (result: bool)
    ensures
        result == comes_before(a@, b@, ascending),
{
    if ascending {
        lex_le_exec(a.as_str(), b.as_str())
    } else {
        lex_le_exec(b.as_str(), a.as_str())
    }
}

/// The places of `keys`, sorted by key, places with the same key in their
/// own order.
fn sorted_positions(keys: &Vec<String>, ascending: bool) -> (result: Vec<usize>)
    ensures
        result@.len() == keys@.len(),
        forall|i: int| 0 <= i < result@.len() ==> #[trigger] result@[i] < keys@.len(),
        forall|i: int, j: int| 0 <= i < j < result@.len() ==> #[trigger] result@[i] != #[trigger] result@[j],
        forall|i: int, j: int|
            0 <= i < j < result@.len() ==> comes_before(
                keys@[#[trigger] result@[i] as int]@,
                keys@[#[trigger] result@[j] as int]@,
                ascending,
            ),
        forall|i: int, j: int|
            0 <= i < j < result@.len() && keys@[#[trigger] result@[i] as int]@ == keys@[#[trigger] result@[j] as int]@
                ==> result@[i] < result@[j],
{
    let mut order: Vec<usize> = Vec::new();
    let mut p: usize = 0;
    while p < keys.len()
        invariant
            p <= keys.len(),
            order@.len() == p,
            forall|i: int| 0 <= i < order@.len() ==> #[trigger] order@[i] < p,
            forall|i: int, j: int| 0 <= i < j < order@.len() ==> #[trigger] order@[i] != #[trigger] order@[j],
            forall|i: int, j: int|
                0 <= i < j < order@.len() ==> comes_before(
                    keys@[#[trigger] order@[i] as int]@,
                    keys@[#[trigger] order@[j] as int]@,
                    ascending,
                ),
            forall|i: int, j: int|
                0 <= i < j < order@.len() && keys@[#[trigger] order@[i] as int]@ == keys@[#[trigger] order@[j] as int]@
                    ==> order@[i] < order@[j],
        decreases keys.len() - p,
    {
        let ghost old_order = order@;
        let ghost x = keys@[p as int]@;
        let mut q: usize = 0;
        while q < order.len() && comes_before_exec(&keys[order[q]], &keys[p], ascending)
            invariant
                q <= order@.len(),
                p < keys.len(),
                order@ == old_order,
                forall|i: int| 0 <= i < order@.len() ==> #[trigger] order@[i] < p,
                forall|k: int| 0 <= k < q ==> comes_before(keys@[#[trigger] order@[k] as int]@, x, ascending),
                x == keys@[p as int]@,
            decreases order.len() - q,
        {
            q = q + 1;
        }
        proof {
            if q < old_order.len() {
                lemma_before_total(keys@[old_order[q as int] as int]@, x, ascending);
            }
            let after = old_order.insert(q as int, p);
            assert forall|i: int, j: int| 0 <= i < j < after.len() implies comes_before(
                keys@[#[trigger] after[i] as int]@,
                keys@[#[trigger] after[j] as int]@,
                ascending,
            ) && (keys@[after[i] as int]@ == keys@[after[j] as int]@ ==> after[i] < after[j]) by {
                let ki = keys@[after[i] as int]@;
                let kj = keys@[after[j] as int]@;
                if j < q {
                    assert(after[i] == old_order[i] && after[j] == old_order[j]);
                } else if j == q {
                    assert(after[i] == old_order[i]);
                    assert(after[j] == p);
                } else if i < q {
                    assert(after[i] == old_order[i] && after[j] == old_order[j - 1]);
                    let kq = keys@[old_order[q as int] as int]@;
                    assert(comes_before(ki, x, ascending));
                    assert(comes_before(x, kq, ascending));
                    lemma_before_transitive(ki, x, kq, ascending);
                    if j - 1 > q {
                        lemma_before_transitive(ki, kq, kj, ascending);
                    }
                } else if i == q {
                    assert(after[i] == p && after[j] == old_order[j - 1]);
                    let kq = keys@[old_order[q as int] as int]@;
                    assert(!comes_before(kq, x, ascending));
                    if j - 1 > q {
                        lemma_before_transitive(x, kq, kj, ascending);
                    }
                    if ki == kj {
                        if j - 1 > q {
                            assert(comes_before(kq, kj, ascending));
                        }
                        assert(false);
                    }
                } else {
                    assert(after[i] == old_order[i - 1] && after[j] == old_order[j - 1]);
                }
            }
        }
        order.insert(q, p);
        assert(order@ =~= old_order.insert(q as int, p));
        p = p + 1;
    }
    order
}

/// The entries the table lists, in the order it lists them: what the tab
/// offers, each once, narrowed by the search, and sorted by the column
/// when one is chosen.
pub fn visible_entries(
    entries: &[ContextEntry],
    types: &[FileTypeInfo],
    groups: &[ProgramGroup],
    state: &TableState,
    tr: &Strings,
) -> (result: Vec<usize>)
    requires
        types_fit(types@, entries@.len()),
        groups_fit(groups@, entries@.len()),
    ensures
        listed(result@, offered(entries@, types@, groups@, *state), entries@, state.sort, state.ascending, *tr),
        all_below(result@, entries@.len()),
{
    let collected = candidate_indices(entries, types, groups, state);
    proof {
        lemma_first_appearances_below(collected@, entries@.len());
    }
    let unique = without_repeats(collected);
    let cut = trim(state.search.as_str());
    let needle = string_of(lowercase(string_of(cut.as_slice()).as_str()).as_slice());
    let hits = keep_hits(entries, &unique, needle.as_str());
    proof {
        lemma_hits_below(entries@, unique@, needle@, entries@.len());
    }
    if let SortBy::Natural = state.sort {
        return hits;
    }
    let mut keys: Vec<String> = Vec::new();
    let mut k: usize = 0;
    while k < hits.len()
        invariant
            k <= hits.len(),
            all_below(hits@, entries@.len()),
            keys@.len() == k,
            forall|i: int| 0 <= i < k ==> #[trigger] keys@[i]@ == key_of(entries@, hits@[i], state.sort, *tr),
        decreases hits.len() - k,
    {
        assert(hits@[k as int] < entries@.len());
        keys.push(sort_key(&entries[hits[k]], state.sort, tr));
        k = k + 1;
    }
    let places = sorted_positions(&keys, state.ascending);
    let mut order: Vec<usize> = Vec::new();
    let mut i: usize = 0;
    while i < places.len()
        invariant
            i <= places.len(),
            places@.len() == hits@.len(),
            forall|j: int| 0 <= j < places@.len() ==> #[trigger] places@[j] < hits@.len(),
            order@.len() == i,
            forall|j: int| 0 <= j < i ==> #[trigger] order@[j] == hits@[places@[j] as int],
        decreases places.len() - i,
    {
        order.push(hits[places[i]]);
        i = i + 1;
    }
    proof {
        let pos = places@.map_values(|p: usize| p as int);
        assert forall|a: int| 0 <= a < order@.len() implies #[trigger] keys@[places@[a] as int]@ == key_of(
            entries@,
            order@[a],
            state.sort,
            *tr,
        ) by {
            assert(order@[a] == hits@[places@[a] as int]);
        }
        assert(sorted_places(pos, order@, hits@, entries@, state.sort, state.ascending, *tr));
        assert forall|a: int| 0 <= a < order@.len() implies #[trigger] order@[a] < entries@.len() by {
            assert(order@[a] == hits@[places@[a] as int]);
        }
    }
    order
}

/// The rows the table shows: each listed entry, followed by the lines of
/// its cascading menus, which keep their place under their parent.
pub fn rebuild_visible(
    entries: &[ContextEntry],
    types: &[FileTypeInfo],
    groups: &[ProgramGroup],
    state: &TableState,
    tr: &Strings,
) -> (result: Vec<Row>)
    requires
        types_fit(types@, entries@.len()),
        groups_fit(groups@, entries@.len()),
    ensures
        exists|order: Seq<usize>|
            listed(order, offered(entries@, types@, groups@, *state), entries@, state.sort, state.ascending, *tr)
                && row_views(result@) == #[trigger] rows_of(entries@, order),
{
    let order = visible_entries(entries, types, groups, state, tr);
    let mut rows: Vec<Row> = Vec::new();
    let mut k: usize = 0;
    assert(row_views(rows@) =~= rows_of(entries@, order@.subrange(0, 0)));
    while k < order.len()
        invariant
            k <= order.len(),
            all_below(order@, entries@.len()),
            row_views(rows@) == rows_of(entries@, order@.subrange(0, k as int)),
        decreases order.len() - k,
    {
        let index = order[k];
        assert(index < entries.len());
        push_with_children(&mut rows, &entries[index], Row::top(index));
        assert(order@.subrange(0, k + 1).drop_last() =~= order@.subrange(0, k as int));
        k = k + 1;
    }
    assert(order@.subrange(0, k as int) =~= order@);
    rows
}

proof fn lemma_first_appearances(s: Seq<usize>)
    ensures
        first_appearances(s).no_duplicates(),
        forall|x: usize| #[trigger] first_appearances(s).contains(x) <==> s.contains(x),
    decreases s.len(),
{
    if s.len() > 0 {
        let rest = s.drop_last();
        lemma_first_appearances(rest);
        assert forall|x: usize| #[trigger] s.contains(x) <==> (rest.contains(x) || x == s.last()) by {
            if s.contains(x) {
                let i = choose|i: int| 0 <= i < s.len() && s[i] == x;
                if i < s.len() - 1 {
                    assert(rest[i] == x);
                }
            }
            if rest.contains(x) {
                let i = choose|i: int| 0 <= i < rest.len() && rest[i] == x;
                assert(s[i] == x);
            }
            if x == s.last() {
                assert(s[s.len() - 1] == x);
            }
        }
        let r = first_appearances(rest);
        if !rest.contains(s.last()) {
            assert forall|x: usize| #[trigger] r.push(s.last()).contains(x) <==> (r.contains(x) || x == s.last()) by {
                if r.push(s.last()).contains(x) {
                    let i = choose|i: int| 0 <= i < r.len() + 1 && r.push(s.last())[i] == x;
                    if i < r.len() {
                        assert(r[i] == x);
                    }
                }
                if r.contains(x) {
                    let i = choose|i: int| 0 <= i < r.len() && r[i] == x;
                    assert(r.push(s.last())[i] == x);
                }
                if x == s.last() {
                    assert(r.push(s.last())[r.len() as int] == x);
                }
            }
            assert forall|i: int, j: int|
                0 <= i < r.len() + 1 && 0 <= j < r.len() + 1 && i != j implies r.push(s.last())[i] != r.push(s.last())[j] by {
                if i < r.len() && j < r.len() {
                } else if i < r.len() {
                    assert(r.contains(r[i]));
                } else {
                    assert(r.contains(r[j]));
                }
            }
        }
    }
}

proof fn lemma_hits_within(entries: Seq<ContextEntry>, s: Seq<usize>, needle: Seq<char>)
    ensures
        forall|x: usize| #[trigger] search_hits(entries, s, needle).contains(x) ==> s.contains(x),
        s.no_duplicates() ==> search_hits(entries, s, needle).no_duplicates(),
    decreases s.len(),
{
    if s.len() > 0 {
        let rest = s.drop_last();
        lemma_hits_within(entries, rest, needle);
        let r = search_hits(entries, rest, needle);
        let h = search_hits(entries, s, needle);
        assert forall|x: usize| #[trigger] h.contains(x) implies s.contains(x) by {
            let i = choose|i: int| 0 <= i < h.len() && h[i] == x;
            if i < r.len() {
                assert(h[i] == r[i]);
                assert(r.contains(x));
                let k = choose|k: int| 0 <= k < rest.len() && rest[k] == x;
                assert(s[k] == x);
            } else {
                assert(s[s.len() - 1] == x);
            }
        }
        if s.no_duplicates() {
            assert(rest.no_duplicates());
            if h != r {
                assert(h == r.push(s.last()));
                assert forall|i: int, j: int| 0 <= i < h.len() && 0 <= j < h.len() && i != j implies h[i] != h[j] by {
                    if i < r.len() && j < r.len() {
                        assert(h[i] == r[i] && h[j] == r[j]);
                    } else if i < r.len() {
                        assert(r.contains(r[i]));
                        let k = choose|k: int| 0 <= k < rest.len() && rest[k] == r[i];
                        assert(s[k] == r[i]);
                    } else {
                        assert(r.contains(r[j]));
                        let k = choose|k: int| 0 <= k < rest.len() && rest[k] == r[j];
                        assert(s[k] == r[j]);
                    }
                }
            }
        }
    }
}

/// No entry is listed twice, however often the tab collected it: an entry
/// that belongs to several file types is still one row.
pub proof fn law_a_row_is_listed_once(
    entries: Seq<ContextEntry>,
    types: Seq<FileTypeInfo>,
    groups: Seq<ProgramGroup>,
    state: TableState,
    tr: Strings,
    order: Seq<usize>,
)
    requires
        listed(order, offered(entries, types, groups, state), entries, state.sort, state.ascending, tr),
    ensures
        order.no_duplicates(),
{
    let collected = candidates(entries, types, groups, state);
    lemma_first_appearances(collected);
    lemma_hits_within(entries, first_appearances(collected), needle_of(state.search@));
    let source = offered(entries, types, groups, state);
    if state.sort != SortBy::Natural {
        let pos = choose|pos: Seq<int>| #[trigger] sorted_places(pos, order, source, entries, state.sort, state.ascending, tr);
        assert forall|i: int, j: int| 0 <= i < order.len() && 0 <= j < order.len() && i != j implies order[i] != order[j] by {
            assert(order[i] == source[pos[i]]);
            assert(order[j] == source[pos[j]]);
            if i < j {
                assert(pos[i] != pos[j]);
            } else {
                assert(pos[j] != pos[i]);
            }
        }
    }
}

} // verus!
