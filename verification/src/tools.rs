//! The tools a service describes, and how the services panel lists them.

use vstd::prelude::*;

use crate::chars::{
    chars_of, contains_chars, extend_range, find_from, first_index, lowercase, lowercase_of,
    occurs, string_of, trim, trim_end, trim_end_len, trimmed, uppercase, uppercase_of,
};

verus! {

/// Whether a tool can become a working entry.
#[derive(Debug, Clone, Copy, PartialEq, Eq, Structural)]
pub enum Usable {
    /// It answers with its result.
    Yes,
    /// It only hands back a job number to ask about later.
    Asynchronous,
}

/// One tool of a service, as its description lists it.
#[derive(Debug, Clone)]
pub struct Tool {
    /// The path of the operation, below the service's address.
    pub path: String,
    pub base: String,
    /// Where to ask how a job is getting on, if the service says.
    pub progress: String,
    /// `POST`, `GET`, ...
    pub method: String,
    /// The group the description files it under.
    pub tag: Option<String>,
    pub summary: String,
    pub description: Option<String>,
    /// The form field the file goes into.
    pub file_field: String,
    pub usable: Usable,
}

/// Does a search (already in lower case) find this tool: by its summary,
/// its path, or its group?
pub open spec fn tool_matches(tool: Tool, needle: Seq<char>) -> bool {
    ||| occurs(lowercase_of(tool.summary@), needle)
    ||| occurs(lowercase_of(tool.path@), needle)
    ||| match tool.tag {
        Some(tag) => occurs(lowercase_of(tag@), needle),
        None => false,
    }
}

/// Whether a tool answers a search. `needle` is already lower case.
pub fn matches_tool(tool: &Tool, needle: &str) -> (result: bool)
    ensures
        result == tool_matches(*tool, needle@),
{
    let wanted = chars_of(needle);
    if contains_chars(&lowercase(tool.summary.as_str()), &wanted) {
        return true;
    }
    if contains_chars(&lowercase(tool.path.as_str()), &wanted) {
        return true;
    }
    match &tool.tag {
        Some(tag) => contains_chars(&lowercase(tag.as_str()), &wanted),
        None => false,
    }
}

/// The place of the last `c` in `s`.
pub open spec fn last_index(s: Seq<char>, c: char) -> Option<int>
    decreases s.len(),
{
    if s.len() == 0 {
        None
    } else if s.last() == c {
        Some(s.len() - 1)
    } else {
        last_index(s.drop_last(), c)
    }
}

proof fn lemma_last_index(s: Seq<char>, c: char)
    ensures
        match last_index(s, c) {
            Some(i) => 0 <= i < s.len() && s[i] == c && forall|j: int| i < j < s.len() ==> s[j] != c,
            None => forall|j: int| 0 <= j < s.len() ==> s[j] != c,
        },
    decreases s.len(),
{
    if s.len() > 0 && s.last() != c {
        lemma_last_index(s.drop_last(), c);
        assert forall|j: int| 0 <= j < s.len() - 1 implies s[j] == s.drop_last()[j] by {}
    }
}

/// Does `s` end in `suffix`?
pub open spec fn ends_with(s: Seq<char>, suffix: Seq<char>) -> bool {
    suffix.len() <= s.len() && s.subrange(s.len() - suffix.len(), s.len() as int) == suffix
}

/// A text cut off at its first `#`: the part before the fragment.
pub open spec fn before_fragment(s: Seq<char>) -> Seq<char> {
    match first_index(s, '#') {
        Some(i) => s.subrange(0, i),
        None => s,
    }
}

/// The page a human reads beside a service's description: the address
/// without its fragment, and, where it names a JSON or YAML document, the
/// directory that holds it.
pub open spec fn doc_page(spec_url: Seq<char>) -> Seq<char> {
    let base = trim_end(before_fragment(trimmed(spec_url)));
    match last_index(base, '/') {
        Some(i) => {
            let file = base.subrange(i + 1, base.len() as int);
            if ends_with(file, ".json"@) || ends_with(file, ".yaml"@) || ends_with(file, ".yml"@) {
                base.subrange(0, i + 1)
            } else {
                base
            }
        },
        None => base,
    }
}

/// Where a tool is documented: the page, and for a tool with a group the
/// fragment `#tag/<group>/<METHOD><path>` that Scalar and Swagger UI both
/// read.
pub open spec fn doc_link(spec_url: Seq<char>, tool: Tool) -> Seq<char> {
    match tool.tag {
        Some(tag) => doc_page(spec_url) + "#tag/"@ + lowercase_of(tag@) + "/"@ + uppercase_of(
            tool.method@,
        ) + tool.path@,
        None => doc_page(spec_url),
    }
}

/// Does `v[from..to]` end in `suffix`?
fn ends_with_chars(v: &Vec<char>, from: usize, to: usize, suffix: &str) -> (result: bool)
    requires
        from <= to <= v.len(),
    ensures
        result == ends_with(v@.subrange(from as int, to as int), suffix@),
{
    let tail = chars_of(suffix);
    if tail.len() > to - from {
        return false;
    }
    let start = to - tail.len();
    let mut k: usize = 0;
    while k < tail.len()
        invariant
            from <= start,
            start + tail.len() == to,
            to <= v.len(),
            k <= tail.len(),
            tail@ == suffix@,
            forall|j: int| 0 <= j < k ==> v@[start + j] == tail@[j],
        decreases tail.len() - k,
    {
        if v[start + k] != tail[k] {
            assert(v@.subrange(from as int, to as int).subrange(
                (to - from) - tail@.len(),
                (to - from) as int,
            )[k as int] != tail@[k as int]);
            return false;
        }
        k = k + 1;
    }
    assert(v@.subrange(from as int, to as int).subrange((to - from) - tail@.len(), (to - from) as int)
        =~= tail@);
    true
}

/// Where a service documents one of its tools, for a human to read.
///
/// The stored address is the machine readable document; the page people
/// read is its directory. A fragment that does not match leaves the reader
/// on the front page of the documentation, which is still the right place.
pub fn docs_url(spec_url: &str, tool: &Tool) -> (result: String)
    ensures
        result@ == doc_link(spec_url@, *tool),
{
    let v = trim(spec_url);
    let end = match find_from(&v, 0, '#') {
        Some(i) => i,
        None => v.len(),
    };
    proof {
        assert(v@.subrange(0, v@.len() as int) =~= v@);
        crate::chars::lemma_first_index(v@, '#');
    }
    let mut cut: Vec<char> = Vec::new();
    extend_range(&mut cut, &v, 0, end);
    assert(cut@ == before_fragment(v@));
    let kept = trim_end_len(&cut);
    let mut base: Vec<char> = Vec::new();
    extend_range(&mut base, &cut, 0, kept);
    assert(base@ == trim_end(before_fragment(trimmed(spec_url@))));
    // The last `/`, searched from the end.
    let mut i = base.len();
    while i > 0 && base[i - 1] != '/'
        invariant
            i <= base.len(),
            forall|j: int| i <= j < base.len() ==> base@[j] != '/',
        decreases i,
    {
        i = i - 1;
    }
    proof {
        lemma_last_index(base@, '/');
        if i > 0 {
            assert(last_index(base@, '/') == Some(i - 1)) by {
                lemma_last_index_is(base@, '/', i - 1);
            }
        } else {
            lemma_last_index_none(base@, '/');
        }
    }
    let mut page: Vec<char> = Vec::new();
    if i > 0 && (ends_with_chars(&base, i, base.len(), ".json") || ends_with_chars(
        &base,
        i,
        base.len(),
        ".yaml",
    ) || ends_with_chars(&base, i, base.len(), ".yml")) {
        extend_range(&mut page, &base, 0, i);
    } else {
        extend_range(&mut page, &base, 0, base.len());
        assert(base@.subrange(0, base@.len() as int) =~= base@);
    }
    assert(page@ == doc_page(spec_url@));
    match &tool.tag {
        Some(tag) => {
            let mut anchor = chars_of("#tag/");
            page.append(&mut anchor);
            let mut group = lowercase(tag.as_str());
            page.append(&mut group);
            let mut slash = chars_of("/");
            page.append(&mut slash);
            let mut method = uppercase(tool.method.as_str());
            page.append(&mut method);
            let mut path = chars_of(tool.path.as_str());
            page.append(&mut path);
        },
        None => {},
    }
    string_of(page.as_slice())
}

proof fn lemma_last_index_is(s: Seq<char>, c: char, i: int)
    requires
        0 <= i < s.len(),
        s[i] == c,
        forall|j: int| i < j < s.len() ==> s[j] != c,
    ensures
        last_index(s, c) == Some(i),
    decreases s.len(),
{
    if s.last() != c {
        lemma_last_index_is(s.drop_last(), c, i);
    }
}

proof fn lemma_last_index_none(s: Seq<char>, c: char)
    requires
        forall|j: int| 0 <= j < s.len() ==> s[j] != c,
    ensures
        last_index(s, c) is None,
    decreases s.len(),
{
    if s.len() > 0 {
        lemma_last_index_none(s.drop_last(), c);
    }
}

/// `a` comes no later than `b` in the order of their characters, the order
/// `String` compares by.
pub open spec fn lex_le(a: Seq<char>, b: Seq<char>) -> bool
    decreases a.len(),
{
    if a.len() == 0 {
        true
    } else if b.len() == 0 {
        false
    } else if a[0] != b[0] {
        (a[0] as int) < (b[0] as int)
    } else {
        lex_le(a.drop_first(), b.drop_first())
    }
}

pub(crate) proof fn lemma_lex_total(a: Seq<char>, b: Seq<char>)
    ensures
        lex_le(a, b) || lex_le(b, a),
    decreases a.len(),
{
    if a.len() > 0 && b.len() > 0 && a[0] == b[0] {
        lemma_lex_total(a.drop_first(), b.drop_first());
    }
}

pub(crate) proof fn lemma_lex_transitive(a: Seq<char>, b: Seq<char>, c: Seq<char>)
    requires
        lex_le(a, b),
        lex_le(b, c),
    ensures
        lex_le(a, c),
    decreases a.len(),
{
    if a.len() > 0 && b.len() > 0 && c.len() > 0 && a[0] == b[0] && b[0] == c[0] {
        lemma_lex_transitive(a.drop_first(), b.drop_first(), c.drop_first());
    }
}

pub(crate) proof fn lemma_lex_antisymmetric(a: Seq<char>, b: Seq<char>)
    requires
        lex_le(a, b),
        lex_le(b, a),
    ensures
        a == b,
    decreases a.len(),
{
    if a.len() > 0 && b.len() > 0 {
        lemma_lex_antisymmetric(a.drop_first(), b.drop_first());
        assert(a =~= seq![a[0]] + a.drop_first());
        assert(b =~= seq![b[0]] + b.drop_first());
    }
}

/// Is `a` no later than `b` by characters?
pub(crate) fn lex_le_exec(a: &str, b: &str) -> (result: bool)
    ensures
        result == lex_le(a@, b@),
{
    let x = chars_of(a);
    let y = chars_of(b);
    let mut k: usize = 0;
    assert(x@.subrange(0, x@.len() as int) =~= x@);
    assert(y@.subrange(0, y@.len() as int) =~= y@);
    while k < x.len() && k < y.len() && x[k] == y[k]
        invariant
            k <= x.len(),
            k <= y.len(),
            x@ == a@,
            y@ == b@,
            lex_le(x@, y@) == lex_le(x@.subrange(k as int, x@.len() as int), y@.subrange(k as int, y@.len() as int)),
        decreases x.len() - k,
    {
        proof {
            let xs = x@.subrange(k as int, x@.len() as int);
            let ys = y@.subrange(k as int, y@.len() as int);
            assert(xs.drop_first() =~= x@.subrange(k + 1, x@.len() as int));
            assert(ys.drop_first() =~= y@.subrange(k + 1, y@.len() as int));
        }
        k = k + 1;
    }
    let ghost xs = x@.subrange(k as int, x@.len() as int);
    let ghost ys = y@.subrange(k as int, y@.len() as int);
    if k == x.len() {
        assert(xs.len() == 0);
        true
    } else if k == y.len() {
        assert(ys.len() == 0);
        false
    } else {
        assert(xs[0] == x@[k as int] && ys[0] == y@[k as int]);
        x[k] < y[k]
    }
}

/// A group of tools: its name, and the places of its tools in the list.
pub open spec fn group_view(group: (String, Vec<usize>)) -> (Seq<char>, Seq<usize>) {
    (group.0@, group.1@)
}

/// Groups as the values they hold.
pub open spec fn group_views(groups: Seq<(String, Vec<usize>)>) -> Seq<(Seq<char>, Seq<usize>)> {
    groups.map_values(|g: (String, Vec<usize>)| group_view(g))
}

/// `a` is listed no later than `b`: bigger groups first, groups of one size
/// by name.
pub open spec fn ranks_first(a: (Seq<char>, Seq<usize>), b: (Seq<char>, Seq<usize>)) -> bool {
    a.1.len() > b.1.len() || (a.1.len() == b.1.len() && lex_le(a.0, b.0))
}

proof fn lemma_ranks_total(a: (Seq<char>, Seq<usize>), b: (Seq<char>, Seq<usize>))
    ensures
        ranks_first(a, b) || ranks_first(b, a),
{
    lemma_lex_total(a.0, b.0);
}

proof fn lemma_ranks_transitive(
    a: (Seq<char>, Seq<usize>),
    b: (Seq<char>, Seq<usize>),
    c: (Seq<char>, Seq<usize>),
)
    requires
        ranks_first(a, b),
        ranks_first(b, c),
    ensures
        ranks_first(a, c),
{
    if a.1.len() == b.1.len() && b.1.len() == c.1.len() {
        lemma_lex_transitive(a.0, b.0, c.0);
    }
}

/// Is the list in the order the panel shows it?
pub open spec fn in_rank_order(groups: Seq<(Seq<char>, Seq<usize>)>) -> bool {
    forall|i: int, j: int| 0 <= i < j < groups.len() ==> ranks_first(groups[i], groups[j])
}

/// Does this tool stay in the list: asynchronous ones only when asked for,
/// and only what the search finds?
pub open spec fn kept(tool: Tool, needle: Seq<char>, with_async: bool) -> bool {
    (with_async || tool.usable != Usable::Asynchronous) && (needle.len() == 0 || tool_matches(
        tool,
        needle,
    ))
}

/// The first group called `name`.
pub open spec fn group_named(groups: Seq<(Seq<char>, Seq<usize>)>, name: Seq<char>) -> Option<int>
    decreases groups.len(),
{
    if groups.len() == 0 {
        None
    } else {
        match group_named(groups.drop_last(), name) {
            Some(i) => Some(i),
            None => if groups.last().0 == name {
                Some(groups.len() - 1)
            } else {
                None
            },
        }
    }
}

/// The groups the first `n` tools fall into: a group appears where its
/// first tool does, and its tools keep the order of the description.
pub open spec fn gathered(
    tools: Seq<Tool>,
    categories: Seq<Seq<char>>,
    needle: Seq<char>,
    with_async: bool,
    n: nat,
) -> Seq<(Seq<char>, Seq<usize>)>
    decreases n,
{
    if n == 0 {
        Seq::empty()
    } else {
        let before = gathered(tools, categories, needle, with_async, (n - 1) as nat);
        let i = n - 1;
        if !kept(tools[i], needle, with_async) {
            before
        } else {
            match group_named(before, categories[i]) {
                Some(g) => before.update(g, (before[g].0, before[g].1.push(i as usize))),
                None => before.push((categories[i], seq![i as usize])),
            }
        }
    }
}

proof fn lemma_group_named_prefix(s: Seq<(Seq<char>, Seq<usize>)>, name: Seq<char>, m: int)
    requires
        0 <= m <= s.len(),
        group_named(s.subrange(0, m), name) is Some,
    ensures
        group_named(s, name) == group_named(s.subrange(0, m), name),
    decreases s.len(),
{
    if m < s.len() {
        assert(s.drop_last().subrange(0, m) =~= s.subrange(0, m));
        lemma_group_named_prefix(s.drop_last(), name, m);
    } else {
        assert(s.subrange(0, m) =~= s);
    }
}

proof fn lemma_group_named_found(s: Seq<(Seq<char>, Seq<usize>)>, name: Seq<char>)
    ensures
        match group_named(s, name) {
            Some(i) => 0 <= i < s.len() && s[i].0 == name,
            None => forall|j: int| 0 <= j < s.len() ==> s[j].0 != name,
        },
    decreases s.len(),
{
    if s.len() > 0 {
        lemma_group_named_found(s.drop_last(), name);
        assert forall|j: int| 0 <= j < s.len() - 1 implies s[j] == s.drop_last()[j] by {}
    }
}

/// The place of the group called `name`.
fn find_group(groups: &Vec<(String, Vec<usize>)>, name: &str) -> (result: Option<usize>)
    ensures
        match result {
            Some(i) => group_named(group_views(groups@), name@) == Some(i as int),
            None => group_named(group_views(groups@), name@) is None,
        },
{
    let ghost all = group_views(groups@);
    let mut j: usize = 0;
    while j < groups.len()
        invariant
            j <= groups.len(),
            all == group_views(groups@),
            group_named(all.subrange(0, j as int), name@) is None,
        decreases groups.len() - j,
    {
        assert(all.subrange(0, j + 1).drop_last() =~= all.subrange(0, j as int));
        if crate::chars::text_eq(groups[j].0.as_str(), name) {
            proof {
                lemma_group_named_prefix(all, name@, j + 1);
            }
            return Some(j);
        }
        j = j + 1;
    }
    assert(all.subrange(0, j as int) =~= all);
    None
}

/// The groups, biggest first and those of one size by name.
fn rank_groups(groups: Vec<(String, Vec<usize>)>) -> (result: Vec<(String, Vec<usize>)>)
    ensures
        group_views(result@).to_multiset() == group_views(groups@).to_multiset(),
        in_rank_order(group_views(result@)),
{
    broadcast use vstd::multiset::group_multiset_axioms, vstd::seq_lib::group_to_multiset_ensures;

    let ghost all = group_views(groups@);
    let mut rest = groups;
    let mut result: Vec<(String, Vec<usize>)> = Vec::new();
    assert(group_views(result@) =~= Seq::<(Seq<char>, Seq<usize>)>::empty());
    assert(group_views(result@).to_multiset().add(group_views(rest@).to_multiset())
        =~= all.to_multiset());
    while rest.len() > 0
        invariant
            group_views(result@).to_multiset().add(group_views(rest@).to_multiset())
                == all.to_multiset(),
            in_rank_order(group_views(result@)),
        decreases rest.len(),
    {
        let ghost before_rest = group_views(rest@);
        let group = rest.pop().unwrap();
        let ghost x = group_view(group);
        assert(before_rest =~= group_views(rest@).push(x));
        let ghost sorted = group_views(result@);
        let mut p: usize = 0;
        while p < result.len() && ranks_first_exec(&result[p], &group)
            invariant
                p <= result.len(),
                sorted == group_views(result@),
                x == group_view(group),
                forall|k: int| 0 <= k < p ==> ranks_first(#[trigger] sorted[k], x),
            decreases result.len() - p,
        {
            p = p + 1;
        }
        proof {
            if p < result.len() {
                lemma_ranks_total(sorted[p as int], x);
            }
            let after = sorted.insert(p as int, x);
            assert forall|i: int, j: int| 0 <= i < j < after.len() implies ranks_first(
                after[i],
                after[j],
            ) by {
                if j < p {
                } else if j == p {
                    assert(after[i] == sorted[i]);
                } else if i < p {
                    assert(after[j] == sorted[j - 1]);
                    assert(ranks_first(sorted[i], x));
                    assert(ranks_first(x, sorted[p as int]));
                    lemma_ranks_transitive(sorted[i], x, sorted[p as int]);
                    if j - 1 > p {
                        lemma_ranks_transitive(sorted[i], sorted[p as int], sorted[j - 1]);
                    }
                } else if i == p {
                    assert(after[j] == sorted[j - 1]);
                    if j - 1 > p {
                        lemma_ranks_transitive(x, sorted[p as int], sorted[j - 1]);
                    }
                } else {
                    assert(after[i] == sorted[i - 1]);
                    assert(after[j] == sorted[j - 1]);
                }
            }
            vstd::seq_lib::to_multiset_insert(sorted, p as int, x);
        }
        result.insert(p, group);
        assert(group_views(result@) =~= sorted.insert(p as int, x));
        proof {
            let r = sorted.to_multiset();
            let rest_now = group_views(rest@).to_multiset();
            group_views(rest@).to_multiset_ensures();
            assert(before_rest.to_multiset() == group_views(rest@).push(x).to_multiset());
            assert(before_rest.to_multiset() == rest_now.insert(x));
            assert(r.add(rest_now.insert(x)) == all.to_multiset());
            assert(r.insert(x).add(rest_now) =~= r.add(rest_now.insert(x)));
        }
    }
    assert(group_views(rest@) =~= Seq::<(Seq<char>, Seq<usize>)>::empty());
    assert(group_views(result@).to_multiset() =~= all.to_multiset());
    result
}

/// Does `a` come no later than `b` in the panel's order?
fn ranks_first_exec(a: &(String, Vec<usize>), b: &(String, Vec<usize>)) -> (result: bool)
    ensures
        result == ranks_first(group_view(*a), group_view(*b)),
{
    a.1.len() > b.1.len() || (a.1.len() == b.1.len() && lex_le_exec(a.0.as_str(), b.0.as_str()))
}

/// The tools of a service, grouped the way the service groups them:
/// `categories[i]` is the group the service's grouping puts `tools[i]` in.
///
/// Only tools that stay in the list count: asynchronous ones only when
/// `with_async` asks for them, and only what the search finds. A group
/// keeps its tools in the order the description lists them; the groups
/// come biggest first, groups of one size by name.
pub fn group_tools(tools: &[Tool], needle: &str, categories: &[String], with_async: bool) -> (result: Vec<(String, Vec<usize>)>)
    requires
        categories.len() == tools.len(),
    ensures
        group_views(result@).to_multiset() == gathered(
            tools@,
            crate::chars::texts(categories@),
            needle@,
            with_async,
            tools@.len(),
        ).to_multiset(),
        in_rank_order(group_views(result@)),
        well_gathered(
            group_views(result@),
            tools@,
            crate::chars::texts(categories@),
            needle@,
            with_async,
            tools@.len(),
        ),
{
    let ghost names = crate::chars::texts(categories@);
    let searching = chars_of(needle).len() > 0;
    let mut groups: Vec<(String, Vec<usize>)> = Vec::new();
    let mut i: usize = 0;
    assert(group_views(groups@) =~= Seq::<(Seq<char>, Seq<usize>)>::empty());
    while i < tools.len()
        invariant
            i <= tools.len(),
            categories.len() == tools.len(),
            names == crate::chars::texts(categories@),
            searching == (needle@.len() > 0),
            group_views(groups@) == gathered(tools@, names, needle@, with_async, i as nat),
        decreases tools.len() - i,
    {
        let ghost before = group_views(groups@);
        let keep = (with_async || tools[i].usable != Usable::Asynchronous) && (!searching
            || matches_tool(&tools[i], needle));
        assert(keep == kept(tools@[i as int], needle@, with_async));
        if keep {
            let name = &categories[i];
            assert(names[i as int] == name@);
            match find_group(&groups, name.as_str()) {
                Some(g) => {
                    proof {
                        lemma_group_named_found(before, name@);
                    }
                    let (group_name, mut list) = groups.remove(g);
                    list.push(i);
                    groups.insert(g, (group_name, list));
                    assert(group_views(groups@) =~= before.update(
                        g as int,
                        (before[g as int].0, before[g as int].1.push(i)),
                    ));
                },
                None => {
                    let mut list: Vec<usize> = Vec::new();
                    list.push(i);
                    groups.push((name.clone(), list));
                    assert(group_views(groups@) =~= before.push((name@, seq![i])));
                },
            }
        }
        i = i + 1;
    }
    let ranked = rank_groups(groups);
    proof {
        lemma_gathered_shape(tools@, names, needle@, with_async, tools@.len());
        lemma_shape_survives_reordering(
            group_views(ranked@),
            gathered(tools@, names, needle@, with_async, tools@.len()),
            tools@,
            names,
            needle@,
            with_async,
            tools@.len(),
        );
    }
    ranked
}

/// What the groups of the first `n` tools are made of: names that differ,
/// lists that are not empty and keep the order of the description, and
/// every tool that stays in the list in the group its category names.
pub open spec fn well_gathered(
    groups: Seq<(Seq<char>, Seq<usize>)>,
    tools: Seq<Tool>,
    categories: Seq<Seq<char>>,
    needle: Seq<char>,
    with_async: bool,
    n: nat,
) -> bool {
    &&& forall|a: int, b: int|
        0 <= a < groups.len() && 0 <= b < groups.len() && a != b ==> #[trigger] groups[a].0
            != #[trigger] groups[b].0
    &&& forall|g: int| 0 <= g < groups.len() ==> #[trigger] groups[g].1.len() > 0
    &&& forall|g: int, k: int|
        0 <= g < groups.len() && 0 <= k < groups[g].1.len() ==> {
            let t = #[trigger] groups[g].1[k];
            &&& t < n
            &&& kept(tools[t as int], needle, with_async)
            &&& categories[t as int] == groups[g].0
        }
    &&& forall|g: int, k1: int, k2: int|
        0 <= g < groups.len() && 0 <= k1 < k2 < groups[g].1.len() ==> #[trigger] groups[g].1[k1]
            < #[trigger] groups[g].1[k2]
    &&& forall|i: int|
        0 <= i < n && #[trigger] kept(tools[i], needle, with_async) ==> exists|g: int, k: int|
            0 <= g < groups.len() && 0 <= k < groups[g].1.len() && groups[g].1[k] == i
}

proof fn lemma_gathered_shape(
    tools: Seq<Tool>,
    categories: Seq<Seq<char>>,
    needle: Seq<char>,
    with_async: bool,
    n: nat,
)
    requires
        n <= tools.len() <= usize::MAX,
        categories.len() == tools.len(),
    ensures
        well_gathered(gathered(tools, categories, needle, with_async, n), tools, categories, needle, with_async, n),
    decreases n,
{
    if n > 0 {
        let m = (n - 1) as nat;
        lemma_gathered_shape(tools, categories, needle, with_async, m);
        let before = gathered(tools, categories, needle, with_async, m);
        let after = gathered(tools, categories, needle, with_async, n);
        let i = n - 1;
        if kept(tools[i], needle, with_async) {
            let name = categories[i];
            lemma_group_named_found(before, name);
            match group_named(before, name) {
                Some(g) => {
                    let grown = before[g].1.push(i as usize);
                    assert(after == before.update(g, (before[g].0, grown)));
                    assert forall|h: int, k: int|
                        0 <= h < after.len() && 0 <= k < after[h].1.len() implies {
                            let t = #[trigger] after[h].1[k];
                            &&& t < n
                            &&& kept(tools[t as int], needle, with_async)
                            &&& categories[t as int] == after[h].0
                        } by {
                        if h == g && k == before[g].1.len() {
                        } else {
                            assert(after[h].1[k] == before[h].1[k]);
                        }
                    }
                    assert forall|h: int, k1: int, k2: int|
                        0 <= h < after.len() && 0 <= k1 < k2 < after[h].1.len() implies #[trigger] after[h].1[k1]
                            < #[trigger] after[h].1[k2] by {
                        if h == g && k2 == before[g].1.len() {
                            assert(after[h].1[k1] == before[h].1[k1]);
                        } else {
                            assert(after[h].1[k1] == before[h].1[k1]);
                            assert(after[h].1[k2] == before[h].1[k2]);
                        }
                    }
                    assert forall|j: int|
                        0 <= j < n && #[trigger] kept(tools[j], needle, with_async) implies exists|h: int, k: int|
                            0 <= h < after.len() && 0 <= k < after[h].1.len() && after[h].1[k] == j by {
                        if j == i {
                            assert(after[g].1[before[g].1.len() as int] == j);
                        } else {
                            let (h, k) = choose|h: int, k: int|
                                0 <= h < before.len() && 0 <= k < before[h].1.len() && before[h].1[k] == j;
                            assert(after[h].1[k] == j);
                        }
                    }
                    assert forall|a: int, b: int|
                        0 <= a < after.len() && 0 <= b < after.len() && a != b implies #[trigger] after[a].0
                            != #[trigger] after[b].0 by {
                        assert(before[a].0 != before[b].0);
                    }
                    assert forall|h: int| 0 <= h < after.len() implies #[trigger] after[h].1.len() > 0 by {
                        assert(before[h].1.len() > 0);
                    }
                },
                None => {
                    assert(after == before.push((name, seq![i as usize])));
                    assert forall|h: int, k: int|
                        0 <= h < after.len() && 0 <= k < after[h].1.len() implies {
                            let t = #[trigger] after[h].1[k];
                            &&& t < n
                            &&& kept(tools[t as int], needle, with_async)
                            &&& categories[t as int] == after[h].0
                        } by {
                        if h < before.len() {
                            assert(after[h] == before[h]);
                        }
                    }
                    assert forall|h: int, k1: int, k2: int|
                        0 <= h < after.len() && 0 <= k1 < k2 < after[h].1.len() implies #[trigger] after[h].1[k1]
                            < #[trigger] after[h].1[k2] by {
                        assert(after[h] == before[h]);
                    }
                    assert forall|j: int|
                        0 <= j < n && #[trigger] kept(tools[j], needle, with_async) implies exists|h: int, k: int|
                            0 <= h < after.len() && 0 <= k < after[h].1.len() && after[h].1[k] == j by {
                        if j == i {
                            assert(after[before.len() as int].1[0] == j);
                        } else {
                            let (h, k) = choose|h: int, k: int|
                                0 <= h < before.len() && 0 <= k < before[h].1.len() && before[h].1[k] == j;
                            assert(after[h] == before[h]);
                            assert(after[h].1[k] == j);
                        }
                    }
                    assert forall|a: int, b: int|
                        0 <= a < after.len() && 0 <= b < after.len() && a != b implies #[trigger] after[a].0
                            != #[trigger] after[b].0 by {
                        if a < before.len() && b < before.len() {
                            assert(before[a].0 != before[b].0);
                        } else if a < before.len() {
                            assert(before[a].0 != name);
                        } else {
                            assert(before[b].0 != name);
                        }
                    }
                    assert forall|h: int| 0 <= h < after.len() implies #[trigger] after[h].1.len() > 0 by {
                        if h < before.len() {
                            assert(before[h].1.len() > 0);
                        }
                    }
                },
            }
        } else {
            assert forall|j: int|
                0 <= j < n && #[trigger] kept(tools[j], needle, with_async) implies exists|h: int, k: int|
                    0 <= h < after.len() && 0 <= k < after[h].1.len() && after[h].1[k] == j by {
                assert(j != i);
            }
        }
    }
}

proof fn lemma_shape_survives_reordering(
    reordered: Seq<(Seq<char>, Seq<usize>)>,
    groups: Seq<(Seq<char>, Seq<usize>)>,
    tools: Seq<Tool>,
    categories: Seq<Seq<char>>,
    needle: Seq<char>,
    with_async: bool,
    n: nat,
)
    requires
        reordered.to_multiset() == groups.to_multiset(),
        well_gathered(groups, tools, categories, needle, with_async, n),
    ensures
        well_gathered(reordered, tools, categories, needle, with_async, n),
{
    lemma_same_members(reordered, groups);
    assert(groups.no_duplicates()) by {
        assert forall|a: int, b: int| 0 <= a < groups.len() && 0 <= b < groups.len() && a != b implies groups[a] != groups[b] by {
            assert(groups[a].0 != groups[b].0);
        }
    }
    lemma_still_no_duplicates(reordered, groups);
    lemma_names_still_differ(reordered, groups);
    lemma_groups_still_fit(reordered, groups, tools, categories, needle, with_async, n);
    lemma_still_covered(reordered, groups, tools, needle, with_async, n);
}

proof fn lemma_names_still_differ(reordered: Seq<(Seq<char>, Seq<usize>)>, groups: Seq<(Seq<char>, Seq<usize>)>)
    requires
        reordered.no_duplicates(),
        forall|j: int| 0 <= j < reordered.len() ==> groups.contains(#[trigger] reordered[j]),
        forall|a: int, b: int|
            0 <= a < groups.len() && 0 <= b < groups.len() && a != b ==> #[trigger] groups[a].0
                != #[trigger] groups[b].0,
    ensures
        forall|a: int, b: int|
            0 <= a < reordered.len() && 0 <= b < reordered.len() && a != b ==> #[trigger] reordered[a].0
                != #[trigger] reordered[b].0,
{
    assert forall|a: int, b: int|
        0 <= a < reordered.len() && 0 <= b < reordered.len() && a != b implies #[trigger] reordered[a].0
            != #[trigger] reordered[b].0 by {
        assert(groups.contains(reordered[a]) && groups.contains(reordered[b]));
        let x = choose|x: int| 0 <= x < groups.len() && groups[x] == reordered[a];
        let y = choose|y: int| 0 <= y < groups.len() && groups[y] == reordered[b];
        if x != y {
            assert(groups[x].0 != groups[y].0);
        }
    }
}

proof fn lemma_groups_still_fit(
    reordered: Seq<(Seq<char>, Seq<usize>)>,
    groups: Seq<(Seq<char>, Seq<usize>)>,
    tools: Seq<Tool>,
    categories: Seq<Seq<char>>,
    needle: Seq<char>,
    with_async: bool,
    n: nat,
)
    requires
        forall|j: int| 0 <= j < reordered.len() ==> groups.contains(#[trigger] reordered[j]),
        well_gathered(groups, tools, categories, needle, with_async, n),
    ensures
        forall|g: int| 0 <= g < reordered.len() ==> #[trigger] reordered[g].1.len() > 0,
        forall|g: int, k: int|
            0 <= g < reordered.len() && 0 <= k < reordered[g].1.len() ==> {
                let t = #[trigger] reordered[g].1[k];
                &&& t < n
                &&& kept(tools[t as int], needle, with_async)
                &&& categories[t as int] == reordered[g].0
            },
        forall|g: int, k1: int, k2: int|
            0 <= g < reordered.len() && 0 <= k1 < k2 < reordered[g].1.len() ==> #[trigger] reordered[g].1[k1]
                < #[trigger] reordered[g].1[k2],
{
    assert forall|h: int| 0 <= h < reordered.len() implies #[trigger] reordered[h].1.len() > 0 by {
        assert(groups.contains(reordered[h]));
        let x = choose|x: int| 0 <= x < groups.len() && groups[x] == reordered[h];
        assert(groups[x].1.len() > 0);
    }
    assert forall|h: int, k: int|
        0 <= h < reordered.len() && 0 <= k < reordered[h].1.len() implies {
            let t = #[trigger] reordered[h].1[k];
            &&& t < n
            &&& kept(tools[t as int], needle, with_async)
            &&& categories[t as int] == reordered[h].0
        } by {
        assert(groups.contains(reordered[h]));
        let x = choose|x: int| 0 <= x < groups.len() && groups[x] == reordered[h];
        assert(groups[x].1[k] == reordered[h].1[k]);
    }
    assert forall|h: int, k1: int, k2: int|
        0 <= h < reordered.len() && 0 <= k1 < k2 < reordered[h].1.len() implies #[trigger] reordered[h].1[k1]
            < #[trigger] reordered[h].1[k2] by {
        assert(groups.contains(reordered[h]));
        let x = choose|x: int| 0 <= x < groups.len() && groups[x] == reordered[h];
        assert(groups[x].1[k1] < groups[x].1[k2]);
    }
}

proof fn lemma_still_covered(
    reordered: Seq<(Seq<char>, Seq<usize>)>,
    groups: Seq<(Seq<char>, Seq<usize>)>,
    tools: Seq<Tool>,
    needle: Seq<char>,
    with_async: bool,
    n: nat,
)
    requires
        forall|x: int| 0 <= x < groups.len() ==> reordered.contains(#[trigger] groups[x]),
        forall|i: int|
            0 <= i < n && #[trigger] kept(tools[i], needle, with_async) ==> exists|g: int, k: int|
                0 <= g < groups.len() && 0 <= k < groups[g].1.len() && groups[g].1[k] == i,
    ensures
        forall|i: int|
            0 <= i < n && #[trigger] kept(tools[i], needle, with_async) ==> exists|g: int, k: int|
                0 <= g < reordered.len() && 0 <= k < reordered[g].1.len() && reordered[g].1[k] == i,
{
    assert forall|i: int|
        0 <= i < n && #[trigger] kept(tools[i], needle, with_async) implies exists|h: int, k: int|
            0 <= h < reordered.len() && 0 <= k < reordered[h].1.len() && reordered[h].1[k] == i by {
        let (x, k) = choose|x: int, k: int|
            0 <= x < groups.len() && 0 <= k < groups[x].1.len() && groups[x].1[k] == i;
        assert(reordered.contains(groups[x]));
        let j = choose|j: int| 0 <= j < reordered.len() && reordered[j] == groups[x];
        assert(reordered[j].1[k] == i);
    }
}

proof fn lemma_same_members<A>(reordered: Seq<A>, source: Seq<A>)
    requires
        reordered.to_multiset() == source.to_multiset(),
    ensures
        forall|j: int| 0 <= j < reordered.len() ==> source.contains(#[trigger] reordered[j]),
        forall|x: int| 0 <= x < source.len() ==> reordered.contains(#[trigger] source[x]),
{
    broadcast use vstd::seq_lib::to_multiset_contains;

    assert forall|j: int| 0 <= j < reordered.len() implies source.contains(#[trigger] reordered[j]) by {
        assert(reordered.contains(reordered[j]));
        assert(reordered.to_multiset().count(reordered[j]) > 0);
        assert(source.to_multiset().count(reordered[j]) > 0);
        assert(source.contains(reordered[j]));
    }
    assert forall|x: int| 0 <= x < source.len() implies reordered.contains(#[trigger] source[x]) by {
        assert(source.contains(source[x]));
        assert(source.to_multiset().count(source[x]) > 0);
        assert(reordered.to_multiset().count(source[x]) > 0);
        assert(reordered.contains(source[x]));
    }
}

proof fn lemma_still_no_duplicates<A>(reordered: Seq<A>, source: Seq<A>)
    requires
        reordered.to_multiset() == source.to_multiset(),
        source.no_duplicates(),
    ensures
        reordered.no_duplicates(),
{
    source.lemma_multiset_has_no_duplicates();
    reordered.lemma_multiset_has_no_duplicates_conv();
}

/// Nothing is lost on the way into the groups, and nothing is listed twice:
/// every tool that stays in the list is in exactly one group, at exactly
/// one place.
pub proof fn law_each_kept_tool_is_listed_once(
    groups: Seq<(Seq<char>, Seq<usize>)>,
    tools: Seq<Tool>,
    categories: Seq<Seq<char>>,
    needle: Seq<char>,
    with_async: bool,
    i: int,
)
    requires
        well_gathered(groups, tools, categories, needle, with_async, tools.len()),
        0 <= i < tools.len(),
        kept(tools[i], needle, with_async),
    ensures
        exists|g: int, k: int| 0 <= g < groups.len() && 0 <= k < groups[g].1.len() && groups[g].1[k] == i,
        forall|g1: int, k1: int, g2: int, k2: int|
            0 <= g1 < groups.len() && 0 <= k1 < groups[g1].1.len() && #[trigger] groups[g1].1[k1] == i
                && 0 <= g2 < groups.len() && 0 <= k2 < groups[g2].1.len() && #[trigger] groups[g2].1[k2] == i
                ==> g1 == g2 && k1 == k2,
{
    assert forall|g1: int, k1: int, g2: int, k2: int|
        0 <= g1 < groups.len() && 0 <= k1 < groups[g1].1.len() && #[trigger] groups[g1].1[k1] == i
            && 0 <= g2 < groups.len() && 0 <= k2 < groups[g2].1.len() && #[trigger] groups[g2].1[k2] == i
            implies g1 == g2 && k1 == k2 by {
        assert(categories[groups[g1].1[k1] as int] == groups[g1].0);
        assert(categories[groups[g2].1[k2] as int] == groups[g2].0);
        if g1 != g2 {
            assert(groups[g1].0 != groups[g2].0);
        }
        if k1 < k2 {
            assert(groups[g1].1[k1] < groups[g1].1[k2]);
        } else if k2 < k1 {
            assert(groups[g1].1[k2] < groups[g1].1[k1]);
        }
    }
}

} // verus!
