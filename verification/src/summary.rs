//! What the action bar knows about the selected rows.

use vstd::prelude::*;

use crate::chars::{opt_view, text_eq};
use crate::model::{ContextEntry, EntryKind};
use crate::outcome::{Agreement, SelectionState, agreement};
use crate::window::{Row, clsid, clsid_of, resolve, resolved};

verus! {

/// Whether values agree: nothing to agree about, all the same, or not.
pub open spec fn agree<T>(values: Seq<T>) -> Agreement<T> {
    if values.len() == 0 {
        Agreement::Empty
    } else if forall|i: int| 0 <= i < values.len() ==> #[trigger] values[i] == values[0] {
        Agreement::Same(values[0])
    } else {
        Agreement::Mixed
    }
}

/// An agreement on optional texts, as the texts it holds.
pub open spec fn agreement_view(a: Agreement<Option<String>>) -> Agreement<Option<Seq<char>>> {
    match a {
        Agreement::Empty => Agreement::Empty,
        Agreement::Same(value) => Agreement::Same(opt_view(value)),
        Agreement::Mixed => Agreement::Mixed,
    }
}

/// The selected rows the scan still resolves, each with its place in the
/// selection and its entry.
pub open spec fn found_rows(entries: Seq<ContextEntry>, rows: Seq<Row>, n: nat) -> Seq<(int, ContextEntry)>
    decreases n,
{
    if n == 0 {
        Seq::empty()
    } else {
        let rest = found_rows(entries, rows, (n - 1) as nat);
        match resolved(entries, rows[n - 1].entry, rows[n - 1].path@) {
            Some(e) => rest.push((n - 1, e)),
            None => rest,
        }
    }
}

/// What the action bar counts of a resolved row.
#[derive(Debug, Clone, Copy, PartialEq, Eq, Structural)]
pub enum Trait {
    ReadOnly,
    Addressable,
    Clsid,
    Packaged,
}

/// Does the row at place `at`, resolved to `entry`, have the trait?
pub open spec fn has(entry: ContextEntry, at: int, addressable: Seq<bool>, t: Trait) -> bool {
    match t {
        Trait::ReadOnly => entry.read_only,
        Trait::Addressable => addressable[at],
        Trait::Clsid => clsid(entry) is Some,
        Trait::Packaged => entry.kind is PackagedVerb,
    }
}

/// How many of `list` have the trait.
pub open spec fn how_many(list: Seq<(int, ContextEntry)>, addressable: Seq<bool>, t: Trait) -> nat
    decreases list.len(),
{
    if list.len() == 0 {
        0
    } else {
        how_many(list.drop_last(), addressable, t) + if has(list.last().1, list.last().0, addressable, t) {
            1nat
        } else {
            0nat
        }
    }
}

/// Whether an entry is on the blocked list, for the entries where the
/// question has an answer: a COM handler that names its CLSID, and a
/// Windows 11 entry.
pub open spec fn blocked_state(entry: ContextEntry) -> Option<bool> {
    match entry.kind {
        EntryKind::ShellEx { clsid, blocked, .. } => if clsid@.len() > 0 { Some(blocked) } else { None },
        EntryKind::PackagedVerb { blocked_machine, .. } => Some(blocked_machine),
        _ => None,
    }
}

/// The answers of `blocked_state`, in order, leaving out the entries without one.
pub open spec fn blocked_states(list: Seq<(int, ContextEntry)>) -> Seq<bool>
    decreases list.len(),
{
    if list.len() == 0 {
        Seq::empty()
    } else {
        let rest = blocked_states(list.drop_last());
        match blocked_state(list.last().1) {
            Some(b) => rest.push(b),
            None => rest,
        }
    }
}

/// What the action bar says of a selection: every count and agreement over
/// the rows the scan still resolves. `addressable[i]` says whether the key
/// of the entry row `i` resolves to is one the registry layer can address.
pub open spec fn summed(
    entries: Option<Seq<ContextEntry>>,
    rows: Seq<Row>,
    addressable: Seq<bool>,
    state: SelectionState,
) -> bool {
    &&& state.count == rows.len()
    &&& match entries {
        None => state.resolved == 0 && state.changeable == 0 && state.read_only == 0 && state.blockable == 0
            && state.packaged == 0 && state.hidden == Agreement::<bool>::Empty && state.extended
            == Agreement::<bool>::Empty && state.blocked == Agreement::<bool>::Empty && agreement_view(state.position)
            == Agreement::<Option<Seq<char>>>::Empty,
        Some(list) => {
            let found = found_rows(list, rows, rows.len());
            &&& state.resolved == found.len()
            &&& state.read_only == how_many(found, addressable, Trait::ReadOnly)
            &&& state.changeable == how_many(found, addressable, Trait::Addressable)
            &&& state.blockable == how_many(found, addressable, Trait::Clsid)
            &&& state.packaged == how_many(found, addressable, Trait::Packaged)
            &&& state.hidden == agree(found.map_values(|x: (int, ContextEntry)| x.1.hidden))
            &&& state.extended == agree(found.map_values(|x: (int, ContextEntry)| x.1.extended))
            &&& state.blocked == agree(blocked_states(found))
            &&& agreement_view(state.position) == agree(found.map_values(|x: (int, ContextEntry)| opt_view(x.1.position)))
        },
    }
}

proof fn lemma_agree(values: Seq<bool>, result: Agreement<bool>)
    requires
        values.len() == 0 ==> result == Agreement::<bool>::Empty,
        values.len() > 0 && (forall|i: int| 0 <= i < values.len() ==> #[trigger] values[i] == values[0])
            ==> result == Agreement::Same(values[0]),
        values.len() > 0 && (exists|i: int| 0 <= i < values.len() && #[trigger] values[i] != values[0])
            ==> result == Agreement::<bool>::Mixed,
    ensures
        result == agree(values),
{
}

/// Whether optional texts agree, text for text.
fn text_agreement(values: &Vec<Option<String>>) -> (result: Agreement<Option<String>>)
    ensures
        agreement_view(result) == agree(values@.map_values(|v: Option<String>| opt_view(v))),
{
    let ghost views = values@.map_values(|v: Option<String>| opt_view(v));
    if values.len() == 0 {
        return Agreement::Empty;
    }
    let mut i: usize = 1;
    while i < values.len()
        invariant
            1 <= i <= values.len(),
            views == values@.map_values(|v: Option<String>| opt_view(v)),
            forall|j: int| 0 <= j < i ==> #[trigger] views[j] == views[0],
        decreases values.len() - i,
    {
        let same = match (&values[0], &values[i]) {
            (Some(a), Some(b)) => text_eq(a.as_str(), b.as_str()),
            (None, None) => true,
            _ => false,
        };
        if !same {
            assert(views[i as int] != views[0]);
            return Agreement::Mixed;
        }
        i = i + 1;
    }
    let first = match &values[0] {
        Some(a) => Some(a.clone()),
        None => None,
    };
    Agreement::Same(first)
}

/// Sums up the selection for the action bar: `rows` are the selected rows,
/// and `entries` the scan, when there is one.
pub fn selection_state(entries: Option<&[ContextEntry]>, rows: &[Row], addressable: &[bool]) -> (state: SelectionState)
    requires
        addressable.len() == rows.len(),
    ensures
        summed(
            match entries {
                Some(list) => Some(list@),
                None => None,
            },
            rows@,
            addressable@,
            state,
        ),
{
    let list = match entries {
        None => {
            let state = SelectionState {
                count: rows.len(),
                resolved: 0,
                changeable: 0,
                read_only: 0,
                blockable: 0,
                packaged: 0,
                hidden: Agreement::Empty,
                extended: Agreement::Empty,
                blocked: Agreement::Empty,
                position: Agreement::Empty,
            };
            return state;
        },
        Some(list) => list,
    };
    let mut resolved_count: usize = 0;
    let mut read_only: usize = 0;
    let mut changeable: usize = 0;
    let mut blockable: usize = 0;
    let mut packaged: usize = 0;
    let mut hidden: Vec<bool> = Vec::new();
    let mut extended: Vec<bool> = Vec::new();
    let mut blocked: Vec<bool> = Vec::new();
    let mut position: Vec<Option<String>> = Vec::new();
    let mut i: usize = 0;
    while i < rows.len()
        invariant
            i <= rows.len(),
            addressable.len() == rows.len(),
            ({
                let found = found_rows(list@, rows@, i as nat);
                &&& resolved_count == found.len()
                &&& found.len() <= i
                &&& read_only == how_many(found, addressable@, Trait::ReadOnly)
                &&& changeable == how_many(found, addressable@, Trait::Addressable)
                &&& blockable == how_many(found, addressable@, Trait::Clsid)
                &&& packaged == how_many(found, addressable@, Trait::Packaged)
                &&& read_only <= found.len() && changeable <= found.len() && blockable <= found.len() && packaged <= found.len()
                &&& hidden@ == found.map_values(|x: (int, ContextEntry)| x.1.hidden)
                &&& extended@ == found.map_values(|x: (int, ContextEntry)| x.1.extended)
                &&& blocked@ == blocked_states(found)
                &&& position@.map_values(|v: Option<String>| opt_view(v)) == found.map_values(
                    |x: (int, ContextEntry)| opt_view(x.1.position),
                )
            }),
        decreases rows.len() - i,
    {
        let ghost before = found_rows(list@, rows@, i as nat);
        let ghost old_position = position@;
        match resolve(list, &rows[i]) {
            Some(entry) => {
                let ghost now = before.push((i as int, *entry));
                assert(now.drop_last() == before);
                resolved_count = resolved_count + 1;
                if entry.read_only {
                    read_only = read_only + 1;
                }
                if addressable[i] {
                    changeable = changeable + 1;
                }
                if clsid_of(entry).is_some() {
                    blockable = blockable + 1;
                }
                match entry.kind {
                    EntryKind::PackagedVerb { .. } => {
                        packaged = packaged + 1;
                    },
                    _ => {},
                }
                hidden.push(entry.hidden);
                extended.push(entry.extended);
                match &entry.kind {
                    EntryKind::ShellEx { clsid, blocked: b, .. } => {
                        if clsid.as_str().unicode_len() > 0 {
                            blocked.push(*b);
                        }
                    },
                    EntryKind::PackagedVerb { blocked_machine, .. } => {
                        blocked.push(*blocked_machine);
                    },
                    _ => {},
                }
                let copy = match &entry.position {
                    Some(p) => Some(p.clone()),
                    None => None,
                };
                position.push(copy);
                proof {
                    assert(found_rows(list@, rows@, (i + 1) as nat) == now);
                    assert(now.last() == (i as int, *entry));
                    assert(opt_view(copy) == opt_view(entry.position));
                    assert(position@ =~= old_position.push(copy));
                    assert(blocked@ == blocked_states(now));
                    assert(hidden@ =~= now.map_values(|x: (int, ContextEntry)| x.1.hidden));
                    assert(extended@ =~= now.map_values(|x: (int, ContextEntry)| x.1.extended));
                    let pv = position@.map_values(|v: Option<String>| opt_view(v));
                    let nv = now.map_values(|x: (int, ContextEntry)| opt_view(x.1.position));
                    let ov = old_position.map_values(|v: Option<String>| opt_view(v));
                    let bv = before.map_values(|x: (int, ContextEntry)| opt_view(x.1.position));
                    assert(ov == bv);
                    assert(ov.len() == old_position.len() && bv.len() == before.len());
                    assert forall|j: int| 0 <= j < pv.len() implies pv[j] == nv[j] by {
                        if j < old_position.len() {
                            assert(pv[j] == ov[j]);
                            assert(now[j] == before[j]);
                            assert(nv[j] == bv[j]);
                        } else {
                            assert(position@[j] == copy);
                            assert(now[j] == (i as int, *entry));
                        }
                    }
                    assert(pv =~= nv);
                }
            },
            None => {
                assert(found_rows(list@, rows@, (i + 1) as nat) == before);
            },
        }
        i = i + 1;
    }
    let hidden_agreement = agreement(hidden.as_slice());
    let extended_agreement = agreement(extended.as_slice());
    let blocked_agreement = agreement(blocked.as_slice());
    proof {
        lemma_agree(hidden@, hidden_agreement);
        lemma_agree(extended@, extended_agreement);
        lemma_agree(blocked@, blocked_agreement);
    }
    SelectionState {
        count: rows.len(),
        resolved: resolved_count,
        changeable,
        read_only,
        blockable,
        packaged,
        hidden: hidden_agreement,
        extended: extended_agreement,
        blocked: blocked_agreement,
        position: text_agreement(&position),
    }
}

} // verus!
