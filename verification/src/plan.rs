//! Which selected rows an action on the selection turns into steps.

use vstd::prelude::*;

use crate::chars::{lowercase, lowercase_of, opt_view, string_of};
use crate::model::{Action, ContextEntry, EntryKind};
use crate::window::{Row, applies_to_every_file_type, clsid, clsid_of, contains_row, resolve, resolved};

verus! {

/// One step of a plan: an action on the key of one selected row.
#[derive(Debug, Clone)]
pub struct Step {
    /// The place of the row in the selection.
    pub row: usize,
    pub registry_path: String,
    /// The CLSID, for an entry that names one.
    pub clsid: Option<String>,
    pub display_name: String,
    /// An entry of the Windows 11 menu.
    pub packaged: bool,
}

/// Is another selected row an ancestor of row `i`?
pub open spec fn below_another(selected: Seq<Row>, i: int) -> bool {
    exists|j: int|
        0 <= j < selected.len() && #[trigger] contains_row(
            selected[j].entry,
            selected[j].path@,
            selected[i].entry,
            selected[i].path@,
        )
}

/// Does the action only make sense for an entry that names a CLSID?
pub open spec fn needs_clsid(action: Action) -> bool {
    action is Block || action is Unblock
}

/// The entry selected row `i` turns into a step for, if it turns into one:
/// not when a selected ancestor's step takes it along, not when it no
/// longer resolves, not when its key cannot be addressed, and, for blocking
/// and unblocking, not without a CLSID.
pub open spec fn planned_entry(
    selected: Seq<Row>,
    entries: Seq<ContextEntry>,
    action: Action,
    addressable: Seq<bool>,
    i: int,
) -> Option<ContextEntry> {
    if below_another(selected, i) || !addressable[i] {
        None
    } else {
        match resolved(entries, selected[i].entry, selected[i].path@) {
            Some(entry) => if needs_clsid(action) && clsid(entry) is None {
                None
            } else {
                Some(entry)
            },
            None => None,
        }
    }
}

/// The rows among the first `n` that become steps, with their entries, in
/// the order of the selection.
pub open spec fn planned(
    selected: Seq<Row>,
    entries: Seq<ContextEntry>,
    action: Action,
    addressable: Seq<bool>,
    n: nat,
) -> Seq<(int, ContextEntry)>
    decreases n,
{
    if n == 0 {
        Seq::empty()
    } else {
        let rest = planned(selected, entries, action, addressable, (n - 1) as nat);
        match planned_entry(selected, entries, action, addressable, n - 1) {
            Some(entry) => rest.push((n - 1, entry)),
            None => rest,
        }
    }
}

/// Does `step` say what the plan holds for row `i` and its entry?
pub open spec fn step_for(step: Step, i: int, entry: ContextEntry) -> bool {
    &&& step.row == i
    &&& step.registry_path@ == entry.registry_path@
    &&& opt_view(step.clsid) == clsid(entry)
    &&& step.display_name@ == entry.display_name@
    &&& step.packaged == (entry.kind is PackagedVerb)
}

fn below_another_exec(selected: &[Row], i: usize) -> (result: bool)
    requires
        i < selected.len(),
    ensures
        result == below_another(selected@, i as int),
{
    let mut j: usize = 0;
    while j < selected.len()
        invariant
            j <= selected.len(),
            i < selected.len(),
            forall|k: int|
                0 <= k < j ==> !contains_row(
                    selected@[k].entry,
                    selected@[k].path@,
                    selected@[i as int].entry,
                    selected@[i as int].path@,
                ),
        decreases selected.len() - j,
    {
        if selected[j].is_ancestor_of(&selected[i]) {
            return true;
        }
        j = j + 1;
    }
    false
}

/// The steps an action on the selection takes, one per selected row that
/// turns into one, in the order of the selection. `addressable[i]` says
/// whether the key of the entry row `i` resolves to is one the registry
/// layer can address, as its path parser decides.
pub fn plan_for_selection(
    selected: &[Row],
    entries: &[ContextEntry],
    action: &Action,
    addressable: &[bool],
) -> (plan: Vec<Step>)
    requires
        addressable.len() == selected.len(),
    ensures
        ({
            let want = planned(selected@, entries@, *action, addressable@, selected@.len());
            &&& plan@.len() == want.len()
            &&& forall|k: int| 0 <= k < plan@.len() ==> step_for(#[trigger] plan@[k], want[k].0, want[k].1)
        }),
{
    let mut plan: Vec<Step> = Vec::new();
    let mut i: usize = 0;
    let blocking = match action {
        Action::Block | Action::Unblock => true,
        _ => false,
    };
    while i < selected.len()
        invariant
            i <= selected.len(),
            addressable.len() == selected.len(),
            blocking == needs_clsid(*action),
            ({
                let want = planned(selected@, entries@, *action, addressable@, i as nat);
                &&& plan@.len() == want.len()
                &&& forall|k: int| 0 <= k < plan@.len() ==> step_for(#[trigger] plan@[k], want[k].0, want[k].1)
            }),
        decreases selected.len() - i,
    {
        let ghost before = plan@;
        if !below_another_exec(selected, i) && addressable[i] {
            match resolve(entries, &selected[i]) {
                Some(entry) => {
                    let id = clsid_of(entry);
                    if !(blocking && id.is_none()) {
                        let step = Step {
                            row: i,
                            registry_path: entry.registry_path.clone(),
                            clsid: match id {
                                Some(text) => Some(String::from_str(text)),
                                None => None,
                            },
                            display_name: entry.display_name.clone(),
                            packaged: match entry.kind {
                                EntryKind::PackagedVerb { .. } => true,
                                _ => false,
                            },
                        };
                        plan.push(step);
                        assert(plan@[before.len() as int] == step);
                    }
                },
                None => {},
            }
        }
        proof {
            let want = planned(selected@, entries@, *action, addressable@, (i + 1) as nat);
            assert forall|k: int| 0 <= k < plan@.len() implies step_for(#[trigger] plan@[k], want[k].0, want[k].1) by {
                if k < before.len() {
                    assert(plan@[k] == before[k]);
                }
            }
        }
        i = i + 1;
    }
    plan
}

/// The keys a plan touches, each in lower case.
pub uninterp spec fn touched_keys(set: rustc_hash::FxHashSet<String>) -> Set<Seq<char>>;

/// A set of keys with nothing in it.
///
/// Trusted: `FxHashSet::default` makes a set with no element.
#[verifier::external_body]
fn keys_new() -> (result: rustc_hash::FxHashSet<String>)
    ensures
        touched_keys(result) == Set::<Seq<char>>::empty(),
{
    rustc_hash::FxHashSet::default()
}

/// Adds a key.
///
/// Trusted: `HashSet::insert` adds the value; two `String`s are the same
/// key exactly when they hold the same characters.
#[verifier::external_body]
fn keys_insert(set: &mut rustc_hash::FxHashSet<String>, key: String)
    ensures
        touched_keys(*final(set)) == touched_keys(*old(set)).insert(key@),
{
    set.insert(key);
}

/// Does the set hold a key?
///
/// Trusted: `HashSet::contains`, by the same equality.
#[verifier::external_body]
fn keys_contains(set: &rustc_hash::FxHashSet<String>, key: &String) -> (result: bool)
    ensures
        result == touched_keys(*set).contains(key@),
{
    set.contains(key)
}

/// Does a step of the plan touch this key, compared as Windows compares,
/// without regard to case?
pub open spec fn plan_touches(plan: Seq<Step>, path: Seq<char>) -> bool {
    exists|k: int| 0 <= k < plan.len() && lowercase_of(#[trigger] plan[k].registry_path@) == lowercase_of(path)
}

/// How many file types a plan reaches beyond the one on screen: every one
/// that was scanned, when a step touches an entry on level 1 or 2 of the
/// chain; nothing to say otherwise, nor when no file type was scanned.
pub open spec fn plan_breadth(plan: Seq<Step>, entries: Seq<ContextEntry>, file_type_count: usize) -> Option<usize> {
    if file_type_count > 0 && exists|i: int|
        0 <= i < entries.len() && (#[trigger] entries[i].category@ is AllFiles || entries[i].category@ is AllFilesystemObjects)
            && plan_touches(plan, entries[i].registry_path@) {
        Some(file_type_count)
    } else {
        None
    }
}

/// How many watched file types a plan would also reach.
pub fn breadth_of_plan(plan: &[Step], entries: &[ContextEntry], file_type_count: usize) -> (result: Option<usize>)
    ensures
        result == plan_breadth(plan@, entries@, file_type_count),
{
    if file_type_count == 0 {
        return None;
    }
    let mut touched = keys_new();
    let mut k: usize = 0;
    while k < plan.len()
        invariant
            k <= plan.len(),
            forall|p: Seq<char>| touched_keys(touched).contains(p) <==> exists|j: int|
                0 <= j < k && lowercase_of(#[trigger] plan@[j].registry_path@) == p,
        decreases plan.len() - k,
    {
        let key = string_of(lowercase(plan[k].registry_path.as_str()).as_slice());
        proof {
            let before = touched_keys(touched);
            assert forall|p: Seq<char>| before.insert(key@).contains(p) <==> exists|j: int|
                0 <= j < k + 1 && lowercase_of(#[trigger] plan@[j].registry_path@) == p by {
                if p == key@ {
                    assert(lowercase_of(plan@[k as int].registry_path@) == p);
                }
                if exists|j: int| 0 <= j < k + 1 && lowercase_of(#[trigger] plan@[j].registry_path@) == p {
                    let j = choose|j: int| 0 <= j < k + 1 && lowercase_of(#[trigger] plan@[j].registry_path@) == p;
                    if j < k {
                        assert(before.contains(p));
                    }
                }
            }
        }
        keys_insert(&mut touched, key);
        k = k + 1;
    }
    let mut i: usize = 0;
    while i < entries.len()
        invariant
            i <= entries.len(),
            file_type_count > 0,
            forall|p: Seq<char>| touched_keys(touched).contains(p) <==> exists|j: int|
                0 <= j < plan@.len() && lowercase_of(#[trigger] plan@[j].registry_path@) == p,
            forall|m: int|
                0 <= m < i ==> !((#[trigger] entries@[m].category@ is AllFiles || entries@[m].category@ is AllFilesystemObjects)
                    && plan_touches(plan@, entries@[m].registry_path@)),
        decreases entries.len() - i,
    {
        if applies_to_every_file_type(&entries[i].category) {
            let key = string_of(lowercase(entries[i].registry_path.as_str()).as_slice());
            let hit = keys_contains(&touched, &key);
            proof {
                if plan_touches(plan@, entries@[i as int].registry_path@) {
                    let j = choose|j: int| 0 <= j < plan@.len() && lowercase_of(#[trigger] plan@[j].registry_path@) == lowercase_of(entries@[i as int].registry_path@);
                    assert(touched_keys(touched).contains(key@));
                }
            }
            if hit {
                return Some(file_type_count);
            }
        }
        i = i + 1;
    }
    None
}

} // verus!
