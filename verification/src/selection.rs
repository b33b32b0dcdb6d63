//! What a click does to the selected rows of the table.

use vstd::prelude::*;

use crate::window::{Row, row_views};

verus! {

/// The hasher behind the selection's set: a fixed function of the key.
#[verifier::external_type_specification]
#[verifier::external_body]
pub struct ExFxBuildHasher(rustc_hash::FxBuildHasher);

/// A row as the key the selection stores: its entry and its path.
pub open spec fn key_view(key: (usize, Vec<usize>)) -> (usize, Seq<usize>) {
    (key.0, key.1@)
}

/// The rows a selection holds, each as its entry and path.
pub uninterp spec fn held(set: rustc_hash::FxHashSet<(usize, Vec<usize>)>) -> Set<(usize, Seq<usize>)>;

/// An empty selection.
///
/// Trusted: `FxHashSet::default` makes a set with no element.
#[verifier::external_body]
fn set_new() -> (result: rustc_hash::FxHashSet<(usize, Vec<usize>)>)
    ensures
        held(result) == Set::<(usize, Seq<usize>)>::empty(),
{
    rustc_hash::FxHashSet::default()
}

/// Empties a selection.
///
/// Trusted: `HashSet::clear` removes every element.
#[verifier::external_body]
fn set_clear(set: &mut rustc_hash::FxHashSet<(usize, Vec<usize>)>)
    ensures
        held(*final(set)) == Set::<(usize, Seq<usize>)>::empty(),
{
    set.clear()
}

/// Adds a row to a selection.
///
/// Trusted: `HashSet::insert` adds the value and reports whether it was new;
/// the key's `Eq` and `Hash` are those of a `usize` and a `Vec<usize>`, so
/// two keys are the same exactly when entry and path are.
#[verifier::external_body]
fn set_insert(set: &mut rustc_hash::FxHashSet<(usize, Vec<usize>)>, key: (usize, Vec<usize>)) -> (added: bool)
    ensures
        held(*final(set)) == held(*old(set)).insert(key_view(key)),
        added == !held(*old(set)).contains(key_view(key)),
{
    set.insert(key)
}

/// Takes a row out of a selection.
///
/// Trusted: `HashSet::remove` removes the value and reports whether it was
/// there.
#[verifier::external_body]
fn set_remove(set: &mut rustc_hash::FxHashSet<(usize, Vec<usize>)>, key: &(usize, Vec<usize>)) -> (removed: bool)
    ensures
        held(*final(set)) == held(*old(set)).remove(key_view(*key)),
        removed == held(*old(set)).contains(key_view(*key)),
{
    set.remove(key)
}

/// Does a selection hold a row?
///
/// Trusted: `HashSet::contains`.
#[verifier::external_body]
fn set_contains(set: &rustc_hash::FxHashSet<(usize, Vec<usize>)>, key: &(usize, Vec<usize>)) -> (result: bool)
    ensures
        result == held(*set).contains(key_view(*key)),
{
    set.contains(key)
}

/// How many rows a selection holds.
///
/// Trusted: `HashSet::len` counts the elements.
#[verifier::external_body]
fn set_len(set: &rustc_hash::FxHashSet<(usize, Vec<usize>)>) -> (result: usize)
    ensures
        result == held(*set).len(),
{
    set.len()
}

/// The selected rows.
pub struct Selection {
    rows: rustc_hash::FxHashSet<(usize, Vec<usize>)>,
}

/// A row as the key the selection stores.
fn key_of(row: &Row) -> (result: (usize, Vec<usize>))
    ensures
        key_view(result) == (row.entry, row.path@),
{
    let mut path: Vec<usize> = Vec::new();
    let mut i: usize = 0;
    while i < row.path.len()
        invariant
            i <= row.path.len(),
            path@ == row.path@.subrange(0, i as int),
        decreases row.path.len() - i,
    {
        path.push(row.path[i]);
        assert(path@ =~= row.path@.subrange(0, i + 1));
        i = i + 1;
    }
    assert(row.path@.subrange(0, i as int) =~= row.path@);
    (row.entry, path)
}

/// A copy of a row.
fn copy_row(row: &Row) -> (result: Row)
    ensures
        result.entry == row.entry,
        result.path@ == row.path@,
{
    let (entry, path) = key_of(row);
    Row { entry, path }
}

/// Are two rows the same row?
fn same_row(a: &Row, b: &Row) -> (result: bool)
    ensures
        result == (a.entry == b.entry && a.path@ == b.path@),
{
    if a.entry != b.entry || a.path.len() != b.path.len() {
        return false;
    }
    let mut i: usize = 0;
    while i < a.path.len()
        invariant
            i <= a.path.len() == b.path.len(),
            forall|j: int| 0 <= j < i ==> a.path@[j] == b.path@[j],
        decreases a.path.len() - i,
    {
        if a.path[i] != b.path[i] {
            return false;
        }
        i = i + 1;
    }
    assert(a.path@ =~= b.path@);
    true
}

/// The first place `row` stands among `rows`.
pub open spec fn place_of(rows: Seq<(usize, Seq<usize>)>, row: (usize, Seq<usize>)) -> Option<int>
    decreases rows.len(),
{
    if rows.len() == 0 {
        None
    } else if rows[0] == row {
        Some(0)
    } else {
        match place_of(rows.drop_first(), row) {
            Some(i) => Some(i + 1),
            None => None,
        }
    }
}

proof fn lemma_place_of(rows: Seq<(usize, Seq<usize>)>, row: (usize, Seq<usize>))
    ensures
        match place_of(rows, row) {
            Some(i) => 0 <= i < rows.len() && rows[i] == row && forall|j: int|
                0 <= j < i ==> rows[j] != row,
            None => forall|j: int| 0 <= j < rows.len() ==> rows[j] != row,
        },
    decreases rows.len(),
{
    if rows.len() > 0 && rows[0] != row {
        lemma_place_of(rows.drop_first(), row);
        assert forall|j: int| 1 <= j < rows.len() implies rows[j] == rows.drop_first()[j - 1] by {}
    }
}

fn position(rows: &[Row], row: &Row) -> (result: Option<usize>)
    ensures
        match result {
            Some(i) => place_of(row_views(rows@), (row.entry, row.path@)) == Some(i as int),
            None => place_of(row_views(rows@), (row.entry, row.path@)) is None,
        },
{
    let ghost views = row_views(rows@);
    let ghost wanted = (row.entry, row.path@);
    proof {
        lemma_place_of(views, wanted);
    }
    let mut i: usize = 0;
    while i < rows.len()
        invariant
            i <= rows.len(),
            views == row_views(rows@),
            wanted == (row.entry, row.path@),
            forall|j: int| 0 <= j < i ==> views[j] != wanted,
        decreases rows.len() - i,
    {
        assert(views[i as int] == (rows@[i as int].entry, rows@[i as int].path@));
        if same_row(&rows[i], row) {
            assert(views[i as int] == wanted);
            proof {
                if place_of(views, wanted) != Some(i as int) {
                    lemma_place_of(views, wanted);
                }
            }
            return Some(i);
        }
        i = i + 1;
    }
    None
}

/// The rows a click selects, and where the anchor then stands.
///
/// - plain: this row alone, and the anchor moves here;
/// - Ctrl: this row toggled, and the anchor moves here;
/// - Shift, with the anchor and the row both shown: every row between them,
///   the anchor staying put; with Ctrl as well the range is added rather
///   than replacing. Without an anchor shown, Shift reads like a plain
///   click.
pub open spec fn clicked(
    before: Set<(usize, Seq<usize>)>,
    anchor: Option<(usize, Seq<usize>)>,
    visible: Seq<(usize, Seq<usize>)>,
    row: (usize, Seq<usize>),
    ctrl: bool,
    shift: bool,
) -> (Set<(usize, Seq<usize>)>, Option<(usize, Seq<usize>)>) {
    if shift && anchor is Some && place_of(visible, anchor->0) is Some && place_of(visible, row) is Some {
        let a = place_of(visible, anchor->0)->0;
        let b = place_of(visible, row)->0;
        let first = if a <= b {
            a
        } else {
            b
        };
        let last = if a <= b {
            b
        } else {
            a
        };
        let span = Set::new(|r: (usize, Seq<usize>)| exists|k: int| first <= k <= last && visible[k] == r);
        ((if ctrl {
            before
        } else {
            Set::empty()
        }).union(span), anchor)
    } else if ctrl {
        (if before.contains(row) {
            before.remove(row)
        } else {
            before.insert(row)
        }, Some(row))
    } else {
        (set![row], Some(row))
    }
}

impl Selection {
    /// Nothing selected.
    pub fn new() -> (result: Selection)
        ensures
            result@ == Set::<(usize, Seq<usize>)>::empty(),
    {
        Selection { rows: set_new() }
    }

    /// Is this row selected?
    pub fn contains(&self, row: &Row) -> (result: bool)
        ensures
            result == self@.contains((row.entry, row.path@)),
    {
        let key = key_of(row);
        set_contains(&self.rows, &key)
    }

    /// How many rows are selected.
    pub fn len(&self) -> (result: usize)
        ensures
            result == self@.len(),
    {
        set_len(&self.rows)
    }

    /// Selects a row; says whether it was not selected before.
    pub fn insert(&mut self, row: &Row) -> (added: bool)
        ensures
            final(self)@ == old(self)@.insert((row.entry, row.path@)),
            added == !old(self)@.contains((row.entry, row.path@)),
    {
        set_insert(&mut self.rows, key_of(row))
    }

    /// Deselects a row; says whether it was selected.
    pub fn remove(&mut self, row: &Row) -> (removed: bool)
        ensures
            final(self)@ == old(self)@.remove((row.entry, row.path@)),
            removed == old(self)@.contains((row.entry, row.path@)),
    {
        let key = key_of(row);
        set_remove(&mut self.rows, &key)
    }
}

impl View for Selection {
    type V = Set<(usize, Seq<usize>)>;

    closed spec fn view(&self) -> Set<(usize, Seq<usize>)> {
        held(self.rows)
    }
}

/// What a click on `row` does to the selection, the way Explorer reads it.
pub fn apply_click(
    selected: &mut Selection,
    anchor: &mut Option<Row>,
    visible: &[Row],
    row: &Row,
    ctrl: bool,
    shift: bool,
)
    ensures
        ({
            let (rows, moved) = clicked(
                old(selected)@,
                match *old(anchor) {
                    Some(a) => Some((a.entry, a.path@)),
                    None => None,
                },
                row_views(visible@),
                (row.entry, row.path@),
                ctrl,
                shift,
            );
            &&& final(selected)@ == rows
            &&& match *final(anchor) {
                Some(a) => moved == Some((a.entry, a.path@)),
                None => moved is None,
            }
        }),
{
    let ghost vis = row_views(visible@);
    let ghost wanted = (row.entry, row.path@);
    let span = if shift {
        match anchor {
            Some(start) => match (position(visible, start), position(visible, row)) {
                (Some(from), Some(to)) => if from <= to {
                    Some((from, to))
                } else {
                    Some((to, from))
                },
                _ => None,
            },
            None => None,
        }
    } else {
        None
    };
    if let Some((first, last)) = span {
        proof {
            lemma_place_of(vis, (anchor->0.entry, anchor->0.path@));
            lemma_place_of(vis, wanted);
        }
        if !ctrl {
            set_clear(&mut selected.rows);
        }
        let ghost base = selected@;
        let mut k = first;
        while k <= last
            invariant
                first <= k <= last + 1,
                last < visible.len(),
                vis == row_views(visible@),
                selected@ == base.union(
                    Set::new(|r: (usize, Seq<usize>)| exists|j: int| first <= j < k && vis[j] == r),
                ),
            decreases last + 1 - k,
        {
            let ghost before = selected@;
            selected.insert(&visible[k]);
            assert(vis[k as int] == (visible@[k as int].entry, visible@[k as int].path@));
            assert(selected@ =~= base.union(
                Set::new(|r: (usize, Seq<usize>)| exists|j: int| first <= j < k + 1 && vis[j] == r),
            )) by {
                assert forall|r: (usize, Seq<usize>)| #[trigger] selected@.contains(r) implies base.union(
                    Set::new(|r: (usize, Seq<usize>)| exists|j: int| first <= j < k + 1 && vis[j] == r),
                ).contains(r) by {
                    if r == vis[k as int] {
                        assert(first <= k < k + 1 && vis[k as int] == r);
                    }
                }
            }
            k = k + 1;
        }
        // The anchor deliberately stays: a second Shift-click selects from
        // the same row again.
        assert(selected@ =~= clicked(
            old(selected)@,
            match *old(anchor) {
                Some(a) => Some((a.entry, a.path@)),
                None => None,
            },
            vis,
            wanted,
            ctrl,
            shift,
        ).0);
        return;
    }
    if ctrl {
        if !selected.remove(row) {
            selected.insert(row);
        }
    } else {
        set_clear(&mut selected.rows);
        selected.insert(row);
        assert(selected@ =~= set![wanted]);
    }
    *anchor = Some(copy_row(row));
}


/// A plain click selects that row alone and moves the anchor to it,
/// whatever was selected before.
pub proof fn law_a_plain_click_selects_one_row(
    before: Set<(usize, Seq<usize>)>,
    anchor: Option<(usize, Seq<usize>)>,
    visible: Seq<(usize, Seq<usize>)>,
    row: (usize, Seq<usize>),
)
    ensures
        clicked(before, anchor, visible, row, false, false) == (set![row], Some(row)),
{
}

/// A second Ctrl-click on the same row undoes the first: the selection is
/// what it was, and the anchor stays on the row.
pub proof fn law_ctrl_click_twice_changes_nothing(
    before: Set<(usize, Seq<usize>)>,
    anchor: Option<(usize, Seq<usize>)>,
    visible: Seq<(usize, Seq<usize>)>,
    row: (usize, Seq<usize>),
)
    ensures
        ({
            let (once, moved) = clicked(before, anchor, visible, row, true, false);
            clicked(once, moved, visible, row, true, false) == (before, Some(row))
        }),
{
    let (once, moved) = clicked(before, anchor, visible, row, true, false);
    if before.contains(row) {
        assert(once.insert(row) =~= before);
    } else {
        assert(once.remove(row) =~= before);
    }
}

/// A Shift-click between two shown rows selects both ends and everything
/// between them, and leaves the anchor where it was, so a second
/// Shift-click spans from the same row again.
pub proof fn law_a_shift_click_spans_from_the_anchor(
    before: Set<(usize, Seq<usize>)>,
    anchor: (usize, Seq<usize>),
    visible: Seq<(usize, Seq<usize>)>,
    row: (usize, Seq<usize>),
    ctrl: bool,
)
    requires
        visible.contains(anchor),
        visible.contains(row),
    ensures
        ({
            let (rows, moved) = clicked(before, Some(anchor), visible, row, ctrl, true);
            &&& moved == Some(anchor)
            &&& rows.contains(anchor)
            &&& rows.contains(row)
            &&& ctrl ==> before.subset_of(rows)
        }),
{
    lemma_place_of(visible, anchor);
    lemma_place_of(visible, row);
    let a = place_of(visible, anchor)->0;
    let b = place_of(visible, row)->0;
    let first = if a <= b {
        a
    } else {
        b
    };
    let last = if a <= b {
        b
    } else {
        a
    };
    let span = Set::new(|r: (usize, Seq<usize>)| exists|k: int| first <= k <= last && visible[k] == r);
    assert(span.contains(anchor)) by {
        assert(first <= a <= last && visible[a] == anchor);
    }
    assert(span.contains(row)) by {
        assert(first <= b <= last && visible[b] == row);
    }
}

} // verus!
