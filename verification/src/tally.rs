//! The counts the scan command prints below its table.

use vstd::prelude::*;

use crate::model::{ContextEntry, EntryKind, Scope};

verus! {

/// How many entries hang in `scope`.
pub open spec fn in_scope(entries: Seq<ContextEntry>, scope: Scope) -> nat
    decreases entries.len(),
{
    if entries.len() == 0 {
        0
    } else {
        in_scope(entries.drop_last(), scope) + if entries.last().scope == scope { 1nat } else { 0nat }
    }
}

/// How many entries are COM handlers.
pub open spec fn handlers(entries: Seq<ContextEntry>) -> nat
    decreases entries.len(),
{
    if entries.len() == 0 {
        0
    } else {
        handlers(entries.drop_last()) + if entries.last().kind is ShellEx { 1nat } else { 0nat }
    }
}

/// Is a scope listed: asked for, or found? A scope that was looked at and
/// held nothing is listed with zero, so that "nothing found" and "not
/// looked at" stay apart.
pub open spec fn listed_scope(entries: Seq<ContextEntry>, requested: Seq<Scope>, scope: Scope) -> bool {
    requested.contains(scope) || in_scope(entries, scope) > 0
}

/// The counts per scope, by the scope's name in alphabetical order, the
/// number of COM handlers, and the number of static verbs.
pub open spec fn scan_tally(entries: Seq<ContextEntry>, requested: Seq<Scope>, tally: (Vec<(Scope, usize)>, usize, usize)) -> bool {
    let order = seq![Scope::Machine, Scope::Machine32, Scope::User];
    let listed = order.filter(|s: Scope| listed_scope(entries, requested, s));
    &&& tally.0@.len() == listed.len()
    &&& forall|k: int| 0 <= k < listed.len() ==> #[trigger] tally.0@[k] == (listed[k], in_scope(entries, listed[k]) as usize)
    &&& tally.1 == handlers(entries)
    &&& tally.2 == entries.len() - handlers(entries)
}

fn count_scope(entries: &[ContextEntry], scope: Scope) -> (result: usize)
    ensures
        result == in_scope(entries@, scope),
{
    let mut n: usize = 0;
    let mut i: usize = 0;
    while i < entries.len()
        invariant
            i <= entries.len(),
            n == in_scope(entries@.subrange(0, i as int), scope),
            n <= i,
        decreases entries.len() - i,
    {
        assert(entries@.subrange(0, i + 1).drop_last() =~= entries@.subrange(0, i as int));
        if entries[i].scope == scope {
            n = n + 1;
        }
        i = i + 1;
    }
    assert(entries@.subrange(0, i as int) =~= entries@);
    n
}

fn asked(requested: &[Scope], scope: Scope) -> (result: bool)
    ensures
        result == requested@.contains(scope),
{
    let mut i: usize = 0;
    while i < requested.len()
        invariant
            i <= requested.len(),
            forall|j: int| 0 <= j < i ==> requested@[j] != scope,
        decreases requested.len() - i,
    {
        if requested[i] == scope {
            return true;
        }
        i = i + 1;
    }
    false
}

proof fn lemma_handlers_at_most(entries: Seq<ContextEntry>)
    ensures
        handlers(entries) <= entries.len(),
    decreases entries.len(),
{
    if entries.len() > 0 {
        lemma_handlers_at_most(entries.drop_last());
    }
}

/// The counts below the scan table: entries per scope, every scope asked
/// for listed even when it held nothing, then COM handlers and static verbs.
pub fn scan_counts(entries: &[ContextEntry], requested: &[Scope]) -> (result: (Vec<(Scope, usize)>, usize, usize))
    ensures
        scan_tally(entries@, requested@, result),
{
    let mut per_scope: Vec<(Scope, usize)> = Vec::new();
    let ghost order = seq![Scope::Machine, Scope::Machine32, Scope::User];
    let ghost pred = |s: Scope| listed_scope(entries@, requested@, s);
    let mut k: usize = 0;
    let scopes = [Scope::Machine, Scope::Machine32, Scope::User];
    assert(scopes@ == order);
    while k < 3
        invariant
            k <= 3,
            scopes@ == order,
            pred == (|s: Scope| listed_scope(entries@, requested@, s)),
            ({
                let listed = order.subrange(0, k as int).filter(pred);
                &&& per_scope@.len() == listed.len()
                &&& forall|m: int| 0 <= m < listed.len() ==> #[trigger] per_scope@[m] == (listed[m], in_scope(entries@, listed[m]) as usize)
            }),
        decreases 3 - k,
    {
        let scope = scopes[k];
        let n = count_scope(entries, scope);
        let ghost before = order.subrange(0, k as int).filter(pred);
        assert(order.subrange(0, k + 1).drop_last() =~= order.subrange(0, k as int));
        reveal(Seq::filter);
        assert(order.subrange(0, k + 1).last() == scope);
        assert(order.subrange(0, k + 1).len() > 0);
        let wanted = asked(requested, scope) || n > 0;
        assert(pred(scope) == wanted);
        if wanted {
            per_scope.push((scope, n));
            assert(order.subrange(0, k + 1).filter(pred) =~= before.push(scope));
        } else {
            assert(order.subrange(0, k + 1).filter(pred) =~= before);
        }
        k = k + 1;
    }
    assert(order.subrange(0, 3) =~= order);
    let mut shellex: usize = 0;
    let mut i: usize = 0;
    while i < entries.len()
        invariant
            i <= entries.len(),
            shellex == handlers(entries@.subrange(0, i as int)),
            shellex <= i,
        decreases entries.len() - i,
    {
        assert(entries@.subrange(0, i + 1).drop_last() =~= entries@.subrange(0, i as int));
        match entries[i].kind {
            EntryKind::ShellEx { .. } => {
                shellex = shellex + 1;
            },
            _ => {},
        }
        i = i + 1;
    }
    assert(entries@.subrange(0, i as int) =~= entries@);
    (per_scope, shellex, entries.len() - shellex)
}

} // verus!
