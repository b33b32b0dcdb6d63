//! What the window says after something ran: a split action's two halves,
//! a restore, a selection.

use std::borrow::Cow;

use vstd::prelude::*;

use crate::bilingual::{pick, picked};
use crate::chars::{decimal, texts, fill, fill_once, filled, filled_once, number_text};
use crate::i18n::Strings;
use crate::model::{Action, ActionView, OperationResult, OperationResultView, Report, ReportView};
use crate::settings::Language;

verus! {

/// The row that stands for a half that did not run: its name, and why.
pub open spec fn failed_row(name: Seq<char>, message: Seq<char>) -> OperationResultView {
    OperationResultView {
        display_name: name,
        registry_path: Seq::empty(),
        action: ActionView::Hide,
        error: Some(message),
    }
}

fn failed_half(name: &str, message: String) -> (result: OperationResult)
    ensures
        result@ == failed_row(name@, message@),
{
    OperationResult {
        display_name: String::from_str(name),
        registry_path: String::new(),
        action: Action::Hide,
        error: Some(message),
    }
}

/// The two halves of a split action as one report: whichever half ran is
/// reported, the other becomes a failed row with its message, and only
/// when neither ran is there nothing to show, both reasons given.
pub fn combine_halves(direct: Result<Report, String>, elevated: Result<Report, String>, tr: &Strings) -> (result: Result<Report, String>)
    ensures
        match (direct, elevated) {
            (Ok(first), Ok(second)) => result matches Ok(r) && r@ == (ReportView {
                backup_directories: first@.backup_directories + second@.backup_directories,
                results: first@.results + second@.results,
            }),
            (Ok(first), Err(message)) => result matches Ok(r) && r@ == (ReportView {
                backup_directories: first@.backup_directories,
                results: first@.results.push(failed_row(tr.elevated_part@, message@)),
            }),
            (Err(message), Ok(second)) => result matches Ok(r) && r@ == (ReportView {
                backup_directories: second@.backup_directories,
                results: seq![failed_row(tr.direct_part@, message@)] + second@.results,
            }),
            (Err(first), Err(second)) => result matches Err(text) && text@ == first@ + "\n"@
                + second@,
        },
{
    match (direct, elevated) {
        (Ok(first), Ok(second)) => {
            let mut first = first;
            let ghost a = first@;
            let ghost b = second@;
            first.merge(second);
            assert(first@.backup_directories =~= a.backup_directories + b.backup_directories);
            assert(first@.results =~= a.results + b.results);
            Ok(first)
        },
        // A partial success plus a declined prompt is not a failure of the
        // whole operation.
        (Ok(first), Err(message)) => {
            let mut first = first;
            let ghost a = first@;
            let row = failed_half(tr.elevated_part, message);
            first.results.push(row);
            assert(first@.results =~= a.results.push(row@));
            Ok(first)
        },
        (Err(message), Ok(second)) => {
            let mut second = second;
            let ghost b = second@;
            let row = failed_half(tr.direct_part, message);
            second.results.insert(0, row);
            assert(second@.results =~= seq![row@] + b.results);
            Ok(second)
        },
        (Err(first), Err(second)) => {
            let mut text = first;
            text.append("\n");
            text.append(second.as_str());
            Err(text)
        },
    }
}

/// What a restore did: files put back, keys removed that the backup did
/// not know, and every file that did not come back.
#[derive(Debug, Clone)]
pub struct RestoreReport {
    pub restored: usize,
    pub removed: usize,
    pub failures: Vec<String>,
}

impl RestoreReport {
    /// How many files did not come back.
    pub fn failed(&self) -> (result: usize)
        ensures
            result == self.failures@.len(),
    {
        self.failures.len()
    }
}

/// The lines after the counts: one per file that did not come back, each
/// in the language on screen.
pub open spec fn failure_lines(failures: Seq<String>, language: Language) -> Seq<char>
    decreases failures.len(),
{
    if failures.len() == 0 {
        Seq::empty()
    } else {
        failure_lines(failures.drop_last(), language) + "\n"@ + picked(
            failures.last()@,
            language,
        )
    }
}

/// What a restore has to say for itself: the counts, then one line per
/// file that did not come back.
pub open spec fn restore_text(report: RestoreReport, tr: Strings, language: Language) -> Seq<char> {
    (if report.failures@.len() == 0 {
        filled(tr.fmt_restored@, decimal(report.restored as nat))
    } else {
        filled_once(
            filled_once(tr.fmt_restored_partly@, decimal(report.restored as nat)),
            decimal(report.failures@.len()),
        )
    }) + (if report.removed > 0 {
        "\n"@ + filled(tr.fmt_restore_removed@, decimal(report.removed as nat))
    } else {
        Seq::empty()
    }) + failure_lines(report.failures@, language)
}

/// What a restore has to say for itself, in the language on screen.
pub fn restore_message(report: &RestoreReport, tr: &Strings, language: Language) -> (result: String)
    ensures
        result@ == restore_text(*report, *tr, language),
{
    let mut message = if report.failed() == 0 {
        fill(tr.fmt_restored, number_text(report.restored).as_str())
    } else {
        let once = fill_once(tr.fmt_restored_partly, number_text(report.restored).as_str());
        fill_once(once.as_str(), number_text(report.failed()).as_str())
    };
    if report.removed > 0 {
        message.append("\n");
        message.append(fill(tr.fmt_restore_removed, number_text(report.removed).as_str()).as_str());
    }
    let ghost head = message@;
    let mut i: usize = 0;
    while i < report.failures.len()
        invariant
            i <= report.failures.len(),
            message@ == head + failure_lines(report.failures@.subrange(0, i as int), language),
        decreases report.failures.len() - i,
    {
        let ghost prefix = report.failures@.subrange(0, i + 1);
        assert(prefix.drop_last() =~= report.failures@.subrange(0, i as int));
        message.append("\n");
        let shown = pick(report.failures[i].as_str(), language);
        match &shown {
            Cow::Borrowed(same) => message.append(same),
            Cow::Owned(owned) => message.append(owned.as_str()),
        }
        i = i + 1;
    }
    assert(report.failures@.subrange(0, i as int) =~= report.failures@);
    message
}


/// Puts the reports of several restores together: counts added, failures
/// in order, and a directory that could not be read at all as one failure
/// line of its own rather than an early stop.
pub open spec fn folded(outcomes: Seq<(Seq<char>, Option<(nat, nat, Seq<Seq<char>>)>, Seq<char>)>) -> (
    nat,
    nat,
    Seq<Seq<char>>,
)
    decreases outcomes.len(),
{
    if outcomes.len() == 0 {
        (0, 0, Seq::empty())
    } else {
        let (restored, removed, failures) = folded(outcomes.drop_last());
        let (directory, report, error) = outcomes.last();
        match report {
            Some((r, m, f)) => (restored + r, removed + m, failures + f),
            None => (restored, removed, failures.push(directory + ": "@ + error)),
        }
    }
}

/// The outcome of restoring one directory as the values it holds.
pub open spec fn outcome_view(outcome: (String, Result<RestoreReport, String>)) -> (
    Seq<char>,
    Option<(nat, nat, Seq<Seq<char>>)>,
    Seq<char>,
) {
    match outcome.1 {
        Ok(report) => (
            outcome.0@,
            Some(
                (
                    report.restored as nat,
                    report.removed as nat,
                    texts(report.failures@),
                ),
            ),
            Seq::empty(),
        ),
        Err(error) => (outcome.0@, None, error@),
    }
}

/// Appends a copy of every string of `items` to `out`.
fn append_copies(out: &mut Vec<String>, items: &Vec<String>)
    ensures
        texts(final(out)@) == texts(old(out)@) + texts(items@),
{
    let ghost start = texts(out@);
    let mut k: usize = 0;
    while k < items.len()
        invariant
            k <= items.len(),
            out@.len() == old(out)@.len() + k,
            forall|j: int| 0 <= j < old(out)@.len() ==> #[trigger] out@[j]@ == old(out)@[j]@,
            forall|j: int| 0 <= j < k ==> #[trigger] out@[old(out)@.len() + j]@ == items@[j]@,
        decreases items.len() - k,
    {
        let copy = items[k].clone();
        out.push(copy);
        k = k + 1;
    }
    let ghost got = texts(out@);
    let ghost want = start + texts(items@);
    assert forall|j: int| 0 <= j < got.len() implies #[trigger] got[j] == want[j] by {
        if j < old(out)@.len() {
            assert(out@[j]@ == old(out)@[j]@);
        } else {
            assert(out@[old(out)@.len() + (j - old(out)@.len())]@ == items@[j - old(out)@.len()]@);
        }
    }
    assert(got =~= want);
}

/// Folds the restores of several backup directories into one report.
///
/// A split action leaves two directories, and undoing it means both. The
/// restores themselves write the registry and happen outside; this takes
/// what each one answered, in order.
pub fn restore_all(outcomes: Vec<(String, Result<RestoreReport, String>)>) -> (result: RestoreReport)
    requires
        folded(outcomes@.map_values(|o: (String, Result<RestoreReport, String>)| outcome_view(o))).0
            <= usize::MAX,
        folded(outcomes@.map_values(|o: (String, Result<RestoreReport, String>)| outcome_view(o))).1
            <= usize::MAX,
    ensures
        ({
            let f = folded(
                outcomes@.map_values(|o: (String, Result<RestoreReport, String>)| outcome_view(o)),
            );
            result.restored == f.0 && result.removed == f.1 && texts(result.failures@) == f.2
        }),
{
    let ghost all = outcomes@.map_values(|o: (String, Result<RestoreReport, String>)| outcome_view(o));
    let mut report = RestoreReport { restored: 0, removed: 0, failures: Vec::new() };
    let mut i: usize = 0;
    assert(texts(report.failures@) =~= Seq::<Seq<char>>::empty());
    while i < outcomes.len()
        invariant
            i <= outcomes.len(),
            all == outcomes@.map_values(|o: (String, Result<RestoreReport, String>)| outcome_view(o)),
            folded(all).0 <= usize::MAX,
            folded(all).1 <= usize::MAX,
            report.restored == folded(all.subrange(0, i as int)).0,
            report.removed == folded(all.subrange(0, i as int)).1,
            texts(report.failures@) == folded(all.subrange(0, i as int)).2,
        decreases outcomes.len() - i,
    {
        let ghost prefix = all.subrange(0, i + 1);
        assert(prefix.drop_last() =~= all.subrange(0, i as int));
        assert(prefix.last() == all[i as int]);
        proof {
            lemma_folded_prefix(all, i + 1);
        }
        let ghost before = texts(report.failures@);
        let (directory, outcome) = &outcomes[i];
        assert(all[i as int] == outcome_view(outcomes@[i as int]));
        assert(outcomes@[i as int] == (*directory, *outcome));
        match outcome {
            Ok(one) => {
                report.restored = report.restored + one.restored;
                report.removed = report.removed + one.removed;
                append_copies(&mut report.failures, &one.failures);
            },
            Err(error) => {
                // A directory that cannot be read becomes a line of the
                // report: the other one may still be there.
                let mut line = directory.clone();
                line.append(": ");
                line.append(error.as_str());
                report.failures.push(line);
                assert(texts(report.failures@) =~= before.push(line@));
            },
        }
        i = i + 1;
    }
    assert(all.subrange(0, i as int) =~= all);
    report
}

/// A prefix of the outcomes never counts more than all of them.
pub proof fn lemma_folded_prefix(
    outcomes: Seq<(Seq<char>, Option<(nat, nat, Seq<Seq<char>>)>, Seq<char>)>,
    k: int,
)
    requires
        0 <= k <= outcomes.len(),
    ensures
        folded(outcomes.subrange(0, k)).0 <= folded(outcomes).0,
        folded(outcomes.subrange(0, k)).1 <= folded(outcomes).1,
    decreases outcomes.len(),
{
    if k < outcomes.len() {
        assert(outcomes.drop_last().subrange(0, k) =~= outcomes.subrange(0, k));
        lemma_folded_prefix(outcomes.drop_last(), k);
    } else {
        assert(outcomes.subrange(0, k) =~= outcomes);
    }
}

/// Whether the selected rows agree on one property, and on what.
#[derive(Debug, Clone, PartialEq, Eq)]
pub enum Agreement<T> {
    /// Nothing selected, or nothing the scan still knows about.
    Empty,
    Same(T),
    Mixed,
}

/// Whether a list of flags agrees: empty, all the same, or mixed.
pub fn agreement(values: &[bool]) -> (result: Agreement<bool>)
    ensures
        values@.len() == 0 ==> result == Agreement::<bool>::Empty,
        values@.len() > 0 && (forall|i: int| 0 <= i < values@.len() ==> #[trigger] values@[i]
            == values@[0]) ==> result == Agreement::Same(values@[0]),
        values@.len() > 0 && (exists|i: int| 0 <= i < values@.len() && #[trigger] values@[i]
            != values@[0]) ==> result == Agreement::<bool>::Mixed,
{
    if values.len() == 0 {
        return Agreement::Empty;
    }
    let first = values[0];
    let mut i: usize = 1;
    while i < values.len()
        invariant
            1 <= i <= values.len(),
            first == values@[0],
            forall|j: int| 0 <= j < i ==> values@[j] == first,
        decreases values.len() - i,
    {
        if values[i] != first {
            return Agreement::Mixed;
        }
        i = i + 1;
    }
    Agreement::Same(first)
}

/// What the action bar knows about the selection.
#[derive(Debug, Clone, PartialEq, Eq)]
pub struct SelectionState {
    /// Rows the user picked, whether or not the scan still knows them.
    pub count: usize,
    /// Of those, the ones the scan could still resolve.
    pub resolved: usize,
    /// Rows naming a key this program may address at all.
    pub changeable: usize,
    /// How many are marked read-only: a number, not a veto.
    pub read_only: usize,
    /// How many carry a CLSID.
    pub blockable: usize,
    /// How many are entries of the new Windows 11 menu.
    pub packaged: usize,
    pub hidden: Agreement<bool>,
    pub extended: Agreement<bool>,
    /// Over the rows that have a CLSID only.
    pub blocked: Agreement<bool>,
    pub position: Agreement<Option<String>>,
}

/// The line above the switches: what is selected, or what to do about
/// that.
pub open spec fn summary_text(tr: Strings, count: usize, read_only: usize) -> Seq<char> {
    if count == 0 {
        tr.hint_no_selection@
    } else if read_only > 0 {
        filled_once(filled_once(tr.fmt_selection_readonly@, decimal(count as nat)), decimal(read_only as nat))
    } else {
        filled(tr.fmt_selected_count@, decimal(count as nat))
    }
}

/// The line above the switches.
pub fn selection_summary(tr: &Strings, state: &SelectionState) -> (result: String)
    ensures
        result@ == summary_text(*tr, state.count, state.read_only),
{
    if state.count == 0 {
        return String::from_str(tr.hint_no_selection);
    }
    if state.read_only > 0 {
        // Said before, not discovered in the report afterwards: these rows
        // stay in the plan, and some need administrator rights.
        let once = fill_once(tr.fmt_selection_readonly, number_text(state.count).as_str());
        return fill_once(once.as_str(), number_text(state.read_only).as_str());
    }
    fill(tr.fmt_selected_count, number_text(state.count).as_str())
}

} // verus!
