//! What the commands of the command line print, composed from what reading
//! the registry or the disk gave back. Every line keeps its two languages
//! marked; the console cuts them on the way out.

use vstd::prelude::*;

use crate::bilingual::padded;
use crate::chars::{chars_of, decimal, decimal_chars, string_of, texts};
use crate::create::{NewChild, NewEntry};
use crate::cli::{level_text, truncated};
use crate::labels::TypeGroup;
use crate::model::{Category, ContextEntry, OperationResult, Report, failures, kind_label, scope_label};
use crate::outcome::RestoreReport;

verus! {

fn push_text(out: &mut Vec<char>, text: &str)
    ensures
        final(out)@ == old(out)@ + text@,
{
    let mut v = chars_of(text);
    out.append(&mut v);
}

fn push_number(out: &mut Vec<char>, n: usize)
    ensures
        final(out)@ == old(out)@ + decimal(n as nat),
{
    let mut v = decimal_chars(n);
    out.append(&mut v);
}

fn push_padded(out: &mut Vec<char>, text: &str, width: usize)
    ensures
        final(out)@ == old(out)@ + padded(text@, width as nat),
{
    let ghost start = out@;
    let mut v = chars_of(text);
    let mut k = v.len();
    out.append(&mut v);
    assert(k == text@.len());
    let ghost filled = out@;
    while k < width
        invariant
            text@.len() <= k,
            k <= width || k == text@.len(),
            out@ == filled + Seq::new((k - text@.len()) as nat, |i: int| ' '),
        decreases width - k,
    {
        out.push(' ');
        assert(out@ =~= filled + Seq::new((k + 1 - text@.len()) as nat, |i: int| ' '));
        k = k + 1;
    }
    assert(out@ =~= start + padded(text@, width as nat));
}

fn push_line(lines: &mut Vec<String>, out: Vec<char>)
    ensures
        texts(final(lines)@) == texts(old(lines)@).push(out@),
{
    let line = string_of(out.as_slice());
    lines.push(line);
    assert(texts(lines@) =~= texts(old(lines)@).push(out@));
}

/// Each text behind `prefix`, one line each.
pub open spec fn prefixed(prefix: Seq<char>, items: Seq<Seq<char>>) -> Seq<Seq<char>> {
    items.map_values(|item: Seq<char>| prefix + item)
}

fn push_prefixed(lines: &mut Vec<String>, prefix: &str, items: &Vec<String>)
    ensures
        texts(final(lines)@) == texts(old(lines)@) + prefixed(prefix@, texts(items@)),
{
    let ghost start = texts(lines@);
    let mut i: usize = 0;
    while i < items.len()
        invariant
            i <= items.len(),
            texts(lines@) == start + prefixed(prefix@, texts(items@.subrange(0, i as int))),
        decreases items.len() - i,
    {
        let mut out: Vec<char> = Vec::new();
        push_text(&mut out, prefix);
        push_text(&mut out, items[i].as_str());
        push_line(lines, out);
        assert(texts(items@.subrange(0, i + 1)) =~= texts(items@.subrange(0, i as int)).push(items@[i as int]@));
        assert(texts(lines@) =~= start + prefixed(prefix@, texts(items@.subrange(0, i + 1))));
        i = i + 1;
    }
    assert(items@.subrange(0, i as int) =~= items@);
}

/// What `ctxmenu restore` says: how much came back, what a restore removed,
/// every file that did not come back, and what `reg import` never does.
pub open spec fn restore_lines(directory: Seq<char>, report: RestoreReport) -> Seq<Seq<char>> {
    seq![
        decimal(report.restored as nat) + " Datei(en) \x1ezurückgespielt\x1frestored from\x1d "@
            + directory,
    ] + (if report.removed > 0 {
        seq![
            decimal(report.removed as nat)
                + " \x1eSchlüssel entfernt, die es bei der Sicherung noch nicht gab\x1fkeys removed that did not exist when the backup was taken\x1d"@,
        ]
    } else {
        Seq::empty()
    }) + prefixed("  FEHL "@, texts(report.failures@)) + seq![
        "\x1eHinweis: reg import fügt hinzu und überschreibt, entfernt aber nichts.\x1fnote: reg import adds and overwrites, it never removes.\x1d"@,
    ]
}

/// The lines `ctxmenu restore` prints once the backup in `directory` has
/// been put back: every failure after the count rather than instead of it.
pub fn run_restore(directory: &str, report: &RestoreReport) -> (lines: Vec<String>)
    ensures
        texts(lines@) == restore_lines(directory@, *report),
{
    let mut lines: Vec<String> = Vec::new();
    let mut first: Vec<char> = Vec::new();
    push_number(&mut first, report.restored);
    push_text(&mut first, " Datei(en) \x1ezurückgespielt\x1frestored from\x1d ");
    push_text(&mut first, directory);
    push_line(&mut lines, first);
    if report.removed > 0 {
        let mut out: Vec<char> = Vec::new();
        push_number(&mut out, report.removed);
        push_text(
            &mut out,
            " \x1eSchlüssel entfernt, die es bei der Sicherung noch nicht gab\x1fkeys removed that did not exist when the backup was taken\x1d",
        );
        push_line(&mut lines, out);
    }
    push_prefixed(&mut lines, "  FEHL ", &report.failures);
    let mut last: Vec<char> = Vec::new();
    push_text(
        &mut last,
        "\x1eHinweis: reg import fügt hinzu und überschreibt, entfernt aber nichts.\x1fnote: reg import adds and overwrites, it never removes.\x1d",
    );
    push_line(&mut lines, last);
    assert(texts(lines@) =~= restore_lines(directory@, *report));
    lines
}

/// One backup as the listing shows it.
#[derive(Debug, Clone)]
pub struct BackupManifest {
    /// When it was taken, as `YYYY-MM-DD HH:MM:SS`.
    pub created_at: String,
    /// What it was taken for.
    pub action: String,
    /// The keys it holds, by registry path.
    pub entries: Vec<String>,
    /// How many keys were not there to export.
    pub missing: usize,
    pub notes: Vec<String>,
}

/// A backup directory and what its manifest says.
#[derive(Debug, Clone)]
pub struct Backup {
    pub directory: String,
    pub manifest: BackupManifest,
}

/// The lines of one backup in the listing.
pub open spec fn backup_block(backup: Backup) -> Seq<Seq<char>> {
    let m = backup.manifest;
    seq![
        m.created_at@ + "  "@ + padded(m.action@, 20) + " "@ + decimal(m.entries@.len())
            + " Schlüssel"@ + (if m.missing == 0 {
            Seq::empty()
        } else {
            ", "@ + decimal(m.missing as nat) + " fehlten beim Export"@
        }),
        "    "@ + backup.directory@,
    ] + prefixed("      "@, texts(m.entries@)) + prefixed("      ! "@, texts(m.notes@))
}

/// The lines of every backup, in order.
pub open spec fn backup_blocks(backups: Seq<Backup>) -> Seq<Seq<char>>
    decreases backups.len(),
{
    if backups.len() == 0 {
        Seq::empty()
    } else {
        backup_blocks(backups.drop_last()) + backup_block(backups.last())
    }
}

/// What `ctxmenu backups` prints: where backups would be when there are
/// none, or each backup with its keys and notes.
pub open spec fn backup_lines(root: Seq<char>, backups: Seq<Backup>) -> Seq<Seq<char>> {
    if backups.len() == 0 {
        seq!["\x1eKeine Backups unter\x1fno backups yet in\x1d "@ + root]
    } else {
        backup_blocks(backups)
    }
}

/// The lines `ctxmenu backups` prints for the backups found under `root`.
pub fn run_backups(root: &str, backups: &Vec<Backup>) -> (lines: Vec<String>)
    ensures
        texts(lines@) == backup_lines(root@, backups@),
{
    let mut lines: Vec<String> = Vec::new();
    if backups.len() == 0 {
        let mut out: Vec<char> = Vec::new();
        push_text(&mut out, "\x1eKeine Backups unter\x1fno backups yet in\x1d ");
        push_text(&mut out, root);
        push_line(&mut lines, out);
        assert(texts(lines@) =~= backup_lines(root@, backups@));
        return lines;
    }
    let mut i: usize = 0;
    assert(texts(lines@) =~= backup_blocks(backups@.subrange(0, 0)));
    while i < backups.len()
        invariant
            i <= backups.len(),
            texts(lines@) == backup_blocks(backups@.subrange(0, i as int)),
        decreases backups.len() - i,
    {
        let ghost prefix = backups@.subrange(0, i + 1);
        assert(prefix.drop_last() =~= backups@.subrange(0, i as int));
        let ghost before = texts(lines@);
        let backup = &backups[i];
        let m = &backup.manifest;
        let mut head: Vec<char> = Vec::new();
        push_text(&mut head, m.created_at.as_str());
        push_text(&mut head, "  ");
        push_padded(&mut head, m.action.as_str(), 20);
        push_text(&mut head, " ");
        push_number(&mut head, m.entries.len());
        push_text(&mut head, " Schlüssel");
        if m.missing > 0 {
            push_text(&mut head, ", ");
            push_number(&mut head, m.missing);
            push_text(&mut head, " fehlten beim Export");
        } else {
            assert(head@ =~= head@ + Seq::<char>::empty());
        }
        let ghost l1 = m.created_at@ + "  "@ + padded(m.action@, 20) + " "@ + decimal(
            m.entries@.len(),
        ) + " Schlüssel"@ + (if m.missing == 0 {
            Seq::empty()
        } else {
            ", "@ + decimal(m.missing as nat) + " fehlten beim Export"@
        });
        assert(head@ =~= l1);
        push_line(&mut lines, head);
        let mut where_: Vec<char> = Vec::new();
        push_text(&mut where_, "    ");
        push_text(&mut where_, backup.directory.as_str());
        let ghost l2 = "    "@ + backup.directory@;
        push_line(&mut lines, where_);
        let ghost two = texts(lines@);
        assert(two =~= before + seq![l1, l2]);
        push_prefixed(&mut lines, "      ", &m.entries);
        push_prefixed(&mut lines, "      ! ", &m.notes);
        assert(backup_block(backups@[i as int]) == seq![l1, l2] + prefixed("      "@, texts(m.entries@))
            + prefixed("      ! "@, texts(m.notes@)));
        assert(texts(lines@) =~= before + backup_block(backups@[i as int]));
        i = i + 1;
    }
    assert(backups@.subrange(0, i as int) =~= backups@);
    lines
}


/// An entry this tool created, and where it landed (`?` when its place
/// cannot be named).
#[derive(Debug, Clone)]
pub struct Recorded {
    pub entry: NewEntry,
    pub location: String,
}

/// The lines of one created entry: its name and place, then its submenu
/// lines or its command.
pub open spec fn recorded_block(r: Recorded) -> Seq<Seq<char>> {
    seq![padded(r.entry.display_name@, 28) + " "@ + r.location@] + if r.entry.children@.len() > 0 {
        r.entry.children@.map_values(
            |c: NewChild| "    \u{21b3} "@ + padded(c.display_name@, 22) + " "@ + c.command@,
        )
    } else {
        seq!["    "@ + r.entry.command@]
    }
}

/// The lines of every created entry, in order.
pub open spec fn recorded_blocks(list: Seq<Recorded>) -> Seq<Seq<char>>
    decreases list.len(),
{
    if list.len() == 0 {
        Seq::empty()
    } else {
        recorded_blocks(list.drop_last()) + recorded_block(list.last())
    }
}

/// What `ctxmenu created` prints.
pub open spec fn created_lines(list: Seq<Recorded>) -> Seq<Seq<char>> {
    if list.len() == 0 {
        seq!["\x1eNichts angelegt\x1fnothing created yet\x1d"@]
    } else {
        recorded_blocks(list)
    }
}

/// The lines `ctxmenu created` prints for what this tool recorded.
pub fn run_created(recorded: &Vec<Recorded>) -> (lines: Vec<String>)
    ensures
        texts(lines@) == created_lines(recorded@),
{
    let mut lines: Vec<String> = Vec::new();
    if recorded.len() == 0 {
        let mut out: Vec<char> = Vec::new();
        push_text(&mut out, "\x1eNichts angelegt\x1fnothing created yet\x1d");
        push_line(&mut lines, out);
        assert(texts(lines@) =~= created_lines(recorded@));
        return lines;
    }
    let mut i: usize = 0;
    assert(texts(lines@) =~= recorded_blocks(recorded@.subrange(0, 0)));
    while i < recorded.len()
        invariant
            i <= recorded.len(),
            texts(lines@) == recorded_blocks(recorded@.subrange(0, i as int)),
        decreases recorded.len() - i,
    {
        let ghost prefix = recorded@.subrange(0, i + 1);
        assert(prefix.drop_last() =~= recorded@.subrange(0, i as int));
        let ghost before = texts(lines@);
        let r = &recorded[i];
        let mut head: Vec<char> = Vec::new();
        push_padded(&mut head, r.entry.display_name.as_str(), 28);
        push_text(&mut head, " ");
        push_text(&mut head, r.location.as_str());
        push_line(&mut lines, head);
        let ghost after_head = texts(lines@);
        if r.entry.is_submenu() {
            let mut k: usize = 0;
            while k < r.entry.children.len()
                invariant
                    k <= r.entry.children.len(),
                    texts(lines@) == after_head + r.entry.children@.subrange(0, k as int).map_values(
                        |c: NewChild| "    \u{21b3} "@ + padded(c.display_name@, 22) + " "@ + c.command@,
                    ),
                decreases r.entry.children.len() - k,
            {
                let child = &r.entry.children[k];
                let mut out: Vec<char> = Vec::new();
                push_text(&mut out, "    \u{21b3} ");
                push_padded(&mut out, child.display_name.as_str(), 22);
                push_text(&mut out, " ");
                push_text(&mut out, child.command.as_str());
                push_line(&mut lines, out);
                assert(r.entry.children@.subrange(0, k + 1) =~= r.entry.children@.subrange(
                    0,
                    k as int,
                ).push(r.entry.children@[k as int]));
                assert(texts(lines@) =~= after_head + r.entry.children@.subrange(0, k + 1).map_values(
                    |c: NewChild| "    \u{21b3} "@ + padded(c.display_name@, 22) + " "@ + c.command@,
                ));
                k = k + 1;
            }
            assert(r.entry.children@.subrange(0, k as int) =~= r.entry.children@);
        } else {
            let mut out: Vec<char> = Vec::new();
            push_text(&mut out, "    ");
            push_text(&mut out, r.entry.command.as_str());
            push_line(&mut lines, out);
        }
        assert(texts(lines@) =~= before + recorded_block(recorded@[i as int]));
        i = i + 1;
    }
    assert(recorded@.subrange(0, i as int) =~= recorded@);
    lines
}

/// What is said about a key that is not there.
pub open spec fn missing_key_text(full_path: Seq<char>) -> Seq<char> {
    "\x1eSchlüssel existiert nicht\x1fkey does not exist\x1d: "@ + full_path
}

/// The refusal for an action or a deletion aimed at a key that is not
/// there.
pub fn missing_key(full_path: &str) -> (result: String)
    ensures
        result@ == missing_key_text(full_path@),
{
    let mut text = String::from_str("\x1eSchlüssel existiert nicht\x1fkey does not exist\x1d: ");
    text.append(full_path);
    text
}

/// What `ctxmenu delete` says: without `--yes`, what it would do; with it,
/// where the backup went, what is gone, and how to get it back.
pub open spec fn delete_lines(full_path: Seq<char>, confirmed: bool, backup: Seq<char>) -> Seq<
    Seq<char>,
> {
    if !confirmed {
        seq![
            "\x1eWürde sichern und löschen\x1fwould back up and delete\x1d:"@,
            "  "@ + full_path,
            "\x1eZum Ausführen --yes anhängen\x1fappend --yes to execute\x1d."@,
        ]
    } else {
        seq![
            "Backup: "@ + backup,
            "\x1eGelöscht\x1fdeleted\x1d: "@ + full_path,
            "\x1eZurückholen mit\x1frestore with\x1d: ctxmenu restore \""@ + backup + "\""@,
        ]
    }
}

/// The lines `ctxmenu delete` prints: the preview without `--yes`, or,
/// once the key was backed up to `backup` and deleted, the report.
pub fn run_delete(full_path: &str, confirmed: bool, backup: &str) -> (lines: Vec<String>)
    ensures
        texts(lines@) == delete_lines(full_path@, confirmed, backup@),
{
    let mut lines: Vec<String> = Vec::new();
    let mut a: Vec<char> = Vec::new();
    let mut b: Vec<char> = Vec::new();
    let mut c: Vec<char> = Vec::new();
    if !confirmed {
        push_text(&mut a, "\x1eWürde sichern und löschen\x1fwould back up and delete\x1d:");
        push_text(&mut b, "  ");
        push_text(&mut b, full_path);
        push_text(&mut c, "\x1eZum Ausführen --yes anhängen\x1fappend --yes to execute\x1d.");
    } else {
        push_text(&mut a, "Backup: ");
        push_text(&mut a, backup);
        push_text(&mut b, "\x1eGelöscht\x1fdeleted\x1d: ");
        push_text(&mut b, full_path);
        push_text(&mut c, "\x1eZurückholen mit\x1frestore with\x1d: ctxmenu restore \"");
        push_text(&mut c, backup);
        push_text(&mut c, "\"");
    }
    push_line(&mut lines, a);
    push_line(&mut lines, b);
    push_line(&mut lines, c);
    assert(texts(lines@) =~= delete_lines(full_path@, confirmed, backup@));
    lines
}

/// One step of a report: `ok` with its path, or `FEHL` with its path and
/// why.
pub open spec fn step_line(result: OperationResult) -> Seq<char> {
    match result.error {
        None => "  ok   "@ + result.registry_path@,
        Some(e) => "  FEHL "@ + result.registry_path@ + "  \u{2014}  "@ + e@,
    }
}

/// What `ctxmenu hide|show|…` says: without `--yes`, what it would do and
/// whether Windows will ask; afterwards, the counts, every backup, and
/// every step.
pub open spec fn apply_lines(
    label: Seq<char>,
    full_path: Seq<char>,
    needs_elevation: bool,
    report: Option<Report>,
) -> Seq<Seq<char>> {
    match report {
        None => seq![
            "\x1eWürde ausführen\x1fwould apply\x1d: "@ + label,
            "  "@ + full_path,
            "  \x1eRechteerhöhung nötig\x1felevation required\x1d: "@ + if needs_elevation {
                "\x1eja\x1fyes\x1d"@
            } else {
                "\x1enein\x1fno\x1d"@
            },
            "\x1eZum Ausführen --yes anhängen\x1fappend --yes to execute\x1d."@,
        ],
        Some(r) => seq![
            decimal((r.results@.len() - failures(r.results@)) as nat)
                + " \x1eerfolgreich\x1fsucceeded\x1d, "@ + decimal(failures(r.results@))
                + " \x1efehlgeschlagen\x1ffailed\x1d"@,
        ] + prefixed("Backup: "@, texts(r.backup_directories@)) + r.results@.map_values(
            |x: OperationResult| step_line(x),
        ),
    }
}

/// The lines an action on one key prints: the preview when no report is
/// given, else what the report says.
pub fn run_apply(label: &str, full_path: &str, needs_elevation: bool, report: Option<&Report>) -> (lines: Vec<String>)
    ensures
        texts(lines@) == apply_lines(
            label@,
            full_path@,
            needs_elevation,
            match report {
                Some(r) => Some(*r),
                None => None,
            },
        ),
{
    let mut lines: Vec<String> = Vec::new();
    match report {
        None => {
            let mut a: Vec<char> = Vec::new();
            push_text(&mut a, "\x1eWürde ausführen\x1fwould apply\x1d: ");
            push_text(&mut a, label);
            push_line(&mut lines, a);
            let mut b: Vec<char> = Vec::new();
            push_text(&mut b, "  ");
            push_text(&mut b, full_path);
            push_line(&mut lines, b);
            let mut c: Vec<char> = Vec::new();
            push_text(&mut c, "  \x1eRechteerhöhung nötig\x1felevation required\x1d: ");
            if needs_elevation {
                push_text(&mut c, "\x1eja\x1fyes\x1d");
            } else {
                push_text(&mut c, "\x1enein\x1fno\x1d");
            }
            push_line(&mut lines, c);
            let mut d: Vec<char> = Vec::new();
            push_text(&mut d, "\x1eZum Ausführen --yes anhängen\x1fappend --yes to execute\x1d.");
            push_line(&mut lines, d);
        },
        Some(r) => {
            let mut head: Vec<char> = Vec::new();
            push_number(&mut head, r.succeeded());
            push_text(&mut head, " \x1eerfolgreich\x1fsucceeded\x1d, ");
            push_number(&mut head, r.failed());
            push_text(&mut head, " \x1efehlgeschlagen\x1ffailed\x1d");
            push_line(&mut lines, head);
            push_prefixed(&mut lines, "Backup: ", &r.backup_directories);
            let ghost start = texts(lines@);
            let mut k: usize = 0;
            while k < r.results.len()
                invariant
                    k <= r.results.len(),
                    texts(lines@) == start + r.results@.subrange(0, k as int).map_values(
                        |x: OperationResult| step_line(x),
                    ),
                decreases r.results.len() - k,
            {
                let step = &r.results[k];
                let mut out: Vec<char> = Vec::new();
                match &step.error {
                    None => {
                        push_text(&mut out, "  ok   ");
                        push_text(&mut out, step.registry_path.as_str());
                    },
                    Some(e) => {
                        push_text(&mut out, "  FEHL ");
                        push_text(&mut out, step.registry_path.as_str());
                        push_text(&mut out, "  \u{2014}  ");
                        push_text(&mut out, e.as_str());
                    },
                }
                push_line(&mut lines, out);
                assert(r.results@.subrange(0, k + 1) =~= r.results@.subrange(0, k as int).push(
                    r.results@[k as int],
                ));
                assert(texts(lines@) =~= start + r.results@.subrange(0, k + 1).map_values(
                    |x: OperationResult| step_line(x),
                ));
                k = k + 1;
            }
            assert(r.results@.subrange(0, k as int) =~= r.results@);
        },
    }
    assert(texts(lines@) =~= apply_lines(
        label@,
        full_path@,
        needs_elevation,
        match report {
            Some(r) => Some(*r),
            None => None,
        },
    ));
    lines
}

/// What `ctxmenu create` says once the entry is written: where, what, and
/// where the record of it is kept.
pub open spec fn create_lines(entry: NewEntry, full_path: Seq<char>, entries_path: Seq<char>) -> Seq<
    Seq<char>,
> {
    seq!["\x1eAngelegt\x1fcreated\x1d: "@ + full_path] + (if entry.children@.len() > 0 {
        seq!["  "@ + entry.display_name@ + " \u{25b8}"@] + entry.children@.map_values(
            |c: NewChild| "    "@ + c.display_name@ + " -> "@ + c.command@,
        )
    } else {
        seq!["  "@ + entry.display_name@ + " -> "@ + entry.command@]
    }) + seq!["  entries.json: "@ + entries_path]
}

/// The lines `ctxmenu create` prints for an entry written at `full_path`.
pub fn run_create(entry: &NewEntry, full_path: &str, entries_path: &str) -> (lines: Vec<String>)
    ensures
        texts(lines@) == create_lines(*entry, full_path@, entries_path@),
{
    let mut lines: Vec<String> = Vec::new();
    let mut head: Vec<char> = Vec::new();
    push_text(&mut head, "\x1eAngelegt\x1fcreated\x1d: ");
    push_text(&mut head, full_path);
    push_line(&mut lines, head);
    let ghost after_head = texts(lines@);
    if entry.is_submenu() {
        let mut title: Vec<char> = Vec::new();
        push_text(&mut title, "  ");
        push_text(&mut title, entry.display_name.as_str());
        push_text(&mut title, " \u{25b8}");
        push_line(&mut lines, title);
        let ghost start = texts(lines@);
        let mut k: usize = 0;
        while k < entry.children.len()
            invariant
                k <= entry.children.len(),
                texts(lines@) == start + entry.children@.subrange(0, k as int).map_values(
                    |c: NewChild| "    "@ + c.display_name@ + " -> "@ + c.command@,
                ),
            decreases entry.children.len() - k,
        {
            let child = &entry.children[k];
            let mut out: Vec<char> = Vec::new();
            push_text(&mut out, "    ");
            push_text(&mut out, child.display_name.as_str());
            push_text(&mut out, " -> ");
            push_text(&mut out, child.command.as_str());
            push_line(&mut lines, out);
            assert(entry.children@.subrange(0, k + 1) =~= entry.children@.subrange(0, k as int).push(
                entry.children@[k as int],
            ));
            assert(texts(lines@) =~= start + entry.children@.subrange(0, k + 1).map_values(
                |c: NewChild| "    "@ + c.display_name@ + " -> "@ + c.command@,
            ));
            k = k + 1;
        }
        assert(entry.children@.subrange(0, k as int) =~= entry.children@);
    } else {
        let mut out: Vec<char> = Vec::new();
        push_text(&mut out, "  ");
        push_text(&mut out, entry.display_name.as_str());
        push_text(&mut out, " -> ");
        push_text(&mut out, entry.command.as_str());
        push_line(&mut lines, out);
    }
    let mut last: Vec<char> = Vec::new();
    push_text(&mut last, "  entries.json: ");
    push_text(&mut last, entries_path);
    push_line(&mut lines, last);
    assert(texts(lines@) =~= create_lines(*entry, full_path@, entries_path@));
    lines
}


/// How a file type resolves on this machine.
#[derive(Debug, Clone)]
pub struct Resolution {
    /// The extension, with its dot.
    pub ext: String,
    pub registered: bool,
    /// The ProgID the user chose in Explorer.
    pub user_choice: Option<String>,
    /// The ProgID the extension's own key names.
    pub default_progid: Option<String>,
    /// The ProgID that decides, of those two.
    pub effective_progid: Option<String>,
    pub perceived_type: Option<String>,
    pub open_with_progids: Vec<String>,
}

/// What the scan found for one file type: its resolution, its group, and
/// which entries belong to it alone.
#[derive(Debug, Clone)]
pub struct FileTypeInfo {
    pub resolution: Resolution,
    pub group: TypeGroup,
    /// Indices into the scanned entries: levels 3 to 7 of the chain.
    pub entry_indices: Vec<usize>,
}

/// A group's name as `{:?}` writes it.
pub open spec fn group_name(group: TypeGroup) -> Seq<char> {
    match group {
        TypeGroup::Documents => "Documents"@,
        TypeGroup::Images => "Images"@,
        TypeGroup::Raw => "Raw"@,
        TypeGroup::Audio => "Audio"@,
        TypeGroup::Video => "Video"@,
        TypeGroup::Archives => "Archives"@,
        TypeGroup::Code => "Code"@,
        TypeGroup::System => "System"@,
        TypeGroup::Other => "Other"@,
    }
}

/// An optional text, or a dash when there is none.
pub open spec fn or_dash(text: Option<String>) -> Seq<char> {
    match text {
        Some(t) => t@,
        None => "\u{2014}"@,
    }
}

/// Texts with `", "` between them.
pub open spec fn comma_joined(items: Seq<Seq<char>>) -> Seq<char>
    decreases items.len(),
{
    if items.len() == 0 {
        Seq::empty()
    } else if items.len() == 1 {
        items[0]
    } else {
        comma_joined(items.drop_last()) + ", "@ + items.last()
    }
}

/// The indices of the entries on levels 1 and 2, which every file type
/// inherits.
pub open spec fn inherited(entries: Seq<ContextEntry>) -> Seq<int>
    decreases entries.len(),
{
    if entries.len() == 0 {
        Seq::empty()
    } else {
        let front = inherited(entries.drop_last());
        match entries.last().category {
            Category::AllFiles | Category::AllFilesystemObjects => front.push(entries.len() - 1),
            _ => front,
        }
    }
}

/// A line for an entry every file inherits.
pub open spec fn inherited_line(entry: ContextEntry) -> Seq<char> {
    "    "@ + padded(scope_label(entry.scope), 7) + " "@ + padded(kind_label(entry.kind), 10) + " "@
        + truncated(entry.display_name@, 60)
}

/// A line for an entry of this file type alone, with its level.
pub open spec fn own_line(entry: ContextEntry) -> Seq<char> {
    "    "@ + padded(scope_label(entry.scope), 7) + " "@ + padded(kind_label(entry.kind), 10) + " "@
        + padded(truncated(entry.display_name@, 34), 34) + " "@ + level_text(entry.category@)
}

/// The resolution part of `ctxmenu filetype`: the extension and its group,
/// then how Windows resolves it.
pub open spec fn resolution_lines(info: FileTypeInfo) -> Seq<Seq<char>> {
    let r = info.resolution;
    seq![
        r.ext@ + "   Gruppe: "@ + group_name(info.group),
        Seq::new(100, |i: int| '-'),
        "registriert:        "@ + (if r.registered {
            "true"@
        } else {
            "false"@
        }),
        "Nutzerwahl:         "@ + or_dash(r.user_choice),
        "Systemvorgabe:      "@ + or_dash(r.default_progid),
        "wirksame ProgID:    "@ + or_dash(r.effective_progid),
        "PerceivedType:      "@ + match r.perceived_type {
            Some(t) => t@,
            None => "\u{2014} (Ebene 3 entfällt)"@,
        },
        "OpenWithProgids:    "@ + comma_joined(texts(r.open_with_progids@)),
        Seq::empty(),
    ]
}

/// The part about levels 1 and 2: how many entries every file inherits,
/// the first six of them, and how many more there are.
pub open spec fn shared_lines(entries: Seq<ContextEntry>) -> Seq<Seq<char>> {
    let shared = inherited(entries);
    seq!["Ebenen 1-2, gelten fuer ALLE Dateien: "@ + decimal(shared.len()) + " Einträge"@]
        + shared.take(if shared.len() <= 6 { shared.len() as int } else { 6 }).map_values(
        |i: int| inherited_line(entries[i]),
    ) + (if shared.len() > 6 {
        seq!["    \u{2026} und "@ + decimal((shared.len() - 6) as nat) + " weitere"@]
    } else {
        Seq::empty()
    })
}

/// The part about levels 3 to 7: the entries of this type alone.
pub open spec fn own_lines(info: FileTypeInfo, entries: Seq<ContextEntry>) -> Seq<Seq<char>> {
    seq![
        Seq::empty(),
        "Ebenen 3-7, nur fuer "@ + info.resolution.ext@ + ": "@ + decimal(info.entry_indices@.len())
            + " Einträge"@,
    ] + info.entry_indices@.map_values(|i: usize| own_line(entries[i as int]))
}

/// What `ctxmenu filetype` prints: the resolution, the entries every file
/// inherits (six of them, then how many more), the entries of this type
/// alone with their levels, and the sum a right-click on such a file shows.
pub open spec fn file_type_lines(info: FileTypeInfo, entries: Seq<ContextEntry>, seconds: Seq<char>) -> Seq<
    Seq<char>,
> {
    resolution_lines(info) + shared_lines(entries) + own_lines(info, entries) + seq![
        Seq::empty(),
        "Summe fuer einen Rechtsklick auf eine "@ + info.resolution.ext@ + "-Datei: "@ + decimal(
            inherited(entries).len() + info.entry_indices@.len(),
        ) + " Einträge, ermittelt in "@ + seconds + " s"@,
    ]
}

fn push_opt(out: &mut Vec<char>, text: &Option<String>)
    ensures
        final(out)@ == old(out)@ + or_dash(*text),
{
    match text {
        Some(t) => push_text(out, t.as_str()),
        None => push_text(out, "\u{2014}"),
    }
}

fn scoped_line(out: &mut Vec<char>, entry: &ContextEntry)
    ensures
        final(out)@ == old(out)@ + "    "@ + padded(scope_label(entry.scope), 7) + " "@ + padded(
            kind_label(entry.kind),
            10,
        ) + " "@,
{
    push_text(out, "    ");
    push_padded(out, entry.scope.label(), 7);
    push_text(out, " ");
    push_padded(out, entry.kind.type_label(), 10);
    push_text(out, " ");
}

fn push_resolution(lines: &mut Vec<String>, info: &FileTypeInfo)
    ensures
        texts(final(lines)@) == texts(old(lines)@) + resolution_lines(*info),
{
    let r = &info.resolution;
    let mut l1: Vec<char> = Vec::new();
    push_text(&mut l1, r.ext.as_str());
    push_text(&mut l1, "   Gruppe: ");
    push_text(
        &mut l1,
        match info.group {
            TypeGroup::Documents => "Documents",
            TypeGroup::Images => "Images",
            TypeGroup::Raw => "Raw",
            TypeGroup::Audio => "Audio",
            TypeGroup::Video => "Video",
            TypeGroup::Archives => "Archives",
            TypeGroup::Code => "Code",
            TypeGroup::System => "System",
            TypeGroup::Other => "Other",
        },
    );
    push_line(lines, l1);
    let mut rule: Vec<char> = Vec::new();
    let mut k: usize = 0;
    while k < 100
        invariant
            k <= 100,
            rule@ == Seq::new(k as nat, |i: int| '-'),
        decreases 100 - k,
    {
        rule.push('-');
        assert(rule@ =~= Seq::new((k + 1) as nat, |i: int| '-'));
        k = k + 1;
    }
    push_line(lines, rule);
    let mut l3: Vec<char> = Vec::new();
    push_text(&mut l3, "registriert:        ");
    push_text(&mut l3, if r.registered { "true" } else { "false" });
    push_line(lines, l3);
    let mut l4: Vec<char> = Vec::new();
    push_text(&mut l4, "Nutzerwahl:         ");
    push_opt(&mut l4, &r.user_choice);
    push_line(lines, l4);
    let mut l5: Vec<char> = Vec::new();
    push_text(&mut l5, "Systemvorgabe:      ");
    push_opt(&mut l5, &r.default_progid);
    push_line(lines, l5);
    let mut l6: Vec<char> = Vec::new();
    push_text(&mut l6, "wirksame ProgID:    ");
    push_opt(&mut l6, &r.effective_progid);
    push_line(lines, l6);
    let mut l7: Vec<char> = Vec::new();
    push_text(&mut l7, "PerceivedType:      ");
    match &r.perceived_type {
        Some(t) => push_text(&mut l7, t.as_str()),
        None => push_text(&mut l7, "\u{2014} (Ebene 3 entfällt)"),
    }
    push_line(lines, l7);
    let mut l8: Vec<char> = Vec::new();
    push_text(&mut l8, "OpenWithProgids:    ");
    let ghost before_join = l8@;
    let mut j: usize = 0;
    while j < r.open_with_progids.len()
        invariant
            j <= r.open_with_progids.len(),
            l8@ == before_join + comma_joined(texts(r.open_with_progids@.subrange(0, j as int))),
        decreases r.open_with_progids.len() - j,
    {
        let ghost part = texts(r.open_with_progids@.subrange(0, j + 1));
        assert(part.drop_last() =~= texts(r.open_with_progids@.subrange(0, j as int)));
        if j > 0 {
            push_text(&mut l8, ", ");
        }
        push_text(&mut l8, r.open_with_progids[j].as_str());
        j = j + 1;
    }
    assert(r.open_with_progids@.subrange(0, j as int) =~= r.open_with_progids@);
    push_line(lines, l8);
    push_line(lines, Vec::new());
    assert(texts(lines@) =~= texts(old(lines)@) + resolution_lines(*info));
}

fn inherited_indices(entries: &Vec<ContextEntry>) -> (result: Vec<usize>)
    ensures
        result@.map_values(|x: usize| x as int) == inherited(entries@),
        result@.len() <= entries@.len(),
        forall|x: int| 0 <= x < result@.len() ==> #[trigger] result@[x] < entries@.len(),
{
    let mut shared: Vec<usize> = Vec::new();
    let mut e: usize = 0;
    while e < entries.len()
        invariant
            e <= entries.len(),
            shared@.len() <= e,
            shared@.map_values(|x: usize| x as int) == inherited(entries@.subrange(0, e as int)),
            forall|x: int| 0 <= x < shared@.len() ==> #[trigger] shared@[x] < e,
        decreases entries.len() - e,
    {
        let ghost prefix = entries@.subrange(0, e + 1);
        assert(prefix.drop_last() =~= entries@.subrange(0, e as int));
        assert(prefix.last() == entries@[e as int]);
        let ghost before = shared@;
        if crate::window::applies_to_every_file_type(&entries[e].category) {
            shared.push(e);
            assert(shared@.map_values(|x: usize| x as int) =~= before.map_values(|x: usize| x as int).push(
                e as int,
            ));
        }
        e = e + 1;
    }
    assert(entries@.subrange(0, e as int) =~= entries@);
    shared
}

fn push_shared(lines: &mut Vec<String>, entries: &Vec<ContextEntry>) -> (count: usize)
    ensures
        texts(final(lines)@) == texts(old(lines)@) + shared_lines(entries@),
        count == inherited(entries@).len(),
        count <= entries@.len(),
{
    let shared = inherited_indices(entries);
    let ghost shared_view = inherited(entries@);
    assert(shared@.len() == shared_view.len());
    let mut head: Vec<char> = Vec::new();
    push_text(&mut head, "Ebenen 1-2, gelten fuer ALLE Dateien: ");
    push_number(&mut head, shared.len());
    push_text(&mut head, " Einträge");
    push_line(lines, head);
    let ghost start = texts(lines@);
    let shown = if shared.len() <= 6 {
        shared.len()
    } else {
        6
    };
    let mut s: usize = 0;
    while s < shown
        invariant
            s <= shown <= shared.len(),
            shown == if shared@.len() <= 6 {
                shared@.len()
            } else {
                6
            },
            shared@.map_values(|x: usize| x as int) == shared_view,
            forall|x: int| 0 <= x < shared@.len() ==> #[trigger] shared@[x] < entries@.len(),
            texts(lines@) == start + shared_view.take(s as int).map_values(
                |i: int| inherited_line(entries@[i]),
            ),
        decreases shown - s,
    {
        let entry = &entries[shared[s]];
        assert(shared_view[s as int] == shared@[s as int] as int);
        let mut out: Vec<char> = Vec::new();
        scoped_line(&mut out, entry);
        let cut = crate::cli::truncate(entry.display_name.as_str(), 60);
        push_text(&mut out, cut.as_str());
        push_line(lines, out);
        assert(shared_view.take(s + 1) =~= shared_view.take(s as int).push(shared_view[s as int]));
        assert(texts(lines@) =~= start + shared_view.take(s + 1).map_values(
            |i: int| inherited_line(entries@[i]),
        ));
        s = s + 1;
    }
    let ghost listed = texts(lines@);
    if shared.len() > 6 {
        let mut more: Vec<char> = Vec::new();
        push_text(&mut more, "    \u{2026} und ");
        push_number(&mut more, shared.len() - 6);
        push_text(&mut more, " weitere");
        push_line(lines, more);
    }
    assert(texts(lines@) =~= texts(old(lines)@) + shared_lines(entries@));
    shared.len()
}

fn push_own(lines: &mut Vec<String>, info: &FileTypeInfo, entries: &Vec<ContextEntry>)
    requires
        forall|k: int| 0 <= k < info.entry_indices@.len() ==> #[trigger] info.entry_indices@[k] < entries@.len(),
    ensures
        texts(final(lines)@) == texts(old(lines)@) + own_lines(*info, entries@),
{
    push_line(lines, Vec::new());
    let mut head: Vec<char> = Vec::new();
    push_text(&mut head, "Ebenen 3-7, nur fuer ");
    push_text(&mut head, info.resolution.ext.as_str());
    push_text(&mut head, ": ");
    push_number(&mut head, info.entry_indices.len());
    push_text(&mut head, " Einträge");
    push_line(lines, head);
    let ghost middle = texts(lines@);
    let mut o: usize = 0;
    while o < info.entry_indices.len()
        invariant
            o <= info.entry_indices.len(),
            forall|k: int| 0 <= k < info.entry_indices@.len() ==> #[trigger] info.entry_indices@[k] < entries@.len(),
            texts(lines@) == middle + info.entry_indices@.subrange(0, o as int).map_values(
                |i: usize| own_line(entries@[i as int]),
            ),
        decreases info.entry_indices.len() - o,
    {
        let index = info.entry_indices[o];
        let entry = &entries[index];
        let mut out: Vec<char> = Vec::new();
        scoped_line(&mut out, entry);
        let cut = crate::cli::truncate(entry.display_name.as_str(), 34);
        push_padded(&mut out, cut.as_str(), 34);
        push_text(&mut out, " ");
        let level = crate::cli::level_label(&entry.category);
        push_text(&mut out, level.as_str());
        push_line(lines, out);
        assert(info.entry_indices@.subrange(0, o + 1) =~= info.entry_indices@.subrange(
            0,
            o as int,
        ).push(index));
        assert(texts(lines@) =~= middle + info.entry_indices@.subrange(0, o + 1).map_values(
            |i: usize| own_line(entries@[i as int]),
        ));
        o = o + 1;
    }
    assert(info.entry_indices@.subrange(0, o as int) =~= info.entry_indices@);
    assert(texts(lines@) =~= texts(old(lines)@) + own_lines(*info, entries@));
}

/// The lines `ctxmenu filetype` prints for one extension, the time it took
/// written by the caller.
pub fn run_file_type(info: &FileTypeInfo, entries: &Vec<ContextEntry>, seconds: &str) -> (lines: Vec<String>)
    requires
        forall|k: int| 0 <= k < info.entry_indices@.len() ==> #[trigger] info.entry_indices@[k] < entries@.len(),
        entries@.len() + info.entry_indices@.len() <= usize::MAX,
    ensures
        texts(lines@) == file_type_lines(*info, entries@, seconds@),
{
    let mut lines: Vec<String> = Vec::new();
    push_resolution(&mut lines, info);
    // Levels 1 and 2 are shared by every file type: deleting one of those
    // hits every other type too, so they are shown apart.
    let shared = push_shared(&mut lines, entries);
    push_own(&mut lines, info, entries);
    let ghost body = texts(lines@);
    push_line(&mut lines, Vec::new());
    let mut last: Vec<char> = Vec::new();
    push_text(&mut last, "Summe fuer einen Rechtsklick auf eine ");
    push_text(&mut last, info.resolution.ext.as_str());
    push_text(&mut last, "-Datei: ");
    push_number(&mut last, shared + info.entry_indices.len());
    push_text(&mut last, " Einträge, ermittelt in ");
    push_text(&mut last, seconds);
    push_text(&mut last, " s");
    push_line(&mut lines, last);
    assert(texts(lines@) =~= file_type_lines(*info, entries@, seconds@));
    lines
}


/// Whether a program's file is still there.
#[derive(Debug, Clone, Copy, PartialEq, Eq, Structural)]
pub enum Presence {
    Present,
    Missing,
    Unknown,
}

/// Every entry that leads to one program.
#[derive(Debug, Clone)]
pub struct ProgramGroup {
    pub display_name: String,
    /// What the group is keyed by: the program's path, as written.
    pub key: String,
    /// Where its entries hang, one text per place.
    pub locations: Vec<String>,
    pub is_system: bool,
    pub read_only: bool,
    pub clsids: Vec<String>,
    pub presence: Presence,
    /// Indices of the scanned entries in the group.
    pub entry_indices: Vec<usize>,
}

impl ProgramGroup {
    /// How many entries lead to this program.
    pub fn entry_count(&self) -> (result: usize)
        ensures
            result == self.entry_indices@.len(),
    {
        self.entry_indices.len()
    }
}

/// `s` padded with spaces on the left to `width` characters.
pub open spec fn right_aligned(s: Seq<char>, width: nat) -> Seq<char> {
    if s.len() >= width {
        s
    } else {
        Seq::new((width - s.len()) as nat, |i: int| ' ') + s
    }
}

/// How many entries the groups hold together.
pub open spec fn grouped(groups: Seq<ProgramGroup>) -> nat
    decreases groups.len(),
{
    if groups.len() == 0 {
        0
    } else {
        grouped(groups.drop_last()) + groups.last().entry_indices@.len()
    }
}

/// How many groups have the given presence.
pub open spec fn with_presence(groups: Seq<ProgramGroup>, presence: Presence) -> nat
    decreases groups.len(),
{
    if groups.len() == 0 {
        0
    } else {
        with_presence(groups.drop_last(), presence) + if groups.last().presence == presence {
            1nat
        } else {
            0nat
        }
    }
}

/// The marks of a group, joined with `", "`: system, read-only, COM, and
/// gone in words, since the console has no red.
pub open spec fn marks(group: ProgramGroup) -> Seq<Seq<char>> {
    (if group.is_system {
        seq!["System"@]
    } else {
        Seq::empty()
    }) + (if group.read_only {
        seq!["schreibgeschützt"@]
    } else {
        Seq::empty()
    }) + (if group.clsids@.len() > 0 {
        seq!["COM"@]
    } else {
        Seq::empty()
    }) + (if group.presence == Presence::Missing {
        seq!["\x1enicht mehr vorhanden\x1fgone\x1d"@]
    } else {
        Seq::empty()
    })
}

/// Texts with `sep` between them.
pub open spec fn joined_with(items: Seq<Seq<char>>, sep: Seq<char>) -> Seq<char>
    decreases items.len(),
{
    if items.len() == 0 {
        Seq::empty()
    } else if items.len() == 1 {
        items[0]
    } else {
        joined_with(items.drop_last(), sep) + sep + items.last()
    }
}

/// The three lines of one program.
pub open spec fn group_block(group: ProgramGroup) -> Seq<Seq<char>> {
    let m = joined_with(marks(group), ", "@);
    seq![
        right_aligned(decimal(group.entry_indices@.len()), 3) + "x  "@ + padded(
            truncated(group.display_name@, 42),
            42,
        ) + " "@ + (if m.len() == 0 {
            Seq::empty()
        } else {
            "["@ + m + "]"@
        }),
        "      "@ + group.key@,
        "      "@ + joined_with(texts(group.locations@), "  "@),
    ]
}

/// The lines of every group, in order.
pub open spec fn group_blocks(groups: Seq<ProgramGroup>) -> Seq<Seq<char>>
    decreases groups.len(),
{
    if groups.len() == 0 {
        Seq::empty()
    } else {
        group_blocks(groups.drop_last()) + group_block(groups.last())
    }
}

/// What `ctxmenu programs` prints: how many programs from how many entries,
/// the name cache, how many programs are there, gone or unknown, then
/// every program with its marks, key and places.
pub open spec fn program_lines(
    groups: Seq<ProgramGroup>,
    entry_count: nat,
    seconds: Seq<char>,
    hits: nat,
    lookups: nat,
) -> Seq<Seq<char>> {
    seq![
        decimal(groups.len()) + " Programme aus "@ + decimal(entry_count) + " Einträgen in "@
            + seconds + " s ("@ + decimal((entry_count - grouped(groups)) as nat)
            + " ohne zuordenbares Programm)"@,
        "Namens-Cache: "@ + decimal(hits) + " Treffer / "@ + decimal(lookups) + " Auflösungen"@,
        "\x1eProgramme vorhanden\x1fpresent\x1d: "@ + decimal(with_presence(groups, Presence::Present))
            + ", \x1enicht mehr da\x1fgone\x1d: "@ + decimal(with_presence(groups, Presence::Missing))
            + ", \x1enicht prüfbar\x1funknown\x1d: "@ + decimal(
            with_presence(groups, Presence::Unknown),
        ),
        Seq::empty(),
    ] + group_blocks(groups)
}

fn push_joined(out: &mut Vec<char>, items: &Vec<String>, sep: &str)
    ensures
        final(out)@ == old(out)@ + joined_with(texts(items@), sep@),
{
    let ghost start = out@;
    let mut j: usize = 0;
    while j < items.len()
        invariant
            j <= items.len(),
            out@ == start + joined_with(texts(items@.subrange(0, j as int)), sep@),
        decreases items.len() - j,
    {
        let ghost part = texts(items@.subrange(0, j + 1));
        assert(part.drop_last() =~= texts(items@.subrange(0, j as int)));
        if j > 0 {
            push_text(out, sep);
        }
        push_text(out, items[j].as_str());
        j = j + 1;
    }
    assert(items@.subrange(0, j as int) =~= items@);
}

fn mark_list(group: &ProgramGroup) -> (result: Vec<String>)
    ensures
        texts(result@) == marks(*group),
{
    let mut out: Vec<String> = Vec::new();
    if group.is_system {
        out.push(String::from_str("System"));
    }
    if group.read_only {
        out.push(String::from_str("schreibgeschützt"));
    }
    if group.clsids.len() > 0 {
        out.push(String::from_str("COM"));
    }
    if group.presence == Presence::Missing {
        out.push(String::from_str("\x1enicht mehr vorhanden\x1fgone\x1d"));
    }
    assert(texts(out@) =~= marks(*group));
    out
}

fn push_group(lines: &mut Vec<String>, group: &ProgramGroup)
    ensures
        texts(final(lines)@) == texts(old(lines)@) + group_block(*group),
{
    let marks = mark_list(group);
    let mut joined: Vec<char> = Vec::new();
    push_joined(&mut joined, &marks, ", ");
    let mut head: Vec<char> = Vec::new();
    let count = decimal_chars(group.entry_count());
    let mut pad = count.len();
    let ghost start = head@;
    while pad < 3
        invariant
            count@.len() <= pad <= 3 || pad == count@.len(),
            head@ == start + Seq::new((pad - count@.len()) as nat, |i: int| ' '),
        decreases 3 - pad,
    {
        head.push(' ');
        assert(head@ =~= start + Seq::new((pad + 1 - count@.len()) as nat, |i: int| ' '));
        pad = pad + 1;
    }
    let ghost number = count@;
    let mut digits = count;
    head.append(&mut digits);
    assert(head@ =~= right_aligned(number, 3));
    push_text(&mut head, "x  ");
    let cut = crate::cli::truncate(group.display_name.as_str(), 42);
    push_padded(&mut head, cut.as_str(), 42);
    push_text(&mut head, " ");
    let ghost m = joined@;
    let ghost before_marks = head@;
    if joined.len() > 0 {
        push_text(&mut head, "[");
        let mut inner = joined;
        head.append(&mut inner);
        push_text(&mut head, "]");
        assert(head@ =~= before_marks + ("["@ + m + "]"@));
    } else {
        assert(head@ =~= before_marks + Seq::<char>::empty());
    }
    assert(head@ == group_block(*group)[0]);
    push_line(lines, head);
    let mut key: Vec<char> = Vec::new();
    push_text(&mut key, "      ");
    push_text(&mut key, group.key.as_str());
    push_line(lines, key);
    let mut places: Vec<char> = Vec::new();
    push_text(&mut places, "      ");
    push_joined(&mut places, &group.locations, "  ");
    push_line(lines, places);
    assert(texts(lines@) =~= texts(old(lines)@) + group_block(*group));
}

/// The lines `ctxmenu programs` prints for the groups of `entry_count`
/// scanned entries, with the time taken and the name cache's counts as the
/// caller measured them.
pub fn run_programs(groups: &Vec<ProgramGroup>, entry_count: usize, seconds: &str, hits: usize, lookups: usize) -> (lines: Vec<String>)
    requires
        grouped(groups@) <= entry_count,
    ensures
        texts(lines@) == program_lines(groups@, entry_count as nat, seconds@, hits as nat, lookups as nat),
{
    let mut total: usize = 0;
    let mut present: usize = 0;
    let mut missing: usize = 0;
    let mut unknown: usize = 0;
    let mut i: usize = 0;
    while i < groups.len()
        invariant
            i <= groups.len(),
            grouped(groups@) <= entry_count,
            total == grouped(groups@.subrange(0, i as int)),
            present == with_presence(groups@.subrange(0, i as int), Presence::Present),
            missing == with_presence(groups@.subrange(0, i as int), Presence::Missing),
            unknown == with_presence(groups@.subrange(0, i as int), Presence::Unknown),
            present + missing + unknown == i,
        decreases groups.len() - i,
    {
        let ghost prefix = groups@.subrange(0, i + 1);
        assert(prefix.drop_last() =~= groups@.subrange(0, i as int));
        assert(prefix.last() == groups@[i as int]);
        proof {
            lemma_grouped_prefix(groups@, i + 1);
        }
        total = total + groups[i].entry_count();
        match groups[i].presence {
            Presence::Present => present = present + 1,
            Presence::Missing => missing = missing + 1,
            Presence::Unknown => unknown = unknown + 1,
        }
        i = i + 1;
    }
    assert(groups@.subrange(0, i as int) =~= groups@);
    let mut lines: Vec<String> = Vec::new();
    let mut first: Vec<char> = Vec::new();
    push_number(&mut first, groups.len());
    push_text(&mut first, " Programme aus ");
    push_number(&mut first, entry_count);
    push_text(&mut first, " Einträgen in ");
    push_text(&mut first, seconds);
    push_text(&mut first, " s (");
    push_number(&mut first, entry_count - total);
    push_text(&mut first, " ohne zuordenbares Programm)");
    push_line(&mut lines, first);
    let mut second: Vec<char> = Vec::new();
    push_text(&mut second, "Namens-Cache: ");
    push_number(&mut second, hits);
    push_text(&mut second, " Treffer / ");
    push_number(&mut second, lookups);
    push_text(&mut second, " Auflösungen");
    push_line(&mut lines, second);
    let mut third: Vec<char> = Vec::new();
    push_text(&mut third, "\x1eProgramme vorhanden\x1fpresent\x1d: ");
    push_number(&mut third, present);
    push_text(&mut third, ", \x1enicht mehr da\x1fgone\x1d: ");
    push_number(&mut third, missing);
    push_text(&mut third, ", \x1enicht prüfbar\x1funknown\x1d: ");
    push_number(&mut third, unknown);
    push_line(&mut lines, third);
    push_line(&mut lines, Vec::new());
    let ghost head = texts(lines@);
    let mut g: usize = 0;
    while g < groups.len()
        invariant
            g <= groups.len(),
            texts(lines@) == head + group_blocks(groups@.subrange(0, g as int)),
        decreases groups.len() - g,
    {
        let ghost prefix = groups@.subrange(0, g + 1);
        assert(prefix.drop_last() =~= groups@.subrange(0, g as int));
        push_group(&mut lines, &groups[g]);
        g = g + 1;
    }
    assert(groups@.subrange(0, g as int) =~= groups@);
    assert(texts(lines@) =~= program_lines(groups@, entry_count as nat, seconds@, hits as nat, lookups as nat));
    lines
}

/// The entries of a prefix of the groups are never more than those of all.
pub proof fn lemma_grouped_prefix(groups: Seq<ProgramGroup>, k: int)
    requires
        0 <= k <= groups.len(),
    ensures
        grouped(groups.subrange(0, k)) <= grouped(groups),
    decreases groups.len(),
{
    if k < groups.len() {
        assert(groups.drop_last().subrange(0, k) =~= groups.subrange(0, k));
        lemma_grouped_prefix(groups.drop_last(), k);
    } else {
        assert(groups.subrange(0, k) =~= groups);
    }
}

} // verus!
