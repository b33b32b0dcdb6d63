//! Release notes as something worth reading in a dialog box.

use vstd::prelude::*;

use crate::chars::{chars_of, extend_range, find_from, first_index, string_of, trim_end, trim_end_len, trim_range, trimmed};

verus! {

/// A line without the carriage return of a `\r\n` ending.
pub open spec fn without_cr(line: Seq<char>) -> Seq<char> {
    if line.len() > 0 && line.last() == '\r' {
        line.drop_last()
    } else {
        line
    }
}

/// The lines of a text as `str::lines` gives them: split at `\n`, a `\r`
/// in front of it dropped, and no empty line after a final `\n`.
pub open spec fn text_lines(s: Seq<char>) -> Seq<Seq<char>>
    decreases s.len(),
{
    if s.len() == 0 {
        Seq::empty()
    } else {
        match first_index(s, '\n') {
            None => seq![s],
            Some(at) => {
                proof {
                    crate::chars::lemma_first_index(s, '\n');
                }
                seq![without_cr(s.subrange(0, at))] + text_lines(s.subrange(at + 1, s.len() as int))
            },
        }
    }
}

/// `s` without the `#` and spaces at its start: a Markdown heading's marks.
pub open spec fn unheaded(s: Seq<char>) -> Seq<char>
    decreases s.len(),
{
    if s.len() > 0 && (s[0] == '#' || s[0] == ' ') {
        unheaded(s.drop_first())
    } else {
        s
    }
}

/// One line of release notes as shown: trailing space gone, heading marks
/// gone.
pub open spec fn clean_line(line: Seq<char>) -> Seq<char> {
    unheaded(trim_end(line))
}

/// The lines kept: each cleaned, and an empty line dropped when the line
/// kept before it is empty too.
pub open spec fn kept_lines(lines: Seq<Seq<char>>) -> Seq<Seq<char>>
    decreases lines.len(),
{
    if lines.len() == 0 {
        Seq::empty()
    } else {
        let before = kept_lines(lines.drop_last());
        let line = clean_line(lines.last());
        if line.len() == 0 && before.len() > 0 && before.last().len() == 0 {
            before
        } else {
            before.push(line)
        }
    }
}

/// Lines joined with `\n` between them.
pub open spec fn joined_lines(lines: Seq<Seq<char>>) -> Seq<char>
    decreases lines.len(),
{
    if lines.len() == 0 {
        Seq::empty()
    } else if lines.len() == 1 {
        lines[0]
    } else {
        joined_lines(lines.drop_last()) + seq!['\n'] + lines.last()
    }
}

/// Release notes without Markdown heading marks and without runs of blank
/// lines, trimmed.
pub open spec fn plain_text(notes: Seq<char>) -> Seq<char> {
    trimmed(joined_lines(kept_lines(text_lines(notes))))
}

proof fn lemma_unheaded_at(s: Seq<char>, k: int)
    requires
        0 <= k <= s.len(),
        forall|j: int| 0 <= j < k ==> s[j] == '#' || s[j] == ' ',
        k == s.len() || (s[k] != '#' && s[k] != ' '),
    ensures
        unheaded(s) == s.subrange(k, s.len() as int),
    decreases s.len(),
{
    if k == 0 {
        assert(s.subrange(0, s.len() as int) =~= s);
    } else {
        assert forall|j: int| 0 <= j < k - 1 implies s.drop_first()[j] == '#' || s.drop_first()[j]
            == ' ' by {
            assert(s.drop_first()[j] == s[j + 1]);
        }
        if k < s.len() {
            assert(s.drop_first()[k - 1] == s[k]);
        }
        lemma_unheaded_at(s.drop_first(), k - 1);
        assert(s.drop_first().subrange(k - 1, s.drop_first().len() as int) =~= s.subrange(
            k,
            s.len() as int,
        ));
    }
}

/// One line, cleaned.
fn clean(line: &Vec<char>) -> (result: Vec<char>)
    ensures
        result@ == clean_line(line@),
{
    let b = trim_end_len(line);
    let ghost ended = line@.subrange(0, b as int);
    let mut a: usize = 0;
    while a < b && (line[a] == '#' || line[a] == ' ')
        invariant
            a <= b <= line.len(),
            forall|j: int| 0 <= j < a ==> line@[j] == '#' || line@[j] == ' ',
        decreases b - a,
    {
        a = a + 1;
    }
    proof {
        assert forall|j: int| 0 <= j < a implies ended[j] == '#' || ended[j] == ' ' by {
            assert(ended[j] == line@[j]);
        }
        if a < b {
            assert(ended[a as int] == line@[a as int]);
        }
        lemma_unheaded_at(ended, a as int);
        assert(ended.subrange(a as int, ended.len() as int) =~= line@.subrange(a as int, b as int));
    }
    let mut out: Vec<char> = Vec::new();
    extend_range(&mut out, line, a, b);
    out
}

/// Release notes as something worth reading in a dialog box: the heading
/// marks off, runs of blank lines collapsed to one, the whole trimmed. A
/// `#` inside a line is not a heading and stays.
pub fn plain_notes(notes: &str) -> (result: String)
    ensures
        result@ == plain_text(notes@),
{
    let v = chars_of(notes);
    let ghost all = text_lines(v@);
    let ghost mut done: Seq<Seq<char>> = Seq::empty();
    let mut kept: Vec<Vec<char>> = Vec::new();
    let mut pos: usize = 0;
    assert(v@.subrange(0, v@.len() as int) =~= v@);
    while pos < v.len()
        invariant
            pos <= v.len(),
            all == text_lines(v@),
            all == done + text_lines(v@.subrange(pos as int, v@.len() as int)),
            kept@.map_values(|l: Vec<char>| l@) == kept_lines(done),
        decreases v.len() - pos,
    {
        let ghost rest = v@.subrange(pos as int, v@.len() as int);
        let found = find_from(&v, pos, '\n');
        let (end, next) = match found {
            Some(at) => (at, at + 1),
            None => (v.len(), v.len()),
        };
        let mut raw: Vec<char> = Vec::new();
        extend_range(&mut raw, &v, pos, end);
        let mut line = raw;
        if found.is_some() && line.len() > 0 && line[line.len() - 1] == '\r' {
            line.pop();
        }
        proof {
            match found {
                Some(at) => {
                    assert(rest.subrange(0, at - pos) =~= v@.subrange(pos as int, at as int));
                    assert(rest.subrange(at - pos + 1, rest.len() as int) =~= v@.subrange(
                        at + 1,
                        v@.len() as int,
                    ));
                    assert(line@ == without_cr(v@.subrange(pos as int, at as int)));
                },
                None => {
                    assert(rest =~= v@.subrange(pos as int, v@.len() as int));
                    assert(v@.subrange(v@.len() as int, v@.len() as int) =~= Seq::<char>::empty());
                },
            }
        }
        let ghost line_view = line@;
        assert(text_lines(rest) == seq![line_view] + text_lines(
            v@.subrange(next as int, v@.len() as int),
        ));
        let cleaned = clean(&line);
        let ghost before = kept@.map_values(|l: Vec<char>| l@);
        let drop = cleaned.len() == 0 && kept.len() > 0 && kept[kept.len() - 1].len() == 0;
        if !drop {
            kept.push(cleaned);
            assert(kept@.map_values(|l: Vec<char>| l@) =~= before.push(clean_line(line_view)));
        }
        proof {
            let grown = done.push(line_view);
            assert(grown.drop_last() =~= done);
            assert(all =~= grown + text_lines(v@.subrange(next as int, v@.len() as int)));
            done = grown;
        }
        pos = next;
    }
    assert(v@.subrange(pos as int, v@.len() as int) =~= Seq::<char>::empty());
    assert(done =~= all);
    let ghost lines = kept@.map_values(|l: Vec<char>| l@);
    let mut out: Vec<char> = Vec::new();
    let mut k: usize = 0;
    while k < kept.len()
        invariant
            k <= kept.len(),
            lines == kept@.map_values(|l: Vec<char>| l@),
            out@ == joined_lines(lines.subrange(0, k as int)),
        decreases kept.len() - k,
    {
        let ghost prefix = lines.subrange(0, k + 1);
        assert(prefix.drop_last() =~= lines.subrange(0, k as int));
        assert(prefix.last() == kept@[k as int]@);
        if k > 0 {
            out.push('\n');
        } else {
            assert(lines.subrange(0, 0) =~= Seq::<Seq<char>>::empty());
        }
        let piece = &kept[k];
        extend_range(&mut out, piece, 0, piece.len());
        assert(piece@.subrange(0, piece@.len() as int) =~= piece@);
        if k == 0 {
            assert(out@ =~= joined_lines(prefix));
        } else {
            assert(out@ =~= joined_lines(prefix.drop_last()) + seq!['\n'] + prefix.last());
        }
        k = k + 1;
    }
    assert(lines.subrange(0, k as int) =~= lines);
    let (a, b) = trim_range(&out, 0, out.len());
    assert(out@.subrange(0, out@.len() as int) =~= out@);
    let mut shown: Vec<char> = Vec::new();
    extend_range(&mut shown, &out, a, b);
    string_of(shown.as_slice())
}


/// No two blank lines follow each other in what is kept: a run of them
/// collapses to one.
pub proof fn law_blank_runs_collapse(lines: Seq<Seq<char>>)
    ensures
        forall|i: int|
            0 <= i < kept_lines(lines).len() - 1 ==> !(#[trigger] kept_lines(lines)[i].len() == 0
                && kept_lines(lines)[i + 1].len() == 0),
    decreases lines.len(),
{
    if lines.len() > 0 {
        law_blank_runs_collapse(lines.drop_last());
        let before = kept_lines(lines.drop_last());
        let line = clean_line(lines.last());
        if !(line.len() == 0 && before.len() > 0 && before.last().len() == 0) {
            let after = before.push(line);
            assert forall|i: int| 0 <= i < after.len() - 1 implies !(#[trigger] after[i].len() == 0
                && after[i + 1].len() == 0) by {
                if i < before.len() - 1 {
                    assert(after[i] == before[i]);
                    assert(after[i + 1] == before[i + 1]);
                } else {
                    assert(after[i] == before.last());
                    assert(after[i + 1] == line);
                }
            }
        }
    }
}

} // verus!
