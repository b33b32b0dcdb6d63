//! One language on screen, both languages in the source.
//!
//! Messages are written in German and English at once and marked: `\x1e`
//! opens the German alternative, `\x1f` separates it from the English one,
//! `\x1d` ends the group. Whatever stands outside a group is shared and
//! shown in either language. The cut happens once, where the text reaches a
//! screen or a console.
//!
//! Malformed input is treated as text, never as a boundary: a lone marker,
//! a group without its end, an end that arrives before the separator all
//! keep every word and only lose the stray marker characters.

use std::borrow::Cow;

use vstd::prelude::*;

use crate::chars::{chars_of, extend_range, find_from, first_index, lemma_first_index, string_of};
use crate::settings::Language;


verus! {

/// The error type the layers below report with; opaque here.
#[verifier::external_type_specification]
#[verifier::external_body]
pub struct ExAnyhowError(anyhow::Error);

/// Opens the German alternative.
pub const OPEN: char = '\u{1e}';
/// Separates the German alternative from the English one.
pub const SPLIT: char = '\u{1f}';
/// Closes the group. Everything after it is shared again.
pub const CLOSE: char = '\u{1d}';

/// One of the three marker characters.
pub open spec fn marker(c: char) -> bool {
    c == '\u{1e}' || c == '\u{1f}' || c == '\u{1d}'
}

/// Does `s` carry any marker at all?
pub open spec fn has_marker(s: Seq<char>) -> bool {
    exists|i: int| 0 <= i < s.len() && marker(s[i])
}

/// Where the separator and the end of a group lie, in the text that follows
/// its opener, when the group is complete and simple: a separator, then an
/// end, and no further marker in either half.
pub open spec fn group_bounds(after: Seq<char>) -> Option<(int, int)> {
    match (first_index(after, '\u{1f}'), first_index(after, '\u{1d}')) {
        (Some(split), Some(close)) => if close < split || has_marker(after.subrange(0, split))
            || has_marker(after.subrange(split + 1, close)) {
            None
        } else {
            Some((split, close))
        },
        _ => None,
    }
}

/// The half of a group that belongs to `language`.
pub open spec fn half(after: Seq<char>, split: int, close: int, language: Language) -> Seq<char> {
    match language {
        Language::German => after.subrange(0, split),
        Language::English => after.subrange(split + 1, close),
    }
}

/// Every complete group cut down to one half; an opener without a complete
/// group behind it is dropped and the text behind it read on.
pub open spec fn cut(s: Seq<char>, language: Language) -> Seq<char>
    decreases s.len(),
{
    match first_index(s, '\u{1e}') {
        None => s,
        Some(open) => {
            proof {
                lemma_first_index(s, '\u{1e}');
            }
            let after = s.subrange(open + 1, s.len() as int);
            match group_bounds(after) {
                Some((split, close)) => {
                    proof {
                        lemma_first_index(after, '\u{1d}');
                    }
                    s.subrange(0, open) + half(after, split, close, language) + cut(
                        after.subrange(close + 1, after.len() as int),
                        language,
                    )
                },
                None => s.subrange(0, open) + cut(after, language),
            }
        },
    }
}

/// `s` without any marker character.
pub open spec fn strip(s: Seq<char>) -> Seq<char>
    decreases s.len(),
{
    if s.len() == 0 {
        s
    } else if marker(s.last()) {
        strip(s.drop_last())
    } else {
        strip(s.drop_last()).push(s.last())
    }
}

/// What `pick` shows of `s` in `language`.
pub open spec fn picked(s: Seq<char>, language: Language) -> Seq<char> {
    if has_marker(s) {
        strip(cut(s, language))
    } else {
        s
    }
}

/// One of the three characters this module gives a meaning to.
pub fn is_marker(c: char) -> (result: bool)
    ensures
        result == marker(c),
{
    c == OPEN || c == SPLIT || c == CLOSE
}

/// Does `v[from..to]` hold a marker?
fn range_has_marker(v: &Vec<char>, from: usize, to: usize) -> (result: bool)
    requires
        from <= to <= v.len(),
    ensures
        result == has_marker(v@.subrange(from as int, to as int)),
{
    let ghost part = v@.subrange(from as int, to as int);
    let mut i = from;
    while i < to
        invariant
            from <= i <= to <= v.len(),
            part == v@.subrange(from as int, to as int),
            forall|j: int| from <= j < i ==> !marker(v@[j]),
        decreases to - i,
    {
        if is_marker(v[i]) {
            assert(part[i - from] == v@[i as int]);
            return true;
        }
        i = i + 1;
    }
    assert forall|j: int| 0 <= j < part.len() implies !marker(part[j]) by {
        assert(part[j] == v@[j + from]);
    }
    false
}

/// A text without markers comes through the cut unchanged.
proof fn lemma_cut_plain(s: Seq<char>, language: Language)
    requires
        !has_marker(s),
    ensures
        cut(s, language) == s,
{
    lemma_first_index(s, '\u{1e}');
    if let Some(i) = first_index(s, '\u{1e}') {
        assert(marker(s[i]));
    }
}

/// Removing markers from a text that has none changes nothing.
pub proof fn lemma_strip_plain(s: Seq<char>)
    requires
        !has_marker(s),
    ensures
        strip(s) == s,
    decreases s.len(),
{
    if s.len() > 0 {
        assert(!marker(s[s.len() - 1]));
        assert(!has_marker(s.drop_last())) by {
            if has_marker(s.drop_last()) {
                let i = choose|i: int| 0 <= i < s.drop_last().len() && marker(s.drop_last()[i]);
                assert(s[i] == s.drop_last()[i]);
            }
        }
        lemma_strip_plain(s.drop_last());
        assert(s.drop_last().push(s.last()) =~= s);
    }
}

/// Removing markers distributes over joining two texts.
pub proof fn lemma_strip_add(a: Seq<char>, b: Seq<char>)
    ensures
        strip(a + b) == strip(a) + strip(b),
    decreases b.len(),
{
    if b.len() == 0 {
        assert(a + b =~= a);
        assert(strip(b) =~= Seq::<char>::empty());
        assert(strip(a) + strip(b) =~= strip(a));
    } else {
        assert((a + b).drop_last() =~= a + b.drop_last());
        assert((a + b).last() == b.last());
        lemma_strip_add(a, b.drop_last());
        if !marker(b.last()) {
            assert(strip(a) + strip(b.drop_last()).push(b.last()) =~= (strip(a) + strip(
                b.drop_last(),
            )).push(b.last()));
        }
    }
}

/// No marker survives `strip`.
pub proof fn lemma_strip_clean(s: Seq<char>)
    ensures
        !has_marker(strip(s)),
    decreases s.len(),
{
    if s.len() > 0 {
        lemma_strip_clean(s.drop_last());
        let t = strip(s.drop_last());
        if !marker(s.last()) {
            assert forall|i: int| 0 <= i < t.push(s.last()).len() implies !marker(
                t.push(s.last())[i],
            ) by {
                if i < t.len() {
                    assert(t.push(s.last())[i] == t[i]);
                }
            }
        }
    }
}

/// Reads one group from the text after the opener at `open`: where its
/// separator and its end lie, when the group is complete and simple. A
/// nested or unfinished group is not repaired; it is left to be read as
/// text, and a marker inside either half refuses the group, so foreign text
/// cannot move the boundary.
pub fn group(v: &Vec<char>, open: usize) -> (result: Option<(usize, usize)>)
    requires
        open < v.len(),
    ensures
        match result {
            Some((split, close)) => open < split < close < v.len() && group_bounds(
                v@.subrange(open + 1, v@.len() as int),
            ) == Some((split - open - 1, close - open - 1)),
            None => group_bounds(v@.subrange(open + 1, v@.len() as int)) is None,
        },
{
    let n = v.len();
    let ghost after = v@.subrange(open + 1, n as int);
    let split = find_from(v, open + 1, SPLIT);
    let close = find_from(v, open + 1, CLOSE);
    if let (Some(split), Some(close)) = (split, close) {
        if split < close && !range_has_marker(v, open + 1, split) && !range_has_marker(
            v,
            split + 1,
            close,
        ) {
            assert(after.subrange(0, split - open - 1) =~= v@.subrange(open + 1, split as int));
            assert(after.subrange(split - open, close - open - 1) =~= v@.subrange(
                split + 1,
                close as int,
            ));
            return Some((split, close));
        }
    }
    proof {
        if let (Some(s), Some(c)) = (split, close) {
            if c < s {
            } else {
                assert(after.subrange(0, s - open - 1) =~= v@.subrange(open + 1, s as int));
                assert(after.subrange(s - open, c - open - 1) =~= v@.subrange(s + 1, c as int));
                assert(s != c);
            }
        }
    }
    None
}

/// Cuts every complete group in `v` down to one language.
fn cut_groups(v: &Vec<char>, language: Language) -> (out: Vec<char>)
    ensures
        out@ == cut(v@, language),
{
    let n = v.len();
    let mut out: Vec<char> = Vec::new();
    let mut pos: usize = 0;
    assert(v@.subrange(0, n as int) =~= v@);
    loop
        invariant
            n == v.len(),
            pos <= n,
            out@ + cut(v@.subrange(pos as int, n as int), language) == cut(v@, language),
        decreases n - pos,
    {
        let ghost rest = v@.subrange(pos as int, n as int);
        match find_from(v, pos, OPEN) {
            None => {
                extend_range(&mut out, v, pos, n);
                return out;
            },
            Some(open) => {
                let ghost o = open - pos;
                let ghost after = rest.subrange(o + 1, rest.len() as int);
                assert(after =~= v@.subrange(open + 1, n as int));
                assert(rest.subrange(0, o) =~= v@.subrange(pos as int, open as int));
                extend_range(&mut out, v, pos, open);
                match group(v, open) {
                    Some((split, close)) => {
                        match language {
                            Language::German => extend_range(&mut out, v, open + 1, split),
                            Language::English => extend_range(&mut out, v, split + 1, close),
                        }
                        assert(after.subrange(0, split - open - 1) =~= v@.subrange(
                            open + 1,
                            split as int,
                        ));
                        assert(after.subrange(split - open, close - open - 1) =~= v@.subrange(
                            split + 1,
                            close as int,
                        ));
                        assert(after.subrange(close - open, after.len() as int) =~= v@.subrange(
                            close + 1,
                            n as int,
                        ));
                        pos = close + 1;
                    },
                    None => {
                        pos = open + 1;
                    },
                }
            },
        }
    }
}

/// Drops every marker character from `v`.
fn without_markers(v: &Vec<char>) -> (out: Vec<char>)
    ensures
        out@ == strip(v@),
{
    let mut out: Vec<char> = Vec::new();
    let mut i: usize = 0;
    assert(v@.subrange(0, 0) =~= Seq::<char>::empty());
    while i < v.len()
        invariant
            i <= v.len(),
            out@ == strip(v@.subrange(0, i as int)),
        decreases v.len() - i,
    {
        assert(v@.subrange(0, i + 1).drop_last() =~= v@.subrange(0, i as int));
        if !is_marker(v[i]) {
            out.push(v[i]);
        }
        i = i + 1;
    }
    assert(v@.subrange(0, v.len() as int) =~= v@);
    out
}

/// Cuts every marked group down to one language.
///
/// Text that carries no marker is handed back borrowed and unchanged, which
/// the type shows. Otherwise each complete group is replaced by its half in
/// `language`, text outside groups is kept, and every stray marker that a
/// malformed group left behind is dropped.
pub fn pick(text: &str, language: Language) -> (result: Cow<'_, str>)
    ensures
        result@ == picked(text@, language),
        !has_marker(text@) ==> (result matches Cow::Borrowed(same) && same == text),
        !has_marker(result@),
{
    let v = chars_of(text);
    if !range_has_marker(&v, 0, v.len()) {
        assert(v@.subrange(0, v.len() as int) =~= v@);
        return Cow::Borrowed(text);
    }
    assert(v@.subrange(0, v.len() as int) =~= v@);
    let cut = cut_groups(&v, language);
    let kept = without_markers(&cut);
    proof {
        lemma_strip_clean(cut@);
    }
    Cow::Owned(string_of(kept.as_slice()))
}


/// A complete group is cut to its half in the chosen language, the text in
/// front of it is kept as it is, and the text behind it is read on by the
/// same rule.
///
/// For any `prefix`, `german` and `english` that carry no marker and any
/// `rest`, the message `prefix ⟨german|english⟩ rest` is shown as `prefix`,
/// then the half for `language`, then what `rest` alone would be shown as.
pub proof fn law_group_is_cut(
    prefix: Seq<char>,
    german: Seq<char>,
    english: Seq<char>,
    rest: Seq<char>,
    language: Language,
)
    requires
        !has_marker(prefix),
        !has_marker(german),
        !has_marker(english),
    ensures
        picked(
            prefix + seq!['\u{1e}'] + german + seq!['\u{1f}'] + english + seq!['\u{1d}'] + rest,
            language,
        ) == prefix + (match language {
            Language::German => german,
            Language::English => english,
        }) + picked(rest, language),
{
    let after = german + seq!['\u{1f}'] + english + seq!['\u{1d}'] + rest;
    let whole = prefix + seq!['\u{1e}'] + german + seq!['\u{1f}'] + english + seq!['\u{1d}'] + rest;
    let p = prefix.len() as int;
    let g = german.len() as int;
    let e = english.len() as int;
    assert(whole =~= prefix + seq!['\u{1e}'] + after);
    assert forall|j: int| 0 <= j < p implies whole[j] != '\u{1e}' by {
        assert(whole[j] == prefix[j]);
    }
    crate::chars::lemma_first_index_is(whole, '\u{1e}', p);
    assert(whole.subrange(p + 1, whole.len() as int) =~= after);
    assert(whole.subrange(0, p) =~= prefix);
    assert forall|j: int| 0 <= j < g implies after[j] != '\u{1f}' by {
        assert(after[j] == german[j]);
    }
    crate::chars::lemma_first_index_is(after, '\u{1f}', g);
    assert forall|j: int| 0 <= j < g + 1 + e implies after[j] != '\u{1d}' by {
        if j < g {
            assert(after[j] == german[j]);
        } else if j > g {
            assert(after[j] == english[j - g - 1]);
        }
    }
    crate::chars::lemma_first_index_is(after, '\u{1d}', g + 1 + e);
    assert(after.subrange(0, g) =~= german);
    assert(after.subrange(g + 1, g + 1 + e) =~= english);
    assert(after.subrange(g + 1 + e + 1, after.len() as int) =~= rest);
    let shown_half = match language {
        Language::German => german,
        Language::English => english,
    };
    assert(cut(whole, language) == prefix + shown_half + cut(rest, language));
    assert(marker(whole[p]));
    lemma_strip_add(prefix + shown_half, cut(rest, language));
    assert(!has_marker(prefix + shown_half)) by {
        if has_marker(prefix + shown_half) {
            let i = choose|i: int| 0 <= i < (prefix + shown_half).len() && marker((prefix + shown_half)[i]);
            if i < p {
                assert((prefix + shown_half)[i] == prefix[i]);
            } else {
                assert((prefix + shown_half)[i] == shown_half[i - p]);
            }
        }
    }
    lemma_strip_plain(prefix + shown_half);
    if !has_marker(rest) {
        lemma_cut_plain(rest, language);
        lemma_strip_plain(rest);
    }
}

/// `s` padded with spaces on the right to `width` characters; never cut.
pub open spec fn padded(s: Seq<char>, width: nat) -> Seq<char> {
    if s.len() >= width {
        s
    } else {
        s + Seq::new((width - s.len()) as nat, |i: int| ' ')
    }
}

/// One cell of a table: cut to one language first, padded to `width` after.
///
/// The order matters: padding a marked text counts the markers and the
/// discarded half, so the column would come out short. A text wider than its
/// column keeps every character.
pub fn column(text: &str, width: usize, language: Language) -> (result: String)
    ensures
        result@ == padded(picked(text@, language), width as nat),
{
    let shown = pick(text, language);
    let mut out = match &shown {
        Cow::Borrowed(same) => chars_of(same),
        Cow::Owned(owned) => chars_of(owned.as_str()),
    };
    let ghost start = out@;
    let count = out.len();
    if count < width {
        let mut i = count;
        while i < width
            invariant
                count <= i <= width,
                count == start.len(),
                out@ == start + Seq::new((i - count) as nat, |j: int| ' '),
            decreases width - i,
        {
            out.push(' ');
            assert(start + Seq::new((i + 1 - count) as nat, |j: int| ' ') =~= (start + Seq::new(
                (i - count) as nat,
                |j: int| ' ',
            )).push(' '));
            i = i + 1;
        }
    }
    string_of(out.as_slice())
}

/// The value the process language is kept as before anybody has chosen one.
pub const UNSET: u8 = 0;
/// The value the process language is kept as while German is shown.
pub const GERMAN: u8 = 1;
/// The value the process language is kept as while English is shown.
pub const ENGLISH: u8 = 2;

/// The language a stored value stands for.
pub open spec fn language_of(stored: u8) -> Option<Language> {
    if stored == 1 {
        Some(Language::German)
    } else if stored == 2 {
        Some(Language::English)
    } else {
        None
    }
}

/// The language this process shows text in, read from the value it keeps.
///
/// `None` means nobody has said yet; the caller then falls back to the saved
/// setting.
pub fn language(stored: u8) -> (result: Option<Language>)
    ensures
        result == language_of(stored),
{
    match stored {
        GERMAN => Some(Language::German),
        ENGLISH => Some(Language::English),
        _ => None,
    }
}

/// The value to keep so that `language` reads `chosen` back.
pub fn set_language(chosen: Language) -> (stored: u8)
    ensures
        language_of(stored) == Some(chosen),
        stored != UNSET,
{
    match chosen {
        Language::German => GERMAN,
        Language::English => ENGLISH,
    }
}

/// A language set is the language read back, whatever was set before.
pub proof fn law_set_then_read(chosen: Language)
    ensures
        language_of(
            match chosen {
                Language::German => 1u8,
                Language::English => 2u8,
            },
        ) == Some(chosen),
{
}

/// Only a language somebody chose is read back: `GERMAN` and `ENGLISH`
/// stand for their languages, and every other value, `UNSET` first among
/// them, stands for none. While nothing is chosen, a message is shown in the
/// saved language, whichever that is.
pub proof fn law_unset_falls_back_to_the_saved_language(
    stored: u8,
    text: Seq<char>,
    saved: Language,
)
    ensures
        language_of(GERMAN) == Some(Language::German),
        language_of(ENGLISH) == Some(Language::English),
        language_of(stored) is Some <==> (stored == GERMAN || stored == ENGLISH),
        language_of(UNSET) is None,
        picked(
            text,
            match language_of(UNSET) {
                Some(current) => current,
                None => saved,
            },
        ) == picked(text, saved),
{
}

/// The same cut, in whatever language this process is showing: the one
/// kept in `stored`, or `saved` when none has been set.
pub fn shown(text: &str, stored: u8, saved: Language) -> (result: Cow<'_, str>)
    ensures
        result@ == picked(
            text@,
            match language_of(stored) {
                Some(current) => current,
                None => saved,
            },
        ),
{
    let current = match language(stored) {
        Some(current) => current,
        None => saved,
    };
    pick(text, current)
}

/// The whole chain of an error as one line.
///
/// Trusted: formats `anyhow::Error` with its alternate `Display`, every
/// level of the chain joined with `": "`. Nothing is stated of the text: a
/// level that comes from the system speaks the system's language, so the
/// same error can read differently on another machine.
#[verifier::external_body]
pub(crate) fn chain_line(error: &anyhow::Error) -> (result: String)
{
    format!("{error:#}")
}

/// The whole chain of an error, in one language: the line it formats to,
/// cut to the half for `language`.
pub fn error(failure: &anyhow::Error, language: Language) -> (result: String)
    ensures
        exists|line: Seq<char>| result@ == #[trigger] picked(line, language),
        !has_marker(result@),
{
    let line = chain_line(failure);
    error_line(line.as_str(), language)
}

/// An error line in one language: every bilingual group cut to its half.
pub fn error_line(line: &str, language: Language) -> (result: String)
    ensures
        result@ == picked(line@, language),
        !has_marker(result@),
{
    let shown = pick(line, language);
    match shown {
        Cow::Borrowed(same) => string_of(chars_of(same).as_slice()),
        Cow::Owned(owned) => owned,
    }
}


/// `small` sits inside `big[lo..hi]` in order: `f` names, for each of its
/// characters, the position in `big` it came from, and the positions rise.
pub open spec fn placed(
    small: Seq<char>,
    big: Seq<char>,
    lo: int,
    hi: int,
    f: spec_fn(int) -> int,
) -> bool {
    &&& 0 <= lo <= hi <= big.len()
    &&& forall|i: int| 0 <= i < small.len() ==> lo <= #[trigger] f(i) < hi && small[i] == big[f(i)]
    &&& forall|i: int, j: int| 0 <= i < j < small.len() ==> #[trigger] f(i) < #[trigger] f(j)
}

/// A piece of `big` sits inside it where it was taken from.
proof fn lemma_placed_piece(big: Seq<char>, lo: int, hi: int) -> (f: spec_fn(int) -> int)
    requires
        0 <= lo <= hi <= big.len(),
    ensures
        placed(big.subrange(lo, hi), big, lo, hi, f),
{
    |i: int| i + lo
}

/// Two texts placed one after the other sit inside `big` together.
proof fn lemma_placed_join(
    a: Seq<char>,
    b: Seq<char>,
    big: Seq<char>,
    lo: int,
    mid: int,
    hi: int,
    fa: spec_fn(int) -> int,
    fb: spec_fn(int) -> int,
) -> (f: spec_fn(int) -> int)
    requires
        placed(a, big, lo, mid, fa),
        placed(b, big, mid, hi, fb),
    ensures
        placed(a + b, big, lo, hi, f),
{
    let f = |i: int| if i < a.len() {
        fa(i)
    } else {
        fb(i - a.len())
    };
    assert forall|i: int| 0 <= i < (a + b).len() implies lo <= #[trigger] f(i) < hi && (a + b)[i]
        == big[f(i)] by {
        if i < a.len() {
            assert(lo <= fa(i) < mid);
        } else {
            assert(mid <= fb(i - a.len()) < hi);
        }
    }
    assert forall|i: int, j: int| 0 <= i < j < (a + b).len() implies #[trigger] f(i) < #[trigger] f(
        j,
    ) by {
        if j < a.len() {
            assert(fa(i) < fa(j));
        } else if i < a.len() {
            assert(fa(i) < mid);
            assert(mid <= fb(j - a.len()));
        } else {
            assert(fb(i - a.len()) < fb(j - a.len()));
        }
    }
    f
}

/// What sits inside a piece of `big` sits inside `big`, shifted to where the
/// piece starts.
proof fn lemma_placed_shift(
    small: Seq<char>,
    big: Seq<char>,
    start: int,
    end: int,
    lo: int,
    hi: int,
    f: spec_fn(int) -> int,
) -> (g: spec_fn(int) -> int)
    requires
        0 <= start <= end <= big.len(),
        placed(small, big.subrange(start, end), lo, hi, f),
    ensures
        placed(small, big, start + lo, start + hi, g),
{
    let g = |i: int| f(i) + start;
    assert forall|i: int| 0 <= i < small.len() implies start + lo <= #[trigger] g(i) < start + hi
        && small[i] == big[g(i)] by {
        assert(lo <= f(i) < hi);
        assert(small[i] == big.subrange(start, end)[f(i)]);
    }
    assert forall|i: int, j: int| 0 <= i < j < small.len() implies #[trigger] g(i) < #[trigger] g(
        j,
    ) by {
        assert(f(i) < f(j));
    }
    g
}

/// A placement inside a range is one inside any wider range.
proof fn lemma_placed_widen(
    small: Seq<char>,
    big: Seq<char>,
    lo: int,
    hi: int,
    wider_lo: int,
    wider_hi: int,
    f: spec_fn(int) -> int,
)
    requires
        placed(small, big, lo, hi, f),
        0 <= wider_lo <= lo,
        hi <= wider_hi <= big.len(),
    ensures
        placed(small, big, wider_lo, wider_hi, f),
{
    assert forall|i: int| 0 <= i < small.len() implies wider_lo <= #[trigger] f(i) < wider_hi
        && small[i] == big[f(i)] by {
        assert(lo <= f(i) < hi);
    }
}

/// Dropping the markers keeps every other character, in order.
proof fn lemma_strip_placed(s: Seq<char>) -> (f: spec_fn(int) -> int)
    ensures
        placed(strip(s), s, 0, s.len() as int, f),
    decreases s.len(),
{
    if s.len() == 0 {
        |i: int| 0
    } else {
        let front = s.drop_last();
        let g = lemma_strip_placed(front);
        assert(front =~= s.subrange(0, s.len() - 1));
        let h = lemma_placed_shift(strip(front), s, 0, s.len() - 1, 0, s.len() - 1, g);
        if marker(s.last()) {
            lemma_placed_widen(strip(front), s, 0, s.len() - 1, 0, s.len() as int, h);
            h
        } else {
            let last = lemma_placed_piece(s, s.len() - 1, s.len() as int);
            assert(s.subrange(s.len() - 1, s.len() as int) =~= seq![s.last()]);
            let f = lemma_placed_join(strip(front), seq![s.last()], s, 0, s.len() - 1, s.len() as int, h, last);
            assert(strip(front) + seq![s.last()] =~= strip(front).push(s.last()));
            f
        }
    }
}

/// Cutting groups keeps characters of the text, in order, and adds none.
proof fn lemma_cut_placed(s: Seq<char>, language: Language) -> (f: spec_fn(int) -> int)
    ensures
        placed(cut(s, language), s, 0, s.len() as int, f),
    decreases s.len(),
{
    match first_index(s, '\u{1e}') {
        None => lemma_placed_piece(s, 0, s.len() as int),
        Some(open) => {
            lemma_first_index(s, '\u{1e}');
            assert(s.subrange(0, s.len() as int) =~= s);
            let after = s.subrange(open + 1, s.len() as int);
            let front = lemma_placed_piece(s, 0, open);
            match group_bounds(after) {
                Some((split, close)) => {
                    lemma_first_index(after, '\u{1d}');
                    lemma_first_index(after, '\u{1f}');
                    let rest = after.subrange(close + 1, after.len() as int);
                    let (a, b) = match language {
                        Language::German => (0int, split),
                        Language::English => (split + 1, close),
                    };
                    assert(half(after, split, close, language) =~= after.subrange(a, b));
                    let in_after = lemma_placed_piece(after, a, b);
                    let mid = lemma_placed_shift(
                        half(after, split, close, language),
                        s,
                        open + 1,
                        s.len() as int,
                        a,
                        b,
                        in_after,
                    );
                    lemma_placed_widen(
                        half(after, split, close, language),
                        s,
                        open + 1 + a,
                        open + 1 + b,
                        open,
                        open + 1 + close + 1,
                        mid,
                    );
                    let inner = lemma_cut_placed(rest, language);
                    assert(rest =~= s.subrange(open + 1 + close + 1, s.len() as int));
                    let tail = lemma_placed_shift(
                        cut(rest, language),
                        s,
                        open + 1 + close + 1,
                        s.len() as int,
                        0,
                        rest.len() as int,
                        inner,
                    );
                    let head = lemma_placed_join(
                        s.subrange(0, open),
                        half(after, split, close, language),
                        s,
                        0,
                        open,
                        open + 1 + close + 1,
                        front,
                        mid,
                    );
                    lemma_placed_join(
                        s.subrange(0, open) + half(after, split, close, language),
                        cut(rest, language),
                        s,
                        0,
                        open + 1 + close + 1,
                        s.len() as int,
                        head,
                        tail,
                    )
                },
                None => {
                    let inner = lemma_cut_placed(after, language);
                    let tail = lemma_placed_shift(
                        cut(after, language),
                        s,
                        open + 1,
                        s.len() as int,
                        0,
                        after.len() as int,
                        inner,
                    );
                    lemma_placed_widen(cut(after, language), s, open + 1, s.len() as int, open, s.len() as int, tail);
                    lemma_placed_join(
                        s.subrange(0, open),
                        cut(after, language),
                        s,
                        0,
                        open,
                        s.len() as int,
                        front,
                        tail,
                    )
                },
            }
        },
    }
}

/// Cutting to one language only ever removes: every character of what is
/// shown comes from the text, in the order it stood there, so no word is
/// ever invented.
pub proof fn law_cutting_only_removes(text: Seq<char>, language: Language)
    ensures
        exists|f: spec_fn(int) -> int| placed(picked(text, language), text, 0, text.len() as int, f),
{
    if has_marker(text) {
        let c = cut(text, language);
        let f = lemma_cut_placed(text, language);
        let g = lemma_strip_placed(c);
        let h = |i: int| f(g(i));
        let shown = strip(c);
        assert forall|i: int| 0 <= i < shown.len() implies 0 <= #[trigger] h(i) < text.len()
            && shown[i] == text[h(i)] by {
            assert(0 <= g(i) < c.len());
            assert(shown[i] == c[g(i)]);
        }
        assert forall|i: int, j: int| 0 <= i < j < shown.len() implies #[trigger] h(i) < #[trigger] h(
            j,
        ) by {
            assert(g(i) < g(j));
            assert(0 <= g(j) < c.len());
        }
        assert(placed(picked(text, language), text, 0, text.len() as int, h));
    } else {
        let f = lemma_placed_piece(text, 0, text.len() as int);
        assert(text.subrange(0, text.len() as int) =~= text);
        assert(placed(picked(text, language), text, 0, text.len() as int, f));
    }
}

} // verus!
