//! Text as a sequence of characters.
//!
//! Everything that cuts, pads or searches text works on `Vec<char>`, whose
//! view is the same `Seq<char>` a `&str` has. The two conversions at the
//! edges are the only place a string's encoding is involved.

use vstd::prelude::*;

verus! {

/// The characters of `text`, in order.
///
/// Trusted: calls `str::chars` and collects the iterator. The standard
/// library documents `chars` as yielding every `char` of the string in
/// order, which is exactly the view of a `&str`.
#[verifier::external_body]
pub(crate) fn chars_of(text: &str) -> (result: Vec<char>)
    ensures
        result@ == text@,
{
    text.chars().collect()
}

/// The string made of `chars`, in order.
///
/// Trusted: collects the characters into a `String` through
/// `FromIterator<&char>`, which the standard library documents as appending
/// each character in turn.
#[verifier::external_body]
pub(crate) fn string_of(chars: &[char]) -> (result: String)
    ensures
        result@ == chars@,
{
    chars.iter().collect()
}

/// The text an optional string holds, if it holds one.
pub open spec fn opt_view(text: Option<String>) -> Option<Seq<char>> {
    match text {
        Some(t) => Some(t@),
        None => None,
    }
}

/// Strings as the text they hold.
pub open spec fn texts(strings: Seq<String>) -> Seq<Seq<char>> {
    strings.map_values(|s: String| s@)
}

/// A copy of an optional string.
pub fn copy_opt(text: &Option<String>) -> (result: Option<String>)
    ensures
        opt_view(result) == opt_view(*text),
{
    match text {
        Some(t) => Some(t.clone()),
        None => None,
    }
}

/// `v[from..to]` without whitespace at either end, as a string.
pub fn trimmed_string(v: &Vec<char>, from: usize, to: usize) -> (result: String)
    requires
        from <= to <= v.len(),
    ensures
        result@ == trimmed(v@.subrange(from as int, to as int)),
{
    let (a, b) = trim_range(v, from, to);
    let mut out: Vec<char> = Vec::new();
    extend_range(&mut out, v, a, b);
    string_of(out.as_slice())
}

/// Appends `source[from..to]` to `out`.
pub fn extend_range(out: &mut Vec<char>, source: &Vec<char>, from: usize, to: usize)
    requires
        from <= to <= source.len(),
    ensures
        final(out)@ == old(out)@ + source@.subrange(from as int, to as int),
{
    let mut i = from;
    while i < to
        invariant
            from <= i <= to <= source.len(),
            out@ == old(out)@ + source@.subrange(from as int, i as int),
        decreases to - i,
    {
        out.push(source[i]);
        proof {
            assert(source@.subrange(from as int, i + 1) =~= source@.subrange(from as int, i as int).push(source@[i as int]));
        }
        i = i + 1;
    }
}

/// The first position of `c`, or `None`.
pub open spec fn first_index(s: Seq<char>, c: char) -> Option<int>
    decreases s.len(),
{
    if s.len() == 0 {
        None
    } else if s[0] == c {
        Some(0)
    } else {
        match first_index(s.drop_first(), c) {
            Some(i) => Some(i + 1),
            None => None,
        }
    }
}

/// What `first_index` promises: the position holds `c`, and nothing before it does.
pub proof fn lemma_first_index(s: Seq<char>, c: char)
    ensures
        match first_index(s, c) {
            Some(i) => 0 <= i < s.len() && s[i] == c && forall|j: int| 0 <= j < i ==> s[j] != c,
            None => forall|j: int| 0 <= j < s.len() ==> s[j] != c,
        },
    decreases s.len(),
{
    if s.len() > 0 && s[0] != c {
        lemma_first_index(s.drop_first(), c);
        match first_index(s.drop_first(), c) {
            Some(i) => {
                assert forall|j: int| 0 <= j < i + 1 implies s[j] != c by {
                    if j > 0 {
                        assert(s[j] == s.drop_first()[j - 1]);
                    }
                }
            },
            None => {
                assert forall|j: int| 0 <= j < s.len() implies s[j] != c by {
                    if j > 0 {
                        assert(s[j] == s.drop_first()[j - 1]);
                    }
                }
            },
        }
    }
}

/// The converse of `lemma_first_index`: a position that holds `c` with
/// nothing before it is the first one.
pub proof fn lemma_first_index_is(s: Seq<char>, c: char, i: int)
    requires
        0 <= i < s.len(),
        s[i] == c,
        forall|j: int| 0 <= j < i ==> s[j] != c,
    ensures
        first_index(s, c) == Some(i),
    decreases s.len(),
{
    if i > 0 {
        assert forall|j: int| 0 <= j < i - 1 implies s.drop_first()[j] != c by {
            assert(s.drop_first()[j] == s[j + 1]);
        }
        lemma_first_index_is(s.drop_first(), c, i - 1);
    }
}

/// When `c` does not occur, there is no first position.
pub proof fn lemma_first_index_none(s: Seq<char>, c: char)
    requires
        forall|j: int| 0 <= j < s.len() ==> s[j] != c,
    ensures
        first_index(s, c) is None,
{
    lemma_first_index(s, c);
}

/// The first `c` in `v[from..]`, as a position in `v`.
pub fn find_from(v: &Vec<char>, from: usize, c: char) -> (result: Option<usize>)
    requires
        from <= v.len(),
    ensures
        match result {
            Some(i) => from <= i < v.len() && v@[i as int] == c && first_index(
                v@.subrange(from as int, v.len() as int),
                c,
            ) == Some(i - from),
            None => first_index(v@.subrange(from as int, v.len() as int), c) is None,
        },
{
    let ghost rest = v@.subrange(from as int, v.len() as int);
    let mut i = from;
    while i < v.len()
        invariant
            from <= i <= v.len(),
            rest == v@.subrange(from as int, v.len() as int),
            forall|j: int| from <= j < i ==> v@[j] != c,
        decreases v.len() - i,
    {
        if v[i] == c {
            proof {
                assert forall|j: int| 0 <= j < i - from implies rest[j] != c by {
                    assert(rest[j] == v@[j + from]);
                }
                lemma_first_index_is(rest, c, i - from);
            }
            return Some(i);
        }
        i = i + 1;
    }
    proof {
        assert forall|j: int| 0 <= j < rest.len() implies rest[j] != c by {
            assert(rest[j] == v@[j + from]);
        }
        lemma_first_index_none(rest, c);
    }
    None
}


/// Are the two texts the same characters?
pub fn same_chars(a: &Vec<char>, b: &Vec<char>) -> (result: bool)
    ensures
        result == (a@ == b@),
{
    if a.len() != b.len() {
        return false;
    }
    let mut i: usize = 0;
    while i < a.len()
        invariant
            a.len() == b.len(),
            i <= a.len(),
            forall|j: int| 0 <= j < i ==> a@[j] == b@[j],
        decreases a.len() - i,
    {
        if a[i] != b[i] {
            return false;
        }
        i = i + 1;
    }
    assert(a@ =~= b@);
    true
}

/// Are the two strings the same text?
pub fn text_eq(a: &str, b: &str) -> (result: bool)
    ensures
        result == (a@ == b@),
{
    same_chars(&chars_of(a), &chars_of(b))
}

/// Is `v` exactly the word `word`?
pub fn is_word(v: &Vec<char>, word: &str) -> (result: bool)
    ensures
        result == (v@ == word@),
{
    same_chars(v, &chars_of(word))
}

/// `c` with an ASCII capital turned into its small letter; anything else unchanged.
pub open spec fn ascii_lower(c: char) -> char {
    if 'A' <= c <= 'Z' {
        ((c as u32) + 32) as char
    } else {
        c
    }
}

/// Every character of `s` through `ascii_lower`.
pub open spec fn ascii_lowered(s: Seq<char>) -> Seq<char> {
    Seq::new(s.len(), |i: int| ascii_lower(s[i]))
}

/// One character through `ascii_lower`.
pub fn ascii_lower_char(c: char) -> (result: char)
    ensures
        result == ascii_lower(c),
{
    match c {
        'A' => 'a', 'B' => 'b', 'C' => 'c', 'D' => 'd', 'E' => 'e', 'F' => 'f', 'G' => 'g',
        'H' => 'h', 'I' => 'i', 'J' => 'j', 'K' => 'k', 'L' => 'l', 'M' => 'm', 'N' => 'n',
        'O' => 'o', 'P' => 'p', 'Q' => 'q', 'R' => 'r', 'S' => 's', 'T' => 't', 'U' => 'u',
        'V' => 'v', 'W' => 'w', 'X' => 'x', 'Y' => 'y', 'Z' => 'z',
        _ => c,
    }
}

/// The characters of `text`, ASCII capitals made small; what
/// `str::to_ascii_lowercase` does.
pub fn ascii_lowercase(text: &str) -> (result: Vec<char>)
    ensures
        result@ == ascii_lowered(text@),
{
    let v = chars_of(text);
    let mut out: Vec<char> = Vec::new();
    let mut i: usize = 0;
    while i < v.len()
        invariant
            i <= v.len(),
            v@ == text@,
            out@ == Seq::new(i as nat, |j: int| ascii_lower(v@[j])),
        decreases v.len() - i,
    {
        out.push(ascii_lower_char(v[i]));
        assert(out@ =~= Seq::new((i + 1) as nat, |j: int| ascii_lower(v@[j])));
        i = i + 1;
    }
    assert(out@ =~= ascii_lowered(text@));
    out
}

/// What `str::to_lowercase` makes of a text: the full Unicode lowercase
/// mapping, which depends on the text alone.
pub uninterp spec fn lowercase_of(s: Seq<char>) -> Seq<char>;

/// `text` in lower case.
///
/// Trusted: calls `str::to_lowercase`, whose result is fixed by the Unicode
/// tables compiled into the standard library; only the name states it.
#[verifier::external_body]
pub(crate) fn lowercase(text: &str) -> (result: Vec<char>)
    ensures
        result@ == lowercase_of(text@),
{
    text.to_lowercase().chars().collect()
}

/// What `str::to_uppercase` makes of a text: the full Unicode uppercase
/// mapping, which depends on the text alone.
pub uninterp spec fn uppercase_of(s: Seq<char>) -> Seq<char>;

/// `text` in upper case.
///
/// Trusted: calls `str::to_uppercase`, whose result is fixed by the Unicode
/// tables compiled into the standard library; only the name states it.
#[verifier::external_body]
pub(crate) fn uppercase(text: &str) -> (result: Vec<char>)
    ensures
        result@ == uppercase_of(text@),
{
    text.to_uppercase().chars().collect()
}

/// `needle` occurs in `hay` at position `at`.
pub open spec fn occurs_at(hay: Seq<char>, needle: Seq<char>, at: int) -> bool {
    0 <= at && at + needle.len() <= hay.len() && hay.subrange(at, at + needle.len()) == needle
}

/// `needle` occurs somewhere in `hay`; the empty needle occurs everywhere.
pub open spec fn occurs(hay: Seq<char>, needle: Seq<char>) -> bool {
    exists|at: int| occurs_at(hay, needle, at)
}

/// Does `needle` occur in `hay`?
pub fn contains_chars(hay: &Vec<char>, needle: &Vec<char>) -> (result: bool)
    ensures
        result == occurs(hay@, needle@),
{
    if needle.len() > hay.len() {
        return false;
    }
    let last = hay.len() - needle.len();
    let mut at: usize = 0;
    while at <= last
        invariant
            last == hay.len() - needle.len(),
            at <= last + 1,
            forall|k: int| 0 <= k < at ==> !occurs_at(hay@, needle@, k),
        decreases last + 1 - at,
    {
        let mut j: usize = 0;
        while j < needle.len() && hay[at + j] == needle[j]
            invariant
                at <= last,
                last == hay.len() - needle.len(),
                j <= needle.len(),
                forall|k: int| 0 <= k < j ==> hay@[at + k] == needle@[k],
            decreases needle.len() - j,
        {
            j = j + 1;
        }
        if j == needle.len() {
            assert(hay@.subrange(at as int, at + needle.len()) =~= needle@);
            assert(occurs_at(hay@, needle@, at as int));
            return true;
        }
        assert(!occurs_at(hay@, needle@, at as int)) by {
            if occurs_at(hay@, needle@, at as int) {
                assert(hay@.subrange(at as int, at + needle.len())[j as int] == needle@[j as int]);
            }
        }
        at = at + 1;
    }
    assert forall|k: int| !occurs_at(hay@, needle@, k) by {
        if 0 <= k && k + needle.len() <= hay.len() {
            assert(k < at);
        }
    }
    false
}


/// A character `char::is_whitespace` accepts: the Unicode `White_Space` property.
pub open spec fn space(c: char) -> bool {
    ('\u{9}' <= c <= '\u{d}') || c == ' ' || c == '\u{85}' || c == '\u{a0}' || c == '\u{1680}'
        || ('\u{2000}' <= c <= '\u{200a}') || c == '\u{2028}' || c == '\u{2029}' || c
        == '\u{202f}' || c == '\u{205f}' || c == '\u{3000}'
}

/// `space`, for running code.
pub fn is_space(c: char) -> (result: bool)
    ensures
        result == space(c),
{
    ('\u{9}' <= c && c <= '\u{d}') || c == ' ' || c == '\u{85}' || c == '\u{a0}' || c == '\u{1680}'
        || ('\u{2000}' <= c && c <= '\u{200a}') || c == '\u{2028}' || c == '\u{2029}' || c
        == '\u{202f}' || c == '\u{205f}' || c == '\u{3000}'
}

/// `s` without the whitespace at its start.
pub open spec fn trim_start(s: Seq<char>) -> Seq<char>
    decreases s.len(),
{
    if s.len() > 0 && space(s[0]) {
        trim_start(s.drop_first())
    } else {
        s
    }
}

/// `s` without the whitespace at its end.
pub open spec fn trim_end(s: Seq<char>) -> Seq<char>
    decreases s.len(),
{
    if s.len() > 0 && space(s.last()) {
        trim_end(s.drop_last())
    } else {
        s
    }
}

/// `s` without whitespace at either end: what `str::trim` gives.
pub open spec fn trimmed(s: Seq<char>) -> Seq<char> {
    trim_end(trim_start(s))
}

pub(crate) proof fn lemma_trim_start_at(s: Seq<char>, k: int)
    requires
        0 <= k <= s.len(),
        forall|j: int| 0 <= j < k ==> space(s[j]),
        k == s.len() || !space(s[k]),
    ensures
        trim_start(s) == s.subrange(k, s.len() as int),
    decreases s.len(),
{
    if k == 0 {
        assert(s.subrange(0, s.len() as int) =~= s);
    } else {
        assert forall|j: int| 0 <= j < k - 1 implies space(s.drop_first()[j]) by {
            assert(s.drop_first()[j] == s[j + 1]);
        }
        if k < s.len() {
            assert(s.drop_first()[k - 1] == s[k]);
        }
        lemma_trim_start_at(s.drop_first(), k - 1);
        assert(s.drop_first().subrange(k - 1, s.drop_first().len() as int) =~= s.subrange(
            k,
            s.len() as int,
        ));
    }
}

proof fn lemma_trim_end_at(s: Seq<char>, k: int)
    requires
        0 <= k <= s.len(),
        forall|j: int| k <= j < s.len() ==> space(s[j]),
        k == 0 || !space(s[k - 1]),
    ensures
        trim_end(s) == s.subrange(0, k),
    decreases s.len(),
{
    if k == s.len() {
        assert(s.subrange(0, s.len() as int) =~= s);
    } else {
        assert forall|j: int| k <= j < s.drop_last().len() implies space(s.drop_last()[j]) by {
            assert(s.drop_last()[j] == s[j]);
        }
        if k > 0 {
            assert(s.drop_last()[k - 1] == s[k - 1]);
        }
        lemma_trim_end_at(s.drop_last(), k);
        assert(s.drop_last().subrange(0, k) =~= s.subrange(0, k));
    }
}

/// `v[from..to]` without whitespace at either end, as a new range.
pub fn trim_range(v: &Vec<char>, from: usize, to: usize) -> (result: (usize, usize))
    requires
        from <= to <= v.len(),
    ensures
        from <= result.0 <= result.1 <= to,
        v@.subrange(result.0 as int, result.1 as int) == trimmed(
            v@.subrange(from as int, to as int),
        ),
{
    let ghost part = v@.subrange(from as int, to as int);
    let mut a = from;
    while a < to && is_space(v[a])
        invariant
            from <= a <= to <= v.len(),
            forall|j: int| from <= j < a ==> space(v@[j]),
        decreases to - a,
    {
        a = a + 1;
    }
    proof {
        assert forall|j: int| 0 <= j < a - from implies space(part[j]) by {
            assert(part[j] == v@[j + from]);
        }
        if a < to {
            assert(part[a - from] == v@[a as int]);
        }
        lemma_trim_start_at(part, a - from);
        assert(part.subrange(a - from, part.len() as int) =~= v@.subrange(a as int, to as int));
    }
    let ghost started = v@.subrange(a as int, to as int);
    let mut b = to;
    while b > a && is_space(v[b - 1])
        invariant
            a <= b <= to <= v.len(),
            forall|j: int| b <= j < to ==> space(v@[j]),
        decreases b - a,
    {
        b = b - 1;
    }
    proof {
        assert forall|j: int| b - a <= j < started.len() implies space(started[j]) by {
            assert(started[j] == v@[j + a]);
        }
        if b > a {
            assert(started[b - a - 1] == v@[b - 1]);
        }
        lemma_trim_end_at(started, b - a);
        assert(started.subrange(0, b - a) =~= v@.subrange(a as int, b as int));
    }
    (a, b)
}

/// `s` without whitespace at either end, as characters.
pub fn trim(text: &str) -> (result: Vec<char>)
    ensures
        result@ == trimmed(text@),
{
    let v = chars_of(text);
    let (a, b) = trim_range(&v, 0, v.len());
    assert(v@.subrange(0, v.len() as int) =~= v@);
    let mut out = Vec::new();
    extend_range(&mut out, &v, a, b);
    out
}

/// The decimal digit for `d`.
pub open spec fn digit_char(d: int) -> char {
    if d == 0 { '0' } else if d == 1 { '1' } else if d == 2 { '2' } else if d == 3 { '3' }
    else if d == 4 { '4' } else if d == 5 { '5' } else if d == 6 { '6' } else if d == 7 { '7' }
    else if d == 8 { '8' } else { '9' }
}

/// The value of a decimal digit character, or `None`.
pub open spec fn digit_value(c: char) -> Option<int> {
    if c == '0' { Some(0) } else if c == '1' { Some(1) } else if c == '2' { Some(2) }
    else if c == '3' { Some(3) } else if c == '4' { Some(4) } else if c == '5' { Some(5) }
    else if c == '6' { Some(6) } else if c == '7' { Some(7) } else if c == '8' { Some(8) }
    else if c == '9' { Some(9) } else { None }
}

/// `n` written in decimal, without sign or leading zeros.
pub open spec fn decimal(n: nat) -> Seq<char>
    decreases n,
{
    if n < 10 {
        seq![digit_char(n as int)]
    } else {
        decimal(n / 10).push(digit_char((n % 10) as int))
    }
}

fn digit(d: usize) -> (result: char)
    requires
        d < 10,
    ensures
        result == digit_char(d as int),
{
    match d {
        0 => '0', 1 => '1', 2 => '2', 3 => '3', 4 => '4', 5 => '5', 6 => '6', 7 => '7', 8 => '8',
        _ => '9',
    }
}

/// `n` in decimal, as `to_string` writes it.
pub fn decimal_chars(n: usize) -> (result: Vec<char>)
    ensures
        result@ == decimal(n as nat),
    decreases n,
{
    if n < 10 {
        let mut out = Vec::new();
        out.push(digit(n));
        assert(out@ =~= seq![digit_char(n as int)]);
        out
    } else {
        let mut out = decimal_chars(n / 10);
        out.push(digit(n % 10));
        out
    }
}

/// The value of `s` read as decimal digits; `None` when `s` is empty or
/// holds anything but digits.
pub open spec fn digits_value(s: Seq<char>) -> Option<int>
    decreases s.len(),
{
    if s.len() == 0 {
        None
    } else {
        match digit_value(s.last()) {
            None => None,
            Some(d) => if s.len() == 1 {
                Some(d)
            } else {
                match digits_value(s.drop_last()) {
                    Some(v) => Some(v * 10 + d),
                    None => None,
                }
            },
        }
    }
}

proof fn lemma_digits_nonneg(s: Seq<char>)
    ensures
        digits_value(s) matches Some(v) ==> v >= 0,
    decreases s.len(),
{
    if s.len() > 1 {
        lemma_digits_nonneg(s.drop_last());
    }
}

/// What `str::parse::<i32>` accepts: an optional `+` or `-`, then at least
/// one decimal digit, and a value that fits.
pub open spec fn int_value(s: Seq<char>) -> Option<int> {
    if s.len() > 0 && s[0] == '-' {
        match digits_value(s.drop_first()) {
            Some(v) => Some(-v),
            None => None,
        }
    } else if s.len() > 0 && s[0] == '+' {
        digits_value(s.drop_first())
    } else {
        digits_value(s)
    }
}

/// Reads `v[from..to]` as digits, giving up once the value passes `limit`.
fn read_digits(v: &Vec<char>, from: usize, to: usize, limit: u64) -> (result: Option<u64>)
    requires
        from <= to <= v.len(),
    ensures
        match result {
            Some(value) => digits_value(v@.subrange(from as int, to as int)) == Some(value as int)
                && value <= limit,
            None => match digits_value(v@.subrange(from as int, to as int)) {
                Some(value) => value > limit,
                None => true,
            },
        },
{
    if from == to {
        return None;
    }
    let mut value: u64 = 0;
    let mut i = from;
    while i < to
        invariant
            from <= i <= to <= v.len(),
            from < to,
            value <= limit,
            i == from ==> value == 0,
            i > from ==> digits_value(v@.subrange(from as int, i as int)) == Some(value as int),
        decreases to - i,
    {
        let c = v[i];
        let d: u64 = match c {
            '0' => 0, '1' => 1, '2' => 2, '3' => 3, '4' => 4, '5' => 5, '6' => 6, '7' => 7,
            '8' => 8, '9' => 9,
            _ => 10,
        };
        let ghost prefix = v@.subrange(from as int, i + 1);
        assert(prefix.drop_last() =~= v@.subrange(from as int, i as int));
        assert(prefix.last() == c);
        if d == 10 {
            proof {
                lemma_digits_none_after(v@.subrange(from as int, to as int), (i - from + 1) as int);
                assert(v@.subrange(from as int, to as int).subrange(0, i - from + 1) =~= prefix);
            }
            return None;
        }
        let next: u128 = value as u128 * 10 + d as u128;
        if next > limit as u128 {
            proof {
                lemma_digits_grow(v@.subrange(from as int, to as int), (i - from + 1) as int);
                assert(v@.subrange(from as int, to as int).subrange(0, i - from + 1) =~= prefix);
            }
            return None;
        }
        value = next as u64;
        i = i + 1;
    }
    Some(value)
}

/// A prefix that is not all digits spoils the whole text.
proof fn lemma_digits_none_after(s: Seq<char>, k: int)
    requires
        0 < k <= s.len(),
        digits_value(s.subrange(0, k)) is None,
    ensures
        digits_value(s) is None,
    decreases s.len(),
{
    if k < s.len() {
        assert(s.drop_last().subrange(0, k) =~= s.subrange(0, k));
        lemma_digits_none_after(s.drop_last(), k);
    } else {
        assert(s.subrange(0, k) =~= s);
    }
}

/// Adding digits never makes a value smaller.
proof fn lemma_digits_grow(s: Seq<char>, k: int)
    requires
        0 < k <= s.len(),
    ensures
        digits_value(s.subrange(0, k)) matches Some(a) ==> match digits_value(s) {
            Some(b) => b >= a,
            None => true,
        },
    decreases s.len(),
{
    if k < s.len() {
        assert(s.drop_last().subrange(0, k) =~= s.subrange(0, k));
        lemma_digits_grow(s.drop_last(), k);
        lemma_digits_nonneg(s.drop_last());
    } else {
        assert(s.subrange(0, k) =~= s);
    }
}

/// `text` read as an `i32`, the way `str::parse::<i32>` reads it: an
/// optional sign, at least one digit, nothing else, and in range.
pub fn parse_i32(v: &Vec<char>, from: usize, to: usize) -> (result: Option<i32>)
    requires
        from <= to <= v.len(),
    ensures
        match int_value(v@.subrange(from as int, to as int)) {
            Some(value) => if i32::MIN <= value <= i32::MAX {
                result == Some(value as i32)
            } else {
                result is None
            },
            None => result is None,
        },
{
    let ghost s = v@.subrange(from as int, to as int);
    if from < to && v[from] == '-' {
        assert(s.drop_first() =~= v@.subrange(from + 1, to as int));
        match read_digits(v, from + 1, to, 0x8000_0000) {
            Some(value) => {
                let negative: i64 = -(value as i64);
                Some(negative as i32)
            },
            None => None,
        }
    } else {
        let start = if from < to && v[from] == '+' {
            assert(s.drop_first() =~= v@.subrange(from + 1, to as int));
            from + 1
        } else {
            from
        };
        match read_digits(v, start, to, 0x7fff_ffff) {
            Some(value) => Some(value as i32),
            None => None,
        }
    }
}

/// What `str::parse::<usize>` accepts: an optional `+`, then at least one
/// decimal digit, and a value that fits.
pub open spec fn unsigned_value(s: Seq<char>) -> Option<int> {
    if s.len() > 0 && s[0] == '+' {
        digits_value(s.drop_first())
    } else {
        digits_value(s)
    }
}

/// `text` read as a `usize`, the way `str::parse::<usize>` reads it.
pub fn parse_usize(text: &str) -> (result: Option<usize>)
    ensures
        match unsigned_value(text@) {
            Some(value) => if value <= usize::MAX {
                result == Some(value as usize)
            } else {
                result is None
            },
            None => result is None,
        },
{
    let v = chars_of(text);
    let ghost s = v@;
    assert(v@.subrange(0, v.len() as int) =~= v@);
    let start = if v.len() > 0 && v[0] == '+' {
        assert(s.drop_first() =~= v@.subrange(1, v.len() as int));
        1
    } else {
        0
    };
    match read_digits(&v, start, v.len(), usize::MAX as u64) {
        Some(value) => Some(value as usize),
        None => None,
    }
}


/// `template` with every `{}` replaced by `value`: what `str::replace`
/// does with that pattern.
pub open spec fn filled(template: Seq<char>, value: Seq<char>) -> Seq<char>
    decreases template.len(),
{
    if template.len() == 0 {
        Seq::empty()
    } else if template.len() >= 2 && template[0] == '{' && template[1] == '}' {
        value + filled(template.subrange(2, template.len() as int), value)
    } else {
        seq![template[0]] + filled(template.drop_first(), value)
    }
}

/// `template` with its first `{}` replaced by `value`: what
/// `str::replacen(.., 1)` does with that pattern.
pub open spec fn filled_once(template: Seq<char>, value: Seq<char>) -> Seq<char>
    decreases template.len(),
{
    if template.len() == 0 {
        Seq::empty()
    } else if template.len() >= 2 && template[0] == '{' && template[1] == '}' {
        value + template.subrange(2, template.len() as int)
    } else {
        seq![template[0]] + filled_once(template.drop_first(), value)
    }
}

/// `template` with every `{}` (or only the first, when `once`) replaced by
/// `value`.
pub fn fill_chars(template: &Vec<char>, value: &Vec<char>, once: bool) -> (result: Vec<char>)
    ensures
        result@ == if once {
            filled_once(template@, value@)
        } else {
            filled(template@, value@)
        },
{
    let ghost t = template@;
    let ghost goal = if once {
        filled_once(t, value@)
    } else {
        filled(t, value@)
    };
    let mut out: Vec<char> = Vec::new();
    let mut i: usize = 0;
    assert(t.subrange(0, t.len() as int) =~= t);
    while i < template.len()
        invariant
            i <= template.len(),
            t == template@,
            goal == if once {
                filled_once(t, value@)
            } else {
                filled(t, value@)
            },
            out@ + (if once {
                filled_once(t.subrange(i as int, t.len() as int), value@)
            } else {
                filled(t.subrange(i as int, t.len() as int), value@)
            }) == goal,
        decreases template.len() - i,
    {
        let ghost rest = t.subrange(i as int, t.len() as int);
        let ghost before = out@;
        if i + 1 < template.len() && template[i] == '{' && template[i + 1] == '}' {
            assert(rest[0] == '{' && rest[1] == '}');
            assert(rest.subrange(2, rest.len() as int) =~= t.subrange(i + 2, t.len() as int));
            let mut copy = value.clone();
            out.append(&mut copy);
            if once {
                extend_range(&mut out, template, i + 2, template.len());
                assert(out@ =~= before + value@ + t.subrange(i + 2, t.len() as int));
                assert(t.subrange(t.len() as int, t.len() as int) =~= Seq::<char>::empty());
                return out;
            }
            assert(out@ =~= before + value@);
            i = i + 2;
        } else {
            assert(rest[0] == t[i as int]);
            assert(rest.drop_first() =~= t.subrange(i + 1, t.len() as int));
            out.push(template[i]);
            assert(out@ =~= before + seq![t[i as int]]);
            i = i + 1;
        }
    }
    assert(t.subrange(i as int, t.len() as int) =~= Seq::<char>::empty());
    assert(out@ =~= goal);
    out
}

/// `template` with every `{}` replaced by `value`.
pub fn fill(template: &str, value: &str) -> (result: String)
    ensures
        result@ == filled(template@, value@),
{
    let out = fill_chars(&chars_of(template), &chars_of(value), false);
    string_of(out.as_slice())
}

/// `template` with its first `{}` replaced by `value`.
pub fn fill_once(template: &str, value: &str) -> (result: String)
    ensures
        result@ == filled_once(template@, value@),
{
    let out = fill_chars(&chars_of(template), &chars_of(value), true);
    string_of(out.as_slice())
}

/// `n` in decimal, as a string.
pub fn number_text(n: usize) -> (result: String)
    ensures
        result@ == decimal(n as nat),
{
    let digits = decimal_chars(n);
    string_of(digits.as_slice())
}


/// How much of `v` is left once its trailing whitespace is gone.
pub fn trim_end_len(v: &Vec<char>) -> (result: usize)
    ensures
        result <= v.len(),
        v@.subrange(0, result as int) == trim_end(v@),
{
    let mut b = v.len();
    while b > 0 && is_space(v[b - 1])
        invariant
            b <= v.len(),
            forall|j: int| b <= j < v.len() ==> space(v@[j]),
        decreases b,
    {
        b = b - 1;
    }
    proof {
        lemma_trim_end_at(v@, b as int);
    }
    b
}

} // verus!
