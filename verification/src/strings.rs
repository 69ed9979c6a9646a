//! Text operations on Unicode scalar values: searching, trimming, splitting and joining.
//!
//! Positions are counted in characters, so every result is a statement about the sequence
//! of characters that a string holds.

use vstd::prelude::*;

verus! {

/// The characters that carry the Unicode `White_Space` property.
pub open spec fn is_space(c: char) -> bool {
    ||| '\u{9}' <= c <= '\u{d}'
    ||| c == ' '
    ||| c == '\u{85}'
    ||| c == '\u{a0}'
    ||| c == '\u{1680}'
    ||| '\u{2000}' <= c <= '\u{200a}'
    ||| c == '\u{2028}'
    ||| c == '\u{2029}'
    ||| c == '\u{202f}'
    ||| c == '\u{205f}'
    ||| c == '\u{3000}'
}

/// `s` without the white space it starts with.
pub open spec fn trim_start(s: Seq<char>) -> Seq<char>
    decreases s.len(),
{
    if s.len() > 0 && is_space(s[0]) {
        trim_start(s.drop_first())
    } else {
        s
    }
}

/// `s` without the white space it ends with.
pub open spec fn trim_end(s: Seq<char>) -> Seq<char>
    decreases s.len(),
{
    if s.len() > 0 && is_space(s.last()) {
        trim_end(s.drop_last())
    } else {
        s
    }
}

/// `s` without the white space at either end.
pub open spec fn trimmed(s: Seq<char>) -> Seq<char> {
    trim_end(trim_start(s))
}

/// `c`, in lower case where it is one of the letters A to Z.
pub open spec fn ascii_lower(c: char) -> char {
    if 'A' <= c <= 'Z' {
        ((c as u8 + 32) as u8) as char
    } else {
        c
    }
}

/// `s` with the letters A to Z in lower case.
pub open spec fn ascii_lowered(s: Seq<char>) -> Seq<char> {
    Seq::new(s.len(), |i: int| ascii_lower(s[i]))
}

/// `pat` stands in `s` at position `i`.
pub open spec fn occurs_at<T>(s: Seq<T>, pat: Seq<T>, i: int) -> bool {
    0 <= i && i + pat.len() <= s.len() && s.subrange(i, i + pat.len()) == pat
}

/// The first position at or after `from` where `pat` stands in `s`.
pub open spec fn index_from(s: Seq<char>, pat: Seq<char>, from: int) -> Option<int>
    decreases s.len() - from + 1,
{
    if from < 0 || from + pat.len() > s.len() {
        None
    } else if occurs_at(s, pat, from) {
        Some(from)
    } else {
        index_from(s, pat, from + 1)
    }
}

/// The first position where `pat` stands in `s`.
pub open spec fn index_of(s: Seq<char>, pat: Seq<char>) -> Option<int> {
    index_from(s, pat, 0)
}

/// The last position at or before `upto` where `pat` stands in `s`.
pub open spec fn last_index_upto(s: Seq<char>, pat: Seq<char>, upto: int) -> Option<int>
    decreases upto + 1,
{
    if upto < 0 {
        None
    } else if occurs_at(s, pat, upto) {
        Some(upto)
    } else {
        last_index_upto(s, pat, upto - 1)
    }
}

/// The last position where `pat` stands in `s`.
pub open spec fn last_index_of(s: Seq<char>, pat: Seq<char>) -> Option<int> {
    last_index_upto(s, pat, s.len() - pat.len())
}

/// What stands before the first `pat` in `s`, and what stands behind it.
pub open spec fn cut(s: Seq<char>, pat: Seq<char>) -> Option<(Seq<char>, Seq<char>)> {
    match index_of(s, pat) {
        Some(i) => Some((s.take(i), s.skip(i + pat.len()))),
        None => None,
    }
}

/// `s` without the `prefix` it begins with, `default` where it does not begin with it.
pub open spec fn behind_prefix(s: Seq<char>, prefix: Seq<char>, default: Seq<char>) -> Seq<char> {
    if prefix.is_prefix_of(s) {
        s.skip(prefix.len() as int)
    } else {
        default
    }
}

/// `pat` stands somewhere in `s`.
pub open spec fn occurs_in(s: Seq<char>, pat: Seq<char>) -> bool {
    exists|i: int| occurs_at(s, pat, i)
}

/// The pieces of `s` between the occurrences of `sep`; one more than there are separators.
pub open spec fn split_on(s: Seq<char>, sep: char) -> Seq<Seq<char>>
    decreases s.len(),
{
    if s.len() == 0 {
        seq![s]
    } else if s.last() == sep {
        split_on(s.drop_last(), sep).push(Seq::empty())
    } else {
        let pieces = split_on(s.drop_last(), sep);
        pieces.drop_last().push(pieces.last().push(s.last()))
    }
}

/// The pieces of `parts` in order, with `sep` between neighbours.
pub open spec fn joined(parts: Seq<Seq<char>>, sep: Seq<char>) -> Seq<char>
    decreases parts.len(),
{
    if parts.len() == 0 {
        Seq::empty()
    } else if parts.len() == 1 {
        parts[0]
    } else {
        joined(parts.drop_last(), sep) + sep + parts.last()
    }
}

/// The characters that a sequence of strings holds.
pub open spec fn texts(parts: Seq<String>) -> Seq<Seq<char>> {
    Seq::new(parts.len(), |i: int| parts[i]@)
}

/// What an optional string holds.
pub open spec fn opt_text(t: Option<String>) -> Option<Seq<char>> {
    match t {
        Some(t) => Some(t@),
        None => None,
    }
}

/// What an optional borrowed string holds.
pub open spec fn opt_str(t: Option<&str>) -> Option<Seq<char>> {
    match t {
        Some(t) => Some(t@),
        None => None,
    }
}

/// One more string is one more text.
pub broadcast proof fn lemma_texts_push(parts: Seq<String>, p: String)
    ensures
        #[trigger] texts(parts.push(p)) == texts(parts).push(p@),
{
    assert(texts(parts.push(p)) =~= texts(parts).push(p@));
}

/// The decimal digit of `d`.
pub open spec fn digit(d: nat) -> Seq<char> {
    if d == 0 {
        "0"@
    } else if d == 1 {
        "1"@
    } else if d == 2 {
        "2"@
    } else if d == 3 {
        "3"@
    } else if d == 4 {
        "4"@
    } else if d == 5 {
        "5"@
    } else if d == 6 {
        "6"@
    } else if d == 7 {
        "7"@
    } else if d == 8 {
        "8"@
    } else {
        "9"@
    }
}

/// `n` written in decimal, without leading zeros.
pub open spec fn decimal(n: nat) -> Seq<char>
    decreases n,
{
    if n < 10 {
        digit(n)
    } else {
        decimal(n / 10) + digit(n % 10)
    }
}

/// What `index_from` finds is an occurrence with none before it; where it finds nothing there
/// is none.
pub proof fn lemma_index_from(s: Seq<char>, pat: Seq<char>, from: int)
    requires
        0 <= from,
    ensures
        match index_from(s, pat, from) {
            Some(i) => from <= i && occurs_at(s, pat, i) && forall|j: int|
                from <= j < i ==> !occurs_at(s, pat, j),
            None => forall|j: int| from <= j ==> !occurs_at(s, pat, j),
        },
    decreases s.len() - from + 1,
{
    if from + pat.len() > s.len() {
    } else if occurs_at(s, pat, from) {
    } else {
        lemma_index_from(s, pat, from + 1);
    }
}

/// The first occurrence is an occurrence with none before it; where there is no first
/// occurrence there is none at all.
pub proof fn lemma_index_of(s: Seq<char>, pat: Seq<char>)
    ensures
        match index_of(s, pat) {
            Some(i) => 0 <= i && i + pat.len() <= s.len() && occurs_at(s, pat, i) && forall|j: int|
                0 <= j < i ==> !occurs_at(s, pat, j),
            None => forall|j: int| !occurs_at(s, pat, j),
        },
{
    lemma_index_from(s, pat, 0);
}

/// An occurrence with none before it is the first occurrence.
pub proof fn lemma_index_of_is(s: Seq<char>, pat: Seq<char>, i: int)
    requires
        occurs_at(s, pat, i),
        forall|j: int| 0 <= j < i ==> !occurs_at(s, pat, j),
    ensures
        index_of(s, pat) == Some(i),
{
    lemma_index_of(s, pat);
}

/// The two sides of a cut, with `pat` between them, are the whole; `pat` is not in the first side,
/// nor astride its end. Without `pat` in it, `s` is not cut.
pub proof fn lemma_cut(s: Seq<char>, pat: Seq<char>)
    ensures
        match cut(s, pat) {
            Some((before, after)) => {
                &&& occurs_in(s, pat)
                &&& s == before + pat + after
                &&& index_of(s, pat) == Some(before.len() as int)
                &&& before.len() + pat.len() + after.len() == s.len()
            },
            None => !occurs_in(s, pat),
        },
{
    lemma_index_of(s, pat);
    if let Some((before, after)) = cut(s, pat) {
        assert(s =~= before + pat + after);
    }
}

/// Where no character of `before` is the first of `pat`, a text in which `pat` stands behind
/// `before` is cut there.
pub proof fn lemma_cut_at(before: Seq<char>, pat: Seq<char>, after: Seq<char>)
    requires
        pat.len() > 0,
        !before.contains(pat[0]),
    ensures
        cut(before + pat + after, pat) == Some((before, after)),
{
    let s = before + pat + after;
    let n = before.len() as int;
    assert(s.subrange(n, n + pat.len()) =~= pat);
    assert forall|j: int| 0 <= j < n implies !occurs_at(s, pat, j) by {
        if occurs_at(s, pat, j) {
            assert(s.subrange(j, j + pat.len())[0] == before[j]);
        }
    }
    lemma_index_of_is(s, pat, n);
    assert(s.take(n) =~= before);
    assert(s.skip(n + pat.len()) =~= after);
}

/// What `last_index_upto` finds is an occurrence with none after it up to the bound.
pub proof fn lemma_last_index_upto(s: Seq<char>, pat: Seq<char>, upto: int)
    ensures
        match last_index_upto(s, pat, upto) {
            Some(i) => i <= upto && occurs_at(s, pat, i) && forall|j: int|
                i < j <= upto ==> !occurs_at(s, pat, j),
            None => forall|j: int| j <= upto ==> !occurs_at(s, pat, j),
        },
    decreases upto + 1,
{
    if upto < 0 {
    } else if occurs_at(s, pat, upto) {
    } else {
        lemma_last_index_upto(s, pat, upto - 1);
    }
}

/// The last occurrence is an occurrence with none after it; where there is no last occurrence
/// there is none at all.
pub proof fn lemma_last_index_of(s: Seq<char>, pat: Seq<char>)
    ensures
        match last_index_of(s, pat) {
            Some(i) => 0 <= i && i + pat.len() <= s.len() && occurs_at(s, pat, i) && forall|j: int|
                i < j ==> !occurs_at(s, pat, j),
            None => forall|j: int| !occurs_at(s, pat, j),
        },
{
    lemma_last_index_upto(s, pat, s.len() - pat.len());
}

/// Where the white space at the start of `s` ends.
pub proof fn lemma_trim_start(s: Seq<char>) -> (k: int)
    ensures
        0 <= k <= s.len(),
        trim_start(s) == s.skip(k),
        forall|j: int| 0 <= j < k ==> is_space(#[trigger] s[j]),
        k < s.len() ==> !is_space(s[k]),
    decreases s.len(),
{
    if s.len() > 0 && is_space(s[0]) {
        let rest = s.drop_first();
        let k = lemma_trim_start(rest);
        assert(rest.skip(k) =~= s.skip(k + 1));
        assert forall|j: int| 0 <= j < k + 1 implies is_space(#[trigger] s[j]) by {
            if j > 0 {
                assert(is_space(rest[j - 1]));
            }
        }
        k + 1
    } else {
        assert(s.skip(0) =~= s);
        0
    }
}

/// Where the white space at the end of `s` begins.
pub proof fn lemma_trim_end(s: Seq<char>) -> (k: int)
    ensures
        0 <= k <= s.len(),
        trim_end(s) == s.take(k),
        forall|j: int| k <= j < s.len() ==> is_space(#[trigger] s[j]),
        k > 0 ==> !is_space(s[k - 1]),
    decreases s.len(),
{
    if s.len() > 0 && is_space(s.last()) {
        let rest = s.drop_last();
        let k = lemma_trim_end(rest);
        assert(rest.take(k) =~= s.take(k));
        assert forall|j: int| k <= j < s.len() implies is_space(#[trigger] s[j]) by {
            if j < rest.len() {
                assert(is_space(rest[j]));
            }
        }
        k
    } else {
        assert(s.take(s.len() as int) =~= s);
        s.len() as int
    }
}

/// Trimming keeps the part of `s` from its first to its last character that is not white space.
pub proof fn lemma_trimmed(s: Seq<char>) -> (ends: (int, int))
    ensures
        0 <= ends.0 <= ends.1 <= s.len(),
        trimmed(s) == s.subrange(ends.0, ends.1),
        forall|j: int| 0 <= j < ends.0 || ends.1 <= j < s.len() ==> is_space(#[trigger] s[j]),
        ends.0 < ends.1 ==> !is_space(s[ends.0]) && !is_space(s[ends.1 - 1]),
{
    let a = lemma_trim_start(s);
    let rest = s.skip(a);
    let k = lemma_trim_end(rest);
    assert(rest.take(k) =~= s.subrange(a, a + k));
    assert forall|j: int| 0 <= j < a || a + k <= j < s.len() implies is_space(#[trigger] s[j]) by {
        if j >= a + k {
            assert(is_space(rest[j - a]));
        }
    }
    if k > 0 {
        assert(rest[k - 1] == s[a + k - 1]);
        assert(k == rest.len() || is_space(rest[k]));
    }
    if a < a + k {
        assert(a < s.len());
    }
    (a, a + k)
}

/// What is trimmed stays as it is when it is trimmed again.
pub proof fn lemma_trimmed_twice(s: Seq<char>)
    ensures
        trimmed(trimmed(s)) == trimmed(s),
{
    let (a, b) = lemma_trimmed(s);
    let t = trimmed(s);
    if t.len() > 0 {
        assert(t[0] == s[a]);
        assert(t.last() == s[b - 1]);
    }
}

/// White space that is dropped from the end of `s` makes no difference once it is trimmed.
pub proof fn lemma_trimmed_prefix(s: Seq<char>, k: int)
    requires
        0 <= k <= s.len(),
        forall|j: int| k <= j < s.len() ==> is_space(#[trigger] s[j]),
    ensures
        trimmed(s.take(k)) == trimmed(s),
{
    let t = s.take(k);
    let (a, b) = lemma_trimmed(s);
    let (c, d) = lemma_trimmed(t);
    if a < b {
        assert(b - 1 < k);
        assert(t[a] == s[a] && t[b - 1] == s[b - 1]);
        assert(c <= a && b <= d);
        assert(t[c] == s[c] && t[d - 1] == s[d - 1]);
        assert(a <= c && d <= b);
        assert(t.subrange(c, d) =~= s.subrange(a, b));
    } else if c < d {
        assert(t[c] == s[c]);
    } else {
        assert(t.subrange(c, d) =~= s.subrange(a, b));
    }
}

/// What occurs in a part of `s` occurs in `s`.
pub proof fn lemma_occurs_in_part(s: Seq<char>, from: int, to: int, pat: Seq<char>)
    requires
        0 <= from <= to <= s.len(),
        occurs_in(s.subrange(from, to), pat),
    ensures
        exists|i: int| i >= from && #[trigger] occurs_at(s, pat, i),
{
    let part = s.subrange(from, to);
    let j = choose|j: int| occurs_at(part, pat, j);
    assert(s.subrange(from + j, from + j + pat.len()) =~= part.subrange(j, j + pat.len()));
    assert(occurs_at(s, pat, from + j));
}

/// The characters of `s`.
pub fn chars_of(s: &str) -> (r: Vec<char>)
    ensures
        r@ == s@,
{
    let mut out: Vec<char> = Vec::new();
    for c in iter: s.chars()
        invariant
            iter.seq() == s@,
            out@ == s@.take(iter.index() as int),
    {
        out.push(c);
        assert(s@.take(iter.index() + 1) =~= s@.take(iter.index() as int).push(
            s@[iter.index() as int],
        ));
    }
    assert(s@.take(s@.len() as int) =~= s@);
    out
}


/// Whether `c` is white space.
pub fn is_white(c: char) -> (r: bool)
    ensures
        r == is_space(c),
{
    ('\u{9}' <= c && c <= '\u{d}') || c == ' ' || c == '\u{85}' || c == '\u{a0}' || c == '\u{1680}'
        || ('\u{2000}' <= c && c <= '\u{200a}') || c == '\u{2028}' || c == '\u{2029}' || c
        == '\u{202f}' || c == '\u{205f}' || c == '\u{3000}'
}

/// The characters of `s` from position `from` up to `to`.
pub fn slice(s: &str, from: usize, to: usize) -> (r: String)
    requires
        from <= to <= s@.len(),
    ensures
        r@ == s@.subrange(from as int, to as int),
{
    s.substring_char(from, to).to_owned()
}

/// Whether `s` holds no character.
pub fn is_blank(s: &str) -> (r: bool)
    ensures
        r == (s@.len() == 0),
{
    s.is_empty()
}

/// Whether two strings hold the same characters.
pub fn same(a: &str, b: &str) -> (r: bool)
    ensures
        r == (a@ == b@),
{
    a.to_owned() == b.to_owned()
}

/// Calls `str::to_ascii_lowercase`. It claims that the letters A to Z are put in lower case and all
/// other characters stay.
#[verifier::external_body]
pub(crate) fn ascii_lowercase(s: &str) -> (r: String)
    ensures
        r@ == ascii_lowered(s@),
{
    s.to_ascii_lowercase()
}

/// Whether `pat` stands in `s` at position `i`.
fn matches_at(s: &Vec<char>, pat: &Vec<char>, i: usize) -> (r: bool)
    requires
        i + pat@.len() <= s@.len(),
    ensures
        r == occurs_at(s@, pat@, i as int),
{
    let mut k: usize = 0;
    while k < pat.len()
        invariant
            k <= pat@.len(),
            i + pat@.len() <= s.len(),
            forall|j: int| 0 <= j < k ==> s@[i + j] == pat@[j],
        decreases pat@.len() - k,
    {
        if s[i + k] != pat[k] {
            assert(s@.subrange(i as int, i + pat@.len())[k as int] != pat@[k as int]);
            return false;
        }
        k += 1;
    }
    assert(s@.subrange(i as int, i + pat@.len()) =~= pat@);
    true
}

/// The first position where `pat` stands in `s`.
pub fn find(s: &str, pat: &str) -> (r: Option<usize>)
    ensures
        match r {
            Some(i) => index_of(s@, pat@) == Some(i as int) && i + pat@.len() <= s@.len(),
            None => index_of(s@, pat@) is None,
        },
{
    let text = chars_of(s);
    let key = chars_of(pat);
    proof {
        lemma_index_of(s@, pat@);
    }
    if key.len() > text.len() {
        return None;
    }
    let last: usize = text.len() - key.len();
    let mut i: usize = 0;
    loop
        invariant
            text@ == s@,
            key@ == pat@,
            last + key@.len() == text@.len(),
            i <= last,
            forall|j: int| 0 <= j < i ==> !occurs_at(s@, pat@, j),
        decreases last - i,
    {
        if matches_at(&text, &key, i) {
            proof {
                lemma_index_of_is(s@, pat@, i as int);
            }
            return Some(i);
        }
        if i == last {
            proof {
                lemma_index_of(s@, pat@);
            }
            return None;
        }
        i += 1;
    }
}

/// What stands before the first `pat` in `s`, and what stands behind it.
pub fn cut_text(s: &str, pat: &str) -> (r: Option<(String, String)>)
    ensures
        match r {
            Some((before, after)) => cut(s@, pat@) == Some((before@, after@)),
            None => cut(s@, pat@) is None,
        },
{
    match find(s, pat) {
        Some(i) => {
            let skip: usize = pat.unicode_len();
            let total: usize = s.unicode_len();
            Some((slice(s, 0, i), slice(s, i + skip, total)))
        },
        None => None,
    }
}

/// `s` without the `prefix` it begins with, `default` where it does not begin with it.
pub fn strip_prefix_or(s: &str, prefix: &str, default: &str) -> (r: String)
    ensures
        r@ == behind_prefix(s@, prefix@, default@),
{
    if starts_with(s, prefix) {
        slice(s, prefix.unicode_len(), s.unicode_len())
    } else {
        default.to_owned()
    }
}

/// The last position where `pat` stands in `s`.
pub fn rfind(s: &str, pat: &str) -> (r: Option<usize>)
    ensures
        match r {
            Some(i) => last_index_of(s@, pat@) == Some(i as int) && i + pat@.len() <= s@.len(),
            None => last_index_of(s@, pat@) is None,
        },
{
    let text = chars_of(s);
    let key = chars_of(pat);
    proof {
        lemma_last_index_of(s@, pat@);
    }
    if key.len() > text.len() {
        return None;
    }
    let mut i: usize = text.len() - key.len();
    loop
        invariant
            text@ == s@,
            key@ == pat@,
            i + key@.len() <= text@.len(),
            last_index_of(s@, pat@) == last_index_upto(s@, pat@, i as int),
        decreases i,
    {
        if matches_at(&text, &key, i) {
            return Some(i);
        }
        if i == 0 {
            assert(last_index_upto(s@, pat@, -1) is None);
            return None;
        }
        i -= 1;
    }
}

/// Whether `pat` stands somewhere in `s`.
pub fn contains(s: &str, pat: &str) -> (r: bool)
    ensures
        r == occurs_in(s@, pat@),
{
    proof {
        lemma_index_of(s@, pat@);
    }
    match find(s, pat) {
        Some(_) => true,
        None => false,
    }
}

/// Whether `s` begins with `pat`.
pub fn starts_with(s: &str, pat: &str) -> (r: bool)
    ensures
        r == pat@.is_prefix_of(s@),
{
    let text = chars_of(s);
    let key = chars_of(pat);
    if key.len() > text.len() {
        return false;
    }
    matches_at(&text, &key, 0)
}

/// Whether `s` ends with `pat`.
pub fn ends_with(s: &str, pat: &str) -> (r: bool)
    ensures
        r == pat@.is_suffix_of(s@),
{
    let text = chars_of(s);
    let key = chars_of(pat);
    if key.len() > text.len() {
        return false;
    }
    matches_at(&text, &key, text.len() - key.len())
}

/// `s` without the white space at either end.
pub fn trim(s: &str) -> (r: String)
    ensures
        r@ == trimmed(s@),
{
    let text = chars_of(s);
    let mut from: usize = 0;
    assert(s@.skip(0) =~= s@);
    while from < text.len() && is_white(text[from])
        invariant
            text@ == s@,
            from <= text@.len(),
            trim_start(s@.skip(from as int)) == trim_start(s@),
        decreases text@.len() - from,
    {
        assert(s@.skip(from as int).drop_first() =~= s@.skip(from + 1));
        from += 1;
    }
    let mut to: usize = text.len();
    assert(trim_start(s@) == s@.skip(from as int));
    assert(s@.subrange(from as int, to as int) =~= s@.skip(from as int));
    while from < to && is_white(text[to - 1])
        invariant
            text@ == s@,
            from <= to <= text@.len(),
            trim_end(s@.subrange(from as int, to as int)) == trimmed(s@),
        decreases to,
    {
        assert(s@.subrange(from as int, to as int).drop_last() =~= s@.subrange(
            from as int,
            to - 1,
        ));
        to -= 1;
    }
    slice(s, from, to)
}

/// The decimal digit of `d`.
fn digit_text(d: u64) -> (r: &'static str)
    requires
        d < 10,
    ensures
        r@ == digit(d as nat),
{
    match d {
        0 => "0",
        1 => "1",
        2 => "2",
        3 => "3",
        4 => "4",
        5 => "5",
        6 => "6",
        7 => "7",
        8 => "8",
        _ => "9",
    }
}

/// `n` written in decimal, without leading zeros.
pub fn decimal_text(n: u64) -> (r: String)
    ensures
        r@ == decimal(n as nat),
    decreases n,
{
    if n < 10 {
        digit_text(n).to_owned()
    } else {
        let mut out = decimal_text(n / 10);
        out.append(digit_text(n % 10));
        out
    }
}

/// `a` followed by `b`.
pub fn concat(a: &str, b: &str) -> (r: String)
    ensures
        r@ == a@ + b@,
{
    let mut out = a.to_owned();
    out.append(b);
    out
}

/// `a`, `b` and `c` in a row.
pub fn concat3(a: &str, b: &str, c: &str) -> (r: String)
    ensures
        r@ == a@ + b@ + c@,
{
    let mut out = a.to_owned();
    out.append(b);
    out.append(c);
    out
}

/// The pieces of `s` between the occurrences of `sep`.
pub fn split(s: &str, sep: char) -> (r: Vec<String>)
    ensures
        texts(r@) == split_on(s@, sep),
{
    let text = chars_of(s);
    let mut out: Vec<String> = Vec::new();
    let mut start: usize = 0;
    let mut i: usize = 0;
    assert(texts(out@).push(s@.subrange(0, 0)) =~= split_on(s@.take(0), sep)) by {
        assert(s@.take(0) =~= s@.subrange(0, 0));
    }
    while i < text.len()
        invariant
            text@ == s@,
            start <= i <= text@.len(),
            texts(out@).push(s@.subrange(start as int, i as int)) == split_on(
                s@.take(i as int),
                sep,
            ),
        decreases text@.len() - i,
    {
        let ghost so_far = texts(out@);
        let ghost piece = s@.subrange(start as int, i as int);
        assert(s@.take(i + 1).drop_last() =~= s@.take(i as int));
        if text[i] == sep {
            out.push(slice(s, start, i));
            start = i + 1;
            assert(texts(out@) =~= so_far.push(piece));
            assert(s@.subrange(start as int, i + 1) =~= Seq::empty());
        } else {
            assert(so_far.push(piece).drop_last() =~= so_far);
            assert(s@.subrange(start as int, i + 1) =~= piece.push(s@[i as int]));
        }
        i += 1;
    }
    let ghost so_far = texts(out@);
    out.push(slice(s, start, i));
    assert(texts(out@) =~= so_far.push(s@.subrange(start as int, i as int)));
    assert(s@.take(i as int) =~= s@);
    out
}

/// The pieces of `parts` in order, with `sep` between neighbours.
pub fn join(parts: &Vec<String>, sep: &str) -> (r: String)
    ensures
        r@ == joined(texts(parts@), sep@),
{
    let mut out = String::new();
    let mut i: usize = 0;
    while i < parts.len()
        invariant
            i <= parts@.len(),
            out@ == joined(texts(parts@).take(i as int), sep@),
        decreases parts@.len() - i,
    {
        let ghost next = texts(parts@).take(i + 1);
        assert(next.drop_last() =~= texts(parts@).take(i as int));
        if i > 0 {
            out.append(sep);
        }
        out.append(parts[i].as_str());
        assert(i == 0 ==> out@ =~= parts@[0]@);
        i += 1;
    }
    assert(texts(parts@).take(i as int) =~= texts(parts@));
    out
}

/// White space is what Unicode takes for it.
pub proof fn law_white_space(c: char)
    ensures
        is_space(c) <==> {
            let n = c as u32;
            ||| 0x9 <= n <= 0xd
            ||| n == 0x20
            ||| n == 0x85
            ||| n == 0xa0
            ||| n == 0x1680
            ||| 0x2000 <= n <= 0x200a
            ||| n == 0x2028
            ||| n == 0x2029
            ||| n == 0x202f
            ||| n == 0x205f
            ||| n == 0x3000
        },
{
}

/// Trimming takes the white space off both ends and nothing else: a text that neither begins nor ends
/// with white space comes out from between any white space as it is.
pub proof fn law_trimming_takes_white_space_off(
    before: Seq<char>,
    s: Seq<char>,
    after: Seq<char>,
)
    requires
        forall|i: int| 0 <= i < before.len() ==> is_space(#[trigger] before[i]),
        forall|i: int| 0 <= i < after.len() ==> is_space(#[trigger] after[i]),
        s.len() > 0 ==> !is_space(s[0]) && !is_space(s.last()),
    ensures
        trimmed(before + s + after) == s,
{
    let whole = before + s + after;
    let (a, b) = lemma_trimmed(whole);
    let n = before.len() as int;
    if s.len() > 0 {
        assert(whole[n] == s[0]);
        assert(whole[n + s.len() - 1] == s.last());
        assert(a <= n && n + s.len() <= b);
        if a < n {
            assert(whole[a] == before[a]);
        }
        if b > n + s.len() {
            assert(whole[b - 1] == after[b - 1 - n - s.len()]);
        }
        assert(whole.subrange(a, b) =~= s);
    } else {
        if a < b {
            if a < n {
                assert(whole[a] == before[a]);
            } else {
                assert(whole[a] == after[a - n]);
            }
        }
        assert(whole.subrange(a, b) =~= s);
    }
}

/// The letters A to Z are put in lower case, and nothing else is changed.
pub proof fn law_lower_case(s: Seq<char>, i: int)
    requires
        0 <= i < s.len(),
    ensures
        ascii_lowered(s).len() == s.len(),
        0x41 <= s[i] as u32 <= 0x5a ==> ascii_lowered(s)[i] as u32 == s[i] as u32 + 0x20,
        !(0x41 <= s[i] as u32 <= 0x5a) ==> ascii_lowered(s)[i] == s[i],
{
}

/// There is always a piece.
proof fn lemma_split_is_not_empty(s: Seq<char>, sep: char)
    ensures
        split_on(s, sep).len() > 0,
    decreases s.len(),
{
    if s.len() > 0 {
        lemma_split_is_not_empty(s.drop_last(), sep);
    }
}

/// A text without a separator is one piece; around a separator there are the pieces of what stands
/// before it and then those of what stands behind it.
pub proof fn law_text_is_split_at_separators(a: Seq<char>, b: Seq<char>, sep: char)
    ensures
        !a.contains(sep) ==> split_on(a, sep) == seq![a],
        split_on(a + seq![sep] + b, sep) == split_on(a, sep) + split_on(b, sep),
    decreases a.len() + b.len(),
{
    let whole = a + seq![sep] + b;
    if !a.contains(sep) && a.len() > 0 {
        let less = a.drop_last();
        assert(!less.contains(sep)) by {
            assert forall|i: int| 0 <= i < less.len() implies less[i] != sep by {
                assert(a[i] == less[i]);
            }
        }
        law_text_is_split_at_separators(less, Seq::empty(), sep);
        assert(a.last() != sep) by {
            assert(a.contains(a[a.len() - 1]));
        }
        assert(split_on(a, sep) =~= seq![less.push(a.last())]);
        assert(less.push(a.last()) =~= a);
    }
    if !a.contains(sep) && a.len() == 0 {
        assert(split_on(a, sep) =~= seq![a]);
    }
    if b.len() == 0 {
        assert(whole.drop_last() =~= a);
        assert(b =~= Seq::<char>::empty());
        assert(split_on(whole, sep) =~= split_on(a, sep) + split_on(b, sep));
    } else {
        law_text_is_split_at_separators(a, b.drop_last(), sep);
        assert(whole.drop_last() =~= a + seq![sep] + b.drop_last());
        lemma_split_is_not_empty(b.drop_last(), sep);
        let rest = split_on(b.drop_last(), sep);
        let all = split_on(a, sep) + rest;
        if b.last() == sep {
            assert(split_on(whole, sep) =~= split_on(a, sep) + split_on(b, sep));
        } else {
            assert(all.drop_last() =~= split_on(a, sep) + rest.drop_last());
            assert(split_on(whole, sep) =~= split_on(a, sep) + split_on(b, sep));
        }
    }
}

/// Pieces put together again with the separator between them are the text that was split.
pub proof fn law_split_text_can_be_joined(s: Seq<char>, sep: char)
    ensures
        joined(split_on(s, sep), seq![sep]) == s,
    decreases s.len(),
{
    let parts = split_on(s, sep);
    if s.len() == 0 {
        assert(parts.len() == 1);
    } else {
        let before = split_on(s.drop_last(), sep);
        law_split_text_can_be_joined(s.drop_last(), sep);
        lemma_split_is_not_empty(s.drop_last(), sep);
        if s.last() == sep {
            assert(parts.drop_last() =~= before);
            assert(s =~= s.drop_last().push(sep));
            assert(joined(parts, seq![sep]) =~= s);
        } else {
            assert(parts.drop_last() =~= before.drop_last());
            let last = before.last().push(s.last());
            assert(s =~= s.drop_last().push(s.last()));
            if before.len() == 1 {
                assert(parts =~= seq![last]);
            } else {
                assert(joined(parts, seq![sep]) == joined(before.drop_last(), seq![sep]) + seq![sep]
                    + last);
            }
            assert(joined(parts, seq![sep]) =~= joined(before, seq![sep]).push(s.last()));
        }
    }
}

/// Parts are joined in their order: one alone is the whole, and each further one stands at the end,
/// behind a separator.
pub proof fn law_parts_are_joined_in_order(
    parts: Seq<Seq<char>>,
    last: Seq<char>,
    sep: Seq<char>,
)
    ensures
        joined(Seq::empty(), sep) == Seq::<char>::empty(),
        joined(seq![last], sep) == last,
        parts.len() > 0 ==> joined(parts.push(last), sep) == joined(parts, sep) + sep + last,
{
    assert(parts.push(last).drop_last() =~= parts);
}

/// What a text begins with is taken off it, and a text that does not begin with it gives the default.
pub proof fn law_prefixes_are_taken_off(prefix: Seq<char>, s: Seq<char>, default: Seq<char>)
    ensures
        behind_prefix(prefix + s, prefix, default) == s,
        !prefix.is_prefix_of(s) ==> behind_prefix(s, prefix, default) == default,
{
    let whole = prefix + s;
    assert(prefix =~= whole.subrange(0, prefix.len() as int));
    assert(whole.skip(prefix.len() as int) =~= s);
}

/// A text stands behind whatever is written before it, and one with as many characters of which any
/// differs does not stand there.
pub proof fn law_texts_stand_where_they_are_written(
    before: Seq<char>,
    pat: Seq<char>,
    after: Seq<char>,
    other: Seq<char>,
)
    ensures
        occurs_at(before + pat + after, pat, before.len() as int),
        occurs_in(before + pat + after, pat),
        other.len() == pat.len() && other != pat ==> !occurs_at(
            before + pat + after,
            other,
            before.len() as int,
        ),
        pat.len() > before.len() ==> !occurs_in(before, pat),
{
    let s = before + pat + after;
    let n = before.len() as int;
    assert(s.subrange(n, n + pat.len()) =~= pat);
    assert(occurs_at(s, pat, n));
}

/// A text is cut where `pat` stands for the first time.
pub proof fn law_cut_where_it_first_stands(s: Seq<char>, pat: Seq<char>, i: int)
    requires
        occurs_at(s, pat, i),
        forall|j: int| 0 <= j < i ==> !#[trigger] occurs_at(s, pat, j),
    ensures
        cut(s, pat) == Some(
            (s.subrange(0, i), s.subrange(i + pat.len() as int, s.len() as int)),
        ),
{
    lemma_index_of_is(s, pat, i);
    assert(s.take(i) =~= s.subrange(0, i));
    assert(s.skip(i + pat.len()) =~= s.subrange(i + pat.len() as int, s.len() as int));
}

} // verus!
