//! Character sequences: searching, trimming, splitting into lines, joining.
//!
//! Text is held as `Vec<char>` while it is being scanned, so that every index
//! is a character index, and its meaning is given over `Seq<char>`.

use vstd::prelude::*;
use vstd::utf8::{decode_utf8, valid_utf8};

verus! {

/// `String::push` appends exactly one character.
pub assume_specification[ String::push ](s: &mut String, c: char)
    ensures
        final(s)@ == old(s)@.push(c),
;

/// `std::str::from_utf8`: the text that the bytes encode where they are valid
/// UTF-8, and nothing where they are not.
#[verifier::external_body]
pub(crate) fn utf8_text(bytes: &[u8]) -> (r: Option<&str>)
    ensures
        match r {
            Some(s) => valid_utf8(bytes@) && s@ == decode_utf8(bytes@),
            None => !valid_utf8(bytes@),
        },
{
    std::str::from_utf8(bytes).ok()
}

/// The characters of a string slice, in order.
pub fn chars_of(s: &str) -> (v: Vec<char>)
    ensures
        v@ == s@,
{
    let mut v: Vec<char> = Vec::new();
    for c in it: s.chars()
        invariant
            v@ == it.seq().take(it.index() as int),
            it.seq() == s@,
    {
        v.push(c);
    }
    v
}

/// A string holding exactly the given characters.
pub fn string_of(v: &Vec<char>) -> (s: String)
    ensures
        s@ == v@,
{
    let mut s = String::new();
    let mut i: usize = 0;
    while i < v.len()
        invariant
            i <= v.len(),
            s@ == v@.take(i as int),
        decreases v.len() - i,
    {
        s.push(v[i]);
        i += 1;
    }
    s
}

/// A copy of the characters in `[from, to)`.
pub fn slice(v: &Vec<char>, from: usize, to: usize) -> (r: Vec<char>)
    requires
        from <= to <= v.len(),
    ensures
        r@ == v@.subrange(from as int, to as int),
{
    let mut r: Vec<char> = Vec::new();
    let mut i: usize = from;
    while i < to
        invariant
            from <= i <= to <= v.len(),
            r@ == v@.subrange(from as int, i as int),
        decreases to - i,
    {
        r.push(v[i]);
        i += 1;
    }
    r
}

/// Appends all of `tail` to `head`.
pub fn append(head: &mut Vec<char>, tail: &Vec<char>)
    ensures
        final(head)@ == old(head)@ + tail@,
{
    let mut i: usize = 0;
    while i < tail.len()
        invariant
            i <= tail.len(),
            head@ == old(head)@ + tail@.take(i as int),
        decreases tail.len() - i,
    {
        head.push(tail[i]);
        i += 1;
    }
    assert(tail@.take(tail.len() as int) == tail@);
}

/// Appends the characters of a string slice to `head`.
pub fn append_str(head: &mut Vec<char>, tail: &str)
    ensures
        final(head)@ == old(head)@ + tail@,
{
    let t = chars_of(tail);
    append(head, &t);
}

/// Whether two texts hold the same characters.
pub fn text_eq(a: &Vec<char>, b: &Vec<char>) -> (r: bool)
    ensures
        r == (a@ == b@),
{
    if a.len() != b.len() {
        return false;
    }
    let mut i: usize = 0;
    while i < a.len()
        invariant
            i <= a.len(),
            a.len() == b.len(),
            forall|j: int| 0 <= j < i ==> a@[j] == b@[j],
        decreases a.len() - i,
    {
        if a[i] != b[i] {
            return false;
        }
        i += 1;
    }
    assert(a@ =~= b@);
    true
}

/// Whether two string slices hold the same characters.
pub fn str_eq(a: &str, b: &str) -> (r: bool)
    ensures
        r == (a@ == b@),
{
    let x = chars_of(a);
    let y = chars_of(b);
    text_eq(&x, &y)
}

/// Whether a text equals the characters of a string slice.
pub fn text_is(a: &Vec<char>, b: &str) -> (r: bool)
    ensures
        r == (a@ == b@),
{
    let t = chars_of(b);
    text_eq(a, &t)
}

/// Unicode `White_Space`, as `char::is_whitespace` has it.
pub open spec fn is_whitespace(c: char) -> bool {
    ||| ('\u{9}' <= c && c <= '\u{d}')
    ||| c == ' '
    ||| c == '\u{85}'
    ||| c == '\u{a0}'
    ||| c == '\u{1680}'
    ||| ('\u{2000}' <= c && c <= '\u{200a}')
    ||| c == '\u{2028}'
    ||| c == '\u{2029}'
    ||| c == '\u{202f}'
    ||| c == '\u{205f}'
    ||| c == '\u{3000}'
}

/// Whether a character is white space.
pub fn char_is_whitespace(c: char) -> (b: bool)
    ensures
        b == is_whitespace(c),
{
    ('\u{9}' <= c && c <= '\u{d}') || c == ' ' || c == '\u{85}' || c == '\u{a0}' || c
        == '\u{1680}' || ('\u{2000}' <= c && c <= '\u{200a}') || c == '\u{2028}' || c
        == '\u{2029}' || c == '\u{202f}' || c == '\u{205f}' || c == '\u{3000}'
}

/// `pat` occurs in `s` starting at index `i`.
pub open spec fn matches_at(s: Seq<char>, pat: Seq<char>, i: int) -> bool {
    0 <= i && i + pat.len() <= s.len() && s.subrange(i, i + pat.len()) == pat
}

/// The first index at or after `i` where `pat` occurs in `s`.
pub open spec fn find_from(s: Seq<char>, pat: Seq<char>, i: int) -> Option<int>
    decreases s.len() - i,
{
    if i < 0 || i + pat.len() > s.len() {
        None
    } else if matches_at(s, pat, i) {
        Some(i)
    } else if i >= s.len() {
        None
    } else {
        find_from(s, pat, i + 1)
    }
}

/// The index of the first occurrence of `pat` in `s`.
pub open spec fn find(s: Seq<char>, pat: Seq<char>) -> Option<int> {
    find_from(s, pat, 0)
}

/// `pat` occurs somewhere in `s`.
pub open spec fn contains(s: Seq<char>, pat: Seq<char>) -> bool {
    find(s, pat) is Some
}

/// `s` begins with `pat`.
pub open spec fn starts_with(s: Seq<char>, pat: Seq<char>) -> bool {
    matches_at(s, pat, 0)
}

/// The index of the last occurrence of `c` in `s` before index `j`.
pub open spec fn rfind_char_to(s: Seq<char>, c: char, j: int) -> Option<int>
    decreases j,
{
    if j <= 0 || j > s.len() {
        None
    } else if s[j - 1] == c {
        Some(j - 1)
    } else {
        rfind_char_to(s, c, j - 1)
    }
}

/// The index of the last occurrence of `c` in `s`.
pub open spec fn rfind_char(s: Seq<char>, c: char) -> Option<int> {
    rfind_char_to(s, c, s.len() as int)
}

/// A machine index as the mathematical index it stands for.
pub open spec fn index_of(r: Option<usize>) -> Option<int> {
    match r {
        Some(i) => Some(i as int),
        None => None,
    }
}

/// What `find_from` answers is a place where `pat` occurs, and the first such
/// place at or after `i`.
pub proof fn lemma_find_from(s: Seq<char>, pat: Seq<char>, i: int)
    requires
        0 <= i,
    ensures
        match find_from(s, pat, i) {
            Some(k) => i <= k && matches_at(s, pat, k) && forall|j: int|
                i <= j < k ==> !matches_at(s, pat, j),
            None => forall|j: int| i <= j ==> !matches_at(s, pat, j),
        },
    decreases s.len() - i,
{
    if i + pat.len() > s.len() {
    } else if matches_at(s, pat, i) {
    } else if i >= s.len() {
    } else {
        lemma_find_from(s, pat, i + 1);
    }
}

/// A place where `pat` occurs, with none before it from `i` on, is what
/// `find_from` answers.
pub proof fn lemma_find_is(s: Seq<char>, pat: Seq<char>, i: int, k: int)
    requires
        0 <= i <= k,
        matches_at(s, pat, k),
        forall|j: int| i <= j < k ==> !matches_at(s, pat, j),
    ensures
        find_from(s, pat, i) == Some(k),
    decreases k - i,
{
    if i < k {
        lemma_find_is(s, pat, i + 1, k);
    }
}

/// Where `pat` occurs nowhere from `i` on, `find_from` answers nothing.
pub proof fn lemma_find_none(s: Seq<char>, pat: Seq<char>, i: int)
    requires
        0 <= i,
        forall|j: int| i <= j ==> !matches_at(s, pat, j),
    ensures
        find_from(s, pat, i) is None,
    decreases s.len() - i,
{
    if i + pat.len() <= s.len() && i < s.len() {
        lemma_find_none(s, pat, i + 1);
    }
}

/// What `rfind_char_to` answers is a place where `c` stands, and the last such
/// place before `j`.
pub proof fn lemma_rfind_char_to(s: Seq<char>, c: char, j: int)
    requires
        j <= s.len(),
    ensures
        match rfind_char_to(s, c, j) {
            Some(k) => 0 <= k < j && s[k] == c && forall|m: int| k < m < j ==> s[m] != c,
            None => forall|m: int| 0 <= m < j ==> s[m] != c,
        },
    decreases j,
{
    if j <= 0 {
    } else if s[j - 1] == c {
    } else {
        lemma_rfind_char_to(s, c, j - 1);
    }
}

/// Whether `pat` occurs in `s` starting at index `i`.
pub fn text_matches_at(s: &Vec<char>, pat: &Vec<char>, i: usize) -> (b: bool)
    ensures
        b == matches_at(s@, pat@, i as int),
{
    if pat.len() > s.len() || i > s.len() - pat.len() {
        return false;
    }
    let mut k: usize = 0;
    while k < pat.len()
        invariant
            k <= pat.len(),
            i + pat.len() <= s.len(),
            forall|j: int| 0 <= j < k ==> s@[i + j] == pat@[j],
        decreases pat.len() - k,
    {
        if s[i + k] != pat[k] {
            assert(s@.subrange(i as int, i + pat.len())[k as int] == s@[i + k]);
            return false;
        }
        k += 1;
    }
    assert(s@.subrange(i as int, i + pat.len()) =~= pat@);
    true
}

/// The first index at or after `start` where `pat` occurs in `s`.
pub fn text_find_from(s: &Vec<char>, pat: &Vec<char>, start: usize) -> (r: Option<usize>)
    ensures
        index_of(r) == find_from(s@, pat@, start as int),
{
    let mut i: usize = start;
    loop
        invariant
            start <= i,
            find_from(s@, pat@, start as int) == find_from(s@, pat@, i as int),
        decreases s.len() - i,
    {
        if pat.len() > s.len() || i > s.len() - pat.len() {
            return None;
        }
        if text_matches_at(s, pat, i) {
            return Some(i);
        }
        if i >= s.len() {
            return None;
        }
        i += 1;
    }
}

/// The index of the first occurrence of `pat` in `s`.
pub fn text_find(s: &Vec<char>, pat: &str) -> (r: Option<usize>)
    ensures
        index_of(r) == find(s@, pat@),
{
    let p = chars_of(pat);
    text_find_from(s, &p, 0)
}

/// Whether `pat` occurs somewhere in `s`.
pub fn text_contains(s: &Vec<char>, pat: &str) -> (b: bool)
    ensures
        b == contains(s@, pat@),
{
    text_find(s, pat).is_some()
}

/// Whether `s` begins with `pat`.
pub fn text_starts_with(s: &Vec<char>, pat: &str) -> (b: bool)
    ensures
        b == starts_with(s@, pat@),
{
    let p = chars_of(pat);
    text_matches_at(s, &p, 0)
}

/// The index of the last occurrence of `c` in `s`.
pub fn text_rfind_char(s: &Vec<char>, c: char) -> (r: Option<usize>)
    ensures
        index_of(r) == rfind_char(s@, c),
{
    let mut j: usize = s.len();
    while j > 0
        invariant
            j <= s.len(),
            rfind_char(s@, c) == rfind_char_to(s@, c, j as int),
        decreases j,
    {
        if s[j - 1] == c {
            return Some(j - 1);
        }
        j -= 1;
    }
    None
}

/// What stands before the first occurrence of `pat`, or all of `s` where
/// `pat` does not occur.
pub open spec fn before_first(s: Seq<char>, pat: Seq<char>) -> Seq<char> {
    match find(s, pat) {
        Some(i) => s.subrange(0, i),
        None => s,
    }
}

/// What stands after the first occurrence of `pat`, where `pat` occurs.
pub open spec fn after_first(s: Seq<char>, pat: Seq<char>) -> Option<Seq<char>> {
    match find(s, pat) {
        Some(i) => Some(s.subrange(i + pat.len(), s.len() as int)),
        None => None,
    }
}

/// The characters of a text, where there is one.
pub open spec fn text_view(r: Option<Vec<char>>) -> Option<Seq<char>> {
    match r {
        Some(t) => Some(t@),
        None => None,
    }
}

/// What stands before the first occurrence of `pat`, or all of `s`.
pub fn text_before(s: &Vec<char>, pat: &str) -> (r: Vec<char>)
    ensures
        r@ == before_first(s@, pat@),
{
    match text_find(s, pat) {
        Some(i) => {
            proof {
                lemma_find_from(s@, pat@, 0);
            }
            slice(s, 0, i)
        },
        None => {
            let r = slice(s, 0, s.len());
            assert(r@ =~= s@);
            r
        },
    }
}

/// What stands after the first occurrence of `pat`, where `pat` occurs.
pub fn text_after(s: &Vec<char>, pat: &str) -> (r: Option<Vec<char>>)
    ensures
        text_view(r) == after_first(s@, pat@),
{
    let p = chars_of(pat);
    match text_find_from(s, &p, 0) {
        Some(i) => {
            let n: usize = p.len();
            proof {
                lemma_find_from(s@, p@, 0);
                assert(matches_at(s@, p@, i as int));
                assert(i + n <= s.len());
            }
            let from: usize = i + n;
            Some(slice(s, from, s.len()))
        },
        None => None,
    }
}

/// `s` without the prefix `pat`, where it starts with it.
pub open spec fn strip_prefix(s: Seq<char>, pat: Seq<char>) -> Option<Seq<char>> {
    if starts_with(s, pat) {
        Some(s.subrange(pat.len() as int, s.len() as int))
    } else {
        None
    }
}

/// `s` without the prefix `pat`, where it starts with it.
pub fn text_strip_prefix(s: &Vec<char>, pat: &str) -> (r: Option<Vec<char>>)
    ensures
        text_view(r) == strip_prefix(s@, pat@),
{
    let p = chars_of(pat);
    if text_matches_at(s, &p, 0) {
        let n: usize = p.len();
        Some(slice(s, n, s.len()))
    } else {
        None
    }
}

/// A copy of a text.
pub fn text_copy(s: &Vec<char>) -> (r: Vec<char>)
    ensures
        r@ == s@,
{
    let r = slice(s, 0, s.len());
    assert(r@ =~= s@);
    r
}

/// Moves all of `more` to the end of `out`.
pub fn extend_texts(out: &mut Vec<Vec<char>>, more: Vec<Vec<char>>)
    ensures
        texts(final(out)@) == texts(old(out)@) + texts(more@),
{
    let mut rest = more;
    out.append(&mut rest);
    assert(texts(out@) =~= texts(old(out)@) + texts(more@));
}

/// Those among the first `n` texts that `keep` holds of, in order.
pub open spec fn kept(items: Seq<Seq<char>>, keep: spec_fn(Seq<char>) -> bool, n: int) -> Seq<
    Seq<char>,
>
    decreases n,
{
    if n <= 0 || n > items.len() {
        Seq::empty()
    } else if keep(items[n - 1]) {
        kept(items, keep, n - 1).push(items[n - 1])
    } else {
        kept(items, keep, n - 1)
    }
}

/// Those of the texts that are not empty.
pub open spec fn non_empty(items: Seq<Seq<char>>) -> Seq<Seq<char>> {
    kept(items, |t: Seq<char>| t.len() > 0, items.len() as int)
}

/// Those of the texts that are not empty.
pub fn texts_non_empty(items: &Vec<Vec<char>>) -> (r: Vec<Vec<char>>)
    ensures
        texts(r@) == non_empty(texts(items@)),
{
    let mut out: Vec<Vec<char>> = Vec::new();
    let mut i: usize = 0;
    while i < items.len()
        invariant
            i <= items.len(),
            texts(out@) == kept(texts(items@), |t: Seq<char>| t.len() > 0, i as int),
        decreases items.len() - i,
    {
        if items[i].len() > 0 {
            let t = slice(&items[i], 0, items[i].len());
            assert(t@ =~= items@[i as int]@);
            assert(texts(out@.push(t)) =~= texts(out@).push(t@));
            out.push(t);
        }
        i += 1;
    }
    out
}

/// The first index at or after `i` that holds no white space.
pub open spec fn skip_whitespace(s: Seq<char>, i: int) -> int
    decreases s.len() - i,
{
    if 0 <= i < s.len() && is_whitespace(s[i]) {
        skip_whitespace(s, i + 1)
    } else {
        i
    }
}

/// The least end `j >= lo` such that `[j, hi)` is all white space.
pub open spec fn skip_whitespace_back(s: Seq<char>, lo: int, hi: int) -> int
    decreases hi,
{
    if lo < hi <= s.len() && 0 < hi && is_whitespace(s[hi - 1]) {
        skip_whitespace_back(s, lo, hi - 1)
    } else {
        hi
    }
}

/// Where the trimmed text starts.
pub open spec fn trim_start_index(s: Seq<char>) -> int {
    skip_whitespace(s, 0)
}

/// Where the trimmed text ends.
pub open spec fn trim_end_index(s: Seq<char>) -> int {
    skip_whitespace_back(s, trim_start_index(s), s.len() as int)
}

/// `s` without its leading and trailing white space.
pub open spec fn trim(s: Seq<char>) -> Seq<char> {
    s.subrange(trim_start_index(s), trim_end_index(s))
}

/// All that `skip_whitespace` passes over is white space, and where it stops
/// there is none.
pub proof fn lemma_skip_whitespace(s: Seq<char>, i: int)
    requires
        0 <= i <= s.len(),
    ensures
        i <= skip_whitespace(s, i) <= s.len(),
        forall|k: int| i <= k < skip_whitespace(s, i) ==> is_whitespace(s[k]),
        skip_whitespace(s, i) < s.len() ==> !is_whitespace(s[skip_whitespace(s, i)]),
    decreases s.len() - i,
{
    if i < s.len() && is_whitespace(s[i]) {
        lemma_skip_whitespace(s, i + 1);
    }
}

/// All that `skip_whitespace_back` passes over is white space, and where it
/// stops there is none.
pub proof fn lemma_skip_whitespace_back(s: Seq<char>, lo: int, hi: int)
    requires
        0 <= lo <= hi <= s.len(),
    ensures
        lo <= skip_whitespace_back(s, lo, hi) <= hi,
        forall|k: int| skip_whitespace_back(s, lo, hi) <= k < hi ==> is_whitespace(s[k]),
        lo < skip_whitespace_back(s, lo, hi) ==> !is_whitespace(
            s[skip_whitespace_back(s, lo, hi) - 1],
        ),
    decreases hi,
{
    if lo < hi && is_whitespace(s[hi - 1]) {
        lemma_skip_whitespace_back(s, lo, hi - 1);
    }
}

/// A text that is white space up to `a`, none at `a` nor just before `b`,
/// and white space from `b` on, trims to what stands between `a` and `b`.
pub proof fn lemma_trim_is(s: Seq<char>, a: int, b: int)
    requires
        0 <= a < b <= s.len(),
        forall|k: int| 0 <= k < a ==> is_whitespace(s[k]),
        !is_whitespace(s[a]),
        !is_whitespace(s[b - 1]),
        forall|k: int| b <= k < s.len() ==> is_whitespace(s[k]),
    ensures
        trim(s) == s.subrange(a, b),
{
    lemma_skip_whitespace(s, 0);
    let start = skip_whitespace(s, 0);
    assert(start == a) by {
        if start < a {
            assert(is_whitespace(s[start]));
        }
        if start > a {
            assert(is_whitespace(s[a]));
        }
    }
    lemma_skip_whitespace_back(s, a, s.len() as int);
    let end = skip_whitespace_back(s, a, s.len() as int);
    assert(end == b) by {
        if end < b {
            assert(is_whitespace(s[b - 1]));
        }
        if end > b {
            assert(is_whitespace(s[end - 1]));
        }
    }
}

/// A text without its leading and trailing white space.
pub fn text_trim(s: &Vec<char>) -> (r: Vec<char>)
    ensures
        r@ == trim(s@),
{
    let mut a: usize = 0;
    while a < s.len() && char_is_whitespace(s[a])
        invariant
            a <= s.len(),
            skip_whitespace(s@, 0) == skip_whitespace(s@, a as int),
        decreases s.len() - a,
    {
        a += 1;
    }
    let mut b: usize = s.len();
    while a < b && char_is_whitespace(s[b - 1])
        invariant
            a <= b <= s.len(),
            skip_whitespace_back(s@, a as int, s.len() as int) == skip_whitespace_back(
                s@,
                a as int,
                b as int,
            ),
        decreases b,
    {
        b -= 1;
    }
    slice(s, a, b)
}

/// The index of the first line feed at or after `i`, or the length of `s`.
pub open spec fn line_end(s: Seq<char>, i: int) -> int
    decreases s.len() - i,
{
    if 0 <= i < s.len() && s[i] != '\n' {
        line_end(s, i + 1)
    } else {
        i
    }
}

/// The line that occupies `[i, e)`, where `e` is its end as `line_end` gives
/// it: a carriage return just before the line feed belongs to the line ending.
pub open spec fn line_at(s: Seq<char>, i: int, e: int) -> Seq<char> {
    if e < s.len() && i < e && s[e - 1] == '\r' {
        s.subrange(i, e - 1)
    } else {
        s.subrange(i, e)
    }
}

/// The lines of `s` from index `i` on, as `str::lines` splits them: at each
/// line feed, without the line ending, and with no empty line after a final
/// line ending.
pub open spec fn lines_from(s: Seq<char>, i: int) -> Seq<Seq<char>>
    decreases s.len() - i,
{
    if i < 0 || i >= s.len() {
        Seq::empty()
    } else {
        let e = line_end(s, i);
        if e < i || e >= s.len() {
            seq![line_at(s, i, e)]
        } else {
            seq![line_at(s, i, e)] + lines_from(s, e + 1)
        }
    }
}

/// The lines of `s`, as `str::lines` splits them.
pub open spec fn lines(s: Seq<char>) -> Seq<Seq<char>> {
    lines_from(s, 0)
}

/// The first line feed at or after `i` is where the line ends.
pub proof fn lemma_line_end_is(s: Seq<char>, i: int, e: int)
    requires
        0 <= i <= e <= s.len(),
        forall|k: int| i <= k < e ==> s[k] != '\n',
        e == s.len() || s[e] == '\n',
    ensures
        line_end(s, i) == e,
    decreases e - i,
{
    if i < e {
        lemma_line_end_is(s, i + 1, e);
    }
}

/// In a text that ends with a line feed, a line ends where it ends, whatever
/// is put behind the text.
pub proof fn lemma_line_end_in_prefix(x: Seq<char>, t: Seq<char>, i: int)
    requires
        0 <= i < x.len(),
        x.last() == '\n',
    ensures
        line_end(x + t, i) == line_end(x, i),
        i <= line_end(x, i) < x.len(),
        x[line_end(x, i)] == '\n',
    decreases x.len() - i,
{
    assert((x + t)[i] == x[i]);
    if x[i] != '\n' {
        if i + 1 < x.len() {
            lemma_line_end_in_prefix(x, t, i + 1);
        }
    }
}

/// Behind a text, lines end where they end without it, moved by its length.
pub proof fn lemma_line_end_shifted(x: Seq<char>, t: Seq<char>, j: int)
    requires
        0 <= j <= t.len(),
    ensures
        line_end(x + t, x.len() + j) == x.len() + line_end(t, j),
        j <= line_end(t, j) <= t.len(),
    decreases t.len() - j,
{
    if j < t.len() {
        assert((x + t)[x.len() + j] == t[j]);
        if t[j] != '\n' {
            lemma_line_end_shifted(x, t, j + 1);
        }
    }
}

/// Behind a text, the lines from a place on are the lines from that place on
/// without it.
pub proof fn lemma_lines_shifted(x: Seq<char>, t: Seq<char>, j: int)
    requires
        0 <= j <= t.len(),
    ensures
        lines_from(x + t, x.len() + j) == lines_from(t, j),
    decreases t.len() - j,
{
    if j < t.len() {
        lemma_line_end_shifted(x, t, j);
        let e = line_end(t, j);
        let xl = x.len() as int;
        assert(line_at(x + t, xl + j, xl + e) =~= line_at(t, j, e)) by {
            if j < e {
                assert((x + t)[xl + e - 1] == t[e - 1]);
            }
        }
        if e < t.len() {
            lemma_lines_shifted(x, t, e + 1);
        }
    }
}

/// The lines of two texts put together are the lines of the first and then
/// the lines of the second, where the first is empty or ends with a line
/// feed.
pub proof fn lemma_lines_of_joined(x: Seq<char>, t: Seq<char>, i: int)
    requires
        0 <= i <= x.len(),
        x.len() == 0 || x.last() == '\n',
    ensures
        lines_from(x + t, i) == lines_from(x, i) + lines_from(t, 0),
    decreases x.len() - i,
{
    if i == x.len() {
        lemma_lines_shifted(x, t, 0);
        assert(lines_from(x, i) + lines_from(t, 0) =~= lines_from(t, 0));
    } else {
        lemma_line_end_in_prefix(x, t, i);
        let e = line_end(x, i);
        assert(line_at(x + t, i, e) =~= line_at(x, i, e)) by {
            if i < e {
                assert((x + t)[e - 1] == x[e - 1]);
            }
        }
        lemma_lines_of_joined(x, t, e + 1);
        assert(lines_from(x + t, i) =~= lines_from(x, i) + lines_from(t, 0)) by {
            if e + 1 == x.len() {
                assert(lines_from(x, e + 1) =~= Seq::<Seq<char>>::empty());
                assert(lines_from(x, i) =~= seq![line_at(x, i, e)] + lines_from(x, e + 1)) by {
                    assert(lines_from(x, e + 1).len() == 0);
                }
            }
        }
    }
}

/// The texts that a vector of character vectors holds.
pub open spec fn texts(v: Seq<Vec<char>>) -> Seq<Seq<char>> {
    Seq::new(v.len(), |i: int| v[i]@)
}

/// The lines of a text.
pub fn text_lines(s: &Vec<char>) -> (r: Vec<Vec<char>>)
    ensures
        texts(r@) == lines(s@),
{
    let mut out: Vec<Vec<char>> = Vec::new();
    let mut i: usize = 0;
    while i < s.len()
        invariant
            i <= s.len(),
            lines(s@) == texts(out@) + lines_from(s@, i as int),
        decreases s.len() - i,
    {
        let mut e: usize = i;
        while e < s.len() && s[e] != '\n'
            invariant
                i <= e <= s.len(),
                line_end(s@, i as int) == line_end(s@, e as int),
            decreases s.len() - e,
        {
            e += 1;
        }
        let line = if e < s.len() && i < e && s[e - 1] == '\r' {
            slice(s, i, e - 1)
        } else {
            slice(s, i, e)
        };
        let next: usize = if e < s.len() {
            e + 1
        } else {
            e
        };
        proof {
            assert(line@ == line_at(s@, i as int, e as int));
            assert(texts(out@.push(line)) =~= texts(out@) + seq![line@]);
            assert(lines_from(s@, i as int) =~= seq![line@] + lines_from(s@, next as int));
            assert(texts(out@) + (seq![line@] + lines_from(s@, next as int)) =~= (texts(out@)
                + seq![line@]) + lines_from(s@, next as int));
        }
        out.push(line);
        i = next;
    }
    assert(texts(out@) + lines_from(s@, i as int) =~= texts(out@));
    out
}

/// The parts in order with `sep` between each two neighbours.
pub open spec fn join(parts: Seq<Seq<char>>, sep: Seq<char>) -> Seq<char>
    decreases parts.len(),
{
    if parts.len() == 0 {
        Seq::empty()
    } else if parts.len() == 1 {
        parts[0]
    } else {
        join(parts.drop_last(), sep) + sep + parts.last()
    }
}

/// The parts in order with `sep` between each two neighbours.
pub fn text_join(parts: &Vec<Vec<char>>, sep: &str) -> (r: Vec<char>)
    ensures
        r@ == join(texts(parts@), sep@),
{
    let mut out: Vec<char> = Vec::new();
    let mut i: usize = 0;
    while i < parts.len()
        invariant
            i <= parts.len(),
            out@ == join(texts(parts@).take(i as int), sep@),
        decreases parts.len() - i,
    {
        proof {
            let next = texts(parts@).take(i + 1);
            assert(next.drop_last() =~= texts(parts@).take(i as int));
            assert(next.last() == parts@[i as int]@);
        }
        if i > 0 {
            append_str(&mut out, sep);
        }
        append(&mut out, &parts[i]);
        i += 1;
    }
    assert(texts(parts@).take(parts.len() as int) =~= texts(parts@));
    out
}

/// The strings that hold the given texts.
pub fn strings_of(parts: &Vec<Vec<char>>) -> (r: Vec<String>)
    ensures
        r.deep_view() == texts(parts@),
{
    let mut out: Vec<String> = Vec::new();
    let mut i: usize = 0;
    while i < parts.len()
        invariant
            i <= parts.len(),
            out.len() == i,
            out.deep_view() == texts(parts@).take(i as int),
        decreases parts.len() - i,
    {
        let s = string_of(&parts[i]);
        proof {
            assert(out@.push(s).len() == i + 1);
            assert(Seq::new(out@.push(s).len(), |k: int| out@.push(s)[k].deep_view()) =~= texts(
                parts@,
            ).take(i + 1)) by {
                assert forall|k: int| 0 <= k < i implies out@.push(s)[k].deep_view() == texts(
                    parts@,
                )[k] by {
                    assert(out.deep_view()[k] == out@[k].deep_view());
                }
            }
        }
        out.push(s);
        i += 1;
    }
    assert(texts(parts@).take(parts.len() as int) =~= texts(parts@));
    out
}

} // verus!
