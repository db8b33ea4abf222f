//! Scanning of header text: character search, trimming, word splitting and
//! case-insensitive comparison, over strings seen as sequences of characters.

use vstd::prelude::*;
use vstd::string::*;

verus! {

/// Whether `c` has the Unicode property White_Space.
pub open spec fn is_whitespace(c: char) -> bool {
    let n = c as u32;
    ||| 0x09 <= n <= 0x0D
    ||| n == 0x20
    ||| n == 0x85
    ||| n == 0xA0
    ||| n == 0x1680
    ||| 0x2000 <= n <= 0x200A
    ||| n == 0x2028
    ||| n == 0x2029
    ||| n == 0x202F
    ||| n == 0x205F
    ||| n == 0x3000
}

/// The least index at or after `from` at which `s` holds `c`, or the length of `s`.
pub open spec fn position_from(s: Seq<char>, c: char, from: int) -> int
    decreases s.len() - from,
{
    if 0 <= from < s.len() && s[from] != c {
        position_from(s, c, from + 1)
    } else {
        from
    }
}

/// The least index at which `s` holds `c`, or the length of `s` where it holds none.
pub open spec fn position(s: Seq<char>, c: char) -> int {
    position_from(s, c, 0)
}

/// The least index at or after `from` at which `s` holds no whitespace, or its length.
pub open spec fn skip_whitespace(s: Seq<char>, from: int) -> int
    decreases s.len() - from,
{
    if 0 <= from < s.len() && is_whitespace(s[from]) {
        skip_whitespace(s, from + 1)
    } else {
        from
    }
}

/// The least index at or after `from` at which `s` holds whitespace, or its length.
pub open spec fn word_end(s: Seq<char>, from: int) -> int
    decreases s.len() - from,
{
    if 0 <= from < s.len() && !is_whitespace(s[from]) {
        word_end(s, from + 1)
    } else {
        from
    }
}

/// The end of `s[low..high]` once its trailing whitespace is dropped.
pub open spec fn drop_trailing_whitespace(s: Seq<char>, low: int, high: int) -> int
    decreases high - low,
{
    if low < high <= s.len() && is_whitespace(s[high - 1]) {
        drop_trailing_whitespace(s, low, high - 1)
    } else {
        high
    }
}

/// `s` without leading and trailing whitespace.
pub open spec fn trimmed(s: Seq<char>) -> Seq<char> {
    let low = skip_whitespace(s, 0);
    s.subrange(low, drop_trailing_whitespace(s, low, s.len() as int))
}

/// The maximal runs of non-whitespace characters of `s` that start at or after
/// `from`, in order.
pub open spec fn words_from(s: Seq<char>, from: int) -> Seq<Seq<char>>
    decreases s.len() - from,
{
    if from < 0 || from >= s.len() {
        Seq::empty()
    } else if is_whitespace(s[from]) {
        words_from(s, from + 1)
    } else {
        proof {
            lemma_word_end_bounds(s, from + 1);
        }
        seq![s.subrange(from, word_end(s, from + 1))] + words_from(s, word_end(s, from + 1))
    }
}

/// The whitespace-separated words of `s`, in order.
pub open spec fn words(s: Seq<char>) -> Seq<Seq<char>> {
    words_from(s, 0)
}

/// Whether `s` begins with `prefix`.
pub open spec fn has_prefix(s: Seq<char>, prefix: Seq<char>) -> bool {
    prefix.len() <= s.len() && s.subrange(0, prefix.len() as int) == prefix
}

/// `c` with an ASCII capital letter turned into its small letter.
pub open spec fn ascii_lower(c: char) -> char {
    if 'A' <= c <= 'Z' {
        ((c as u8) + 32) as char
    } else {
        c
    }
}

/// Whether `a` and `b` are equal once ASCII letters are compared without case.
pub open spec fn eq_ignore_ascii_case(a: Seq<char>, b: Seq<char>) -> bool {
    a.len() == b.len() && forall|i: int| 0 <= i < a.len() ==> ascii_lower(#[trigger] a[i])
        == ascii_lower(b[i])
}

/// The character sequences of a list of strings.
pub open spec fn views(list: Seq<String>) -> Seq<Seq<char>> {
    list.map_values(|s: String| s@)
}

/// A word ends at or after the place the search for its end began, within the text.
pub proof fn lemma_word_end_bounds(s: Seq<char>, from: int)
    requires
        0 <= from <= s.len(),
    ensures
        from <= word_end(s, from) <= s.len(),
        word_end(s, from) < s.len() ==> is_whitespace(s[word_end(s, from)]),
        forall|i: int| from <= i < word_end(s, from) ==> !is_whitespace(#[trigger] s[i]),
    decreases s.len() - from,
{
    if from < s.len() && !is_whitespace(s[from]) {
        lemma_word_end_bounds(s, from + 1);
    }
}

/// Leading whitespace ends within the text, at a character that is none.
pub proof fn lemma_skip_whitespace_bounds(s: Seq<char>, from: int)
    requires
        0 <= from <= s.len(),
    ensures
        from <= skip_whitespace(s, from) <= s.len(),
        skip_whitespace(s, from) < s.len() ==> !is_whitespace(s[skip_whitespace(s, from)]),
    decreases s.len() - from,
{
    if from < s.len() && is_whitespace(s[from]) {
        lemma_skip_whitespace_bounds(s, from + 1);
    }
}

/// Trailing whitespace begins within the range, after a character that is none.
pub proof fn lemma_drop_trailing_whitespace_bounds(s: Seq<char>, low: int, high: int)
    requires
        0 <= low <= high <= s.len(),
    ensures
        low <= drop_trailing_whitespace(s, low, high) <= high,
        drop_trailing_whitespace(s, low, high) > low ==> !is_whitespace(
            s[drop_trailing_whitespace(s, low, high) - 1],
        ),
    decreases high - low,
{
    if low < high && is_whitespace(s[high - 1]) {
        lemma_drop_trailing_whitespace_bounds(s, low, high - 1);
    }
}

/// A trimmed text neither begins nor ends with whitespace, so trimming it again
/// leaves it as it is.
pub proof fn lemma_trimmed_is_trimmed(s: Seq<char>)
    ensures
        trimmed(trimmed(s)) == trimmed(s),
        trimmed(s).len() > 0 ==> !is_whitespace(trimmed(s)[0]) && !is_whitespace(
            trimmed(s).last(),
        ),
{
    let low = skip_whitespace(s, 0);
    lemma_skip_whitespace_bounds(s, 0);
    let high = drop_trailing_whitespace(s, low, s.len() as int);
    lemma_drop_trailing_whitespace_bounds(s, low, s.len() as int);
    let t = trimmed(s);
    assert(t == s.subrange(low, high));
    if t.len() > 0 {
        assert(t[0] == s[low]);
        assert(t.last() == s[high - 1]);
        assert(skip_whitespace(t, 0) == 0);
        assert(drop_trailing_whitespace(t, 0, t.len() as int) == t.len());
    } else {
        assert(skip_whitespace(t, 0) == 0);
        assert(drop_trailing_whitespace(t, 0, 0) == 0);
    }
    assert(t.subrange(0, t.len() as int) =~= t);
}

/// Whether `c` has the Unicode property White_Space.
pub fn char_is_whitespace(c: char) -> (b: bool)
    ensures
        b == is_whitespace(c),
{
    let n: u32 = c as u32;
    (0x09 <= n && n <= 0x0D) || n == 0x20 || n == 0x85 || n == 0xA0 || n == 0x1680 || (0x2000 <= n
        && n <= 0x200A) || n == 0x2028 || n == 0x2029 || n == 0x202F || n == 0x205F || n == 0x3000
}

/// The index of the first `c` in `s`, counted in characters.
pub fn find_char(s: &str, c: char) -> (found: Option<usize>)
    ensures
        match found {
            Some(i) => i == position(s@, c) && i < s@.len() && s@[i as int] == c,
            None => position(s@, c) == s@.len() && !s@.contains(c),
        },
{
    let n: usize = s.unicode_len();
    let mut i: usize = 0;
    while i < n
        invariant
            n == s@.len(),
            i <= n,
            position(s@, c) == position_from(s@, c, i as int),
            forall|k: int| 0 <= k < i ==> s@[k] != c,
        decreases n - i,
    {
        if s.get_char(i) == c {
            return Some(i);
        }
        i += 1;
    }
    None
}

/// `s` without leading and trailing whitespace.
pub fn trim(s: &str) -> (out: String)
    ensures
        out@ == trimmed(s@),
{
    let n: usize = s.unicode_len();
    let mut low: usize = 0;
    while low < n && char_is_whitespace(s.get_char(low))
        invariant
            n == s@.len(),
            low <= n,
            skip_whitespace(s@, 0) == skip_whitespace(s@, low as int),
        decreases n - low,
    {
        low += 1;
    }
    let mut high: usize = n;
    while low < high && char_is_whitespace(s.get_char(high - 1))
        invariant
            n == s@.len(),
            low <= high <= n,
            drop_trailing_whitespace(s@, low as int, n as int) == drop_trailing_whitespace(
                s@,
                low as int,
                high as int,
            ),
        decreases high - low,
    {
        high -= 1;
    }
    String::from_str(s.substring_char(low, high))
}

/// The whitespace-separated words of `s`, in order.
pub fn split_whitespace(s: &str) -> (out: Vec<String>)
    ensures
        views(out@) == words(s@),
{
    let n: usize = s.unicode_len();
    let mut out: Vec<String> = Vec::new();
    let mut i: usize = 0;
    while i < n
        invariant
            n == s@.len(),
            i <= n,
            words(s@) == views(out@) + words_from(s@, i as int),
        decreases n - i,
    {
        if char_is_whitespace(s.get_char(i)) {
            i += 1;
        } else {
            let start: usize = i;
            i += 1;
            while i < n && !char_is_whitespace(s.get_char(i))
                invariant
                    n == s@.len(),
                    start < i <= n,
                    word_end(s@, start + 1) == word_end(s@, i as int),
                decreases n - i,
            {
                i += 1;
            }
            let word = String::from_str(s.substring_char(start, i));
            proof {
                let before = views(out@);
                let grown = views(out@.push(word));
                assert(grown =~= before.push(word@));
                assert(before + (seq![word@] + words_from(s@, i as int)) =~= before.push(word@)
                    + words_from(s@, i as int));
            }
            out.push(word);
        }
    }
    proof {
        assert(views(out@) + Seq::<Seq<char>>::empty() =~= views(out@));
    }
    out
}

/// Whether `s` begins with `prefix`.
pub fn starts_with(s: &str, prefix: &str) -> (b: bool)
    ensures
        b == has_prefix(s@, prefix@),
{
    let n: usize = s.unicode_len();
    let m: usize = prefix.unicode_len();
    if m > n {
        return false;
    }
    let mut i: usize = 0;
    while i < m
        invariant
            n == s@.len(),
            m == prefix@.len(),
            m <= n,
            i <= m,
            forall|k: int| 0 <= k < i ==> s@[k] == prefix@[k],
        decreases m - i,
    {
        if s.get_char(i) != prefix.get_char(i) {
            proof {
                assert(s@.subrange(0, m as int)[i as int] == s@[i as int]);
            }
            return false;
        }
        i += 1;
    }
    proof {
        assert(s@.subrange(0, m as int) =~= prefix@);
    }
    true
}

/// `c` with an ASCII capital letter turned into its small letter.
pub fn char_ascii_lower(c: char) -> (out: char)
    ensures
        out == ascii_lower(c),
{
    if 'A' <= c && c <= 'Z' {
        ((c as u8) + 32) as char
    } else {
        c
    }
}

/// Whether `a` and `b` are equal once ASCII letters are compared without case.
pub fn str_eq_ignore_ascii_case(a: &str, b: &str) -> (same: bool)
    ensures
        same == eq_ignore_ascii_case(a@, b@),
{
    let n: usize = a.unicode_len();
    if b.unicode_len() != n {
        return false;
    }
    let mut i: usize = 0;
    while i < n
        invariant
            n == a@.len(),
            n == b@.len(),
            i <= n,
            forall|k: int| 0 <= k < i ==> ascii_lower(#[trigger] a@[k]) == ascii_lower(b@[k]),
        decreases n - i,
    {
        if char_ascii_lower(a.get_char(i)) != char_ascii_lower(b.get_char(i)) {
            return false;
        }
        i += 1;
    }
    true
}

} // verus!
