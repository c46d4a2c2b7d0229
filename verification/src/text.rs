//! Text handling with exact contracts: splitting, trimming, searching and decimal numbers.
//!
//! Every function speaks of a text as the sequence of its characters.
use vstd::prelude::*;
use vstd::string::*;
use vstd::utf8::*;

verus! {

/// The texts that a list of string slices holds.
pub open spec fn texts(parts: Seq<&str>) -> Seq<Seq<char>> {
    parts.map_values(|part: &str| part@)
}

/// Whether two texts hold the same characters.
pub fn same_text(a: &str, b: &str) -> (same: bool)
    ensures
        same == (a@ == b@),
{
    let x = a.as_bytes();
    let y = b.as_bytes();
    proof {
        encode_utf8_decode_utf8(a@);
        encode_utf8_decode_utf8(b@);
    }
    if x.len() != y.len() {
        return false;
    }
    let mut i: usize = 0;
    while i < x.len()
        invariant
            i <= x.len(),
            x.len() == y.len(),
            x@ == encode_utf8(a@),
            y@ == encode_utf8(b@),
            x@.take(i as int) == y@.take(i as int),
        decreases x.len() - i,
    {
        if x[i] != y[i] {
            assert(x@[i as int] != y@[i as int]);
            return false;
        }
        assert(x@.take(i + 1) =~= x@.take(i as int).push(x@[i as int]));
        assert(y@.take(i + 1) =~= y@.take(i as int).push(y@[i as int]));
        i = i + 1;
    }
    assert(x@ =~= x@.take(i as int));
    assert(y@ =~= y@.take(i as int));
    true
}

/// The characters of a text, in order.
pub fn chars_of(text: &str) -> (chars: Vec<char>)
    ensures
        chars@ == text@,
{
    let mut chars: Vec<char> = Vec::new();
    for c in iter: text.chars()
        invariant
            chars@ == text@.take(iter.index() as int),
            iter.seq() == text@,
    {
        assert(text@.take(iter.index() + 1) =~= text@.take(iter.index() as int).push(c));
        chars.push(c);
    }
    assert(text@.take(text@.len() as int) =~= text@);
    chars
}

/// Whether a character is white space: the Unicode property `White_Space`.
pub open spec fn is_space(c: char) -> bool {
    ||| '\u{9}' <= c <= '\u{d}'
    ||| c == ' '
    ||| c == '\u{85}'
    ||| c == '\u{a0}'
    ||| c == '\u{1680}'
    ||| '\u{2000}' <= c <= '\u{200a}'
    ||| c == '\u{2028}'
    ||| c == '\u{2029}'
    ||| c == '\u{202f}'
    ||| c == '\u{205f}'
    ||| c == '\u{3000}'
}

pub fn space(c: char) -> (space: bool)
    ensures
        space == is_space(c),
{
    ('\u{9}' <= c && c <= '\u{d}') || c == ' ' || c == '\u{85}' || c == '\u{a0}' || c == '\u{1680}'
        || ('\u{2000}' <= c && c <= '\u{200a}') || c == '\u{2028}' || c == '\u{2029}' || c
        == '\u{202f}' || c == '\u{205f}' || c == '\u{3000}'
}

/// How many characters precede the first white space of a text.
pub open spec fn word_len(s: Seq<char>) -> nat
    decreases s.len(),
{
    if s.len() == 0 || is_space(s[0]) {
        0
    } else {
        1 + word_len(s.skip(1))
    }
}

/// The words of a text: its longest runs without white space.
pub open spec fn words(s: Seq<char>) -> Seq<Seq<char>>
    decreases s.len(),
{
    if s.len() == 0 {
        Seq::empty()
    } else if is_space(s[0]) {
        words(s.skip(1))
    } else {
        proof {
            lemma_word_len(s);
        }
        seq![s.take(word_len(s) as int)] + words(s.skip(word_len(s) as int))
    }
}

/// A first word is no longer than its text.
pub proof fn lemma_word_len(s: Seq<char>)
    ensures
        word_len(s) <= s.len(),
    decreases s.len(),
{
    if s.len() != 0 && !is_space(s[0]) {
        lemma_word_len(s.skip(1));
    }
}

proof fn lemma_word_len_is(s: Seq<char>, n: int)
    requires
        0 <= n <= s.len(),
        forall|i: int| 0 <= i < n ==> !is_space(#[trigger] s[i]),
        n < s.len() ==> is_space(s[n]),
    ensures
        word_len(s) == n,
    decreases s.len(),
{
    if n > 0 {
        assert forall|i: int| 0 <= i < n - 1 implies !is_space(#[trigger] s.skip(1)[i]) by {
            assert(s.skip(1)[i] == s[i + 1]);
        }
        lemma_word_len_is(s.skip(1), n - 1);
    }
}

/// Splits a text into its words.
pub fn split_whitespace<'a>(text: &'a str) -> (parts: Vec<&'a str>)
    ensures
        texts(parts@) == words(text@),
{
    let chars = chars_of(text);
    let mut parts: Vec<&'a str> = Vec::new();
    let mut i: usize = 0;
    assert(chars@.skip(0) =~= chars@);
    assert(texts(parts@) + words(chars@.skip(0)) =~= words(text@));
    while i < chars.len()
        invariant
            chars@ == text@,
            i <= chars.len(),
            texts(parts@) + words(chars@.skip(i as int)) == words(text@),
        decreases chars.len() - i,
    {
        let ghost rest = chars@.skip(i as int);
        if space(chars[i]) {
            assert(rest.skip(1) =~= chars@.skip(i + 1));
            i = i + 1;
        } else {
            let mut j: usize = i + 1;
            while j < chars.len() && !space(chars[j])
                invariant
                    i < j <= chars.len(),
                    forall|k: int| i <= k < j ==> !is_space(#[trigger] chars@[k]),
                decreases chars.len() - j,
            {
                j = j + 1;
            }
            let part = text.substring_char(i, j);
            proof {
                assert forall|k: int| 0 <= k < j - i implies !is_space(#[trigger] rest[k]) by {
                    assert(rest[k] == chars@[i + k]);
                }
                if j < chars.len() {
                    assert(rest[j - i] == chars@[j as int]);
                }
                lemma_word_len_is(rest, j - i);
                assert(rest.take(j - i) =~= part@);
                assert(rest.skip(j - i) =~= chars@.skip(j as int));
                assert(texts(parts@.push(part)) =~= texts(parts@).push(part@));
                assert(texts(parts@).push(part@) + words(chars@.skip(j as int)) =~= texts(parts@)
                    + (seq![part@] + words(chars@.skip(j as int))));
            }
            parts.push(part);
            i = j;
        }
    }
    assert(texts(parts@) + words(chars@.skip(i as int)) =~= texts(parts@));
    parts
}

/// How many characters precede the first line feed of a text.
pub open spec fn line_len(s: Seq<char>) -> nat
    decreases s.len(),
{
    if s.len() == 0 || s[0] == '\n' {
        0
    } else {
        1 + line_len(s.skip(1))
    }
}

/// A line without the carriage return that belongs to its line ending.
pub open spec fn without_carriage_return(s: Seq<char>) -> Seq<char> {
    if s.len() > 0 && s.last() == '\r' {
        s.drop_last()
    } else {
        s
    }
}

/// The lines of a text. A line ends in a line feed, before which a carriage return may stand;
/// the last line may lack its ending, and then keeps all its characters.
pub open spec fn text_lines(s: Seq<char>) -> Seq<Seq<char>>
    decreases s.len(),
{
    if s.len() == 0 {
        Seq::empty()
    } else if line_len(s) >= s.len() {
        seq![s]
    } else {
        seq![without_carriage_return(s.take(line_len(s) as int))] + text_lines(
            s.skip(line_len(s) as int + 1),
        )
    }
}

proof fn lemma_line_len_is(s: Seq<char>, n: int)
    requires
        0 <= n <= s.len(),
        forall|i: int| 0 <= i < n ==> #[trigger] s[i] != '\n',
        n < s.len() ==> s[n] == '\n',
    ensures
        line_len(s) == n,
    decreases s.len(),
{
    if n > 0 {
        assert forall|i: int| 0 <= i < n - 1 implies #[trigger] s.skip(1)[i] != '\n' by {
            assert(s.skip(1)[i] == s[i + 1]);
        }
        lemma_line_len_is(s.skip(1), n - 1);
    }
}

/// Splits a text into its lines.
pub fn lines<'a>(text: &'a str) -> (parts: Vec<&'a str>)
    ensures
        texts(parts@) == text_lines(text@),
{
    let chars = chars_of(text);
    let mut parts: Vec<&'a str> = Vec::new();
    let mut i: usize = 0;
    assert(chars@.skip(0) =~= chars@);
    assert(texts(parts@) + text_lines(chars@.skip(0)) =~= text_lines(text@));
    while i < chars.len()
        invariant
            chars@ == text@,
            i <= chars.len(),
            texts(parts@) + text_lines(chars@.skip(i as int)) == text_lines(text@),
        decreases chars.len() - i,
    {
        let ghost rest = chars@.skip(i as int);
        let mut j: usize = i;
        while j < chars.len() && chars[j] != '\n'
            invariant
                i <= j <= chars.len(),
                forall|k: int| i <= k < j ==> #[trigger] chars@[k] != '\n',
            decreases chars.len() - j,
        {
            j = j + 1;
        }
        proof {
            assert forall|k: int| 0 <= k < j - i implies #[trigger] rest[k] != '\n' by {
                assert(rest[k] == chars@[i + k]);
            }
            if j < chars.len() {
                assert(rest[j - i] == chars@[j as int]);
            }
            lemma_line_len_is(rest, j - i);
            assert(rest.take(j - i) =~= chars@.subrange(i as int, j as int));
        }
        let end: usize = if j < chars.len() && j > i && chars[j - 1] == '\r' {
            j - 1
        } else {
            j
        };
        let part = text.substring_char(i, end);
        let ghost tail = if j < chars.len() {
            text_lines(chars@.skip(j + 1))
        } else {
            Seq::empty()
        };
        proof {
            if j < chars.len() {
                assert(rest.skip(j - i + 1) =~= chars@.skip(j + 1));
                assert(part@ =~= without_carriage_return(rest.take(j - i)));
            } else {
                assert(part@ =~= rest);
                assert(seq![part@] + tail =~= seq![rest]);
                assert(chars@.skip(j as int) =~= Seq::empty());
            }
            assert(text_lines(rest) == seq![part@] + tail);
            assert(texts(parts@.push(part)) =~= texts(parts@).push(part@));
            assert(texts(parts@).push(part@) + tail =~= texts(parts@) + (seq![part@] + tail));
        }
        parts.push(part);
        i = if j < chars.len() {
            j + 1
        } else {
            j
        };
    }
    assert(texts(parts@) + text_lines(chars@.skip(i as int)) =~= texts(parts@));
    parts
}

/// Whether `pattern` stands in `s` at position `at`.
pub open spec fn occurs_at(s: Seq<char>, pattern: Seq<char>, at: int) -> bool {
    &&& 0 <= at
    &&& at + pattern.len() <= s.len()
    &&& s.subrange(at, at + pattern.len()) == pattern
}

/// Whether `pattern` stands anywhere in `s`.
pub open spec fn occurs(s: Seq<char>, pattern: Seq<char>) -> bool {
    exists|at: int| occurs_at(s, pattern, at)
}

/// Whether `at` is the first position of `pattern` in `s`.
pub open spec fn first_occurrence(s: Seq<char>, pattern: Seq<char>, at: int) -> bool {
    &&& occurs_at(s, pattern, at)
    &&& forall|earlier: int| earlier < at ==> !occurs_at(s, pattern, earlier)
}

/// Whether a pattern stands at a position of a text, both as lists of characters.
pub fn matches_at(s: &Vec<char>, pattern: &Vec<char>, at: usize) -> (found: bool)
    requires
        at <= s.len(),
    ensures
        found == occurs_at(s@, pattern@, at as int),
{
    if s.len() - at < pattern.len() {
        return false;
    }
    let mut k: usize = 0;
    while k < pattern.len()
        invariant
            k <= pattern.len(),
            at + pattern.len() <= s.len(),
            s@.subrange(at as int, at + k) == pattern@.take(k as int),
        decreases pattern.len() - k,
    {
        if s[at + k] != pattern[k] {
            assert(s@.subrange(at as int, at + pattern.len())[k as int] != pattern@[k as int]);
            return false;
        }
        assert(s@.subrange(at as int, at + k + 1) =~= s@.subrange(at as int, at + k).push(
            s@[at + k],
        ));
        assert(pattern@.take(k + 1) =~= pattern@.take(k as int).push(pattern@[k as int]));
        k = k + 1;
    }
    assert(pattern@.take(k as int) =~= pattern@);
    true
}

/// The first position of a pattern in a text, counted in characters.
pub fn find(text: &str, pattern: &str) -> (position: Option<usize>)
    ensures
        match position {
            Some(at) => first_occurrence(text@, pattern@, at as int),
            None => !occurs(text@, pattern@),
        },
{
    let s = chars_of(text);
    let p = chars_of(pattern);
    let mut at: usize = 0;
    loop
        invariant
            s@ == text@,
            p@ == pattern@,
            at <= s.len(),
            forall|earlier: int| earlier < at ==> !occurs_at(s@, p@, earlier),
        decreases s.len() - at,
    {
        if matches_at(&s, &p, at) {
            return Some(at);
        }
        if at == s.len() {
            return None;
        }
        at = at + 1;
    }
}

/// Whether a text holds a pattern.
pub fn contains(text: &str, pattern: &str) -> (found: bool)
    ensures
        found == occurs(text@, pattern@),
{
    match find(text, pattern) {
        Some(at) => {
            assert(occurs_at(text@, pattern@, at as int));
            true
        },
        None => false,
    }
}

/// A pattern has one first position.
pub proof fn first_occurrence_is_unique(s: Seq<char>, pattern: Seq<char>, a: int, b: int)
    requires
        first_occurrence(s, pattern, a),
        first_occurrence(s, pattern, b),
    ensures
        a == b,
{
    if a < b {
        assert(!occurs_at(s, pattern, a));
    } else if b < a {
        assert(!occurs_at(s, pattern, b));
    }
}

/// The characters before and after the first occurrence of a pattern.
pub open spec fn halves(s: Seq<char>, pattern: Seq<char>) -> Option<(Seq<char>, Seq<char>)> {
    if occurs(s, pattern) {
        let at = choose|at: int| first_occurrence(s, pattern, at);
        Some((s.take(at), s.skip(at + pattern.len())))
    } else {
        None
    }
}

/// The halves of a text are cut at the first position of the pattern.
pub proof fn halves_at(s: Seq<char>, pattern: Seq<char>, at: int)
    requires
        first_occurrence(s, pattern, at),
    ensures
        halves(s, pattern) == Some((s.take(at), s.skip(at + pattern.len()))),
{
    assert(occurs_at(s, pattern, at));
    let chosen = choose|at: int| first_occurrence(s, pattern, at);
    first_occurrence_is_unique(s, pattern, at, chosen);
}

/// Cuts a text at the first occurrence of a pattern.
pub fn split_once<'a>(text: &'a str, pattern: &str) -> (parts: Option<(&'a str, &'a str)>)
    ensures
        match parts {
            Some((before, after)) => halves(text@, pattern@) == Some((before@, after@)),
            None => halves(text@, pattern@) is None,
        },
{
    match find(text, pattern) {
        Some(at) => {
            let len = text.unicode_len();
            let width = pattern.unicode_len();
            let before = text.substring_char(0, at);
            let after = text.substring_char(at + width, len);
            proof {
                halves_at(text@, pattern@, at as int);
                assert(before@ =~= text@.take(at as int));
                assert(after@ =~= text@.skip(at + width));
            }
            Some((before, after))
        },
        None => None,
    }
}

/// A text without the prefix, if it starts with it.
pub fn strip_prefix<'a>(text: &'a str, prefix: &str) -> (rest: Option<&'a str>)
    ensures
        match rest {
            Some(rest) => text@ == prefix@ + rest@,
            None => !occurs_at(text@, prefix@, 0),
        },
{
    let s = chars_of(text);
    let p = chars_of(prefix);
    if matches_at(&s, &p, 0) {
        let rest = text.substring_char(p.len(), s.len());
        assert(text@ =~= text@.subrange(0, prefix@.len() as int) + rest@);
        Some(rest)
    } else {
        None
    }
}

/// A text without the suffix, if it ends with it.
pub fn strip_suffix<'a>(text: &'a str, suffix: &str) -> (rest: Option<&'a str>)
    ensures
        match rest {
            Some(rest) => text@ == rest@ + suffix@,
            None => !occurs_at(text@, suffix@, text@.len() - suffix@.len()),
        },
{
    let s = chars_of(text);
    let p = chars_of(suffix);
    if s.len() < p.len() {
        return None;
    }
    if matches_at(&s, &p, s.len() - p.len()) {
        let rest = text.substring_char(0, s.len() - p.len());
        assert(text@ =~= rest@ + text@.subrange(s.len() - p.len(), s.len() as int));
        Some(rest)
    } else {
        None
    }
}

/// A text without the leading characters that equal `c`.
pub open spec fn trimmed_start(s: Seq<char>, c: char) -> Seq<char>
    decreases s.len(),
{
    if s.len() > 0 && s[0] == c {
        trimmed_start(s.skip(1), c)
    } else {
        s
    }
}

/// A text without the trailing characters that equal `c`.
pub open spec fn trimmed_end(s: Seq<char>, c: char) -> Seq<char>
    decreases s.len(),
{
    if s.len() > 0 && s.last() == c {
        trimmed_end(s.drop_last(), c)
    } else {
        s
    }
}

/// A text without the leading and trailing white space.
pub open spec fn trimmed(s: Seq<char>) -> Seq<char>
    decreases s.len(),
{
    if s.len() > 0 && is_space(s[0]) {
        trimmed(s.skip(1))
    } else if s.len() > 0 && is_space(s.last()) {
        trimmed(s.drop_last())
    } else {
        s
    }
}

/// Removes the leading characters that equal `c`.
pub fn trim_start_matches<'a>(text: &'a str, c: char) -> (rest: &'a str)
    ensures
        rest@ == trimmed_start(text@, c),
{
    let s = chars_of(text);
    let mut i: usize = 0;
    assert(s@.skip(0) =~= s@);
    while i < s.len() && s[i] == c
        invariant
            s@ == text@,
            i <= s.len(),
            trimmed_start(s@.skip(i as int), c) == trimmed_start(text@, c),
        decreases s.len() - i,
    {
        assert(s@.skip(i as int).skip(1) =~= s@.skip(i + 1));
        i = i + 1;
    }
    assert(s@.skip(i as int) =~= text@.subrange(i as int, text@.len() as int));
    text.substring_char(i, s.len())
}

/// Removes the trailing characters that equal `c`.
pub fn trim_end_matches<'a>(text: &'a str, c: char) -> (rest: &'a str)
    ensures
        rest@ == trimmed_end(text@, c),
{
    let s = chars_of(text);
    let mut n: usize = s.len();
    assert(s@.take(n as int) =~= s@);
    while n > 0 && s[n - 1] == c
        invariant
            s@ == text@,
            n <= s.len(),
            trimmed_end(s@.take(n as int), c) == trimmed_end(text@, c),
        decreases n,
    {
        assert(s@.take(n as int).drop_last() =~= s@.take(n - 1));
        n = n - 1;
    }
    assert(s@.take(n as int) =~= text@.subrange(0, n as int));
    text.substring_char(0, n)
}

/// Removes the leading and trailing white space.
pub fn trim<'a>(text: &'a str) -> (rest: &'a str)
    ensures
        rest@ == trimmed(text@),
{
    let s = chars_of(text);
    let mut i: usize = 0;
    let mut n: usize = s.len();
    assert(s@.subrange(0, n as int) =~= s@);
    while i < n && space(s[i])
        invariant
            s@ == text@,
            i <= n == s.len(),
            trimmed(s@.subrange(i as int, n as int)) == trimmed(text@),
        decreases n - i,
    {
        assert(s@.subrange(i as int, n as int).skip(1) =~= s@.subrange(i + 1, n as int));
        i = i + 1;
    }
    while i < n && space(s[n - 1])
        invariant
            s@ == text@,
            i <= n <= s.len(),
            i < n ==> !is_space(s@[i as int]),
            trimmed(s@.subrange(i as int, n as int)) == trimmed(text@),
        decreases n - i,
    {
        assert(s@.subrange(i as int, n as int).drop_last() =~= s@.subrange(i as int, n - 1));
        n = n - 1;
    }
    text.substring_char(i, n)
}

/// White space parts the words of a text: those before it and then those after it are all.
pub proof fn white_space_parts_words(a: Seq<char>, c: char, b: Seq<char>)
    requires
        is_space(c),
    ensures
        words(a + seq![c] + b) == words(a) + words(b),
    decreases a.len(),
{
    let s = a + seq![c] + b;
    if a.len() == 0 {
        assert(s.skip(1) =~= b);
        assert(words(a) + words(b) =~= words(b));
    } else if is_space(a[0]) {
        white_space_parts_words(a.skip(1), c, b);
        assert(s.skip(1) =~= a.skip(1) + seq![c] + b);
    } else {
        let n = word_len(a) as int;
        lemma_word_len(a);
        lemma_word_len_stops(a);
        assert forall|i: int| 0 <= i < n implies !is_space(#[trigger] s[i]) by {
            assert(s[i] == a[i]);
        }
        if n < a.len() {
            assert(s[n] == a[n]);
        } else {
            assert(s[n] == c);
        }
        lemma_word_len_is(s, n);
        assert(s.take(n) =~= a.take(n));
        assert(s.skip(n) =~= a.skip(n) + seq![c] + b);
        white_space_parts_words(a.skip(n), c, b);
        assert(seq![a.take(n)] + (words(a.skip(n)) + words(b)) =~= seq![a.take(n)] + words(
            a.skip(n),
        ) + words(b));
    }
}

proof fn lemma_word_len_stops(s: Seq<char>)
    ensures
        word_len(s) <= s.len(),
        forall|i: int| 0 <= i < word_len(s) ==> !is_space(#[trigger] s[i]),
        word_len(s) < s.len() ==> is_space(s[word_len(s) as int]),
        s.len() > 0 && !is_space(s[0]) ==> word_len(s) > 0,
    decreases s.len(),
{
    if s.len() > 0 && !is_space(s[0]) {
        lemma_word_len_stops(s.skip(1));
        assert forall|i: int| 0 <= i < word_len(s) implies !is_space(#[trigger] s[i]) by {
            if i > 0 {
                assert(s.skip(1)[i - 1] == s[i]);
            }
        }
        if word_len(s) < s.len() {
            assert(s.skip(1)[word_len(s.skip(1)) as int] == s[word_len(s) as int]);
        }
    }
}

/// A text without white space is one word, if it is not empty.
pub proof fn texts_without_space_are_one_word(s: Seq<char>)
    requires
        forall|i: int| 0 <= i < s.len() ==> !is_space(#[trigger] s[i]),
    ensures
        words(s) == (if s.len() > 0 {
            seq![s]
        } else {
            Seq::empty()
        }),
{
    if s.len() > 0 {
        lemma_word_len_is(s, s.len() as int);
        assert(s.take(s.len() as int) =~= s);
        assert(s.skip(s.len() as int) =~= Seq::empty());
        assert(!is_space(s[0]));
        assert(words(s) == seq![s] + words(s.skip(s.len() as int)));
        assert(seq![s] + words(s.skip(s.len() as int)) =~= seq![s]);
    }
}

/// A line feed ends the first line, which loses a carriage return before it; what follows are the
/// lines of the rest.
pub proof fn line_feeds_end_lines(line: Seq<char>, rest: Seq<char>)
    requires
        forall|i: int| 0 <= i < line.len() ==> #[trigger] line[i] != '\n',
    ensures
        text_lines(line + seq!['\n'] + rest) == seq![
            if line.len() > 0 && line.last() == '\r' {
                line.drop_last()
            } else {
                line
            },
        ] + text_lines(rest),
        text_lines(line) == (if line.len() > 0 {
            seq![line]
        } else {
            Seq::empty()
        }),
{
    let s = line + seq!['\n'] + rest;
    let n = line.len() as int;
    assert forall|i: int| 0 <= i < n implies #[trigger] s[i] != '\n' by {
        assert(s[i] == line[i]);
    }
    assert(s[n] == '\n');
    lemma_line_len_is(s, n);
    assert(s.take(n) =~= line);
    assert(s.skip(n + 1) =~= rest);
    lemma_line_len_is(line, n);
}

/// White space before or after a text makes no difference once it is trimmed; a text that neither
/// begins nor ends with it stays as it is, and no trimmed text does.
pub proof fn outer_white_space_goes(s: Seq<char>, c: char)
    requires
        is_space(c),
    ensures
        trimmed(seq![c] + s) == trimmed(s),
        trimmed(s.push(c)) == trimmed(s),
        s.len() > 0 && !is_space(s[0]) && !is_space(s.last()) ==> trimmed(s) == s,
        trimmed(s).len() > 0 ==> !is_space(trimmed(s)[0]) && !is_space(trimmed(s).last()),
    decreases s.len(),
{
    assert((seq![c] + s).skip(1) =~= s);
    assert(s.push(c).drop_last() =~= s);
    if s.len() == 0 {
        assert(s.push(c).skip(1) =~= s);
    } else if is_space(s[0]) {
        outer_white_space_goes(s.skip(1), c);
        assert(s.push(c).skip(1) =~= s.skip(1).push(c));
    } else if is_space(s.last()) {
        outer_white_space_goes(s.drop_last(), c);
    }
}

/// Characters that are to go from an end go however many there are, and no others do.
pub proof fn ends_are_trimmed(s: Seq<char>, c: char, other: char)
    requires
        other != c,
    ensures
        trimmed_end(s.push(c), c) == trimmed_end(s, c),
        trimmed_end(s.push(other), c) == s.push(other),
        trimmed_start(seq![c] + s, c) == trimmed_start(s, c),
        trimmed_start(seq![other] + s, c) == seq![other] + s,
        trimmed_end(Seq::empty(), c) == Seq::<char>::empty(),
        trimmed_start(Seq::empty(), c) == Seq::<char>::empty(),
{
    assert(s.push(c).drop_last() =~= s);
    assert((seq![c] + s).skip(1) =~= s);
}

/// A text is cut at a pattern where it stands first, and what is before and after it makes up the
/// text again; a text without it is not cut.
pub proof fn halves_make_up_the_text(s: Seq<char>, pattern: Seq<char>)
    ensures
        match halves(s, pattern) {
            Some((before, after)) => {
                &&& s == before + pattern + after
                &&& forall|at: int| at < before.len() ==> !occurs_at(s, pattern, at)
            },
            None => forall|at: int| !occurs_at(s, pattern, at),
        },
{
    if occurs(s, pattern) {
        let somewhere = choose|at: int| occurs_at(s, pattern, at);
        lemma_some_first_occurrence(s, pattern, somewhere);
        let at = choose|at: int| first_occurrence(s, pattern, at);
        assert(occurs_at(s, pattern, at));
        assert(s =~= s.take(at) + s.subrange(at, at + pattern.len()) + s.skip(at + pattern.len()));
    }
}

proof fn lemma_some_first_occurrence(s: Seq<char>, pattern: Seq<char>, at: int)
    requires
        occurs_at(s, pattern, at),
    ensures
        exists|first: int| first_occurrence(s, pattern, first),
    decreases at,
{
    if exists|earlier: int| earlier < at && occurs_at(s, pattern, earlier) {
        let earlier = choose|earlier: int| earlier < at && occurs_at(s, pattern, earlier);
        lemma_some_first_occurrence(s, pattern, earlier);
    } else {
        assert(first_occurrence(s, pattern, at));
    }
}

} // verus!
