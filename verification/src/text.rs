//! Text primitives over sequences of characters: occurrence search, the
//! segment between two separators, whitespace trimming and concatenation.

use vstd::prelude::*;
use vstd::std_specs::iter::IteratorSpec;

verus! {

/// The character views of a sequence of strings.
pub open spec fn views(parts: Seq<String>) -> Seq<Seq<char>> {
    parts.map_values(|s: String| s@)
}

/// `pat` occurs in `text` starting at index `i`.
pub open spec fn occurs_at(text: Seq<char>, pat: Seq<char>, i: int) -> bool {
    &&& 0 <= i
    &&& i + pat.len() <= text.len()
    &&& text.subrange(i, i + pat.len()) == pat
}

/// Index of the leftmost occurrence of `pat` in `text` that starts at or
/// after `from`, if there is one.
pub open spec fn find_from(text: Seq<char>, pat: Seq<char>, from: int) -> Option<int>
    decreases text.len() + 1 - from,
{
    if from < 0 || from + pat.len() > text.len() {
        None
    } else if occurs_at(text, pat, from) {
        Some(from)
    } else {
        find_from(text, pat, from + 1)
    }
}

/// The text between the first occurrence of `sep` and the next one (or the
/// end of `text`): the second piece when `text` is cut at every
/// non-overlapping occurrence of `sep`, taken left to right. `None` when
/// `sep` does not occur.
pub open spec fn second_segment(text: Seq<char>, sep: Seq<char>) -> Option<Seq<char>> {
    match find_from(text, sep, 0) {
        None => None,
        Some(first) => {
            let start = first + sep.len();
            let end = match find_from(text, sep, start) {
                Some(next) => next,
                None => text.len() as int,
            };
            Some(text.subrange(start, end))
        },
    }
}

/// Characters with the Unicode `White_Space` property.
pub open spec fn is_space(c: char) -> bool {
    ||| '\u{9}' <= c <= '\u{d}'
    ||| c == ' '
    ||| c == '\u{85}'
    ||| c == '\u{a0}'
    ||| c == '\u{1680}'
    ||| '\u{2000}' <= c <= '\u{200a}'
    ||| c == '\u{2028}'
    ||| c == '\u{2029}'
    ||| c == '\u{202f}'
    ||| c == '\u{205f}'
    ||| c == '\u{3000}'
}

/// `text` without its leading white space.
pub open spec fn skip_leading(text: Seq<char>) -> Seq<char>
    decreases text.len(),
{
    if text.len() > 0 && is_space(text.first()) {
        skip_leading(text.drop_first())
    } else {
        text
    }
}

/// `text` without its trailing white space.
pub open spec fn skip_trailing(text: Seq<char>) -> Seq<char>
    decreases text.len(),
{
    if text.len() > 0 && is_space(text.last()) {
        skip_trailing(text.drop_last())
    } else {
        text
    }
}

/// `text` without leading and trailing white space.
pub open spec fn trimmed(text: Seq<char>) -> Seq<char> {
    skip_trailing(skip_leading(text))
}

/// What is left after skipping leading white space is the end of the text
/// and does not begin with white space.
pub proof fn lemma_skip_leading(text: Seq<char>)
    ensures
        skip_leading(text).len() <= text.len(),
        skip_leading(text) == text.subrange(
            text.len() - skip_leading(text).len(),
            text.len() as int,
        ),
        forall|i: int|
            0 <= i < text.len() - skip_leading(text).len() ==> is_space(#[trigger] text[i]),
        skip_leading(text).len() > 0 ==> !is_space(skip_leading(text).first()),
    decreases text.len(),
{
    if text.len() > 0 && is_space(text.first()) {
        let rest = text.drop_first();
        lemma_skip_leading(rest);
        let kept = skip_leading(rest);
        assert(kept =~= text.subrange(text.len() - kept.len(), text.len() as int));
        assert forall|i: int| 0 <= i < text.len() - kept.len() implies is_space(
            #[trigger] text[i],
        ) by {
            if i > 0 {
                assert(text[i] == rest[i - 1]);
            }
        }
    } else {
        assert(text =~= text.subrange(0, text.len() as int));
    }
}

/// What is left after skipping trailing white space is the start of the
/// text and does not end with white space.
pub proof fn lemma_skip_trailing(text: Seq<char>)
    ensures
        skip_trailing(text).len() <= text.len(),
        skip_trailing(text) == text.subrange(0, skip_trailing(text).len() as int),
        forall|i: int| skip_trailing(text).len() <= i < text.len() ==> is_space(#[trigger] text[i]),
        skip_trailing(text).len() > 0 ==> !is_space(skip_trailing(text).last()),
    decreases text.len(),
{
    if text.len() > 0 && is_space(text.last()) {
        let rest = text.drop_last();
        lemma_skip_trailing(rest);
        let kept = skip_trailing(rest);
        assert(kept =~= text.subrange(0, kept.len() as int));
        assert forall|i: int| kept.len() <= i < text.len() implies is_space(
            #[trigger] text[i],
        ) by {
            if i < text.len() - 1 {
                assert(text[i] == rest[i]);
            }
        }
    } else {
        assert(text =~= text.subrange(0, text.len() as int));
    }
}

/// A trimmed text neither begins nor ends with white space, and trimming it
/// again changes nothing.
pub proof fn lemma_trimmed_is_bare(text: Seq<char>)
    ensures
        trimmed(text).len() > 0 ==> !is_space(trimmed(text).first()) && !is_space(
            trimmed(text).last(),
        ),
        trimmed(trimmed(text)) == trimmed(text),
{
    let inner = skip_leading(text);
    lemma_skip_leading(text);
    lemma_skip_trailing(inner);
    let bare = trimmed(text);
    if bare.len() > 0 {
        assert(bare.first() == inner.first());
    }
}

/// Collects the characters of `s` into a vector.
pub fn chars_of(s: &str) -> (out: Vec<char>)
    ensures
        out@ == s@,
{
    let mut out: Vec<char> = Vec::new();
    let chars = s.chars();
    for c in it: chars
        invariant
            out@ == it.seq().take(it.index()),
            it.seq() == s@,
    {
        out.push(c);
    }
    out
}

/// Joins the strings of `parts`, in order.
pub fn concat_all(parts: &Vec<String>) -> (out: String)
    ensures
        out@ == views(parts@).flatten(),
{
    let mut out = String::new();
    let mut i: usize = 0;
    while i < parts.len()
        invariant
            i <= parts.len(),
            out@ == views(parts@.take(i as int)).flatten(),
        decreases parts.len() - i,
    {
        proof {
            let done = views(parts@.take(i as int));
            assert(views(parts@.take(i + 1)) =~= done.push(parts@[i as int]@));
            done.lemma_flatten_push(parts@[i as int]@);
        }
        out.append(parts[i].as_str());
        i += 1;
    }
    assert(parts@.take(i as int) =~= parts@);
    out
}

/// Tells whether `c` is white space.
pub fn is_white_space(c: char) -> (r: bool)
    ensures
        r == is_space(c),
{
    ('\u{9}' <= c && c <= '\u{d}') || c == ' ' || c == '\u{85}' || c == '\u{a0}' || c == '\u{1680}'
        || ('\u{2000}' <= c && c <= '\u{200a}') || c == '\u{2028}' || c == '\u{2029}' || c
        == '\u{202f}' || c == '\u{205f}' || c == '\u{3000}'
}

/// Tells whether `pat` occurs in `text` at index `at`.
pub fn occurs_here(text: &Vec<char>, pat: &Vec<char>, at: usize) -> (r: bool)
    ensures
        r == occurs_at(text@, pat@, at as int),
{
    let n = text.len();
    let m = pat.len();
    if at > n || m > n - at {
        return false;
    }
    let mut k: usize = 0;
    while k < m
        invariant
            k <= m,
            m == pat.len(),
            at + m <= text.len(),
            forall|j: int| 0 <= j < k ==> text@[at + j] == pat@[j],
        decreases m - k,
    {
        if text[at + k] != pat[k] {
            proof {
                let window = text@.subrange(at as int, at + m);
                assert(window[k as int] == text@[at + k]);
            }
            return false;
        }
        k += 1;
    }
    assert(text@.subrange(at as int, at + m) =~= pat@);
    true
}

/// Finds the leftmost occurrence of `pat` in `text` at or after `from`.
pub fn find(text: &Vec<char>, pat: &Vec<char>, from: usize) -> (r: Option<usize>)
    ensures
        match r {
            Some(i) => find_from(text@, pat@, from as int) == Some(i as int),
            None => find_from(text@, pat@, from as int) is None,
        },
{
    let n = text.len();
    let m = pat.len();
    if from > n || m > n - from {
        return None;
    }
    if m == 0 {
        assert(text@.subrange(from as int, from as int) =~= pat@);
        return Some(from);
    }
    let last = n - m;
    let mut i: usize = from;
    while i <= last
        invariant
            from <= i <= last + 1,
            last == text.len() - pat.len(),
            last < usize::MAX,
            find_from(text@, pat@, from as int) == find_from(text@, pat@, i as int),
        decreases last + 1 - i,
    {
        if occurs_here(text, pat, i) {
            return Some(i);
        }
        i += 1;
    }
    None
}

/// Tells whether `text` begins with `prefix`.
pub fn begins_with(text: &str, prefix: &str) -> (r: bool)
    ensures
        r == occurs_at(text@, prefix@, 0),
{
    let chars = chars_of(text);
    let pat = chars_of(prefix);
    occurs_here(&chars, &pat, 0)
}

/// What `find_from` returns: the occurrence it reports is the leftmost one
/// at or after `from`, and `None` means that there is none.
pub proof fn lemma_find_from(text: Seq<char>, pat: Seq<char>, from: int)
    requires
        0 <= from,
    ensures
        match find_from(text, pat, from) {
            Some(i) => from <= i && occurs_at(text, pat, i) && forall|j: int|
                from <= j < i ==> !occurs_at(text, pat, j),
            None => forall|j: int| from <= j ==> !occurs_at(text, pat, j),
        },
    decreases text.len() + 1 - from,
{
    if from + pat.len() <= text.len() && !occurs_at(text, pat, from) {
        lemma_find_from(text, pat, from + 1);
    }
}

/// `sep` does not occur in `text`.
pub open spec fn lacks(text: Seq<char>, sep: Seq<char>) -> bool {
    forall|j: int| !occurs_at(text, sep, j)
}

/// In `head + sep`, the first occurrence of `sep` is the one at the end.
pub open spec fn ends_at_first(head: Seq<char>, sep: Seq<char>) -> bool {
    forall|j: int| 0 <= j < head.len() ==> !occurs_at(head + sep, sep, j)
}

/// Where a text is a head, a separator and a tail, the separator occurs
/// first right after the head, and the tail holds no separator, the second
/// segment is the tail, character for character.
pub proof fn lemma_second_segment_of_joined(head: Seq<char>, sep: Seq<char>, tail: Seq<char>)
    requires
        sep.len() > 0,
        ends_at_first(head, sep),
        lacks(tail, sep),
    ensures
        second_segment(head + sep + tail, sep) == Some(tail),
{
    let text = head + sep + tail;
    let h = head.len() as int;
    let m = sep.len() as int;
    assert(text.subrange(h, h + m) =~= sep);
    assert(occurs_at(text, sep, h));
    assert forall|j: int| 0 <= j < h implies !occurs_at(text, sep, j) by {
        assert(!occurs_at(head + sep, sep, j));
        assert(text.subrange(j, j + m) =~= (head + sep).subrange(j, j + m));
    }
    lemma_find_from(text, sep, 0);
    assert(find_from(text, sep, 0) == Some(h));
    lemma_find_from(text, sep, h + m);
    if let Some(i) = find_from(text, sep, h + m) {
        assert(tail.subrange(i - h - m, i - h) =~= text.subrange(i, i + m));
        assert(occurs_at(tail, sep, i - h - m));
    }
    assert(text.subrange(h + m, text.len() as int) =~= tail);
}

/// Cuts `text` at the occurrences of `sep` and returns the second piece.
pub fn cut_second(text: &str, sep: &str) -> (r: Option<String>)
    ensures
        match r {
            Some(piece) => second_segment(text@, sep@) == Some(piece@),
            None => second_segment(text@, sep@) is None,
        },
{
    let chars = chars_of(text);
    let pat = chars_of(sep);
    let n = chars.len();
    match find(&chars, &pat, 0) {
        None => None,
        Some(first) => {
            proof {
                lemma_find_from(chars@, pat@, 0);
                assert(first + pat@.len() <= n);
            }
            let start = first + pat.len();
            let end = match find(&chars, &pat, start) {
                Some(next) => {
                    proof {
                        lemma_find_from(chars@, pat@, start as int);
                    }
                    next
                },
                None => n,
            };
            Some(text.substring_char(start, end).to_owned())
        },
    }
}

/// Removes leading and trailing white space.
pub fn trim(text: &str) -> (out: String)
    ensures
        out@ == trimmed(text@),
{
    let chars = chars_of(text);
    let n = chars.len();
    let mut a: usize = 0;
    assert(chars@.subrange(0, n as int) =~= chars@);
    while a < n && is_white_space(chars[a])
        invariant
            a <= n,
            n == chars.len(),
            skip_leading(chars@) == skip_leading(chars@.subrange(a as int, n as int)),
        decreases n - a,
    {
        assert(chars@.subrange(a as int, n as int).drop_first() =~= chars@.subrange(
            a + 1,
            n as int,
        ));
        a += 1;
    }
    let mut b: usize = n;
    while b > a && is_white_space(chars[b - 1])
        invariant
            a <= b <= n,
            n == chars.len(),
            skip_leading(chars@) == chars@.subrange(a as int, n as int),
            trimmed(chars@) == skip_trailing(chars@.subrange(a as int, b as int)),
        decreases b - a,
    {
        assert(chars@.subrange(a as int, b as int).drop_last() =~= chars@.subrange(
            a as int,
            b - 1,
        ));
        b -= 1;
    }
    text.substring_char(a, b).to_owned()
}

} // verus!
