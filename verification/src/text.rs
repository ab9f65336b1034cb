//! Character-level text handling: whitespace, trimming, splitting.
//!
//! Text is handled as slices of `char`. The specifications speak of
//! `Seq<char>`, the view of `str`, `String` and `[char]` alike.

use vstd::prelude::*;
use vstd::slice::slice_subrange;

verus! {

/// Taken on trust from the standard library: `String::push` appends the
/// character to the end of the string and changes nothing else of it.
pub assume_specification[ String::push ](s: &mut String, ch: char)
    ensures
        final(s)@ == old(s)@.push(ch),
;

/// The characters of `s`, in order.
pub fn chars_of(s: &str) -> (v: Vec<char>)
    ensures
        v@ == s@,
{
    let mut v: Vec<char> = Vec::new();
    for c in it: s.chars()
        invariant
            v@ == it.seq().take(it.index() as int),
            it.seq() == s@,
    {
        v.push(c);
    }
    v
}

/// The string made of the characters of `s`, in order.
pub fn string_of(s: &[char]) -> (r: String)
    ensures
        r@ == s@,
{
    let mut r: String = String::new();
    let mut i: usize = 0;
    while i < s.len()
        invariant
            i <= s@.len(),
            r@ == s@.take(i as int),
        decreases s@.len() - i,
    {
        r.push(s[i]);
        i = i + 1;
    }
    r
}

/// Whether two slices hold the same characters.
pub fn same_text(a: &[char], b: &[char]) -> (r: bool)
    ensures
        r == (a@ == b@),
{
    if a.len() != b.len() {
        return false;
    }
    let mut i: usize = 0;
    while i < a.len()
        invariant
            i <= a@.len(),
            a@.len() == b@.len(),
            a@.take(i as int) == b@.take(i as int),
        decreases a@.len() - i,
    {
        if a[i] != b[i] {
            assert(a@[i as int] != b@[i as int]);
            return false;
        }
        assert(a@.take(i + 1) == a@.take(i as int).push(a@[i as int]));
        assert(b@.take(i + 1) == b@.take(i as int).push(b@[i as int]));
        i = i + 1;
    }
    assert(a@ == a@.take(i as int));
    assert(b@ == b@.take(i as int));
    true
}

/// Whether `s` holds exactly the characters of `word`.
pub fn text_is(s: &[char], word: &str) -> (r: bool)
    ensures
        r == (s@ == word@),
{
    let w: Vec<char> = chars_of(word);
    same_text(s, w.as_slice())
}

/// Whether `s` begins with `prefix`.
pub open spec fn has_prefix(s: Seq<char>, prefix: Seq<char>) -> bool {
    prefix.len() <= s.len() && s.take(prefix.len() as int) == prefix
}

/// Whether `s` begins with `prefix`.
pub fn starts_with(s: &[char], prefix: &[char]) -> (r: bool)
    ensures
        r == has_prefix(s@, prefix@),
{
    if prefix.len() > s.len() {
        return false;
    }
    same_text(slice_subrange(s, 0, prefix.len()), prefix)
}

/// Whether `s` ends with `suffix`.
pub open spec fn has_suffix(s: Seq<char>, suffix: Seq<char>) -> bool {
    suffix.len() <= s.len() && s.skip(s.len() - suffix.len()) == suffix
}

/// Whether `s` ends with `suffix`.
pub fn ends_with(s: &[char], suffix: &[char]) -> (r: bool)
    ensures
        r == has_suffix(s@, suffix@),
{
    if suffix.len() > s.len() {
        return false;
    }
    assert(s@.skip(s@.len() - suffix@.len()) == s@.subrange(
        s@.len() - suffix@.len(),
        s@.len() as int,
    ));
    same_text(slice_subrange(s, s.len() - suffix.len(), s.len()), suffix)
}

/// The text `s` in lower case, as `str::to_lowercase` gives it. Nothing is
/// said here of which letters change and how.
pub uninterp spec fn lowercase(s: Seq<char>) -> Seq<char>;

/// Taken on trust from the standard library: `str::to_lowercase` returns
/// the lower-case form of the text as a new string, and that form depends
/// on the text alone.
pub assume_specification[ str::to_lowercase ](s: &str) -> (r: String)
    ensures
        r@ == lowercase(s@),
;

/// Whether `c` has the Unicode property `White_Space`.
pub open spec fn is_whitespace(c: char) -> bool {
    let n = c as u32;
    ||| 0x09 <= n <= 0x0D
    ||| n == 0x20
    ||| n == 0x85
    ||| n == 0xA0
    ||| n == 0x1680
    ||| 0x2000 <= n <= 0x200A
    ||| n == 0x2028
    ||| n == 0x2029
    ||| n == 0x202F
    ||| n == 0x205F
    ||| n == 0x3000
}

/// Whether `c` has the Unicode property `White_Space`.
pub fn char_is_whitespace(c: char) -> (r: bool)
    ensures
        r == is_whitespace(c),
{
    let n: u32 = c as u32;
    (0x09 <= n && n <= 0x0D) || n == 0x20 || n == 0x85 || n == 0xA0 || n == 0x1680 || (0x2000 <= n
        && n <= 0x200A) || n == 0x2028 || n == 0x2029 || n == 0x202F || n == 0x205F || n == 0x3000
}

/// `s` without its leading whitespace.
pub open spec fn trim_start(s: Seq<char>) -> Seq<char>
    decreases s.len(),
{
    if s.len() > 0 && is_whitespace(s[0]) {
        trim_start(s.drop_first())
    } else {
        s
    }
}

/// `s` without its trailing whitespace.
pub open spec fn trim_end(s: Seq<char>) -> Seq<char>
    decreases s.len(),
{
    if s.len() > 0 && is_whitespace(s.last()) {
        trim_end(s.drop_last())
    } else {
        s
    }
}

/// `s` without the whitespace at either end.
pub open spec fn trim(s: Seq<char>) -> Seq<char> {
    trim_end(trim_start(s))
}

/// `s` without the whitespace at either end.
pub fn trimmed<'a>(s: &'a [char]) -> (t: &'a [char])
    ensures
        t@ == trim(s@),
{
    let mut start: usize = 0;
    assert(s@.skip(0) == s@);
    while start < s.len() && char_is_whitespace(s[start])
        invariant
            start <= s@.len(),
            trim_start(s@) == trim_start(s@.skip(start as int)),
        decreases s@.len() - start,
    {
        assert(s@.skip(start as int).drop_first() == s@.skip(start + 1));
        start = start + 1;
    }
    assert(trim_start(s@) == s@.skip(start as int));
    let mut end: usize = s.len();
    while end > start && char_is_whitespace(s[end - 1])
        invariant
            start <= end <= s@.len(),
            trim(s@) == trim_end(s@.subrange(start as int, end as int)),
        decreases end,
    {
        assert(s@.subrange(start as int, end as int).drop_last() == s@.subrange(
            start as int,
            end - 1,
        ));
        end = end - 1;
    }
    slice_subrange(s, start, end)
}

/// The pieces of `s` between occurrences of `sep`: one more piece than there
/// are separators, empty pieces included.
pub open spec fn split(s: Seq<char>, sep: char) -> Seq<Seq<char>>
    decreases s.len(),
{
    if s.len() == 0 {
        seq![Seq::<char>::empty()]
    } else {
        let before = split(s.drop_last(), sep);
        if s.last() == sep {
            before.push(Seq::<char>::empty())
        } else {
            before.drop_last().push(before.last().push(s.last()))
        }
    }
}

/// Splitting gives at least one piece.
pub proof fn lemma_split_is_not_empty(s: Seq<char>, sep: char)
    ensures
        split(s, sep).len() >= 1,
    decreases s.len(),
{
    if s.len() > 0 {
        lemma_split_is_not_empty(s.drop_last(), sep);
    }
}

/// The views of the slices in `pieces`.
pub open spec fn views(pieces: Seq<&[char]>) -> Seq<Seq<char>> {
    pieces.map_values(|p: &[char]| p@)
}

/// The pieces of `s` between occurrences of `sep`.
pub fn split_on<'a>(s: &'a [char], sep: char) -> (pieces: Vec<&'a [char]>)
    ensures
        views(pieces@) == split(s@, sep),
{
    let mut pieces: Vec<&'a [char]> = Vec::new();
    let mut start: usize = 0;
    let mut i: usize = 0;
    assert(s@.take(0) == Seq::<char>::empty());
    assert(views(pieces@).push(s@.subrange(0, 0)) == split(s@.take(0), sep));
    while i < s.len()
        invariant
            start <= i <= s@.len(),
            views(pieces@).push(s@.subrange(start as int, i as int)) == split(s@.take(i as int), sep),
        decreases s@.len() - i,
    {
        let ghost before = split(s@.take(i as int), sep);
        assert(s@.take(i + 1).drop_last() == s@.take(i as int));
        assert(s@.take(i + 1).last() == s@[i as int]);
        if s[i] == sep {
            let piece: &'a [char] = slice_subrange(s, start, i);
            let ghost old_pieces = pieces@;
            pieces.push(piece);
            assert(views(pieces@) == views(old_pieces).push(piece@));
            start = i + 1;
            assert(s@.subrange(start as int, start as int) == Seq::<char>::empty());
        } else {
            assert(before.last() == s@.subrange(start as int, i as int));
            assert(before.drop_last() == views(pieces@));
            assert(s@.subrange(start as int, i as int).push(s@[i as int]) == s@.subrange(
                start as int,
                i + 1,
            ));
        }
        i = i + 1;
    }
    assert(s@.take(i as int) == s@);
    let piece: &'a [char] = slice_subrange(s, start, i);
    let ghost old_pieces = pieces@;
    pieces.push(piece);
    assert(views(pieces@) == views(old_pieces).push(piece@));
    pieces
}

/// The words of `s`: its maximal runs of characters that are not whitespace.
pub open spec fn words(s: Seq<char>) -> Seq<Seq<char>>
    decreases s.len(),
{
    if s.len() == 0 {
        Seq::<Seq<char>>::empty()
    } else {
        let before = words(s.drop_last());
        if is_whitespace(s.last()) {
            before
        } else if s.len() >= 2 && !is_whitespace(s[s.len() - 2]) {
            before.drop_last().push(before.last().push(s.last()))
        } else {
            before.push(seq![s.last()])
        }
    }
}

/// The words of `s`: its maximal runs of characters that are not whitespace.
pub fn split_words<'a>(s: &'a [char]) -> (pieces: Vec<&'a [char]>)
    ensures
        views(pieces@) == words(s@),
{
    let mut pieces: Vec<&'a [char]> = Vec::new();
    let mut start: usize = 0;
    let mut in_word: bool = false;
    let mut i: usize = 0;
    assert(s@.take(0) == Seq::<char>::empty());
    assert(views(pieces@) == words(s@.take(0)));
    while i < s.len()
        invariant
            start <= i <= s@.len(),
            in_word ==> start < i,
            in_word <==> (i > 0 && !is_whitespace(s@[i - 1])),
            in_word ==> views(pieces@).push(s@.subrange(start as int, i as int)) == words(
                s@.take(i as int),
            ),
            !in_word ==> views(pieces@) == words(s@.take(i as int)),
        decreases s@.len() - i,
    {
        let ghost before = words(s@.take(i as int));
        assert(s@.take(i + 1).drop_last() == s@.take(i as int));
        assert(s@.take(i + 1).last() == s@[i as int]);
        if i > 0 {
            assert(s@.take(i + 1)[i - 1] == s@[i - 1]);
        }
        if char_is_whitespace(s[i]) {
            if in_word {
                let piece: &'a [char] = slice_subrange(s, start, i);
                let ghost old_pieces = pieces@;
                pieces.push(piece);
                assert(views(pieces@) == views(old_pieces).push(piece@));
                in_word = false;
            }
        } else {
            if in_word {
                assert(before.last() == s@.subrange(start as int, i as int));
                assert(before.drop_last() == views(pieces@));
                assert(s@.subrange(start as int, i as int).push(s@[i as int]) == s@.subrange(
                    start as int,
                    i + 1,
                ));
            } else {
                start = i;
                in_word = true;
                assert(s@.subrange(start as int, i + 1) == seq![s@[i as int]]);
            }
        }
        i = i + 1;
    }
    assert(s@.take(i as int) == s@);
    if in_word {
        let piece: &'a [char] = slice_subrange(s, start, i);
        let ghost old_pieces = pieces@;
        pieces.push(piece);
        assert(views(pieces@) == views(old_pieces).push(piece@));
    }
    pieces
}

} // verus!
