//! Text primitives over sequences of characters: white space, ASCII case
//! folding, trimming and splitting, together with the executable scanners
//! that the configuration readers are built from.

use vstd::prelude::*;
use vstd::utf8::*;

verus! {

/// Whether `c` carries the Unicode `White_Space` property.
pub open spec fn is_whitespace(c: char) -> bool {
    ||| '\u{9}' <= c <= '\u{d}'
    ||| c == ' '
    ||| c == '\u{85}'
    ||| c == '\u{a0}'
    ||| c == '\u{1680}'
    ||| '\u{2000}' <= c <= '\u{200a}'
    ||| c == '\u{2028}'
    ||| c == '\u{2029}'
    ||| c == '\u{202f}'
    ||| c == '\u{205f}'
    ||| c == '\u{3000}'
}

/// `c` with the ASCII letters `A` to `Z` folded to `a` to `z`.
pub open spec fn ascii_lowercase_char(c: char) -> char {
    if 'A' <= c <= 'Z' {
        ((c as u8) + 32) as char
    } else {
        c
    }
}

/// `text` with every character folded by [`ascii_lowercase_char`].
pub open spec fn ascii_lowercase(text: Seq<char>) -> Seq<char> {
    text.map_values(|c: char| ascii_lowercase_char(c))
}

/// `text` without its leading white space.
pub open spec fn trim_start(text: Seq<char>) -> Seq<char>
    decreases text.len(),
{
    if text.len() > 0 && is_whitespace(text.first()) {
        trim_start(text.drop_first())
    } else {
        text
    }
}

/// `text` without its trailing white space.
pub open spec fn trim_end(text: Seq<char>) -> Seq<char>
    decreases text.len(),
{
    if text.len() > 0 && is_whitespace(text.last()) {
        trim_end(text.drop_last())
    } else {
        text
    }
}

/// `text` without its leading and trailing white space.
pub open spec fn trim(text: Seq<char>) -> Seq<char> {
    trim_end(trim_start(text))
}

/// The pieces of `text` between occurrences of `separator`, in order. There is
/// always one piece more than there are separators, so the empty text has one
/// empty piece.
pub open spec fn split(text: Seq<char>, separator: char) -> Seq<Seq<char>>
    decreases text.len(),
{
    if text.len() == 0 {
        seq![Seq::empty()]
    } else {
        let before = split(text.drop_last(), separator);
        if text.last() == separator {
            before.push(Seq::empty())
        } else {
            before.update(before.len() - 1, before.last().push(text.last()))
        }
    }
}

/// A split never comes back empty.
pub proof fn lemma_split_nonempty(text: Seq<char>, separator: char)
    ensures
        split(text, separator).len() >= 1,
    decreases text.len(),
{
    if text.len() > 0 {
        lemma_split_nonempty(text.drop_last(), separator);
    }
}

/// Reading on from the start of a piece: while no separator is met, the piece
/// in progress is the text read since that start.
pub proof fn lemma_split_piece(text: Seq<char>, separator: char, start: int, end: int)
    requires
        0 <= start <= end <= text.len(),
        start == 0 || text[start - 1] == separator,
        forall|i: int| start <= i < end ==> text[i] != separator,
    ensures
        split(text.take(end), separator) == split(text.take(start), separator).drop_last().push(
            text.subrange(start, end),
        ),
        split(text.take(start), separator).len() >= 1,
    decreases end - start,
{
    lemma_split_nonempty(text.take(start), separator);
    if end == start {
        let pieces = split(text.take(start), separator);
        if start == 0 {
            assert(text.subrange(0, 0) =~= Seq::<char>::empty());
            assert(pieces =~= pieces.drop_last().push(text.subrange(start, end)));
        } else {
            assert(text.take(start).drop_last() =~= text.take(start - 1));
            assert(text.subrange(start, end) =~= Seq::<char>::empty());
            assert(pieces =~= pieces.drop_last().push(text.subrange(start, end)));
        }
    } else {
        lemma_split_piece(text, separator, start, end - 1);
        let before = split(text.take(end - 1), separator);
        assert(text.take(end).drop_last() =~= text.take(end - 1));
        assert(text.take(end).last() == text[end - 1]);
        assert(text.subrange(start, end - 1).push(text[end - 1]) =~= text.subrange(start, end));
        assert(split(text.take(end), separator) =~= split(
            text.take(start),
            separator,
        ).drop_last().push(text.subrange(start, end)));
    }
}

/// Reading a separator closes the piece in progress and opens an empty one.
pub proof fn lemma_split_separator(text: Seq<char>, separator: char, end: int)
    requires
        0 <= end < text.len(),
        text[end] == separator,
    ensures
        split(text.take(end + 1), separator) == split(text.take(end), separator).push(
            Seq::empty(),
        ),
{
    assert(text.take(end + 1).drop_last() =~= text.take(end));
}

/// The pieces that end before a separator are the first pieces of the whole
/// text.
pub proof fn lemma_split_prefix(text: Seq<char>, separator: char, end: int)
    requires
        0 <= end < text.len(),
        text[end] == separator,
    ensures
        split(text.take(end), separator).len() < split(text, separator).len(),
        split(text, separator).take(split(text.take(end), separator).len() as int) == split(
            text.take(end),
            separator,
        ),
    decreases text.len() - end,
{
    let head = split(text.take(end), separator);
    let whole = split(text, separator);
    let shorter = text.drop_last();
    let before = split(shorter, separator);
    lemma_split_nonempty(shorter, separator);
    if end == text.len() - 1 {
        assert(shorter =~= text.take(end));
        assert(whole.take(head.len() as int) =~= head);
    } else {
        assert(shorter.take(end) =~= text.take(end));
        lemma_split_prefix(shorter, separator, end);
        assert(whole.take(head.len() as int) =~= before.take(head.len() as int));
    }
}

/// Trimming at the start drops exactly a run of white space that ends at the
/// first other character, or at the end of the text.
pub proof fn lemma_trim_start_run(text: Seq<char>, n: int)
    requires
        0 <= n <= text.len(),
        forall|i: int| 0 <= i < n ==> is_whitespace(#[trigger] text[i]),
        n == text.len() || !is_whitespace(text[n]),
    ensures
        trim_start(text) == text.skip(n),
    decreases n,
{
    if n == 0 {
        assert(text.skip(0) =~= text);
    } else {
        let rest = text.drop_first();
        assert forall|i: int| 0 <= i < n - 1 implies is_whitespace(#[trigger] rest[i]) by {
            assert(rest[i] == text[i + 1]);
        }
        lemma_trim_start_run(rest, n - 1);
        assert(rest.skip(n - 1) =~= text.skip(n));
    }
}

/// Trimming at the end drops exactly a run of white space that begins after
/// the last other character, or at the start of the text.
pub proof fn lemma_trim_end_run(text: Seq<char>, n: int)
    requires
        0 <= n <= text.len(),
        forall|i: int| n <= i < text.len() ==> is_whitespace(#[trigger] text[i]),
        n == 0 || !is_whitespace(text[n - 1]),
    ensures
        trim_end(text) == text.take(n),
    decreases text.len() - n,
{
    if n == text.len() {
        assert(text.take(n) =~= text);
    } else {
        let rest = text.drop_last();
        lemma_trim_end_run(rest, n);
        assert(rest.take(n) =~= text.take(n));
    }
}

/// Whether `c` is white space.
pub fn char_is_whitespace(c: char) -> (white: bool)
    ensures
        white == is_whitespace(c),
{
    ('\u{9}' <= c && c <= '\u{d}') || c == ' ' || c == '\u{85}' || c == '\u{a0}' || c
        == '\u{1680}' || ('\u{2000}' <= c && c <= '\u{200a}') || c == '\u{2028}' || c
        == '\u{2029}' || c == '\u{202f}' || c == '\u{205f}' || c == '\u{3000}'
}

/// Calls `str::to_ascii_lowercase` of the standard library. That function is
/// documented to return a copy of the text in which the ASCII letters `A` to `Z`
/// are replaced by `a` to `z` and every other character is left as it is; the
/// contract states just that.
#[verifier::external_body]
pub(crate) fn to_ascii_lowercase(text: &str) -> (lowered: String)
    ensures
        lowered@ == ascii_lowercase(text@),
{
    text.to_ascii_lowercase()
}

/// The characters of `text`, in order.
pub fn chars_of(text: &str) -> (chars: Vec<char>)
    ensures
        chars@ == text@,
{
    let mut chars: Vec<char> = Vec::new();
    for c in it: text.chars()
        invariant
            chars@ == it.seq().take(it.index() as int),
            it.seq() == text@,
    {
        chars.push(c);
    }
    chars
}

/// Whether two texts hold the same characters.
pub fn text_eq(left: &str, right: &str) -> (same: bool)
    ensures
        same == (left@ == right@),
{
    let a = left.as_bytes();
    let b = right.as_bytes();
    proof {
        encode_utf8_decode_utf8(left@);
        encode_utf8_decode_utf8(right@);
    }
    if a.len() != b.len() {
        return false;
    }
    let mut i: usize = 0;
    while i < a.len() && a[i] == b[i]
        invariant
            i <= a.len(),
            a.len() == b.len(),
            forall|j: int| 0 <= j < i ==> a@[j] == b@[j],
        decreases a.len() - i,
    {
        i = i + 1;
    }
    if i == a.len() {
        assert(a@ =~= b@);
        true
    } else {
        false
    }
}

/// Whether the characters of `chars` from `from` up to `to` spell `word`.
pub fn is_word(chars: &Vec<char>, from: usize, to: usize, word: &str) -> (same: bool)
    requires
        from <= to <= chars.len(),
    ensures
        same == (chars@.subrange(from as int, to as int) == word@),
{
    let ghost piece = chars@.subrange(from as int, to as int);
    let mut at: usize = from;
    for c in it: word.chars()
        invariant
            it.seq() == word@,
            from <= at <= to <= chars.len(),
            at - from == it.index(),
            piece == chars@.subrange(from as int, to as int),
            piece.take(it.index() as int) == word@.take(it.index() as int),
    {
        if at >= to {
            assert(piece.len() < word@.len());
            return false;
        }
        if chars[at] != c {
            assert(piece[at - from] != word@[at - from]);
            return false;
        }
        assert(piece.take(it.index() + 1) =~= piece.take(it.index() as int).push(piece[at - from]));
        assert(word@.take(it.index() + 1) =~= word@.take(it.index() as int).push(c));
        at = at + 1;
    }
    assert(word@.take(word@.len() as int) =~= word@);
    if at == to {
        assert(piece.take(piece.len() as int) =~= piece);
        true
    } else {
        assert(piece.len() > word@.len());
        false
    }
}

/// The first position at or after `from` that holds `separator`, or the length
/// of `chars` where none does.
pub fn find_separator(chars: &Vec<char>, from: usize, separator: char) -> (end: usize)
    requires
        from <= chars.len(),
    ensures
        from <= end <= chars.len(),
        forall|i: int| from <= i < end ==> chars@[i] != separator,
        end == chars.len() || chars@[end as int] == separator,
{
    let mut end: usize = from;
    while end < chars.len() && chars[end] != separator
        invariant
            from <= end <= chars.len(),
            forall|i: int| from <= i < end ==> chars@[i] != separator,
        decreases chars.len() - end,
    {
        end = end + 1;
    }
    end
}

/// The bounds of what is left of the characters from `from` up to `to` once
/// the white space at either end is taken away: from the first character that
/// is no white space up to the last one. Where there is none, both bounds are
/// `to`.
pub fn trim_range(chars: &Vec<char>, from: usize, to: usize) -> (bounds: (usize, usize))
    requires
        from <= to <= chars.len(),
    ensures
        from <= bounds.0 <= bounds.1 <= to,
        chars@.subrange(bounds.0 as int, bounds.1 as int) == trim(
            chars@.subrange(from as int, to as int),
        ),
        forall|i: int| from <= i < bounds.0 ==> is_whitespace(#[trigger] chars@[i]),
        forall|i: int| bounds.1 <= i < to ==> is_whitespace(#[trigger] chars@[i]),
        bounds.0 == to || !is_whitespace(chars@[bounds.0 as int]),
        bounds.1 == bounds.0 || !is_whitespace(chars@[bounds.1 - 1]),
{
    let ghost piece = chars@.subrange(from as int, to as int);
    let mut start: usize = from;
    while start < to && char_is_whitespace(chars[start])
        invariant
            from <= start <= to <= chars.len(),
            forall|i: int| from <= i < start ==> is_whitespace(#[trigger] chars@[i]),
        decreases to - start,
    {
        start = start + 1;
    }
    let mut end: usize = to;
    while end > start && char_is_whitespace(chars[end - 1])
        invariant
            start <= end <= to <= chars.len(),
            forall|i: int| end <= i < to ==> is_whitespace(#[trigger] chars@[i]),
        decreases end - start,
    {
        end = end - 1;
    }
    proof {
        assert forall|i: int| 0 <= i < start - from implies is_whitespace(#[trigger] piece[i]) by {
            assert(piece[i] == chars@[from + i]);
        }
        lemma_trim_start_run(piece, start - from);
        let tail = piece.skip(start - from);
        assert(tail =~= chars@.subrange(start as int, to as int));
        assert forall|i: int| end - start <= i < tail.len() implies is_whitespace(
            #[trigger] tail[i],
        ) by {
            assert(tail[i] == chars@[start + i]);
        }
        lemma_trim_end_run(tail, end - start);
        assert(tail.take(end - start) =~= chars@.subrange(start as int, end as int));
    }
    (start, end)
}

} // verus!
