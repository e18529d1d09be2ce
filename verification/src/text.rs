//! Character-level helpers on strings: splitting at a separator and joining
//! the pieces again.

use vstd::prelude::*;

verus! {

/// The pieces of `text` between the occurrences of `sep`, built up one
/// character at a time: a separator opens a new, empty piece, and any other
/// character is added to the piece that is open.
pub open spec fn segments_of(text: Seq<char>, sep: char) -> Seq<Seq<char>>
    decreases text.len(),
{
    if text.len() == 0 {
        seq![Seq::empty()]
    } else {
        let before = segments_of(text.drop_last(), sep);
        if text.last() == sep {
            before.push(Seq::empty())
        } else {
            before.drop_last().push(before.last().push(text.last()))
        }
    }
}

/// The pieces put together again with `sep` between each two of them.
pub open spec fn joined(pieces: Seq<Seq<char>>, sep: Seq<char>) -> Seq<char>
    decreases pieces.len(),
{
    if pieces.len() == 0 {
        Seq::empty()
    } else if pieces.len() == 1 {
        pieces[0]
    } else {
        joined(pieces.drop_last(), sep) + sep + pieces.last()
    }
}

/// `sep` does not occur in `text`.
pub open spec fn free_of(text: Seq<char>, sep: char) -> bool {
    forall|j: int| 0 <= j < text.len() ==> text[j] != sep
}

/// What each of the strings holds.
pub open spec fn texts(strings: Seq<String>) -> Seq<Seq<char>> {
    Seq::new(strings.len(), |i: int| strings[i]@)
}

/// Splitting gives at least one piece.
pub proof fn lemma_segments_nonempty(text: Seq<char>, sep: char)
    ensures
        segments_of(text, sep).len() >= 1,
    decreases text.len(),
{
    if text.len() > 0 {
        lemma_segments_nonempty(text.drop_last(), sep);
    }
}

/// A text that holds the separator has at least two pieces.
pub proof fn lemma_separator_splits(text: Seq<char>, sep: char)
    requires
        text.contains(sep),
    ensures
        segments_of(text, sep).len() >= 2,
    decreases text.len(),
{
    lemma_segments_nonempty(text.drop_last(), sep);
    if text.last() != sep {
        let at = choose|i: int| 0 <= i < text.len() && text[i] == sep;
        assert(text.drop_last()[at] == sep);
        lemma_separator_splits(text.drop_last(), sep);
    }
}

/// No piece holds the separator.
pub proof fn lemma_segments_hold_no_separator(text: Seq<char>, sep: char)
    ensures
        forall|i: int, j: int|
            0 <= i < segments_of(text, sep).len() && 0 <= j < segments_of(text, sep)[i].len()
                ==> #[trigger] segments_of(text, sep)[i][j] != sep,
    decreases text.len(),
{
    if text.len() > 0 {
        lemma_segments_nonempty(text.drop_last(), sep);
        lemma_segments_hold_no_separator(text.drop_last(), sep);
    }
}

/// Joining the pieces with the separator gives the text back.
pub proof fn lemma_joined_segments(text: Seq<char>, sep: char)
    ensures
        joined(segments_of(text, sep), seq![sep]) == text,
    decreases text.len(),
{
    if text.len() > 0 {
        let shorter = text.drop_last();
        let before = segments_of(shorter, sep);
        let pieces = segments_of(text, sep);
        lemma_segments_nonempty(shorter, sep);
        lemma_joined_segments(shorter, sep);
        if text.last() == sep {
            assert(pieces.drop_last() == before);
        } else {
            let grown = before.last().push(text.last());
            assert(pieces.drop_last() == before.drop_last());
            if before.len() > 1 {
                let head = joined(before.drop_last(), seq![sep]) + seq![sep];
                assert(head + grown =~= (head + before.last()).push(text.last()));
            }
        }
    }
}

/// Text without a separator, added at the end, goes into the last piece.
pub proof fn lemma_segments_of_extended(text: Seq<char>, tail: Seq<char>, sep: char)
    requires
        free_of(tail, sep),
    ensures
        segments_of(text + tail, sep) == segments_of(text, sep).drop_last().push(
            segments_of(text, sep).last() + tail,
        ),
    decreases tail.len(),
{
    let pieces = segments_of(text, sep);
    lemma_segments_nonempty(text, sep);
    if tail.len() > 0 {
        let shorter = tail.drop_last();
        lemma_segments_of_extended(text, shorter, sep);
        assert((text + tail).drop_last() =~= text + shorter);
        assert((pieces.last() + shorter).push(tail.last()) =~= pieces.last() + tail);
    }
}

/// Splitting what was joined gives the pieces back, where there is at least
/// one piece and none of them holds the separator.
pub proof fn lemma_segments_of_joined(pieces: Seq<Seq<char>>, sep: char)
    requires
        pieces.len() >= 1,
        forall|i: int| 0 <= i < pieces.len() ==> free_of(#[trigger] pieces[i], sep),
    ensures
        segments_of(joined(pieces, seq![sep]), sep) == pieces,
    decreases pieces.len(),
{
    let empty = Seq::<char>::empty();
    if pieces.len() == 1 {
        lemma_segments_of_extended(empty, pieces[0], sep);
    } else {
        let init = pieces.drop_last();
        let text = joined(init, seq![sep]);
        lemma_segments_of_joined(init, sep);
        let opened = text.push(sep);
        assert(opened.drop_last() =~= text);
        lemma_segments_of_extended(opened, pieces.last(), sep);
        assert(opened + pieces.last() =~= text + seq![sep] + pieces.last());
    }
}

/// The characters of `text`, in order.
pub fn chars_of(text: &str) -> (chars: Vec<char>)
    ensures
        chars@ == text@,
{
    let mut chars: Vec<char> = Vec::new();
    for c in it: text.chars()
        invariant
            it.seq() == text@,
            chars@ == text@.take(it.index()),
    {
        chars.push(c);
    }
    chars
}

/// Whether `text` begins with `prefix`.
pub fn starts_with(text: &Vec<char>, prefix: &Vec<char>) -> (yes: bool)
    ensures
        yes == prefix@.is_prefix_of(text@),
{
    if prefix.len() > text.len() {
        return false;
    }
    let mut i: usize = 0;
    while i < prefix.len()
        invariant
            i <= prefix.len() <= text.len(),
            prefix@.take(i as int) == text@.take(i as int),
        decreases prefix.len() - i,
    {
        if prefix[i] != text[i] {
            return false;
        }
        i += 1;
    }
    true
}

/// Splits `text` at every `sep`. There is always at least one piece; a text
/// without `sep` is its own single piece.
pub fn split(text: &str, sep: char) -> (pieces: Vec<String>)
    ensures
        texts(pieces@) == segments_of(text@, sep),
        pieces@.len() >= 1,
{
    let chars = chars_of(text);
    let mut pieces: Vec<String> = Vec::new();
    let mut start: usize = 0;
    let mut i: usize = 0;
    assert(texts(pieces@).push(text@.subrange(0, 0)) =~~= seq![Seq::<char>::empty()]);
    while i < chars.len()
        invariant
            chars@ == text@,
            start <= i <= chars.len(),
            segments_of(text@.take(i as int), sep) == texts(pieces@).push(
                text@.subrange(start as int, i as int),
            ),
        decreases chars.len() - i,
    {
        let ghost open = text@.subrange(start as int, i as int);
        assert(text@.take(i + 1).drop_last() == text@.take(i as int));
        if chars[i] == sep {
            pieces.push(text.substring_char(start, i).to_owned());
            start = i + 1;
            assert(text@.subrange(start as int, i + 1) == Seq::<char>::empty());
        } else {
            assert(text@.subrange(start as int, i + 1) == open.push(text@[i as int]));
        }
        i += 1;
    }
    assert(text@.take(i as int) == text@);
    pieces.push(text.substring_char(start, i).to_owned());
    pieces
}

/// Puts the pieces together with `sep` between each two of them.
pub fn join(pieces: &Vec<String>, sep: &str) -> (whole: String)
    ensures
        whole@ == joined(texts(pieces@), sep@),
{
    let mut whole = String::new();
    let mut i: usize = 0;
    while i < pieces.len()
        invariant
            i <= pieces.len(),
            whole@ == joined(texts(pieces@).take(i as int), sep@),
        decreases pieces.len() - i,
    {
        let ghost upto = texts(pieces@).take(i + 1);
        assert(upto.drop_last() == texts(pieces@).take(i as int));
        if i > 0 {
            whole.append(sep);
        }
        whole.append(pieces[i].as_str());
        i += 1;
    }
    assert(texts(pieces@).take(i as int) == texts(pieces@));
    whole
}

} // verus!
