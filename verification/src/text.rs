//! Text-level building blocks: the delimiter characters of a type spelling,
//! space stripping, splitting and joining, each with its mathematical model
//! over `Seq<char>`.

use vstd::prelude::*;
use vstd::string::*;

verus! {

/// The characters that separate the parts of a generic type spelling.
pub open spec fn is_delimiter(c: char) -> bool {
    c == ',' || c == '<' || c == '>'
}

/// Whether some character of `text` is a delimiter.
pub open spec fn has_delimiter(text: Seq<char>) -> bool {
    exists|i: int| 0 <= i < text.len() && is_delimiter(#[trigger] text[i])
}

/// `text` with every space character taken out; all other characters stay,
/// in their order.
pub open spec fn without_spaces(text: Seq<char>) -> Seq<char> {
    text.filter(|c: char| c != ' ')
}

/// The pieces between the delimiters of `text`, empty pieces included: one
/// piece more than `text` has delimiters.
pub open spec fn split_at_delimiters(text: Seq<char>) -> Seq<Seq<char>>
    decreases text.len(),
{
    if text.len() == 0 {
        seq![Seq::<char>::empty()]
    } else {
        let before = split_at_delimiters(text.drop_last());
        if is_delimiter(text.last()) {
            before.push(Seq::<char>::empty())
        } else {
            before.drop_last().push(before.last().push(text.last()))
        }
    }
}

/// What is kept of a list of pieces: the empty ones are dropped, and then
/// each remaining one loses its spaces. A piece made of spaces alone is
/// therefore kept, as an empty fragment.
pub open spec fn kept_pieces(pieces: Seq<Seq<char>>) -> Seq<Seq<char>> {
    pieces.filter(|piece: Seq<char>| piece.len() > 0).map_values(
        |piece: Seq<char>| without_spaces(piece),
    )
}

/// The fragments of a type spelling: its pieces between delimiters, without
/// the empty pieces, each without spaces, in the order of the text.
pub open spec fn fragments(text: Seq<char>) -> Seq<Seq<char>> {
    kept_pieces(split_at_delimiters(text))
}

/// The parts in order, with `separator` between each two neighbours.
pub open spec fn join(parts: Seq<Seq<char>>, separator: Seq<char>) -> Seq<char>
    decreases parts.len(),
{
    if parts.len() == 0 {
        Seq::<char>::empty()
    } else if parts.len() == 1 {
        parts[0]
    } else {
        join(parts.drop_last(), separator) + separator + parts.last()
    }
}

/// `String::push` of the standard library appends the given character to the
/// end of the string and changes nothing else.
pub assume_specification[ String::push ](s: &mut String, ch: char)
    ensures
        final(s)@ == old(s)@.push(ch),
;

/// Stripping spaces goes character by character.
pub proof fn lemma_without_spaces_push(text: Seq<char>, c: char)
    ensures
        without_spaces(text.push(c)) == if c != ' ' {
            without_spaces(text).push(c)
        } else {
            without_spaces(text)
        },
{
    reveal(Seq::filter);
    assert(text.push(c).drop_last() =~= text);
}

/// A text always splits into at least one piece; and how the pieces change
/// when one more character is read.
pub proof fn lemma_split_push(text: Seq<char>, c: char)
    ensures
        split_at_delimiters(text).len() >= 1,
        split_at_delimiters(text.push(c)) == if is_delimiter(c) {
            split_at_delimiters(text).push(Seq::<char>::empty())
        } else {
            split_at_delimiters(text).drop_last().push(split_at_delimiters(text).last().push(c))
        },
{
    assert(text.push(c).drop_last() =~= text);
}

/// Keeping pieces goes piece by piece.
pub proof fn lemma_kept_pieces_push(pieces: Seq<Seq<char>>, piece: Seq<char>)
    ensures
        kept_pieces(pieces.push(piece)) == if piece.len() > 0 {
            kept_pieces(pieces).push(without_spaces(piece))
        } else {
            kept_pieces(pieces)
        },
{
    reveal(Seq::filter);
    assert(pieces.push(piece).drop_last() =~= pieces);
}

/// Tests one character against the three delimiters.
pub fn is_delimiter_char(c: char) -> (result: bool)
    ensures
        result == is_delimiter(c),
{
    c == ',' || c == '<' || c == '>'
}

/// Returns `text` without its space characters.
pub fn strip_spaces(text: &str) -> (result: String)
    ensures
        result@ == without_spaces(text@),
{
    let mut result = String::new();
    for c in it: text.chars()
        invariant
            it.seq() == text@,
            result@ == without_spaces(text@.take(it.index() as int)),
    {
        proof {
            let read = text@.take(it.index() as int);
            assert(text@.take(it.index() + 1) =~= read.push(c));
            lemma_without_spaces_push(read, c);
        }
        if c != ' ' {
            result.push(c);
        }
    }
    proof {
        assert(text@.take(text@.len() as int) =~= text@);
    }
    result
}

/// Splits `text` at its delimiters, drops the empty pieces and strips the
/// spaces of the others.
pub fn split_fragments(text: &str) -> (result: Vec<String>)
    ensures
        result.deep_view() == fragments(text@),
{
    let mut result: Vec<String> = Vec::new();
    let mut piece = String::new();
    let mut piece_has_chars = false;
    for c in it: text.chars()
        invariant
            it.seq() == text@,
            split_at_delimiters(text@.take(it.index() as int)).len() >= 1,
            result.deep_view() == kept_pieces(
                split_at_delimiters(text@.take(it.index() as int)).drop_last(),
            ),
            piece@ == without_spaces(split_at_delimiters(text@.take(it.index() as int)).last()),
            piece_has_chars == (split_at_delimiters(text@.take(it.index() as int)).last().len()
                > 0),
    {
        let ghost read = text@.take(it.index() as int);
        let ghost pieces = split_at_delimiters(read);
        proof {
            assert(text@.take(it.index() + 1) =~= read.push(c));
            lemma_split_push(read, c);
        }
        if is_delimiter_char(c) {
            proof {
                assert(pieces.push(Seq::<char>::empty()).drop_last() =~= pieces);
                assert(pieces =~= pieces.drop_last().push(pieces.last()));
                lemma_kept_pieces_push(pieces.drop_last(), pieces.last());
            }
            if piece_has_chars {
                result.push(piece);
            }
            piece = String::new();
            piece_has_chars = false;
        } else {
            proof {
                let grown = pieces.drop_last().push(pieces.last().push(c));
                assert(grown.drop_last() =~= pieces.drop_last());
                lemma_without_spaces_push(pieces.last(), c);
            }
            if c != ' ' {
                piece.push(c);
            }
            piece_has_chars = true;
        }
    }
    let ghost pieces = split_at_delimiters(text@);
    proof {
        assert(text@.take(text@.len() as int) =~= text@);
        assert(pieces =~= pieces.drop_last().push(pieces.last()));
        lemma_kept_pieces_push(pieces.drop_last(), pieces.last());
    }
    if piece_has_chars {
        result.push(piece);
    }
    result
}

/// Concatenates `parts`, with `separator` between each two neighbours.
pub fn join_strings(parts: &Vec<String>, separator: &str) -> (result: String)
    ensures
        result@ == join(parts.deep_view(), separator@),
{
    let mut result = String::new();
    let mut i: usize = 0;
    while i < parts.len()
        invariant
            i <= parts.len(),
            result@ == join(parts.deep_view().take(i as int), separator@),
        decreases parts.len() - i,
    {
        proof {
            let read = parts.deep_view().take(i as int);
            let next = parts.deep_view().take(i + 1);
            assert(next.drop_last() =~= read);
            if i > 0 {
                assert(result@ + separator@ + parts[i as int]@ =~= join(read, separator@)
                    + separator@ + next.last());
            }
        }
        if i > 0 {
            result.append(separator);
        }
        result.append(parts[i].as_str());
        i += 1;
    }
    proof {
        assert(parts.deep_view().take(parts.len() as int) =~= parts.deep_view());
    }
    result
}

} // verus!
