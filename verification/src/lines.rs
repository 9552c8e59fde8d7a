//! Texts as lines: what cutting a text at every line feed gives back.

use crate::text::{
    joined, lemma_search_from, lemma_search_from_is_leftmost, occurs_at, pieces, pieces_from,
    search_from,
};
use vstd::prelude::*;

verus! {

/// The lines of a text: the stretches between its line feeds. A text that
/// ends with a line feed has an empty last line.
pub open spec fn lines(text: Seq<char>) -> Seq<Seq<char>> {
    pieces(text, "\n"@)
}

/// The text does not hold the character.
pub open spec fn avoids(text: Seq<char>, c: char) -> bool {
    forall|i: int| 0 <= i < text.len() ==> text[i] != c
}

/// The text holds no line feed.
pub open spec fn single_line(text: Seq<char>) -> bool {
    avoids(text, '\n')
}

/// Every text of the sequence holds no line feed.
pub open spec fn single_lines(texts: Seq<Seq<char>>) -> bool {
    forall|i: int| 0 <= i < texts.len() ==> single_line(#[trigger] texts[i])
}

/// How many of the lines are equal to `line`.
pub open spec fn occurrences(lines: Seq<Seq<char>>, line: Seq<char>) -> nat
    decreases lines.len(),
{
    if lines.len() == 0 {
        0
    } else {
        occurrences(lines.drop_last(), line) + if lines.last() == line {
            1nat
        } else {
            0nat
        }
    }
}

/// A one-character pattern occurs where the text has the character.
pub proof fn lemma_occurs_at_char(text: Seq<char>, c: char, at: int)
    ensures
        occurs_at(text, seq![c], at) <==> 0 <= at < text.len() && text[at] == c,
{
    if 0 <= at < text.len() {
        if text[at] == c {
            assert(text.subrange(at, at + 1) =~= seq![c]);
        } else {
            assert(text.subrange(at, at + 1)[0] == text[at]);
        }
    }
}

/// Cutting a text that ends with a separator and a stretch free of it gives
/// the pieces of the text before the separator, and the stretch.
pub proof fn lemma_pieces_append(text: Seq<char>, c: char, last: Seq<char>, at: int)
    requires
        0 <= at <= text.len(),
        avoids(last, c),
    ensures
        pieces_from(text + seq![c] + last, seq![c], at) == pieces_from(text, seq![c], at) + seq![
            last,
        ],
    decreases text.len() - at,
{
    let sep = seq![c];
    let whole = text + sep + last;
    lemma_search_from(text, sep, at);
    assert forall|k: int| 0 <= k < text.len() implies (occurs_at(whole, sep, k) <==> occurs_at(
        text,
        sep,
        k,
    )) by {
        lemma_occurs_at_char(whole, c, k);
        lemma_occurs_at_char(text, c, k);
    }
    match search_from(text, sep, at) {
        Some(found) => {
            lemma_search_from_is_leftmost(whole, sep, at, found);
            lemma_pieces_append(text, c, last, found + 1);
            assert(whole.subrange(at, found) =~= text.subrange(at, found));
            assert(seq![text.subrange(at, found)] + (pieces_from(text, sep, found + 1) + seq![last])
                =~= (seq![text.subrange(at, found)] + pieces_from(text, sep, found + 1)) + seq![
                last,
            ]);
        },
        None => {
            let end = text.len() as int;
            lemma_occurs_at_char(whole, c, end);
            lemma_search_from_is_leftmost(whole, sep, at, end);
            assert(whole.subrange(at, end) =~= text.skip(at));
            lemma_search_from(whole, sep, end + 1);
            assert forall|k: int| end + 1 <= k implies !occurs_at(whole, sep, k) by {
                lemma_occurs_at_char(whole, c, k);
                if k < whole.len() {
                    assert(whole[k] == last[k - end - 1]);
                }
            }
            assert(search_from(whole, sep, end + 1) is None);
            assert(whole.skip(end + 1) =~= last);
            assert(pieces_from(whole, sep, end + 1) =~= seq![last]);
        },
    }
}

/// Cutting joined texts at the separator gives the texts back, where none
/// of them holds the separator.
pub proof fn lemma_pieces_of_joined(texts: Seq<Seq<char>>, c: char)
    requires
        texts.len() > 0,
        forall|i: int| 0 <= i < texts.len() ==> avoids(#[trigger] texts[i], c),
    ensures
        pieces(joined(texts, seq![c]), seq![c]) == texts,
    decreases texts.len(),
{
    let sep = seq![c];
    if texts.len() == 1 {
        let text = texts[0];
        assert(avoids(text, c));
        lemma_search_from(text, sep, 0);
        assert forall|k: int| 0 <= k implies !occurs_at(text, sep, k) by {
            lemma_occurs_at_char(text, c, k);
        }
        assert(text.skip(0) =~= text);
        assert(pieces(text, sep) =~= texts);
    } else {
        let before = texts.drop_last();
        assert forall|i: int| 0 <= i < before.len() implies avoids(#[trigger] before[i], c) by {
            assert(before[i] == texts[i]);
        }
        lemma_pieces_of_joined(before, c);
        let last = texts.last();
        assert(avoids(texts[texts.len() - 1], c));
        lemma_pieces_append(joined(before, sep), c, last, 0);
        assert(before + seq![last] =~= texts);
    }
}

/// The lines of texts joined by line feeds are the texts, where each is a
/// single line.
pub proof fn lemma_lines_of_joined(texts: Seq<Seq<char>>)
    requires
        texts.len() > 0,
        single_lines(texts),
    ensures
        lines(joined(texts, "\n"@)) == texts,
{
    reveal_strlit("\n");
    assert("\n"@ =~= seq!['\n']);
    lemma_pieces_of_joined(texts, '\n');
}

/// The pieces of a single line are single lines.
pub proof fn lemma_pieces_are_single_lines(text: Seq<char>, sep: Seq<char>, at: int)
    requires
        single_line(text),
        0 <= at <= text.len(),
    ensures
        single_lines(pieces_from(text, sep, at)),
    decreases text.len() - at,
{
    let all = pieces_from(text, sep, at);
    if sep.len() == 0 {
        assert(all[0] == text.skip(at));
    } else {
        lemma_search_from(text, sep, at);
        match search_from(text, sep, at) {
            None => {
                assert(all[0] == text.skip(at));
            },
            Some(found) => {
                lemma_pieces_are_single_lines(text, sep, found + sep.len());
                let rest = pieces_from(text, sep, found + sep.len());
                assert forall|i: int| 0 <= i < all.len() implies single_line(#[trigger] all[i]) by {
                    if i == 0 {
                        assert(all[0] == text.subrange(at, found));
                    } else {
                        assert(all[i] == rest[i - 1]);
                    }
                }
            },
        }
    }
}

/// Counting in two runs of lines one after the other counts in their
/// concatenation.
pub proof fn lemma_occurrences_concat(first: Seq<Seq<char>>, second: Seq<Seq<char>>, line: Seq<char>)
    ensures
        occurrences(first + second, line) == occurrences(first, line) + occurrences(second, line),
    decreases second.len(),
{
    if second.len() == 0 {
        assert(first + second =~= first);
    } else {
        lemma_occurrences_concat(first, second.drop_last(), line);
        assert((first + second).drop_last() =~= first + second.drop_last());
        assert((first + second).last() == second.last());
    }
}

/// Lines that all differ from `line` hold it no time.
pub proof fn lemma_no_occurrences(lines: Seq<Seq<char>>, line: Seq<char>)
    requires
        forall|i: int| 0 <= i < lines.len() ==> #[trigger] lines[i] != line,
    ensures
        occurrences(lines, line) == 0,
    decreases lines.len(),
{
    if lines.len() > 0 {
        let before = lines.drop_last();
        assert forall|i: int| 0 <= i < before.len() implies #[trigger] before[i] != line by {
            assert(before[i] == lines[i]);
        }
        lemma_no_occurrences(before, line);
        assert(lines[lines.len() - 1] != line);
    }
}

} // verus!
