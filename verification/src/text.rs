//! Text primitives shared by every stage of the pipeline.
//!
//! All text is handled as a sequence of `char`s: strings are decoded once on
//! entry, searched and rewritten by index, and encoded once on the way out.
//! The searching and rewriting functions are specified by the spec functions
//! of this module, which describe a left-to-right scan for non-overlapping
//! occurrences of a literal pattern.

use vstd::prelude::*;

verus! {

/// The texts that a sequence of strings holds.
pub open spec fn strings_view(strings: Seq<String>) -> Seq<Seq<char>> {
    strings.map_values(|s: String| s@)
}

/// Decodes a string slice into its characters.
pub fn chars_of(s: &str) -> (chars: Vec<char>)
    ensures
        chars@ == s@,
{
    let mut chars: Vec<char> = Vec::new();
    for c in it: s.chars()
        invariant
            chars@ == it.seq().take(it.index() as int),
            it.seq() == s@,
    {
        chars.push(c);
    }
    chars
}

/// Encodes characters as a `String`.
pub fn string_of(chars: &[char]) -> (s: String)
    ensures
        s@ == chars@,
{
    let mut s = String::new();
    let mut i: usize = 0;
    while i < chars.len()
        invariant
            i <= chars.len(),
            s@ == chars@.take(i as int),
        decreases chars.len() - i,
    {
        s.push(chars[i]);
        i += 1;
    }
    s
}

/// Appends `piece` to `out`.
pub fn append_chars(out: &mut Vec<char>, piece: &[char])
    ensures
        final(out)@ == old(out)@ + piece@,
{
    let mut i: usize = 0;
    while i < piece.len()
        invariant
            i <= piece.len(),
            out@ == old(out)@ + piece@.take(i as int),
        decreases piece.len() - i,
    {
        out.push(piece[i]);
        i += 1;
    }
}

/// Appends the characters `text[from..to]` to `out`.
pub fn append_range(out: &mut Vec<char>, text: &[char], from: usize, to: usize)
    requires
        from <= to <= text.len(),
    ensures
        final(out)@ == old(out)@ + text@.subrange(from as int, to as int),
{
    let mut i: usize = from;
    while i < to
        invariant
            from <= i <= to <= text.len(),
            out@ == old(out)@ + text@.subrange(from as int, i as int),
        decreases to - i,
    {
        out.push(text[i]);
        i += 1;
    }
}

/// Copies the characters `text[from..to]` into a fresh vector.
pub fn copy_range(text: &[char], from: usize, to: usize) -> (piece: Vec<char>)
    requires
        from <= to <= text.len(),
    ensures
        piece@ == text@.subrange(from as int, to as int),
{
    let mut piece: Vec<char> = Vec::new();
    append_range(&mut piece, text, from, to);
    piece
}

/// Whether two character slices hold the same text.
pub fn same_text(a: &[char], b: &[char]) -> (same: bool)
    ensures
        same == (a@ == b@),
{
    if a.len() != b.len() {
        return false;
    }
    let mut i: usize = 0;
    while i < a.len()
        invariant
            i <= a.len(),
            a.len() == b.len(),
            forall|k: int| 0 <= k < i ==> a@[k] == b@[k],
        decreases a.len() - i,
    {
        if a[i] != b[i] {
            return false;
        }
        i += 1;
    }
    assert(a@ =~= b@);
    true
}

/// `pat` occurs in `text` starting at offset `at`.
pub open spec fn occurs_at(text: Seq<char>, pat: Seq<char>, at: int) -> bool {
    &&& 0 <= at
    &&& at + pat.len() <= text.len()
    &&& text.subrange(at, at + pat.len()) == pat
}

/// `pat` occurs somewhere in `text`. The empty pattern occurs in every text.
pub open spec fn occurs(text: Seq<char>, pat: Seq<char>) -> bool {
    exists|at: int| occurs_at(text, pat, at)
}

/// Offset of the leftmost occurrence of `pat` in `text` that starts at or
/// after `from`, if there is one.
pub open spec fn search_from(text: Seq<char>, pat: Seq<char>, from: int) -> Option<int>
    decreases text.len() + 1 - from,
{
    if from < 0 || from + pat.len() > text.len() {
        None
    } else if occurs_at(text, pat, from) {
        Some(from)
    } else {
        search_from(text, pat, from + 1)
    }
}

/// What `search_from` finds is an occurrence, and nothing occurs between
/// `from` and it; when it finds nothing, nothing occurs at or after `from`.
pub proof fn lemma_search_from(text: Seq<char>, pat: Seq<char>, from: int)
    requires
        0 <= from,
    ensures
        match search_from(text, pat, from) {
            Some(at) => {
                &&& from <= at
                &&& occurs_at(text, pat, at)
                &&& forall|k: int| from <= k < at ==> !occurs_at(text, pat, k)
            },
            None => forall|k: int| from <= k ==> !occurs_at(text, pat, k),
        },
    decreases text.len() + 1 - from,
{
    if from + pat.len() > text.len() {
    } else if occurs_at(text, pat, from) {
    } else {
        lemma_search_from(text, pat, from + 1);
    }
}

/// The leftmost occurrence at or after `from` is what `search_from` finds.
pub proof fn lemma_search_from_is_leftmost(text: Seq<char>, pat: Seq<char>, from: int, at: int)
    requires
        0 <= from <= at,
        occurs_at(text, pat, at),
        forall|k: int| from <= k < at ==> !occurs_at(text, pat, k),
    ensures
        search_from(text, pat, from) == Some(at),
    decreases at - from,
{
    if from < at {
        lemma_search_from_is_leftmost(text, pat, from + 1, at);
    }
}

/// A text holds the pattern exactly when a search from its start finds it.
pub proof fn lemma_occurs_iff_found(text: Seq<char>, pat: Seq<char>)
    ensures
        occurs(text, pat) <==> search_from(text, pat, 0) is Some,
{
    lemma_search_from(text, pat, 0);
}

/// The text with every occurrence of `from` replaced by `to`, scanning from
/// offset `at`. Occurrences are taken leftmost first and do not overlap; the
/// replacement text is not scanned again. An empty `from` is never found.
pub open spec fn replaced_from(text: Seq<char>, from: Seq<char>, to: Seq<char>, at: int) -> Seq<
    char,
>
    decreases text.len() - at,
{
    if from.len() == 0 || at < 0 {
        text.skip(at)
    } else {
        match search_from(text, from, at) {
            None => text.skip(at),
            Some(found) => {
                proof {
                    lemma_search_from(text, from, at);
                }
                text.subrange(at, found) + to + replaced_from(text, from, to, found + from.len())
            },
        }
    }
}

/// The text with every occurrence of `from` replaced by `to`.
pub open spec fn replaced(text: Seq<char>, from: Seq<char>, to: Seq<char>) -> Seq<char> {
    replaced_from(text, from, to, 0)
}

/// Whether `pat` occurs in `text` at offset `at`.
pub fn matches_at(text: &[char], pat: &[char], at: usize) -> (hit: bool)
    ensures
        hit == occurs_at(text@, pat@, at as int),
{
    if pat.len() > text.len() || at > text.len() - pat.len() {
        return false;
    }
    let mut k: usize = 0;
    while k < pat.len()
        invariant
            k <= pat.len(),
            at + pat.len() <= text.len(),
            forall|j: int| 0 <= j < k ==> text@[at + j] == pat@[j],
        decreases pat.len() - k,
    {
        if text[at + k] != pat[k] {
            assert(text@.subrange(at as int, at + pat.len())[k as int] != pat@[k as int]);
            return false;
        }
        k += 1;
    }
    assert(text@.subrange(at as int, at + pat.len()) =~= pat@);
    true
}

/// Whether `text` begins with `pat`.
pub fn starts_with(text: &[char], pat: &[char]) -> (hit: bool)
    ensures
        hit == pat@.is_prefix_of(text@),
{
    let hit = matches_at(text, pat, 0);
    proof {
        if pat@.len() <= text@.len() {
            assert(pat@.is_prefix_of(text@) <==> text@.subrange(0, pat@.len() as int) =~= pat@);
        }
    }
    hit
}

/// Offset of the leftmost occurrence of `pat` in `text` at or after `from`.
pub fn search(text: &[char], pat: &[char], from: usize) -> (found: Option<usize>)
    ensures
        match found {
            Some(at) => search_from(text@, pat@, from as int) == Some(at as int),
            None => search_from(text@, pat@, from as int) is None,
        },
{
    if pat.len() > text.len() || from > text.len() - pat.len() {
        return None;
    }
    let last: usize = text.len() - pat.len();
    let mut at: usize = from;
    loop
        invariant
            from <= at <= last,
            last == text.len() - pat.len(),
            search_from(text@, pat@, at as int) == search_from(text@, pat@, from as int),
        decreases last - at,
    {
        if matches_at(text, pat, at) {
            return Some(at);
        }
        if at == last {
            assert(search_from(text@, pat@, at as int + 1) is None);
            return None;
        }
        at += 1;
    }
}

/// Whether `pat` occurs anywhere in `text`.
pub fn contains(text: &[char], pat: &[char]) -> (hit: bool)
    ensures
        hit == occurs(text@, pat@),
{
    proof {
        lemma_occurs_iff_found(text@, pat@);
    }
    search(text, pat, 0).is_some()
}

/// Replaces every occurrence of `from` in `text` by `to`.
pub fn replace_all(text: &[char], from: &[char], to: &[char]) -> (out: Vec<char>)
    ensures
        out@ == replaced(text@, from@, to@),
{
    let mut out: Vec<char> = Vec::new();
    if from.len() == 0 {
        append_chars(&mut out, text);
        assert(text@.skip(0) =~= text@);
        return out;
    }
    let mut at: usize = 0;
    loop
        invariant
            at <= text.len(),
            from.len() > 0,
            out@ + replaced_from(text@, from@, to@, at as int) == replaced(text@, from@, to@),
        decreases text.len() - at,
    {
        match search(text, from, at) {
            None => {
                append_range(&mut out, text, at, text.len());
                return out;
            },
            Some(found) => {
                proof {
                    lemma_search_from(text@, from@, at as int);
                    let ghost rest = replaced_from(
                        text@,
                        from@,
                        to@,
                        found as int + from@.len() as int,
                    );
                    assert(out@ + (text@.subrange(at as int, found as int) + to@ + rest) == out@
                        + text@.subrange(at as int, found as int) + to@ + rest);
                }
                append_range(&mut out, text, at, found);
                append_chars(&mut out, to);
                at = found + from.len();
            },
        }
    }
}

/// The stretches of `text` between the occurrences of `sep`, scanning from
/// offset `at`: there is always at least one, and one more than there are
/// occurrences. An empty `sep` is never found.
pub open spec fn pieces_from(text: Seq<char>, sep: Seq<char>, at: int) -> Seq<Seq<char>>
    decreases text.len() - at,
{
    if sep.len() == 0 || at < 0 {
        seq![text.skip(at)]
    } else {
        match search_from(text, sep, at) {
            None => seq![text.skip(at)],
            Some(found) => {
                proof {
                    lemma_search_from(text, sep, at);
                }
                seq![text.subrange(at, found)] + pieces_from(text, sep, found + sep.len())
            },
        }
    }
}

/// The stretches of `text` between the occurrences of `sep`.
pub open spec fn pieces(text: Seq<char>, sep: Seq<char>) -> Seq<Seq<char>> {
    pieces_from(text, sep, 0)
}

/// The texts that a sequence of character vectors holds.
pub open spec fn texts_view(texts: Seq<Vec<char>>) -> Seq<Seq<char>> {
    texts.map_values(|t: Vec<char>| t@)
}

/// Cuts `text` at every occurrence of `sep`.
pub fn split(text: &[char], sep: &[char]) -> (out: Vec<Vec<char>>)
    ensures
        texts_view(out@) == pieces(text@, sep@),
        out.len() >= 1,
{
    let mut out: Vec<Vec<char>> = Vec::new();
    if sep.len() == 0 {
        out.push(copy_range(text, 0, text.len()));
        assert(texts_view(out@) =~= seq![text@.skip(0)]);
        return out;
    }
    let mut at: usize = 0;
    loop
        invariant
            at <= text.len(),
            sep.len() > 0,
            texts_view(out@) + pieces_from(text@, sep@, at as int) == pieces(text@, sep@),
        decreases text.len() - at,
    {
        let ghost before = texts_view(out@);
        match search(text, sep, at) {
            None => {
                out.push(copy_range(text, at, text.len()));
                assert(texts_view(out@) =~= before + seq![text@.skip(at as int)]);
                return out;
            },
            Some(found) => {
                proof {
                    lemma_search_from(text@, sep@, at as int);
                }
                let ghost rest = pieces_from(text@, sep@, found as int + sep@.len() as int);
                out.push(copy_range(text, at, found));
                assert(texts_view(out@) =~= before + seq![
                    text@.subrange(at as int, found as int),
                ]);
                assert(before + (seq![text@.subrange(at as int, found as int)] + rest) =~= (before
                    + seq![text@.subrange(at as int, found as int)]) + rest);
                at = found + sep.len();
            },
        }
    }
}

/// The texts joined with `separator` between every two of them.
pub open spec fn joined(texts: Seq<Seq<char>>, separator: Seq<char>) -> Seq<char>
    decreases texts.len(),
{
    if texts.len() == 0 {
        Seq::empty()
    } else if texts.len() == 1 {
        texts[0]
    } else {
        joined(texts.drop_last(), separator) + separator + texts.last()
    }
}

/// Joins the strings with `separator` between every two of them.
pub fn join(strings: &Vec<String>, separator: &str) -> (text: String)
    ensures
        text@ == joined(strings_view(strings@), separator@),
{
    let ghost all = strings_view(strings@);
    let mut text = String::new();
    let mut i: usize = 0;
    while i < strings.len()
        invariant
            i <= strings.len(),
            all == strings_view(strings@),
            text@ == joined(all.take(i as int), separator@),
        decreases strings.len() - i,
    {
        assert(all.take(i + 1).drop_last() =~= all.take(i as int));
        assert(all.take(i + 1).last() == strings[i as int]@);
        if i == 0 {
            assert(text@ =~= Seq::<char>::empty());
            assert(all.take(1)[0] == strings[0]@);
            text.append(strings[i].as_str());
            assert(text@ =~= strings[0]@);
        } else {
            text.append(separator);
            text.append(strings[i].as_str());
        }
        i += 1;
    }
    assert(all.take(strings.len() as int) =~= all);
    text
}

} // verus!
